//! Aggregation of a discussion tree fetched item by item, and a relay for a
//! line-framed event stream, with the decisions of both stated and proved.

pub mod text;
pub mod item;
pub mod aggregate;
pub mod source;
pub mod context;
pub mod chat;
pub mod metadata;
pub mod json;
pub mod relay;
