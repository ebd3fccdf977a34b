//! Preparing a story's comments for the context store, and reading its reply.
use vstd::prelude::*;
use crate::source::{decimal, decimal_string};
use vstd::utf8::encode_utf8;

verus! {

/// The comments that are not empty, in order.
pub open spec fn kept_comments(cs: Seq<String>) -> Seq<Seq<char>> {
    cs.map_values(|c: String| c@).filter(|t: Seq<char>| t.len() > 0)
}

/// `parts` joined, with `sep` between each two.
pub open spec fn join_parts(parts: Seq<Seq<char>>, sep: Seq<char>) -> Seq<char>
    decreases parts.len(),
{
    if parts.len() == 0 {
        Seq::empty()
    } else if parts.len() == 1 {
        parts[0]
    } else {
        join_parts(parts.drop_last(), sep) + sep + parts.last()
    }
}

pub open spec fn comment_separator() -> Seq<char> {
    "\n\n---\n\n"@
}

/// `n` in decimal, with a minus sign when negative.
pub open spec fn signed_decimal(n: int) -> Seq<char> {
    if n < 0 {
        "-"@ + decimal((-n) as nat)
    } else {
        decimal(n as nat)
    }
}

/// What is sent to the context store for one story.
#[derive(Debug)]
pub struct ContextUpload {
    /// The comments, joined by a separator line.
    pub content: String,
    /// `HackerNews Story #<id> Comments`.
    pub source: String,
    /// `story_<id>_comments_<timestamp>.txt`.
    pub file_name: String,
    /// The length of `content` in bytes.
    pub file_size: usize,
}

#[derive(Debug, PartialEq, Eq, Structural)]
pub enum ContextError {
    /// No comment was given, or all were empty.
    NoComments,
}

/// The non-empty comments joined by `\n\n---\n\n`, or `None` when there is
/// no non-empty comment.
pub fn combine_comments(comments: &Vec<String>) -> (r: Option<String>)
    ensures
        kept_comments(comments@).len() == 0 <==> r is None,
        r matches Some(s) ==> s@ == join_parts(kept_comments(comments@), comment_separator()),
{
    let ghost keep = |t: Seq<char>| t.len() > 0;
    let ghost view = |c: String| c@;
    let mut out: Option<String> = None;
    let mut i: usize = 0;
    assert(comments@.take(0).map_values(view).filter(keep) =~= Seq::<Seq<char>>::empty());
    while i < comments.len()
        invariant
            i <= comments@.len(),
            keep == (|t: Seq<char>| t.len() > 0),
            view == (|c: String| c@),
            ({
                let parts = comments@.take(i as int).map_values(view).filter(keep);
                &&& parts.len() == 0 <==> out is None
                &&& out matches Some(s) ==> s@ == join_parts(parts, comment_separator())
            }),
        decreases comments.len() - i,
    {
        let c = &comments[i];
        let ghost before = comments@.take(i as int).map_values(view);
        assert(comments@.take(i + 1).map_values(view) =~= before.push(c@));
        proof {
            before.lemma_filter_push(c@, keep);
        }
        if !c.as_str().is_empty() {
            out = match out {
                None => Some(c.clone()),
                Some(mut s) => {
                    s.append("\n\n---\n\n");
                    s.append(c.as_str());
                    Some(s)
                },
            };
            proof {
                let parts = before.filter(keep).push(c@);
                assert(parts.drop_last() =~= before.filter(keep));
            }
        }
        i = i + 1;
    }
    assert(comments@.take(comments@.len() as int) =~= comments@);
    out
}

/// The decimal form of `n`, signed.
pub fn signed_decimal_string(n: i64) -> (r: String)
    ensures
        r@ == signed_decimal(n as int),
{
    if n < 0 {
        let magnitude: u64 = if n == i64::MIN {
            9223372036854775808u64
        } else {
            (-n) as u64
        };
        let mut r = String::from_str("-");
        r.append(decimal_string(magnitude).as_str());
        r
    } else {
        decimal_string(n as u64)
    }
}

/// Builds the upload for a story's comments at the given unix time; fails
/// when no comment is left once empty ones are dropped.
pub fn prepare_context(story_id: u32, comments: &Vec<String>, timestamp: i64) -> (r: Result<
    ContextUpload,
    ContextError,
>)
    ensures
        kept_comments(comments@).len() == 0 <==> r is Err,
        r matches Err(e) ==> e == ContextError::NoComments,
        r matches Ok(u) ==> {
            &&& u.content@ == join_parts(kept_comments(comments@), comment_separator())
            &&& u.source@ == "HackerNews Story #"@ + decimal(story_id as nat) + " Comments"@
            &&& u.file_name@ == "story_"@ + decimal(story_id as nat) + "_comments_"@
                + signed_decimal(timestamp as int) + ".txt"@
            &&& u.file_size == encode_utf8(u.content@).len() as usize
        },
{
    let content = match combine_comments(comments) {
        None => return Err(ContextError::NoComments),
        Some(c) => c,
    };
    let id = decimal_string(story_id as u64);
    let mut source = String::from_str("HackerNews Story #");
    source.append(id.as_str());
    source.append(" Comments");
    let mut file_name = String::from_str("story_");
    file_name.append(id.as_str());
    file_name.append("_comments_");
    file_name.append(signed_decimal_string(timestamp).as_str());
    file_name.append(".txt");
    let file_size = content.as_str().len();
    Ok(ContextUpload { content, source, file_name, file_size })
}

/// The message for the context store's reply: a success status (200 to 299)
/// and 500 are both taken as done; any other status is a failure, with the
/// status (as `status_text`, e.g. `404 Not Found`) and the reply body.
pub fn context_add_outcome(story_id: u32, status: u16, status_text: &str, body: &str) -> (r: Result<
    String,
    String,
>)
    ensures
        200 <= status <= 299 ==> (r matches Ok(m) && m@ == "Successfully added context for story "@
            + decimal(story_id as nat) + ". Response: "@ + body@),
        status == 500 ==> (r matches Ok(m) && m@ == "Context add completed for story "@ + decimal(
            story_id as nat,
        ) + " (status: "@ + status_text@ + "). Response: "@ + body@),
        !(200 <= status <= 299) && status != 500 ==> (r matches Err(m) && m@
            == "Context add failed with status: "@ + status_text@ + ". Response: "@ + body@),
{
    if 200 <= status && status <= 299 {
        let mut m = String::from_str("Successfully added context for story ");
        m.append(decimal_string(story_id as u64).as_str());
        m.append(". Response: ");
        m.append(body);
        Ok(m)
    } else if status == 500 {
        let mut m = String::from_str("Context add completed for story ");
        m.append(decimal_string(story_id as u64).as_str());
        m.append(" (status: ");
        m.append(status_text);
        m.append("). Response: ");
        m.append(body);
        Ok(m)
    } else {
        let mut m = String::from_str("Context add failed with status: ");
        m.append(status_text);
        m.append(". Response: ");
        m.append(body);
        Err(m)
    }
}

} // verus!
