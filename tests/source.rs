use hn_backend::source::{decimal_string, ItemSource};
use hn_backend::text::{chars_of, line_ranges, trim_range};

#[test]
fn item_and_listing_urls() {
    let s = ItemSource::new();
    assert_eq!(s.item_url(8863), "https://hacker-news.firebaseio.com/v0/item/8863.json");
    assert_eq!(s.item_url(0), "https://hacker-news.firebaseio.com/v0/item/0.json");
    assert_eq!(s.top_stories_url(), "https://hacker-news.firebaseio.com/v0/topstories.json");
    let local = ItemSource { base_url: "http://localhost:9000".to_string() };
    assert_eq!(local.item_url(u32::MAX), "http://localhost:9000/item/4294967295.json");
}

#[test]
fn decimal_forms() {
    assert_eq!(decimal_string(0), "0");
    assert_eq!(decimal_string(7), "7");
    assert_eq!(decimal_string(10), "10");
    assert_eq!(decimal_string(1234567890), "1234567890");
    assert_eq!(decimal_string(u64::MAX), "18446744073709551615");
}

#[test]
fn trimming_and_lines() {
    let v = chars_of(" \t ab c\u{3000}\n");
    assert_eq!(trim_range(&v, 0, v.len()), (3, 7));
    let v = chars_of("   ");
    let (a, b) = trim_range(&v, 0, v.len());
    assert_eq!(a, b);
    let v = chars_of("x\n\ny");
    assert_eq!(line_ranges(&v), vec![(0, 1), (2, 2), (3, 4)]);
    let v = chars_of("x\n");
    assert_eq!(line_ranges(&v), vec![(0, 1), (2, 2)]);
}
