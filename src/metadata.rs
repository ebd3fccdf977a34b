//! Metadata of a linked web page: its domain, and the title, description and
//! icon that its HTML names.
use vstd::prelude::*;
use crate::text::{chars_of, matches_at, opt_view, pieces, split_ranges, string_from, trim, trim_range};

verus! {

/// The text of the first capture group in the leftmost match of the regex
/// `pattern` in `haystack`; `None` when the pattern does not compile, when
/// nothing matches, or when the group takes no part in the match.
pub uninterp spec fn regex_first_group(pattern: Seq<char>, haystack: Seq<char>) -> Option<
    Seq<char>,
>;

/// Relies on `regex::Regex::new` (an error, never a panic, for a bad
/// pattern), `Regex::captures` (the leftmost-first match), `Captures::get`
/// and `Match::as_str` (the matched slice of the haystack).
#[verifier::external_body]
fn capture(pattern: &str, haystack: &str) -> (r: Option<String>)
    ensures
        opt_view(r) == regex_first_group(pattern@, haystack@),
{
    match regex::Regex::new(pattern) {
        Ok(re) => match re.captures(haystack) {
            Some(caps) => match caps.get(1) {
                Some(m) => Some(m.as_str().to_string()),
                None => None,
            },
            None => None,
        },
        Err(_) => None,
    }
}

/// `<tag ...>text</tag>`, capturing the text.
pub open spec fn tag_pattern(tag: Seq<char>) -> Seq<char> {
    "<"@ + tag + "[^>]*>([^<]*)</"@ + tag + ">"@
}

/// `<meta ... attr="value" ... content="text" ...>`, capturing the text;
/// either quote is accepted.
pub open spec fn meta_pattern(attr: Seq<char>, value: Seq<char>) -> Seq<char> {
    "<meta[^>]*"@ + attr + "=[\"']"@ + value + "[\"'][^>]*content=[\"']([^\"']*)[\"'][^>]*>"@
}

pub fn html_tag_pattern(tag: &str) -> (r: String)
    ensures
        r@ == tag_pattern(tag@),
{
    let mut r = String::from_str("<");
    r.append(tag);
    r.append("[^>]*>([^<]*)</");
    r.append(tag);
    r.append(">");
    r
}

pub fn meta_tag_pattern(attr: &str, value: &str) -> (r: String)
    ensures
        r@ == meta_pattern(attr@, value@),
{
    let mut r = String::from_str("<meta[^>]*");
    r.append(attr);
    r.append("=[\"']");
    r.append(value);
    r.append("[\"'][^>]*content=[\"']([^\"']*)[\"'][^>]*>");
    r
}

/// `s` with leading and trailing whitespace cut off.
pub fn trimmed(s: &str) -> (r: String)
    ensures
        r@ == trim(s@),
{
    let v = chars_of(s);
    let (a, b) = trim_range(&v, 0, v.len());
    assert(v@.subrange(0, v@.len() as int) =~= v@);
    string_from(&v, a, b)
}

pub open spec fn opt_trim(g: Option<Seq<char>>) -> Option<Seq<char>> {
    match g {
        Some(t) => Some(trim(t)),
        None => None,
    }
}

/// The trimmed text of the first `<tag>` element.
pub open spec fn html_tag_text(html: Seq<char>, tag: Seq<char>) -> Option<Seq<char>> {
    opt_trim(regex_first_group(tag_pattern(tag), html))
}

/// The `content` of the first `<meta>` whose `attr` is `value`.
pub open spec fn meta_text(html: Seq<char>, attr: Seq<char>, value: Seq<char>) -> Option<
    Seq<char>,
> {
    regex_first_group(meta_pattern(attr, value), html)
}

/// The text of the first `<tag>` element, trimmed.
pub fn extract_html_tag(html: &str, tag: &str) -> (r: Option<String>)
    ensures
        opt_view(r) == html_tag_text(html@, tag@),
{
    let pattern = html_tag_pattern(tag);
    match capture(pattern.as_str(), html) {
        Some(g) => Some(trimmed(g.as_str())),
        None => None,
    }
}

/// The `content` of the first `<meta name="...">` with the given name.
pub fn extract_meta_content(html: &str, name: &str) -> (r: Option<String>)
    ensures
        opt_view(r) == meta_text(html@, "name"@, name@),
{
    let pattern = meta_tag_pattern("name", name);
    capture(pattern.as_str(), html)
}

/// The `content` of the first `<meta property="...">` with the given property.
pub fn extract_meta_property(html: &str, property: &str) -> (r: Option<String>)
    ensures
        opt_view(r) == meta_text(html@, "property"@, property@),
{
    let pattern = meta_tag_pattern("property", property);
    capture(pattern.as_str(), html)
}

pub open spec fn http_chars() -> Seq<char> {
    seq!['h', 't', 't', 'p']
}

/// Where an icon link's `href` points: kept when absolute (it starts with
/// `http`), put under the page's domain when it starts with `/`, and
/// unusable otherwise.
pub open spec fn favicon_of(href: Seq<char>, domain: Seq<char>) -> Option<Seq<char>> {
    if href.len() >= 4 && href.take(4) == http_chars() {
        Some(href)
    } else if href.len() >= 1 && href[0] == '/' {
        Some("https://"@ + domain + href)
    } else {
        None
    }
}

pub open spec fn default_favicon(domain: Seq<char>) -> Seq<char> {
    "https://"@ + domain + "/favicon.ico"@
}

pub fn resolve_favicon(href: &str, domain: &str) -> (r: Option<String>)
    ensures
        opt_view(r) == favicon_of(href@, domain@),
{
    let v = chars_of(href);
    let http: [char; 4] = ['h', 't', 't', 'p'];
    let slash: [char; 1] = ['/'];
    assert(http@ =~= http_chars());
    if matches_at(&v, 0, &http) {
        assert(v@.subrange(0, 4) =~= v@.take(4));
        Some(String::from_str(href))
    } else if matches_at(&v, 0, &slash) {
        assert(v@.subrange(0, 4) =~= v@.take(4));
        assert(v@.subrange(0, 1)[0] == v@[0]);
        let mut r = String::from_str("https://");
        r.append(domain);
        r.append(href);
        Some(r)
    } else {
        proof {
            if v@.len() >= 4 {
                assert(v@.subrange(0, 4) =~= v@.take(4));
            }
            if v@.len() >= 1 {
                assert(v@.subrange(0, 1) =~= seq![v@[0]]);
                assert(slash@ =~= seq!['/']);
            }
        }
        None
    }
}

/// `<link rel="icon" href="...">`, capturing the `href`.
pub open spec fn icon_pattern() -> Seq<char> {
    "<link[^>]*rel=[\"']icon[\"'][^>]*href=[\"']([^\"']*)[\"'][^>]*>"@
}

/// `<link rel="shortcut icon" href="...">`, capturing the `href`.
pub open spec fn shortcut_icon_pattern() -> Seq<char> {
    "<link[^>]*rel=[\"']shortcut icon[\"'][^>]*href=[\"']([^\"']*)[\"'][^>]*>"@
}

/// The icon that the first `href` found by `pattern` gives, if usable.
pub open spec fn icon_from(pattern: Seq<char>, html: Seq<char>, domain: Seq<char>) -> Option<
    Seq<char>,
> {
    match regex_first_group(pattern, html) {
        Some(href) => favicon_of(href, domain),
        None => None,
    }
}

/// The page's icon: from the first `rel="icon"` link if its `href` is
/// usable, else from the first `rel="shortcut icon"` link if its `href` is
/// usable, else `https://<domain>/favicon.ico`.
pub open spec fn favicon_spec(html: Seq<char>, domain: Seq<char>) -> Seq<char> {
    match icon_from(icon_pattern(), html, domain) {
        Some(f) => f,
        None => match icon_from(shortcut_icon_pattern(), html, domain) {
            Some(f) => f,
            None => default_favicon(domain),
        },
    }
}

fn icon_with(pattern: &str, html: &str, domain: &str) -> (r: Option<String>)
    ensures
        opt_view(r) == icon_from(pattern@, html@, domain@),
{
    match capture(pattern, html) {
        Some(href) => resolve_favicon(href.as_str(), domain),
        None => None,
    }
}

/// The page's icon; there always is one.
pub fn extract_favicon(html: &str, domain: &str) -> (r: Option<String>)
    ensures
        r matches Some(f) && f@ == favicon_spec(html@, domain@),
{
    let icon = "<link[^>]*rel=[\"']icon[\"'][^>]*href=[\"']([^\"']*)[\"'][^>]*>";
    let shortcut = "<link[^>]*rel=[\"']shortcut icon[\"'][^>]*href=[\"']([^\"']*)[\"'][^>]*>";
    if let Some(f) = icon_with(icon, html, domain) {
        return Some(f);
    }
    if let Some(f) = icon_with(shortcut, html, domain) {
        return Some(f);
    }
    let mut r = String::from_str("https://");
    r.append(domain);
    r.append("/favicon.ico");
    Some(r)
}

pub open spec fn http_prefix() -> Seq<char> {
    seq!['h', 't', 't', 'p', ':', '/', '/']
}

pub open spec fn https_prefix() -> Seq<char> {
    seq!['h', 't', 't', 'p', 's', ':', '/', '/']
}

/// A URL that starts with `http://` or `https://`.
pub open spec fn is_web_url(url: Seq<char>) -> bool {
    (url.len() >= 7 && url.take(7) == http_prefix()) || (url.len() >= 8 && url.take(8)
        == https_prefix())
}

pub fn is_http_url(url: &str) -> (r: bool)
    ensures
        r == is_web_url(url@),
{
    let v = chars_of(url);
    let http: [char; 7] = ['h', 't', 't', 'p', ':', '/', '/'];
    let https: [char; 8] = ['h', 't', 't', 'p', 's', ':', '/', '/'];
    assert(http@ =~= http_prefix());
    assert(https@ =~= https_prefix());
    let a = matches_at(&v, 0, &http);
    let b = matches_at(&v, 0, &https);
    proof {
        if v@.len() >= 7 {
            assert(v@.subrange(0, 7) =~= v@.take(7));
        }
        if v@.len() >= 8 {
            assert(v@.subrange(0, 8) =~= v@.take(8));
        }
    }
    a || b
}

/// The domain of a URL: what stands between its second and third `/`, or
/// `Unknown` when it has fewer than two.
pub open spec fn domain_spec(url: Seq<char>) -> Seq<char> {
    let ps = pieces(url, '/');
    if ps.len() > 2 {
        ps[2]
    } else {
        "Unknown"@
    }
}

pub fn domain_of(url: &str) -> (r: String)
    ensures
        r@ == domain_spec(url@),
{
    let v = chars_of(url);
    let ranges = split_ranges(&v, '/');
    if ranges.len() > 2 {
        let (a, b) = ranges[2];
        assert(ranges@[2].0 <= ranges@[2].1 <= v@.len());
        string_from(&v, a, b)
    } else {
        String::from_str("Unknown")
    }
}

/// What is known of a linked page.
#[derive(Debug)]
pub struct WebsiteMetadata {
    pub url: String,
    pub title: Option<String>,
    pub description: Option<String>,
    pub domain: String,
    pub favicon: Option<String>,
}

impl WebsiteMetadata {
    /// A page that could not be read: its URL and domain only.
    pub fn unread(url: String, domain: String) -> (r: WebsiteMetadata)
        ensures
            r.url@ == url@,
            r.domain@ == domain@,
            r.title is None,
            r.description is None,
            r.favicon is None,
    {
        WebsiteMetadata { url, title: None, description: None, domain, favicon: None }
    }

    /// A page read as `html`: the title element, the description (the
    /// `description` meta name, else the `og:description` meta property)
    /// and the icon.
    pub fn from_page(url: String, domain: String, html: &str) -> (r: WebsiteMetadata)
        ensures
            r.url@ == url@,
            r.domain@ == domain@,
            opt_view(r.title) == html_tag_text(html@, "title"@),
            opt_view(r.description) == match meta_text(html@, "name"@, "description"@) {
                Some(d) => Some(d),
                None => meta_text(html@, "property"@, "og:description"@),
            },
            opt_view(r.favicon) == Some(favicon_spec(html@, domain@)),
    {
        let title = extract_html_tag(html, "title");
        let description = match extract_meta_content(html, "description") {
            Some(d) => Some(d),
            None => extract_meta_property(html, "og:description"),
        };
        let favicon = extract_favicon(html, domain.as_str());
        WebsiteMetadata { url, title, description, domain, favicon }
    }
}

} // verus!
