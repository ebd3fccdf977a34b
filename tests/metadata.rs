use hn_backend::metadata::{
    domain_of, extract_favicon, extract_html_tag, extract_meta_content, extract_meta_property,
    is_http_url, resolve_favicon, trimmed, WebsiteMetadata,
};

const PAGE: &str = "<html><head><title>  Hello World \n</title>\
<meta name=\"description\" content=\"A page\">\
<meta property='og:description' content='OG text'>\
<link rel=\"icon\" href=\"/static/icon.png\"></head></html>";

#[test]
fn url_checks_and_domains() {
    assert!(is_http_url("http://a.b"));
    assert!(is_http_url("https://a.b/c"));
    assert!(!is_http_url("ftp://a.b"));
    assert!(!is_http_url("http:/a.b"));
    assert_eq!(domain_of("https://news.ycombinator.com/item?id=1"), "news.ycombinator.com");
    assert_eq!(domain_of("https://example.com"), "example.com");
    assert_eq!(domain_of("example.com"), "Unknown");
}

#[test]
fn page_fields_are_extracted() {
    assert_eq!(extract_html_tag(PAGE, "title").unwrap(), "Hello World");
    assert_eq!(extract_html_tag(PAGE, "h1"), None);
    assert_eq!(extract_html_tag("<p>x</p>", "title"), None);
    assert_eq!(
        extract_meta_content("<meta name=\"description\" content=\"A tech site\">", "description").unwrap(),
        "A tech site"
    );
    assert_eq!(extract_meta_content(PAGE, "description").unwrap(), "A page");
    assert_eq!(extract_meta_property(PAGE, "og:description").unwrap(), "OG text");
    assert_eq!(extract_meta_content(PAGE, "keywords"), None);
    assert_eq!(trimmed(" \t x y \n"), "x y");
}

#[test]
fn favicons() {
    assert_eq!(resolve_favicon("/i.png", "a.com").unwrap(), "https://a.com/i.png");
    assert_eq!(resolve_favicon("https://cdn/i.png", "a.com").unwrap(), "https://cdn/i.png");
    assert_eq!(resolve_favicon("i.png", "a.com"), None);
    assert_eq!(extract_favicon(PAGE, "a.com").unwrap(), "https://a.com/static/icon.png");
    assert_eq!(extract_favicon("<html></html>", "a.com").unwrap(), "https://a.com/favicon.ico");
    assert_eq!(
        extract_favicon("<link rel=\"icon\" href=\"/img/fav.png\">", "example.com").unwrap(),
        "https://example.com/img/fav.png"
    );
    assert_eq!(
        extract_favicon("<link rel=\"shortcut icon\" href=\"https://cdn.example.org/f.ico\">", "example.com")
            .unwrap(),
        "https://cdn.example.org/f.ico"
    );
    assert_eq!(
        extract_favicon("<html><head></head></html>", "example.com").unwrap(),
        "https://example.com/favicon.ico"
    );
    assert_eq!(
        extract_favicon("<link rel=\"icon\" href=\"fav.png\">", "example.com").unwrap(),
        "https://example.com/favicon.ico"
    );
    let shortcut = "<link rel=\"icon\" href=\"i.png\"><link rel='shortcut icon' href='http://x/y.ico'>";
    assert_eq!(extract_favicon(shortcut, "a.com").unwrap(), "http://x/y.ico");
}

#[test]
fn metadata_of_pages() {
    let m = WebsiteMetadata::from_page("https://a.com/x".to_string(), "a.com".to_string(), PAGE);
    assert_eq!(m.title.as_deref(), Some("Hello World"));
    assert_eq!(m.description.as_deref(), Some("A page"));
    assert_eq!(m.favicon.as_deref(), Some("https://a.com/static/icon.png"));
    let only_og = "<meta property=\"og:description\" content=\"Only OG\">";
    let m = WebsiteMetadata::from_page("https://a.com".to_string(), "a.com".to_string(), only_og);
    assert_eq!(m.description.as_deref(), Some("Only OG"));
    assert_eq!(m.title, None);
    let m = WebsiteMetadata::unread("https://a.com".to_string(), "a.com".to_string());
    assert!(m.title.is_none() && m.description.is_none() && m.favicon.is_none());
}
