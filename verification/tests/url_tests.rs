use waper::scraper::scrape_document;
use waper::urls::{parse_url, resolve_link};

#[test]
fn parse_url_strips_fragment() {
    let u = parse_url("https://example.com/a#frag").unwrap();
    assert_eq!(u, "https://example.com/a");
}

#[test]
fn parse_url_rejects_relative() {
    assert!(parse_url("/only/a/path").is_none());
}

#[test]
fn resolve_link_relative_path() {
    let u = resolve_link("https://example.com/dir/page", "/a").unwrap();
    assert_eq!(u, "https://example.com/a");
}

#[test]
fn resolve_link_protocol_relative() {
    let u = resolve_link("https://example.com/", "//other.com/x").unwrap();
    assert_eq!(u, "https://other.com/x");
}

#[test]
fn resolve_link_absolute_href() {
    let u = resolve_link("https://example.com/", "http://other.com/x").unwrap();
    assert_eq!(u, "http://other.com/x");
}

#[test]
fn resolve_link_strips_fragment() {
    let u = resolve_link("https://example.com/", "/a#frag").unwrap();
    assert_eq!(u, "https://example.com/a");
}

#[test]
fn resolve_link_bad_base() {
    assert!(resolve_link("not a url", "/a").is_none());
}

#[test]
fn scrape_document_extracts_anchors() {
    let html = "<html><body><a href=\"/a\">A</a><a href=\"b.html\">B</a><a name=\"no-href\">C</a></body></html>".to_string();
    let r = scrape_document("https://example.com/dir/", html.clone());
    assert_eq!(r.html, html);
    assert_eq!(
        r.links,
        vec![
            "https://example.com/a".to_string(),
            "https://example.com/dir/b.html".to_string(),
        ]
    );
}

#[test]
fn scrape_document_skips_malformed_href() {
    let html = "<a href=\"http://[bad\">x</a><a href=\"/ok\">y</a>".to_string();
    let r = scrape_document("https://example.com/", html);
    assert_eq!(r.links, vec!["https://example.com/ok".to_string()]);
}
