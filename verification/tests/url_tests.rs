use ao3fti::errors::CrawlError;
use ao3fti::url::{parse_url, rebuild_url, story_id_from_path, UrlParts};

fn parts(scheme: &str, authority: &str, paq: &str) -> UrlParts {
    UrlParts {
        scheme: scheme.to_string(),
        authority: authority.to_string(),
        path_and_query: paq.to_string(),
    }
}

#[test]
fn parse_absolute_url() {
    let u = parse_url("https://example.com/works/123?x=1").unwrap();
    assert_eq!(u.scheme, "https");
    assert_eq!(u.authority, "example.com");
    assert_eq!(u.path_and_query, "/works/123?x=1");
}

#[test]
fn parse_relative_link_has_no_scheme() {
    let u = parse_url("/works/123").unwrap();
    assert_eq!(u.scheme, "");
    assert_eq!(u.authority, "");
    assert_eq!(u.path_and_query, "/works/123");
}

#[test]
fn parse_rejects_invalid_url() {
    assert!(parse_url("http://exa mple.com/").is_none());
}

#[test]
fn rebuild_resolves_relative_link() {
    let base = parts("https", "example.com", "/search");
    let link = parts("", "", "/works/9?view_adult=true");
    let u = rebuild_url(&base, &link).unwrap();
    assert_eq!(u.to_text(), "https://example.com/works/9?view_adult=true");
}

#[test]
fn rebuild_never_trusts_the_link_authority() {
    let base = parts("https", "example.com", "/search");
    let link = parts("http", "evil.example", "/works/9");
    let u = rebuild_url(&base, &link).unwrap();
    assert_eq!(u.scheme, "https");
    assert_eq!(u.authority, "example.com");
}

#[test]
fn rebuild_missing_scheme() {
    let base = parts("", "example.com", "/search");
    let link = parts("", "", "/works/9");
    assert!(matches!(rebuild_url(&base, &link), Err(CrawlError::MissingScheme)));
}

#[test]
fn rebuild_missing_authority() {
    let base = parts("https", "", "/search");
    let link = parts("", "", "/works/9");
    assert!(matches!(rebuild_url(&base, &link), Err(CrawlError::MissingAuthority)));
}

#[test]
fn rebuild_missing_path() {
    let base = parts("https", "example.com", "/search");
    let link = parts("", "", "");
    assert!(matches!(rebuild_url(&base, &link), Err(CrawlError::MissingPath)));
}

#[test]
fn story_id_is_second_path_segment() {
    assert_eq!(story_id_from_path("/works/123?view_adult=true").unwrap(), 123);
    assert_eq!(story_id_from_path("/works/7/chapters/2").unwrap(), 7);
}

#[test]
fn story_id_missing_segment() {
    assert!(matches!(story_id_from_path("/works"), Err(CrawlError::NoStoryId)));
    assert!(matches!(story_id_from_path("/"), Err(CrawlError::NoStoryId)));
}

#[test]
fn story_id_not_a_number() {
    assert!(matches!(story_id_from_path("/works/abc"), Err(CrawlError::BadStoryId)));
}
