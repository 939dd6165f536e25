use ao3fti::errors::CrawlError;
use ao3fti::extract::{
    entry_is_restricted, entry_story_link, find_download_url, get_story_info, get_story_meta,
    listing_entries, next_page_url,
};
use ao3fti::models::Rating;
use ao3fti::page::Page;

fn listing_page(items: &str, next: &str) -> String {
    format!(
        "<html><body><div id=\"outer\"><div id=\"inner\"><div id=\"main\">\
         <ol class=\"work index group\">{}</ol>{}</div></div></div></body></html>",
        items, next,
    )
}

fn story_item(href: &str, restricted: bool) -> String {
    let badge = if restricted { "<img alt=\"(Restricted)\">" } else { "" };
    format!(
        "<li><div class=\"header module\"><h4 class=\"heading\">\
         <a href=\"{}\">Story</a>{}</h4></div></li>",
        href, badge,
    )
}

fn next_block(text: &str) -> String {
    format!(
        "<ol class=\"pagination actions\"><li>\
         <a rel=\"next\" href=\"/search?page=2\">{}</a></li></ol>",
        text,
    )
}

fn download_page() -> &'static str {
    "<html><body><div id=\"preface\"><div class=\"meta\">\
     <h1>  A Story  </h1>\
     <div class=\"byline\"><a rel=\"author\"> Ada </a><a rel=\"author\">Bea</a></div>\
     <blockquote><p>Sum</p></blockquote>\
     <div class=\"tags\">\
     <dt>Rating:</dt><dd><a>Explicit</a></dd>\
     <dt>Fandom:</dt><dd><a>One</a><a>Two</a></dd>\
     <dt>Archive Warning:</dt><dd><a>None Apply</a></dd>\
     <dt>Unknown Label:</dt><dd><a>Dropped</a></dd>\
     </div></div></div>\
     <div id=\"chapters\"><div class=\"userstuff\">Ch one</div>\
     <div class=\"userstuff\">Ch two</div></div></body></html>"
}

#[test]
fn listing_entries_finds_story_rows() {
    let html = listing_page(
        &(story_item("/works/1", true) + &story_item("/works/2", false)),
        &next_block("Next \u{2192}"),
    );
    let page = Page::parse(&html);
    let entries = listing_entries(&page).unwrap();
    assert_eq!(entries.len(), 2);
    assert!(entry_is_restricted(&page, entries[0]).unwrap());
    assert!(!entry_is_restricted(&page, entries[1]).unwrap());
}

#[test]
fn story_link_appends_adult_flag() {
    let html = listing_page(&story_item("/works/2", false), "");
    let page = Page::parse(&html);
    let entries = listing_entries(&page).unwrap();
    let url = "page".to_string();
    let link = entry_story_link(&page, entries[0], &url).unwrap();
    assert_eq!(link, "/works/2?view_adult=true");
}

#[test]
fn story_link_missing_is_an_error() {
    let html = listing_page("<li><div class=\"header module\"></div></li>", "");
    let page = Page::parse(&html);
    let entries = listing_entries(&page).unwrap();
    let url = "the-page".to_string();
    match entry_story_link(&page, entries[0], &url) {
        Err(CrawlError::NoStoryLink { page: p }) => assert_eq!(p, "the-page"),
        other => panic!("unexpected: {:?}", other),
    }
}

#[test]
fn story_link_without_href_is_an_error() {
    let html = listing_page(
        "<li><div class=\"header module\"><h4 class=\"heading\"><a>Story</a></h4></div></li>",
        "",
    );
    let page = Page::parse(&html);
    let entries = listing_entries(&page).unwrap();
    let url = "the-page".to_string();
    assert!(matches!(
        entry_story_link(&page, entries[0], &url),
        Err(CrawlError::NoHref { .. }),
    ));
}

#[test]
fn next_page_link_taken_only_with_exact_marker() {
    let with_next = Page::parse(&listing_page("", &next_block("Next \u{2192}")));
    assert_eq!(next_page_url(&with_next).unwrap(), Some("/search?page=2".to_string()));

    let wrong_text = Page::parse(&listing_page("", &next_block("Next")));
    assert_eq!(next_page_url(&wrong_text).unwrap(), None);

    let absent = Page::parse(&listing_page("", ""));
    assert_eq!(next_page_url(&absent).unwrap(), None);
}

fn work_page(kind: &str) -> String {
    format!(
        "<html><body><div id=\"outer\"><div id=\"inner\"><div id=\"main\">\
         <div class=\"{}\"><div class=\"navigation actions\"><div class=\"download\">\
         <ul><li><a href=\"/downloads/first\">AZW3</a></li>\
         <li><a href=\"/downloads/last\">EPUB</a></li></ul>\
         </div></div></div></div></div></div></body></html>",
        kind,
    )
}

#[test]
fn download_url_prefers_multi_chapter_layout_and_takes_the_last() {
    let html = work_page("work");
    let page = Page::parse(&html);
    let url = "u".to_string();
    let markup = html.clone();
    assert_eq!(find_download_url(&page, &url, &markup).unwrap(), "/downloads/last");
}

#[test]
fn download_url_falls_back_to_single_chapter_layout() {
    // the single-chapter layout nests one level less
    let html = "<html><body><div id=\"outer\"><div id=\"inner\"><div id=\"main\">\
         <div class=\"work navigation actions\"><div class=\"download\">\
         <ul><li><a href=\"/downloads/first\">AZW3</a></li>\
         <li><a href=\"/downloads/last\">EPUB</a></li></ul>\
         </div></div></div></div></div></body></html>"
        .to_string();
    let page = Page::parse(&html);
    let url = "u".to_string();
    assert_eq!(find_download_url(&page, &url, &html).unwrap(), "/downloads/last");
}

#[test]
fn download_url_missing_keeps_markup_for_debugging() {
    let html = "<html><body><p>nothing here</p></body></html>".to_string();
    let page = Page::parse(&html);
    let url = "the-story".to_string();
    match find_download_url(&page, &url, &html) {
        Err(CrawlError::NoDownloadLink { url: u, markup }) => {
            assert_eq!(u, "the-story");
            assert_eq!(markup, html);
        },
        other => panic!("unexpected: {:?}", other),
    }
}

#[test]
fn story_info_extraction() {
    let page = Page::parse(download_page());
    let url = "u".to_string();
    let info = get_story_info(&page, &url).unwrap();
    assert_eq!(info.name, "A Story");
    assert_eq!(info.authors, vec!["Ada".to_string(), "Bea".to_string()]);
    assert_eq!(info.summary, "<p>Sum</p>");
}

#[test]
fn story_info_without_name_fails() {
    let page = Page::parse("<html><body><p>bare</p></body></html>");
    let url = "the-url".to_string();
    match get_story_info(&page, &url) {
        Err(CrawlError::NoName { url: u }) => assert_eq!(u, "the-url"),
        other => panic!("unexpected: {:?}", other),
    }
}

#[test]
fn story_info_summary_defaults_to_empty_paragraph() {
    let page = Page::parse(
        "<html><body><div id=\"preface\"><div class=\"meta\">\
         <h1>N</h1></div></div></body></html>",
    );
    let url = "u".to_string();
    let info = get_story_info(&page, &url).unwrap();
    assert_eq!(info.summary, "<p></p>");
}

#[test]
fn story_meta_routes_labels() {
    let page = Page::parse(download_page());
    let meta = get_story_meta(&page);
    assert_eq!(meta.rating, Rating::Explicit);
    assert_eq!(meta.origins, vec!["One".to_string(), "Two".to_string()]);
    assert_eq!(meta.warnings, vec!["None Apply".to_string()]);
    assert!(meta.categories.is_empty());
    assert!(meta.pairings.is_empty());
    assert!(meta.characters.is_empty());
    assert!(meta.generals.is_empty());
}

#[test]
fn story_meta_unrecognised_rating_stays_unknown() {
    let page = Page::parse(
        "<html><body><div id=\"preface\"><div class=\"meta\"><div class=\"tags\">\
         <dt>Rating:</dt><dd><a>Something Else</a></dd>\
         </div></div></div></body></html>",
    );
    let meta = get_story_meta(&page);
    assert_eq!(meta.rating, Rating::Unknown);
}

#[test]
fn story_meta_zip_drops_the_unpaired_tail() {
    let page = Page::parse(
        "<html><body><div id=\"preface\"><div class=\"meta\"><div class=\"tags\">\
         <dt>Fandom:</dt><dd><a>Kept</a></dd>\
         <dt>Character:</dt>\
         </div></div></div></body></html>",
    );
    let meta = get_story_meta(&page);
    assert_eq!(meta.origins, vec!["Kept".to_string()]);
    assert!(meta.characters.is_empty());
}
