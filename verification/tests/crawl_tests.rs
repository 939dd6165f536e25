use ao3fti::crawl::{CrawlAction, CrawlEvent, Crawler};
use ao3fti::pipeline::ChapterLine;
use ao3fti::url::parse_url;

struct Fixture {
    pages: Vec<(String, String)>,
    existing: Vec<usize>,
}

struct RunLog {
    fetched: Vec<String>,
    page_fetches: usize,
    fetches_after_sleep: usize,
    sleeps: usize,
    checks: Vec<usize>,
    inserts: Vec<usize>,
    emits: Vec<ChapterLine>,
    commits: Vec<usize>,
    done: bool,
    failure: Option<ao3fti::errors::CrawlError>,
}

fn drive(fixture: &Fixture, start: &str) -> RunLog {
    let mut log = RunLog {
        fetched: Vec::new(),
        page_fetches: 0,
        fetches_after_sleep: 0,
        sleeps: 0,
        checks: Vec::new(),
        inserts: Vec::new(),
        emits: Vec::new(),
        commits: Vec::new(),
        done: false,
        failure: None,
    };
    let base = parse_url(start).unwrap();
    let mut crawler = Crawler::new(base);
    let mut event = CrawlEvent::Start;
    let mut just_slept = false;
    for _ in 0..10_000 {
        let action = crawler.step(event);
        let slept_before = just_slept;
        just_slept = false;
        match action {
            CrawlAction::Sleep(d) => {
                assert!((3..8).contains(&d), "delay out of the politeness range");
                log.sleeps += 1;
                just_slept = true;
                event = CrawlEvent::Slept;
            },
            CrawlAction::Fetch(url) => {
                if slept_before {
                    log.fetches_after_sleep += 1;
                }
                if url.contains("/search") {
                    log.page_fetches += 1;
                }
                let body = fixture
                    .pages
                    .iter()
                    .find(|(u, _)| *u == url)
                    .unwrap_or_else(|| panic!("unexpected fetch of {}", url))
                    .1
                    .clone();
                log.fetched.push(url);
                event = CrawlEvent::Fetched(body);
            },
            CrawlAction::BeginTxn(_) => {
                event = CrawlEvent::TxnReady;
            },
            CrawlAction::CheckExists(id) => {
                log.checks.push(id);
                event = CrawlEvent::ExistsResult(fixture.existing.contains(&id));
            },
            CrawlAction::InsertStory(id, _info, _meta) => {
                log.inserts.push(id);
                event = CrawlEvent::Inserted;
            },
            CrawlAction::EmitChapter(c) => {
                log.emits.push(c);
                event = CrawlEvent::ChapterSent;
            },
            CrawlAction::CommitStory(id) => {
                log.commits.push(id);
                event = CrawlEvent::Committed;
            },
            CrawlAction::Done => {
                log.done = true;
                return log;
            },
            CrawlAction::Fail(e) => {
                log.failure = Some(e);
                return log;
            },
        }
    }
    panic!("crawl did not finish");
}

fn listing(items: &str, next: bool) -> String {
    let next_block = if next {
        "<ol class=\"pagination actions\"><li>\
         <a rel=\"next\" href=\"/search?page=2\">Next \u{2192}</a></li></ol>"
    } else {
        ""
    };
    format!(
        "<html><body><div id=\"outer\"><div id=\"inner\"><div id=\"main\">\
         <ol class=\"work index group\">{}</ol>{}</div></div></div></body></html>",
        items, next_block,
    )
}

fn story_item(href: &str, restricted: bool) -> String {
    let badge = if restricted { "<img alt=\"(Restricted)\">" } else { "" };
    format!(
        "<li><div class=\"header module\"><h4 class=\"heading\">\
         <a href=\"{}\">Story</a>{}</h4></div></li>",
        href, badge,
    )
}

fn work_page(download: &str) -> String {
    format!(
        "<html><body><div id=\"outer\"><div id=\"inner\"><div id=\"main\">\
         <div class=\"work\"><div class=\"navigation actions\"><div class=\"download\">\
         <ul><li><a href=\"{}\">EPUB</a></li></ul>\
         </div></div></div></div></div></div></body></html>",
        download,
    )
}

fn download_page(name: &str, chapters: &[&str]) -> String {
    let bodies: String = chapters
        .iter()
        .map(|c| format!("<div class=\"userstuff\">{}</div>", c))
        .collect();
    format!(
        "<html><body><div id=\"preface\"><div class=\"meta\">\
         <h1>{}</h1>\
         <div class=\"byline\"><a rel=\"author\">Ada</a></div>\
         <blockquote><p>Sum</p></blockquote>\
         </div></div><div id=\"chapters\">{}</div></body></html>",
        name, bodies,
    )
}

fn two_page_fixture() -> Fixture {
    Fixture {
        pages: vec![
            (
                "https://example.com/search?page=1".to_string(),
                listing(
                    &(story_item("/works/1", true) + &story_item("/works/2", false)),
                    true,
                ),
            ),
            (
                "https://example.com/search?page=2".to_string(),
                listing(&story_item("/works/3", false), false),
            ),
            (
                "https://example.com/works/2?view_adult=true".to_string(),
                work_page("/downloads/2"),
            ),
            (
                "https://example.com/downloads/2".to_string(),
                download_page("B", &["b one", "b two"]),
            ),
            (
                "https://example.com/works/3?view_adult=true".to_string(),
                work_page("/downloads/3"),
            ),
            (
                "https://example.com/downloads/3".to_string(),
                download_page("C", &["c one"]),
            ),
        ],
        existing: Vec::new(),
    }
}

#[test]
fn two_page_listing_crawl() {
    let log = drive(&two_page_fixture(), "https://example.com/search?page=1");
    assert!(log.done);
    assert!(log.failure.is_none());
    // the restricted story is skipped without error, the other two processed
    assert_eq!(log.checks, vec![2, 3]);
    assert_eq!(log.inserts, vec![2, 3]);
    assert_eq!(log.commits, vec![2, 3]);
    // exactly two page fetches, and every fetch right after a delay
    assert_eq!(log.page_fetches, 2);
    assert_eq!(log.fetches_after_sleep, log.fetched.len());
    assert!(log.sleeps >= log.fetched.len());
    // chapters arrive dense, 0-based, in order, keyed by their story
    let b: Vec<&ChapterLine> = log.emits.iter().filter(|c| c.story_id == 2).collect();
    assert_eq!(b.len(), 2);
    assert_eq!(b[0].chapter_id, 0);
    assert_eq!(b[0].chapter_content, "b one");
    assert_eq!(b[1].chapter_id, 1);
    assert_eq!(b[1].chapter_content, "b two");
    let c: Vec<&ChapterLine> = log.emits.iter().filter(|c| c.story_id == 3).collect();
    assert_eq!(c.len(), 1);
    assert_eq!(c[0].chapter_id, 0);
}

#[test]
fn existing_story_commits_without_insert_or_emission() {
    let fixture = Fixture {
        pages: vec![(
            "https://example.com/search?page=1".to_string(),
            listing(&story_item("/works/2", false), false),
        )],
        existing: vec![2],
    };
    let log = drive(&fixture, "https://example.com/search?page=1");
    assert!(log.done);
    assert_eq!(log.checks, vec![2]);
    assert!(log.inserts.is_empty());
    assert!(log.emits.is_empty());
    // the empty transaction still commits
    assert_eq!(log.commits, vec![2]);
    // no story page was ever fetched
    assert_eq!(log.fetched.len(), 1);
}

#[test]
fn invalid_story_link_is_fatal() {
    let fixture = Fixture {
        pages: vec![(
            "https://example.com/search?page=1".to_string(),
            listing(&story_item("http://exa mple.com/works/2", false), false),
        )],
        existing: Vec::new(),
    };
    let log = drive(&fixture, "https://example.com/search?page=1");
    assert!(matches!(log.failure, Some(ao3fti::errors::CrawlError::BadUrl { .. })));
}

#[test]
fn unexpected_event_fails_the_run() {
    let base = parse_url("https://example.com/search?page=1").unwrap();
    let mut crawler = Crawler::new(base);
    let action = crawler.step(CrawlEvent::ChapterSent);
    assert!(matches!(action, CrawlAction::Fail(ao3fti::errors::CrawlError::Protocol)));
}
