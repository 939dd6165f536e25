use ao3fti::serve::{
    grouped_decimal, result_pages, search_offset, Error, IntoReadable, LinkState, Pagination,
    SearchQuery, SEARCH_LIMIT,
};

#[test]
fn digits_group_by_thousands() {
    assert_eq!(grouped_decimal(0), "0");
    assert_eq!(grouped_decimal(999), "999");
    assert_eq!(grouped_decimal(1_000), "1,000");
    assert_eq!(grouped_decimal(1_234_567), "1,234,567");
    assert_eq!(grouped_decimal(12_345), "12,345");
}

#[test]
fn readable_numbers() {
    assert_eq!(1_234_567u64.into_readable().text(), "1,234,567");
    assert_eq!(1_234_567usize.into_readable().text(), "1,234,567");
    assert_eq!((-1_234_567i64).into_readable().text(), "-1,234,567");
    assert_eq!(42i32.into_readable().text(), "42");
}

#[test]
fn pagination_strip_windows_and_collapses() {
    let p = Pagination::new("query=x".to_string(), 5, 10);
    let texts: Vec<&str> = p.parts.iter().map(|l| l.text.as_str()).collect();
    assert_eq!(texts, vec!["1", "..", "4", "5", "6", "..", "10"]);
    let active: Vec<bool> = p.parts.iter().map(|l| l.state == LinkState::Active).collect();
    assert_eq!(active, vec![false, false, false, true, false, false, false]);
    assert_eq!(p.parts[2].href, "?query=x&page=4");
    assert_eq!(p.prev.state, LinkState::Normal);
    assert_eq!(p.prev.text, "previous");
    assert_eq!(p.next.state, LinkState::Normal);
    assert_eq!(p.next.text, "next");
}

#[test]
fn pagination_edges_disable_prev_and_next() {
    let p = Pagination::new("q=a".to_string(), 1, 3);
    assert_eq!(p.prev.state, LinkState::Disabled);
    assert_eq!(p.next.state, LinkState::Normal);
    let texts: Vec<&str> = p.parts.iter().map(|l| l.text.as_str()).collect();
    assert_eq!(texts, vec!["1", "2", "3"]);

    let last = Pagination::new("q=a".to_string(), 3, 3);
    assert_eq!(last.prev.state, LinkState::Normal);
    assert_eq!(last.next.state, LinkState::Disabled);
}

#[test]
fn pagination_single_page() {
    let p = Pagination::new("q=a".to_string(), 1, 1);
    let texts: Vec<&str> = p.parts.iter().map(|l| l.text.as_str()).collect();
    assert_eq!(texts, vec!["1"]);
    assert_eq!(p.prev.state, LinkState::Disabled);
    assert_eq!(p.next.state, LinkState::Disabled);
}

#[test]
fn pagination_without_pages_is_empty() {
    let p = Pagination::new("q=a".to_string(), 1, 0);
    assert!(p.parts.is_empty());
}

#[test]
fn search_offset_is_limit_times_preceding_pages() {
    assert_eq!(search_offset(1), Some(0));
    assert_eq!(search_offset(2), Some(20));
    assert_eq!(search_offset(3), Some(40));
    assert_eq!(search_offset(0), None);
}

#[test]
fn result_pages_round_up() {
    assert_eq!(result_pages(0), Some(0));
    assert_eq!(result_pages(1), Some(1));
    assert_eq!(result_pages(SEARCH_LIMIT), Some(1));
    assert_eq!(result_pages(SEARCH_LIMIT + 1), Some(2));
    assert_eq!(result_pages(usize::MAX), None);
}

#[test]
fn error_keeps_its_report() {
    let e = Error::from_any("boom".to_string());
    assert_eq!(e.report(), "boom");
}

#[test]
fn search_query_fields() {
    let q = SearchQuery { query: "tea".to_string(), page: 2 };
    assert_eq!(q.query, "tea");
    assert_eq!(q.page, 2);
}
