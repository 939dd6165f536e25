use ao3fti::extract::{
    check_fixed_selectors, CHAPTERS_SELECTOR, INFO_SELECTOR, LIST_SELECTOR, META_TAGS_DF,
    META_TAGS_DT, NEXT_SELECTOR, RESTRICTED_SELECTOR, STORY_AUTHOR, STORY_MULTI_DOWNLOAD,
    STORY_NAME, STORY_SINGLE_DOWNLOAD, STORY_SUMMARY,
};
use ao3fti::selector::{AttributeSpec, Matcher, Selector};

#[test]
fn fixed_selectors_always_parse() {
    let fixed = [
        LIST_SELECTOR,
        INFO_SELECTOR,
        NEXT_SELECTOR,
        RESTRICTED_SELECTOR,
        CHAPTERS_SELECTOR,
        STORY_MULTI_DOWNLOAD,
        STORY_SINGLE_DOWNLOAD,
        STORY_NAME,
        STORY_AUTHOR,
        STORY_SUMMARY,
        META_TAGS_DT,
        META_TAGS_DF,
    ];
    for text in fixed {
        assert!(Selector::parse(text).is_some(), "selector failed to parse: {}", text);
    }
    // the verified evidence for the crawl contracts' selector hypothesis
    assert!(check_fixed_selectors());
}

#[test]
fn parse_is_deterministic() {
    let a = Selector::parse(LIST_SELECTOR).unwrap();
    let b = Selector::parse(LIST_SELECTOR).unwrap();
    assert_eq!(a, b);
}

#[test]
fn parse_token_structure() {
    let m = Matcher::parse("div#a.x[href^=http]").unwrap();
    assert_eq!(m.tag, vec!["div".to_string()]);
    assert_eq!(m.id, vec!["a".to_string()]);
    assert_eq!(m.class, vec!["x".to_string()]);
    assert_eq!(m.attribute.len(), 1);
    assert_eq!(m.attribute[0].0, "href");
    assert_eq!(m.attribute[0].1, AttributeSpec::Starts("http".to_string()));
    assert!(!m.direct_match);
}

#[test]
fn parse_attribute_kinds() {
    let m = Matcher::parse("[a][b=v][c^=v][d$=v][e*=v]").unwrap();
    assert_eq!(m.attribute.len(), 5);
    assert_eq!(m.attribute[0], ("a".to_string(), AttributeSpec::Present));
    assert_eq!(m.attribute[1], ("b".to_string(), AttributeSpec::Exact("v".to_string())));
    assert_eq!(m.attribute[2], ("c".to_string(), AttributeSpec::Starts("v".to_string())));
    assert_eq!(m.attribute[3], ("d".to_string(), AttributeSpec::Ends("v".to_string())));
    assert_eq!(m.attribute[4], ("e".to_string(), AttributeSpec::Contains("v".to_string())));
}

#[test]
fn parse_quoted_operand() {
    let m = Matcher::parse("a[rel=\"author\"]").unwrap();
    assert_eq!(m.attribute[0], ("rel".to_string(), AttributeSpec::Exact("author".to_string())));
}

#[test]
fn parse_repeated_key_last_wins() {
    let m = Matcher::parse("[a=x][a=y]").unwrap();
    assert_eq!(m.attribute.len(), 1);
    assert_eq!(m.attribute[0], ("a".to_string(), AttributeSpec::Exact("y".to_string())));
}

#[test]
fn parse_rescoping_token() {
    let m = Matcher::parse(">").unwrap();
    assert!(m.direct_match);
    assert!(m.tag.is_empty() && m.id.is_empty() && m.class.is_empty());
    // any token holding `>` rescopes, wherever it stands
    let m2 = Matcher::parse("a>b").unwrap();
    assert!(m2.direct_match);
    assert!(m2.tag.is_empty());
}

#[test]
fn parse_malformed_attribute_fails() {
    assert!(Matcher::parse("[=v]").is_none());
    assert!(Selector::parse("a [=v]").is_none());
}

#[test]
fn parse_selector_token_count() {
    let sel = Selector::parse("div > p").unwrap();
    assert_eq!(sel.matchers.len(), 3);
    assert!(sel.matchers[1].direct_match);
}

#[test]
fn attribute_present_matches_everything() {
    assert!(AttributeSpec::Present.matches(String::new()));
    assert!(AttributeSpec::Present.matches("anything".to_string()));
}

#[test]
fn attribute_contains() {
    let t = AttributeSpec::Contains("abc".to_string());
    assert!(t.matches("xabcx".to_string()));
    assert!(!t.matches("ab".to_string()));
    assert!(t.matches("abc".to_string()));
}

#[test]
fn attribute_starts() {
    let t = AttributeSpec::Starts("abc".to_string());
    assert!(t.matches("abcx".to_string()));
    assert!(!t.matches("xabc".to_string()));
}

#[test]
fn attribute_ends() {
    let t = AttributeSpec::Ends("abc".to_string());
    assert!(t.matches("xabc".to_string()));
    assert!(!t.matches("abcx".to_string()));
}

#[test]
fn attribute_exact() {
    let t = AttributeSpec::Exact("abc".to_string());
    assert!(t.matches("abc".to_string()));
    assert!(!t.matches("abcd".to_string()));
}
