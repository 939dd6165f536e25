use std::marker::PhantomData;

use ao3fti::models::{Entity, Rating, Story};
use ao3fti::strings::{
    parse_usize, split_on_char, split_on_spaces, str_contains, str_ends_with, str_starts_with,
    string_trim, string_trim_end, string_trim_start, trim_quotes, u64_to_string,
};
use ao3fti::timer::TimerTree;
use ao3fti::verbose::{
    level_enum, level_value, ErrorLevel, InfoLevel, Level, LevelFilter, Verbosity, WarnLevel,
};
use ao3fti::{default_database, default_index, Conf, ADULT_COOKIE, USER_AGENT};

#[test]
fn trimming() {
    let mut s = "  padded \t".to_string();
    string_trim(&mut s);
    assert_eq!(s, "padded");

    let mut s = "  lead".to_string();
    string_trim_start(&mut s);
    assert_eq!(s, "lead");

    let mut s = "tail  ".to_string();
    string_trim_end(&mut s);
    assert_eq!(s, "tail");

    let mut s = "   ".to_string();
    string_trim(&mut s);
    assert_eq!(s, "");

    // the whole White_Space set counts, not just the ASCII part
    let mut s = "\u{a0}\u{2003}padded\u{a0}".to_string();
    string_trim(&mut s);
    assert_eq!(s, "padded");
}

#[test]
fn substring_tests() {
    assert!(str_contains("xabcx", "abc"));
    assert!(!str_contains("ab", "abc"));
    assert!(str_contains("anything", ""));
    assert!(str_starts_with("abcx", "abc"));
    assert!(!str_starts_with("xabc", "abc"));
    assert!(str_ends_with("xabc", "abc"));
    assert!(!str_ends_with("abcx", "abc"));
}

#[test]
fn splitting() {
    let ws: Vec<String> = split_on_spaces("  a  bb\tc ");
    assert_eq!(ws, vec!["a".to_string(), "bb".to_string(), "c".to_string()]);
    let nb: Vec<String> = split_on_spaces("a\u{a0}b");
    assert_eq!(nb, vec!["a".to_string(), "b".to_string()]);
    assert!(split_on_spaces("   ").is_empty());

    let eq: Vec<String> = split_on_char("a=b=c", '=');
    assert_eq!(eq, vec!["a".to_string(), "b".to_string(), "c".to_string()]);
    let empty: Vec<String> = split_on_char("", '=');
    assert_eq!(empty, vec!["".to_string()]);
    let trailing: Vec<String> = split_on_char("a=", '=');
    assert_eq!(trailing, vec!["a".to_string(), "".to_string()]);
}

#[test]
fn quote_trimming() {
    assert_eq!(trim_quotes("\"author\""), "author");
    assert_eq!(trim_quotes("plain"), "plain");
    assert_eq!(trim_quotes("\"\"\"x\"\""), "x");
}

#[test]
fn number_parsing() {
    assert_eq!(parse_usize("123"), Some(123));
    assert_eq!(parse_usize("0"), Some(0));
    assert_eq!(parse_usize(""), None);
    assert_eq!(parse_usize("12a"), None);
    assert_eq!(parse_usize("+1"), None);
    assert_eq!(parse_usize("18446744073709551615"), Some(usize::MAX));
    assert_eq!(parse_usize("18446744073709551616"), None);
}

#[test]
fn number_rendering() {
    assert_eq!(u64_to_string(0), "0");
    assert_eq!(u64_to_string(120), "120");
    assert_eq!(u64_to_string(u64::MAX), "18446744073709551615");
}

#[test]
fn rating_labels_and_slugs() {
    assert_eq!(Rating::from_label("Explicit"), Some(Rating::Explicit));
    assert_eq!(Rating::from_label("Mature"), Some(Rating::Mature));
    assert_eq!(Rating::from_label("Teen And Up Audiences"), Some(Rating::Teen));
    assert_eq!(Rating::from_label("General Audiences"), Some(Rating::General));
    assert_eq!(Rating::from_label("Not Rated"), Some(Rating::NotRated));
    assert_eq!(Rating::from_label("whatever"), None);

    assert_eq!(Rating::Explicit.as_slug(), "explicit");
    assert_eq!(Rating::Mature.as_slug(), "mature");
    assert_eq!(Rating::Teen.as_slug(), "teen");
    assert_eq!(Rating::General.as_slug(), "general");
    assert_eq!(Rating::NotRated.as_slug(), "not-rated");
    assert_eq!(Rating::Unknown.as_slug(), "unknown");
}

#[test]
fn verbosity_levels() {
    assert_eq!(level_value(None), -1);
    assert_eq!(level_value(Some(Level::Error)), 0);
    assert_eq!(level_value(Some(Level::Trace)), 4);
    assert_eq!(level_enum(-3), None);
    assert_eq!(level_enum(0), Some(Level::Error));
    assert_eq!(level_enum(2), Some(Level::Info));
    assert_eq!(level_enum(9), Some(Level::Trace));
}

#[test]
fn verbosity_flag_counts_pick_the_filter() {
    let v: Verbosity<ErrorLevel> = Verbosity { verbose: 2, quiet: 0, phantom: PhantomData };
    assert_eq!(v.verbosity(), 2);
    assert_eq!(v.log_level_filter(), LevelFilter::Info);

    let q: Verbosity<ErrorLevel> = Verbosity { verbose: 0, quiet: 1, phantom: PhantomData };
    assert_eq!(q.log_level_filter(), LevelFilter::Off);

    let i: Verbosity<InfoLevel> = Verbosity { verbose: 0, quiet: 0, phantom: PhantomData };
    assert_eq!(i.log_level_filter(), LevelFilter::Info);

    let w: Verbosity<WarnLevel> = Verbosity { verbose: 0, quiet: 0, phantom: PhantomData };
    assert_eq!(w.log_level_filter(), LevelFilter::Warn);
}

#[test]
fn story_model_holds_its_entities() {
    let story = Story {
        id: 9,
        name: "N".to_string(),
        summary: "<p></p>".to_string(),
        authors: vec![Entity { name: "Ada".to_string() }],
        origins: Vec::new(),
        warnings: Vec::new(),
        pairings: Vec::new(),
        characters: Vec::new(),
        generals: Vec::new(),
    };
    assert_eq!(story.authors[0].name, "Ada");
    assert_eq!(story.id, 9);
}

#[test]
fn timer_records_closed_subtasks() {
    let mut tree = TimerTree::new();
    let outer = tree.open("search");
    let inner = outer.open("fetching docs");
    assert_eq!(inner.depth, 1);
    tree.close(inner);
    tree.close(outer);
    assert_eq!(tree.timings.len(), 2);
    assert_eq!(tree.timings[0].name, "fetching docs");
    assert_eq!(tree.timings[1].name, "search");
    assert_eq!(tree.timings[1].depth, 0);
    assert_eq!(tree.total_time(), tree.timings[1].duration);
}

#[test]
fn configuration_defaults() {
    let conf = Conf { database: default_database(), index: default_index() };
    assert_eq!(conf.database, "ao3fti.db");
    assert_eq!(conf.index, "./index");
    assert!(USER_AGENT.contains("Mozilla"));
    assert!(USER_AGENT.contains("aoooftis/"));
    assert_eq!(ADULT_COOKIE, "view_adult=true");
}
