use ao3fti::engine::get_attr;
use ao3fti::page::{Attr, Page, PageNode};
use ao3fti::selector::Selector;

fn select_all(page: &Page, text: &str) -> Vec<usize> {
    let sel = Selector::parse(text).unwrap();
    page.select(&sel)
}

#[test]
fn id_and_class_query() {
    let page = Page::parse("<div id=\"a b\"><p class=\"x\">Hi</p><p>There</p></div>");
    let hits = select_all(&page, "div#a .x");
    assert_eq!(hits.len(), 1);
    assert_eq!(page.text(hits[0]), "Hi");
    assert_eq!(page.attr(hits[0], "class"), Some("x".to_string()));
}

#[test]
fn direct_child_query_yields_elements_only() {
    let page = Page::parse("<div id=\"a b\"><p class=\"x\">Hi</p><p>There</p></div>");
    let hits = select_all(&page, "div > p");
    assert_eq!(hits.len(), 2);
    for h in &hits {
        assert_eq!(page.tag(*h), Some(&"p".to_string()));
    }
    let texts: Vec<String> = hits.iter().map(|h| page.text(*h)).collect();
    assert_eq!(texts, vec!["Hi".to_string(), "There".to_string()]);
}

#[test]
fn text_concatenates_descendants_in_document_order() {
    let page = Page::parse("<div>Hi<span> There</span></div>");
    let hits = select_all(&page, "div");
    assert_eq!(hits.len(), 1);
    assert_eq!(page.text(hits[0]), "Hi There");
}

#[test]
fn text_of_empty_element_is_empty_string() {
    let page = Page::parse("<div></div>");
    let hits = select_all(&page, "div");
    assert_eq!(page.text(hits[0]), "");
}

#[test]
fn multiple_id_tokens_all_required() {
    let page = Page::parse("<div id=\"a b\">x</div><div id=\"a\">y</div>");
    let both = select_all(&page, "#a#b");
    assert_eq!(both.len(), 1);
    assert_eq!(page.text(both[0]), "x");
}

#[test]
fn missing_attribute_never_fails_a_test() {
    // the [lang] test only rejects elements whose lang value fails it
    let page = Page::parse("<p lang=\"fr\">a</p><p>b</p>");
    let hits = select_all(&page, "p[lang=en]");
    let texts: Vec<String> = hits.iter().map(|h| page.text(*h)).collect();
    assert_eq!(texts, vec!["b".to_string()]);
}

#[test]
fn attribute_operator_queries() {
    let page = Page::parse(
        "<a href=\"http://x/file.pdf\">one</a><a href=\"ftp://y/file.txt\">two</a>",
    );
    let starts = select_all(&page, "a[href^=http]");
    assert_eq!(starts.len(), 1);
    assert_eq!(page.text(starts[0]), "one");
    // a `.` inside the operand would start a class segment, as the token
    // grammar reserves it, so the operand here stays free of one
    let ends = select_all(&page, "a[href$=txt]");
    assert_eq!(ends.len(), 1);
    assert_eq!(page.text(ends[0]), "two");
    let contains = select_all(&page, "a[href*=file]");
    assert_eq!(contains.len(), 2);
}

#[test]
fn results_follow_document_order() {
    // within a subtree an ancestor stands before its descendants
    let page = Page::parse("<div id=\"o\"><div id=\"i\">x</div></div>");
    let hits = select_all(&page, "div");
    assert_eq!(hits.len(), 2);
    assert_eq!(page.attr(hits[0], "id"), Some("o".to_string()));
    assert_eq!(page.attr(hits[1], "id"), Some("i".to_string()));
}

#[test]
fn select_from_searches_below_the_node() {
    let page = Page::parse("<ul><li><span>a</span></li><li><span>b</span></li></ul>");
    let items = select_all(&page, "li");
    assert_eq!(items.len(), 2);
    let sel = Selector::parse("span").unwrap();
    let inner = page.select_from(items[0], &sel);
    assert_eq!(inner.len(), 1);
    assert_eq!(page.text(inner[0]), "a");
}

#[test]
fn children_lists_element_children_only() {
    let page = Page::parse("<div>text<p>a</p>more<p>b</p></div>");
    let hits = select_all(&page, "div");
    let kids = page.children(hits[0]);
    assert_eq!(kids.len(), 2);
    assert_eq!(page.text(kids[0]), "a");
    assert_eq!(page.text(kids[1]), "b");
}

#[test]
fn inner_markup_serializes_children_only() {
    let page = Page::parse("<blockquote><p>Sum</p></blockquote>");
    let hits = select_all(&page, "blockquote");
    assert_eq!(page.inner_markup(hits[0]), "<p>Sum</p>");
}

#[test]
fn inner_markup_escapes_text_and_attributes() {
    let page = Page::parse("<div><p title=\"a&quot;b\">1 &amp; 2 &lt; 3</p></div>");
    let hits = select_all(&page, "div");
    assert_eq!(
        page.inner_markup(hits[0]),
        "<p title=\"a&quot;b\">1 &amp; 2 &lt; 3</p>",
    );
}

#[test]
fn duplicate_attribute_last_wins() {
    let attrs = vec![
        Attr { name: "id".to_string(), value: "first".to_string() },
        Attr { name: "lang".to_string(), value: "en".to_string() },
        Attr { name: "id".to_string(), value: "second".to_string() },
    ];
    assert_eq!(get_attr(&attrs, "id"), Some("second".to_string()));
    assert_eq!(get_attr(&attrs, "lang"), Some("en".to_string()));
    assert_eq!(get_attr(&attrs, "missing"), None);

    // the same rule drives element lookups and matching
    let page = Page {
        nodes: vec![PageNode::Element {
            tag: "div".to_string(),
            attrs,
            children: Vec::new(),
        }],
        roots: vec![0],
    };
    assert_eq!(page.attr(0, "id"), Some("second".to_string()));
    let sel = Selector::parse("#second").unwrap();
    assert_eq!(page.select(&sel).len(), 1);
    let first = Selector::parse("#first").unwrap();
    assert_eq!(page.select(&first).len(), 0);
}

#[test]
fn void_elements_serialize_without_end_tag() {
    let page = Page::parse("<div>a<br>b<img src=\"x\"></div>");
    let hits = select_all(&page, "div");
    assert_eq!(page.inner_markup(hits[0]), "a<br>b<img src=\"x\">");
}

#[test]
fn no_break_space_serializes_as_entity() {
    let page = Page::parse("<div><p title=\"a\u{a0}b\">x\u{a0}y</p></div>");
    let hits = select_all(&page, "div");
    assert_eq!(page.inner_markup(hits[0]), "<p title=\"a&nbsp;b\">x&nbsp;y</p>");
}

#[test]
fn raw_text_elements_serialize_unescaped() {
    let page = Page::parse("<div><style>a > b</style></div>");
    let hits = select_all(&page, "div");
    assert_eq!(page.inner_markup(hits[0]), "<style>a > b</style>");
}

#[test]
fn attr_on_text_node_is_none() {
    let page = Page::parse("<div>just text</div>");
    let hits = select_all(&page, "div");
    let n = page.node_count();
    assert!(n > 0);
    // the text node sits right after its parent in the arena
    assert_eq!(page.attr(hits[0], "missing"), None);
}
