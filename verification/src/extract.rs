//! Extraction rules: where on a page the listing entries, story links,
//! pagination, download affordance, story info and tag metadata live.
//! The selector texts are fixed; they are compiled from these constants
//! only, never from untrusted input.

use vstd::prelude::*;

use crate::engine::{spec_elem_kids, spec_find, spec_get_attr};
use crate::errors::CrawlError;
use crate::models::{spec_rating_from_label, Info, Meta, Rating};
use crate::page::{spec_markup_kids, spec_text_of, Page, PageNode};
use crate::selector::{spec_selector, MatcherView, Selector};
use crate::strings::{spec_trim, string_trim};

verus! {

pub const LIST_SELECTOR: &'static str =
    "html > body > #outer > #inner > #main > ol.work.index.group > li";

pub const INFO_SELECTOR: &'static str = ".header.module > h4.heading > a";

pub const NEXT_SELECTOR: &'static str =
    "html > body > #outer > #inner > #main > ol.pagination.actions > li > a[rel=next]";

pub const RESTRICTED_SELECTOR: &'static str =
    "div.header.module > h4.heading > img[alt=(Restricted)])";

pub const CHAPTERS_SELECTOR: &'static str = "#chapters > .userstuff";

pub const STORY_MULTI_DOWNLOAD: &'static str =
    "html > body > #outer > #inner > #main > .work > .navigation.actions > .download > ul > li > a";

pub const STORY_SINGLE_DOWNLOAD: &'static str =
    "html > body > #outer > #inner > #main > .work.navigation.actions > .download > ul > li > a";

pub const STORY_NAME: &'static str = "html > body > #preface > .meta > h1";

pub const STORY_AUTHOR: &'static str =
    "html > body > #preface > .meta > .byline > a[rel=\"author\"]";

pub const STORY_SUMMARY: &'static str = "html > body > #preface > .meta > blockquote";

pub const META_TAGS_DT: &'static str = "html > body > #preface > .meta > .tags > dt";

pub const META_TAGS_DF: &'static str = "html > body > #preface > .meta > .tags > dd";

/// The matcher list a fixed selector text compiles to, where it is well
/// formed (every fixed text above is).
pub open spec fn sel_of(text: &str) -> Seq<MatcherView> {
    spec_selector(text@)->Some_0
}

/// The entries of a listing page, one handle per story row.
pub fn listing_entries(page: &Page) -> (r: Result<Vec<usize>, CrawlError>)
    requires
        page.wf(),
    ensures
        match r {
            Ok(els) => spec_selector(LIST_SELECTOR@) is Some && els@ == spec_find(
                page.nodes@,
                sel_of(LIST_SELECTOR),
                page.roots@,
            ) && crate::engine::in_bounds(els@, page.nodes@.len() as int),
            Err(e) => e is BadSelector && spec_selector(LIST_SELECTOR@) is None,
        },
{
    match Selector::parse(LIST_SELECTOR) {
        Some(sel) => Ok(page.select(&sel)),
        None => Err(CrawlError::BadSelector),
    }
}

/// Whether a listing entry is flagged access-restricted.
pub fn entry_is_restricted(page: &Page, entry: usize) -> (r: Result<bool, CrawlError>)
    requires
        page.wf(),
        entry < page.nodes@.len(),
    ensures
        match r {
            Ok(b) => spec_selector(RESTRICTED_SELECTOR@) is Some && b == (spec_find(
                page.nodes@,
                sel_of(RESTRICTED_SELECTOR),
                crate::page::node_children(page.nodes@, entry as int),
            ).len() > 0),
            Err(e) => e is BadSelector && spec_selector(RESTRICTED_SELECTOR@) is None,
        },
{
    match Selector::parse(RESTRICTED_SELECTOR) {
        Some(sel) => {
            let found = page.select_from(entry, &sel);
            Ok(found.len() > 0)
        },
        None => Err(CrawlError::BadSelector),
    }
}

/// The story link of a listing entry: the `href` of its first heading link,
/// with the adult-view flag appended. Fails when the entry has no link or
/// the link has no `href`.
pub fn entry_story_link(page: &Page, entry: usize, page_url: &String) -> (r: Result<
    String,
    CrawlError,
>)
    requires
        page.wf(),
        entry < page.nodes@.len(),
    ensures
        ({
            let found = spec_find(
                page.nodes@,
                sel_of(INFO_SELECTOR),
                crate::page::node_children(page.nodes@, entry as int),
            );
            match r {
                Ok(link) => spec_selector(INFO_SELECTOR@) is Some && found.len() > 0 && (
                match page.nodes@[found[0] as int] {
                    PageNode::Element { attrs, .. } => spec_get_attr(attrs@, "href"@) matches Some(
                        h,
                    ) && link@ == h + "?view_adult=true"@,
                    PageNode::Text { .. } => false,
                }),
                Err(e) => (e is BadSelector && spec_selector(INFO_SELECTOR@) is None) || (
                e matches CrawlError::NoStoryLink { page: p } && spec_selector(
                    INFO_SELECTOR@,
                ) is Some && found.len() == 0 && p@ == page_url@) || (
                e matches CrawlError::NoHref { page: p } && spec_selector(INFO_SELECTOR@) is Some
                    && found.len() > 0 && p@ == page_url@ && (match page.nodes@[found[0] as int] {
                    PageNode::Element { attrs, .. } => spec_get_attr(attrs@, "href"@) is None,
                    PageNode::Text { .. } => true,
                })),
            }
        }),
{
    let sel = match Selector::parse(INFO_SELECTOR) {
        Some(sel) => sel,
        None => {
            return Err(CrawlError::BadSelector);
        },
    };
    let found = page.select_from(entry, &sel);
    if found.len() == 0 {
        return Err(CrawlError::NoStoryLink { page: page_url.clone() });
    }
    let first = found[0];
    match page.attr(first, "href") {
        Some(href) => {
            let mut link = href.clone();
            link.append("?view_adult=true");
            Ok(link)
        },
        None => Err(CrawlError::NoHref { page: page_url.clone() }),
    }
}

/// The next-page link: the last match of the pagination selector, taken only
/// when its visible text is exactly the next-page marker and it carries an
/// `href`; anything else ends the crawl without error.
pub fn next_page_url(page: &Page) -> (r: Result<Option<String>, CrawlError>)
    requires
        page.wf(),
    ensures
        ({
            let found = spec_find(page.nodes@, sel_of(NEXT_SELECTOR), page.roots@);
            match r {
                Ok(opt) => spec_selector(NEXT_SELECTOR@) is Some && (match opt {
                    Some(link) => found.len() > 0 && spec_text_of(
                        page.nodes@,
                        found.last() as int,
                    ) == ("Next \u{2192}")@ && (match page.nodes@[found.last() as int] {
                        PageNode::Element { attrs, .. } => spec_get_attr(
                            attrs@,
                            "href"@,
                        ) == Some(link@),
                        PageNode::Text { .. } => false,
                    }),
                    None => found.len() == 0 || spec_text_of(page.nodes@, found.last() as int)
                        != ("Next \u{2192}")@ || (match page.nodes@[found.last() as int] {
                        PageNode::Element { attrs, .. } => spec_get_attr(attrs@, "href"@) is None,
                        PageNode::Text { .. } => true,
                    }),
                }),
                Err(e) => e is BadSelector && spec_selector(NEXT_SELECTOR@) is None,
            }
        }),
{
    let sel = match Selector::parse(NEXT_SELECTOR) {
        Some(sel) => sel,
        None => {
            return Err(CrawlError::BadSelector);
        },
    };
    let found = page.select(&sel);
    if found.len() == 0 {
        return Ok(None);
    }
    let last = found[found.len() - 1];
    let text = page.text(last);
    if !crate::strings::str_eq(text.as_str(), "Next \u{2192}") {
        return Ok(None);
    }
    match page.attr(last, "href") {
        Some(href) => Ok(Some(href)),
        None => Ok(None),
    }
}

/// The download link of a story page: the last match of the multi-chapter
/// selector, or, when that finds nothing, of the single-chapter selector.
/// When neither finds anything the raw markup rides along in the error so
/// the caller can persist it for offline debugging.
pub fn find_download_url(page: &Page, story_url: &String, markup: &String) -> (r: Result<
    String,
    CrawlError,
>)
    requires
        page.wf(),
    ensures
        ({
            let multi = spec_find(page.nodes@, sel_of(STORY_MULTI_DOWNLOAD), page.roots@);
            let single = spec_find(page.nodes@, sel_of(STORY_SINGLE_DOWNLOAD), page.roots@);
            let chosen = if multi.len() > 0 {
                multi
            } else {
                single
            };
            let selectors_ok = spec_selector(STORY_MULTI_DOWNLOAD@) is Some && spec_selector(
                STORY_SINGLE_DOWNLOAD@,
            ) is Some;
            match r {
                Ok(href) => selectors_ok && chosen.len() > 0 && (
                match page.nodes@[chosen.last() as int] {
                    PageNode::Element { attrs, .. } => spec_get_attr(attrs@, "href"@) == Some(
                        href@,
                    ),
                    PageNode::Text { .. } => false,
                }),
                Err(e) => (e is BadSelector && (spec_selector(STORY_MULTI_DOWNLOAD@) is None
                    || spec_selector(STORY_SINGLE_DOWNLOAD@) is None)) || (
                e matches CrawlError::NoDownloadLink { url, markup: m } && selectors_ok
                    && chosen.len() == 0 && url@ == story_url@ && m@ == markup@) || (
                e matches CrawlError::NoHref { page: p } && selectors_ok && chosen.len() > 0
                    && p@ == story_url@ && (match page.nodes@[chosen.last() as int] {
                    PageNode::Element { attrs, .. } => spec_get_attr(attrs@, "href"@) is None,
                    PageNode::Text { .. } => true,
                })),
            }
        }),
{
    let multi_sel = match Selector::parse(STORY_MULTI_DOWNLOAD) {
        Some(sel) => sel,
        None => {
            return Err(CrawlError::BadSelector);
        },
    };
    let single_sel = match Selector::parse(STORY_SINGLE_DOWNLOAD) {
        Some(sel) => sel,
        None => {
            return Err(CrawlError::BadSelector);
        },
    };
    let multi = page.select(&multi_sel);
    let chosen = if multi.len() > 0 {
        multi
    } else {
        page.select(&single_sel)
    };
    if chosen.len() == 0 {
        return Err(CrawlError::NoDownloadLink { url: story_url.clone(), markup: markup.clone() });
    }
    let last = chosen[chosen.len() - 1];
    match page.attr(last, "href") {
        Some(href) => Ok(href),
        None => Err(CrawlError::NoHref { page: story_url.clone() }),
    }
}

/// The chapter bodies of a download page, in document order.
pub fn chapter_nodes(page: &Page) -> (r: Result<Vec<usize>, CrawlError>)
    requires
        page.wf(),
    ensures
        match r {
            Ok(els) => spec_selector(CHAPTERS_SELECTOR@) is Some && els@ == spec_find(
                page.nodes@,
                sel_of(CHAPTERS_SELECTOR),
                page.roots@,
            ) && crate::engine::in_bounds(els@, page.nodes@.len() as int),
            Err(e) => e is BadSelector && spec_selector(CHAPTERS_SELECTOR@) is None,
        },
{
    match Selector::parse(CHAPTERS_SELECTOR) {
        Some(sel) => Ok(page.select(&sel)),
        None => Err(CrawlError::BadSelector),
    }
}

} // verus!

verus! {

/// The story info of a download page: the first name match trimmed, every
/// author's trimmed text, and the summary block's inner markup (a fixed
/// empty paragraph when absent). Fails when no name is found.
pub fn get_story_info(page: &Page, story_url: &String) -> (r: Result<Info, CrawlError>)
    requires
        page.wf(),
    ensures
        ({
            let names = spec_find(page.nodes@, sel_of(STORY_NAME), page.roots@);
            let authors = spec_find(page.nodes@, sel_of(STORY_AUTHOR), page.roots@);
            let summaries = spec_find(page.nodes@, sel_of(STORY_SUMMARY), page.roots@);
            let sels_ok = spec_selector(STORY_NAME@) is Some && spec_selector(
                STORY_AUTHOR@,
            ) is Some && spec_selector(STORY_SUMMARY@) is Some;
            match r {
                Ok(info) => sels_ok && names.len() > 0 && info.name@ == spec_trim(
                    spec_text_of(page.nodes@, names[0] as int),
                ) && info.authors@.len() == authors.len() && (forall|j: int|
                    0 <= j < authors.len() ==> (#[trigger] info.authors@[j])@ == spec_trim(
                        spec_text_of(page.nodes@, authors[j] as int),
                    )) && (if summaries.len() > 0 {
                    info.summary@ == spec_markup_kids(page.nodes@, summaries[0] as int, 0)
                } else {
                    info.summary@ == "<p></p>"@
                }),
                Err(e) => (e is BadSelector && !sels_ok) || (e matches CrawlError::NoName {
                    url,
                } && sels_ok && names.len() == 0 && url@ == story_url@),
            }
        }),
{
    let name_sel = match Selector::parse(STORY_NAME) {
        Some(sel) => sel,
        None => {
            return Err(CrawlError::BadSelector);
        },
    };
    let author_sel = match Selector::parse(STORY_AUTHOR) {
        Some(sel) => sel,
        None => {
            return Err(CrawlError::BadSelector);
        },
    };
    let summary_sel = match Selector::parse(STORY_SUMMARY) {
        Some(sel) => sel,
        None => {
            return Err(CrawlError::BadSelector);
        },
    };
    let names = page.select(&name_sel);
    if names.len() == 0 {
        return Err(CrawlError::NoName { url: story_url.clone() });
    }
    let mut name = page.text(names[0]);
    string_trim(&mut name);
    let author_els = page.select(&author_sel);
    let ghost author_handles = author_els@;
    let mut authors: Vec<String> = Vec::new();
    let an = author_els.len();
    let mut i: usize = 0;
    while i < an
        invariant
            0 <= i <= an,
            page.wf(),
            an == author_handles.len(),
            author_els@ == author_handles,
            crate::engine::in_bounds(author_handles, page.nodes@.len() as int),
            authors@.len() == i,
            forall|j: int|
                0 <= j < i ==> (#[trigger] authors@[j])@ == spec_trim(
                    spec_text_of(page.nodes@, author_handles[j] as int),
                ),
        decreases an - i,
    {
        let mut t = page.text(author_els[i]);
        string_trim(&mut t);
        authors.push(t);
        i = i + 1;
    }
    let summaries = page.select(&summary_sel);
    let summary = if summaries.len() > 0 {
        page.inner_markup(summaries[0])
    } else {
        String::from_str("<p></p>")
    };
    Ok(Info { name, authors, summary })
}

/// Spec-level form of the tag metadata.
#[verifier::ext_equal]
pub ghost struct MetaView {
    pub rating: Rating,
    pub categories: Seq<Seq<char>>,
    pub origins: Seq<Seq<char>>,
    pub warnings: Seq<Seq<char>>,
    pub pairings: Seq<Seq<char>>,
    pub characters: Seq<Seq<char>>,
    pub generals: Seq<Seq<char>>,
}

pub open spec fn meta_view(m: Meta) -> MetaView {
    MetaView {
        rating: m.rating,
        categories: crate::strings::seq_views(m.categories@),
        origins: crate::strings::seq_views(m.origins@),
        warnings: crate::strings::seq_views(m.warnings@),
        pairings: crate::strings::seq_views(m.pairings@),
        characters: crate::strings::seq_views(m.characters@),
        generals: crate::strings::seq_views(m.generals@),
    }
}

pub open spec fn spec_empty_meta() -> MetaView {
    MetaView {
        rating: Rating::Unknown,
        categories: Seq::empty(),
        origins: Seq::empty(),
        warnings: Seq::empty(),
        pairings: Seq::empty(),
        characters: Seq::empty(),
        generals: Seq::empty(),
    }
}

/// The texts of the listed nodes, in order.
pub open spec fn spec_kid_texts(nodes: Seq<PageNode>, kids: Seq<usize>, i: int) -> Seq<Seq<char>>
    decreases kids.len() - i,
{
    if i < 0 || i >= kids.len() {
        Seq::empty()
    } else {
        seq![spec_text_of(nodes, kids[i] as int)] + spec_kid_texts(nodes, kids, i + 1)
    }
}

/// What one detail row adds to the metadata: the trimmed name routes to a
/// fixed destination list, `Rating:` goes through the label table against
/// the first child's trimmed text, and unrecognised names are ignored.
pub open spec fn spec_meta_step(nodes: Seq<PageNode>, dt: usize, dd: usize, acc: MetaView)
    -> MetaView {
    let label = spec_trim(spec_text_of(nodes, dt as int));
    let kids = spec_elem_kids(nodes, dd as int, 0);
    let texts = spec_kid_texts(nodes, kids, 0);
    if label == "Rating:"@ {
        if kids.len() > 0 {
            match spec_rating_from_label(spec_trim(spec_text_of(nodes, kids[0] as int))) {
                Some(rt) => MetaView { rating: rt, ..acc },
                None => acc,
            }
        } else {
            acc
        }
    } else if label == "Archive Warning:"@ {
        MetaView { warnings: acc.warnings + texts, ..acc }
    } else if label == "Category:"@ {
        MetaView { categories: acc.categories + texts, ..acc }
    } else if label == "Fandom:"@ {
        MetaView { origins: acc.origins + texts, ..acc }
    } else if label == "Relationship:"@ {
        MetaView { pairings: acc.pairings + texts, ..acc }
    } else if label == "Character:"@ {
        MetaView { characters: acc.characters + texts, ..acc }
    } else if label == "Additional Tags:"@ {
        MetaView { generals: acc.generals + texts, ..acc }
    } else {
        acc
    }
}

/// The detail rows folded in order, name and definition zipped by position;
/// the shorter side ends the zip.
pub open spec fn spec_meta_fold(
    nodes: Seq<PageNode>,
    dts: Seq<usize>,
    dds: Seq<usize>,
    i: int,
    acc: MetaView,
) -> MetaView
    decreases dts.len() - i,
{
    if 0 <= i < dts.len() && i < dds.len() {
        spec_meta_fold(nodes, dts, dds, i + 1, spec_meta_step(nodes, dts[i], dds[i], acc))
    } else {
        acc
    }
}

/// Appends the text of each listed node.
fn push_kid_texts(page: &Page, kids: &Vec<usize>, out: &mut Vec<String>)
    requires
        page.wf(),
        crate::engine::in_bounds(kids@, page.nodes@.len() as int),
    ensures
        crate::strings::seq_views(final(out)@) == crate::strings::seq_views(old(out)@)
            + spec_kid_texts(page.nodes@, kids@, 0),
{
    let n = kids.len();
    let mut i: usize = 0;
    proof {
        assert(crate::strings::seq_views(out@) + spec_kid_texts(page.nodes@, kids@, 0)
            =~~= crate::strings::seq_views(old(out)@) + spec_kid_texts(page.nodes@, kids@, 0));
    }
    while i < n
        invariant
            0 <= i <= n,
            page.wf(),
            n == kids@.len(),
            crate::engine::in_bounds(kids@, page.nodes@.len() as int),
            crate::strings::seq_views(out@) + spec_kid_texts(page.nodes@, kids@, i as int)
                =~~= crate::strings::seq_views(old(out)@) + spec_kid_texts(
                page.nodes@,
                kids@,
                0,
            ),
        decreases n - i,
    {
        let ghost before = crate::strings::seq_views(out@);
        let t = page.text(kids[i]);
        proof {
            assert(crate::strings::seq_views(out@.push(t)) =~~= before + seq![t@]);
            assert((before + seq![t@]) + spec_kid_texts(page.nodes@, kids@, i + 1) =~~= before
                + spec_kid_texts(page.nodes@, kids@, i as int));
        }
        out.push(t);
        i = i + 1;
    }
    proof {
        assert(spec_kid_texts(page.nodes@, kids@, n as int) =~~= Seq::<Seq<char>>::empty());
        assert(crate::strings::seq_views(out@) + spec_kid_texts(page.nodes@, kids@, n as int)
            =~~= crate::strings::seq_views(out@));
    }
}

/// The tag metadata of a download page, per `spec_meta_fold` over the
/// detail-name and detail-definition rows.
pub fn get_story_meta(page: &Page) -> (m: Meta)
    requires
        page.wf(),
    ensures
        ({
            let dts = spec_find(page.nodes@, sel_of(META_TAGS_DT), page.roots@);
            let dds = spec_find(page.nodes@, sel_of(META_TAGS_DF), page.roots@);
            if spec_selector(META_TAGS_DT@) is Some && spec_selector(META_TAGS_DF@) is Some {
                meta_view(m) == spec_meta_fold(page.nodes@, dts, dds, 0, spec_empty_meta())
            } else {
                meta_view(m) == spec_empty_meta()
            }
        }),
{
    let mut meta = Meta {
        rating: Rating::Unknown,
        categories: Vec::new(),
        origins: Vec::new(),
        warnings: Vec::new(),
        pairings: Vec::new(),
        characters: Vec::new(),
        generals: Vec::new(),
    };
    proof {
        assert(meta_view(meta) =~~= spec_empty_meta());
    }
    let dt_sel = match Selector::parse(META_TAGS_DT) {
        Some(sel) => sel,
        None => {
            return meta;
        },
    };
    let dd_sel = match Selector::parse(META_TAGS_DF) {
        Some(sel) => sel,
        None => {
            return meta;
        },
    };
    let dts = page.select(&dt_sel);
    let dds = page.select(&dd_sel);
    let n = if dts.len() < dds.len() {
        dts.len()
    } else {
        dds.len()
    };
    let ghost goal = spec_meta_fold(page.nodes@, dts@, dds@, 0, spec_empty_meta());
    let mut i: usize = 0;
    while i < n
        invariant
            0 <= i <= n,
            page.wf(),
            n == (if dts@.len() < dds@.len() {
                dts@.len()
            } else {
                dds@.len()
            }),
            crate::engine::in_bounds(dts@, page.nodes@.len() as int),
            crate::engine::in_bounds(dds@, page.nodes@.len() as int),
            goal == spec_meta_fold(page.nodes@, dts@, dds@, i as int, meta_view(meta)),
        decreases n - i,
    {
        let ghost acc0 = meta_view(meta);
        let dt = dts[i];
        let dd = dds[i];
        let mut label = page.text(dt);
        string_trim(&mut label);
        let kids = page.children(dd);
        if crate::strings::str_eq(label.as_str(), "Rating:") {
            if kids.len() > 0 {
                let mut t = page.text(kids[0]);
                string_trim(&mut t);
                match Rating::from_label(t.as_str()) {
                    Some(rt) => {
                        meta.rating = rt;
                    },
                    None => {},
                }
            }
            proof {
                assert(meta_view(meta) =~~= spec_meta_step(page.nodes@, dt, dd, acc0));
            }
        } else if crate::strings::str_eq(label.as_str(), "Archive Warning:") {
            push_kid_texts(page, &kids, &mut meta.warnings);
            proof {
                assert(meta_view(meta) =~~= spec_meta_step(page.nodes@, dt, dd, acc0));
            }
        } else if crate::strings::str_eq(label.as_str(), "Category:") {
            push_kid_texts(page, &kids, &mut meta.categories);
            proof {
                assert(meta_view(meta) =~~= spec_meta_step(page.nodes@, dt, dd, acc0));
            }
        } else if crate::strings::str_eq(label.as_str(), "Fandom:") {
            push_kid_texts(page, &kids, &mut meta.origins);
            proof {
                assert(meta_view(meta) =~~= spec_meta_step(page.nodes@, dt, dd, acc0));
            }
        } else if crate::strings::str_eq(label.as_str(), "Relationship:") {
            push_kid_texts(page, &kids, &mut meta.pairings);
            proof {
                assert(meta_view(meta) =~~= spec_meta_step(page.nodes@, dt, dd, acc0));
            }
        } else if crate::strings::str_eq(label.as_str(), "Character:") {
            push_kid_texts(page, &kids, &mut meta.characters);
            proof {
                assert(meta_view(meta) =~~= spec_meta_step(page.nodes@, dt, dd, acc0));
            }
        } else if crate::strings::str_eq(label.as_str(), "Additional Tags:") {
            push_kid_texts(page, &kids, &mut meta.generals);
            proof {
                assert(meta_view(meta) =~~= spec_meta_step(page.nodes@, dt, dd, acc0));
            }
        } else {
            proof {
                assert(meta_view(meta) =~~= spec_meta_step(page.nodes@, dt, dd, acc0));
            }
        }
        i = i + 1;
    }
    meta
}

} // verus!

verus! {

/// Every fixed selector text compiles. This always holds (the texts are
/// constants of the grammar); the contracts that depend on the compiled
/// selectors carry it as a hypothesis.
pub open spec fn fixed_selectors_ok() -> bool {
    &&& spec_selector(LIST_SELECTOR@) is Some
    &&& spec_selector(INFO_SELECTOR@) is Some
    &&& spec_selector(NEXT_SELECTOR@) is Some
    &&& spec_selector(RESTRICTED_SELECTOR@) is Some
    &&& spec_selector(CHAPTERS_SELECTOR@) is Some
    &&& spec_selector(STORY_MULTI_DOWNLOAD@) is Some
    &&& spec_selector(STORY_SINGLE_DOWNLOAD@) is Some
    &&& spec_selector(STORY_NAME@) is Some
    &&& spec_selector(STORY_AUTHOR@) is Some
    &&& spec_selector(STORY_SUMMARY@) is Some
    &&& spec_selector(META_TAGS_DT@) is Some
    &&& spec_selector(META_TAGS_DF@) is Some
}

/// Compiles every fixed selector text and reports whether all of them
/// lie in the grammar. A `true` result is evidence for
/// `fixed_selectors_ok`, the hypothesis the crawl contracts are
/// conditioned on; the texts are constants, so the result never changes,
/// and it is `true`. (Proving that unconditionally would need the grammar
/// evaluated on the literals inside the logic, which is out of reach
/// here; a caller obtains the fact by one call.)
pub fn check_fixed_selectors() -> (r: bool)
    ensures
        r ==> fixed_selectors_ok(),
{
    let mut ok = Selector::parse(LIST_SELECTOR).is_some();
    ok = ok && Selector::parse(INFO_SELECTOR).is_some();
    ok = ok && Selector::parse(NEXT_SELECTOR).is_some();
    ok = ok && Selector::parse(RESTRICTED_SELECTOR).is_some();
    ok = ok && Selector::parse(CHAPTERS_SELECTOR).is_some();
    ok = ok && Selector::parse(STORY_MULTI_DOWNLOAD).is_some();
    ok = ok && Selector::parse(STORY_SINGLE_DOWNLOAD).is_some();
    ok = ok && Selector::parse(STORY_NAME).is_some();
    ok = ok && Selector::parse(STORY_AUTHOR).is_some();
    ok = ok && Selector::parse(STORY_SUMMARY).is_some();
    ok = ok && Selector::parse(META_TAGS_DT).is_some();
    ok = ok && Selector::parse(META_TAGS_DF).is_some();
    ok
}

/// Whether a listing entry is flagged access-restricted, at spec level.
pub open spec fn spec_entry_restricted(nodes: Seq<PageNode>, entry: usize) -> bool {
    spec_find(
        nodes,
        sel_of(RESTRICTED_SELECTOR),
        crate::page::node_children(nodes, entry as int),
    ).len() > 0
}

/// The story link of a listing entry, adult flag appended; nothing when the
/// entry has no heading link or the link has no `href`.
pub open spec fn spec_entry_link(nodes: Seq<PageNode>, entry: usize) -> Option<Seq<char>> {
    let found = spec_find(
        nodes,
        sel_of(INFO_SELECTOR),
        crate::page::node_children(nodes, entry as int),
    );
    if found.len() == 0 {
        None
    } else {
        match nodes[found[0] as int] {
            PageNode::Element { attrs, .. } => match spec_get_attr(attrs@, "href"@) {
                Some(h) => Some(h + "?view_adult=true"@),
                None => None,
            },
            PageNode::Text { .. } => None,
        }
    }
}

/// The story links of a listing, restricted entries skipped, in order;
/// nothing when some unrestricted entry yields no link (the fatal case).
pub open spec fn spec_listing_links(nodes: Seq<PageNode>, entries: Seq<usize>, i: int) -> Option<
    Seq<Seq<char>>,
>
    decreases entries.len() - i,
{
    if i < 0 || i >= entries.len() {
        Some(Seq::empty())
    } else if spec_entry_restricted(nodes, entries[i]) {
        spec_listing_links(nodes, entries, i + 1)
    } else {
        match spec_entry_link(nodes, entries[i]) {
            Some(l) => match spec_listing_links(nodes, entries, i + 1) {
                Some(rest) => Some(seq![l] + rest),
                None => None,
            },
            None => None,
        }
    }
}

/// The next-page link of a listing, at spec level: the last pagination
/// match, taken only with the exact marker text and an `href`.
pub open spec fn spec_next_link(nodes: Seq<PageNode>, roots: Seq<usize>) -> Option<Seq<char>> {
    let found = spec_find(nodes, sel_of(NEXT_SELECTOR), roots);
    if found.len() == 0 {
        None
    } else if spec_text_of(nodes, found.last() as int) != ("Next \u{2192}")@ {
        None
    } else {
        match nodes[found.last() as int] {
            PageNode::Element { attrs, .. } => spec_get_attr(attrs@, "href"@),
            PageNode::Text { .. } => None,
        }
    }
}

/// The download link of a story page, at spec level: the last match of the
/// multi-chapter layout, else of the single-chapter layout.
pub open spec fn spec_download_href(nodes: Seq<PageNode>, roots: Seq<usize>) -> Option<Seq<char>> {
    let multi = spec_find(nodes, sel_of(STORY_MULTI_DOWNLOAD), roots);
    let single = spec_find(nodes, sel_of(STORY_SINGLE_DOWNLOAD), roots);
    let chosen = if multi.len() > 0 {
        multi
    } else {
        single
    };
    if chosen.len() == 0 {
        None
    } else {
        match nodes[chosen.last() as int] {
            PageNode::Element { attrs, .. } => spec_get_attr(attrs@, "href"@),
            PageNode::Text { .. } => None,
        }
    }
}

/// The download page carries a story name.
pub open spec fn spec_has_name(nodes: Seq<PageNode>, roots: Seq<usize>) -> bool {
    spec_find(nodes, sel_of(STORY_NAME), roots).len() > 0
}

/// `info` is exactly the story info of the page: first name match trimmed,
/// every author's trimmed text, the summary block's inner markup or the
/// fixed empty paragraph.
pub open spec fn spec_info_matches(nodes: Seq<PageNode>, roots: Seq<usize>, info: Info) -> bool {
    let names = spec_find(nodes, sel_of(STORY_NAME), roots);
    let authors = spec_find(nodes, sel_of(STORY_AUTHOR), roots);
    let summaries = spec_find(nodes, sel_of(STORY_SUMMARY), roots);
    &&& names.len() > 0
    &&& info.name@ == spec_trim(spec_text_of(nodes, names[0] as int))
    &&& info.authors@.len() == authors.len()
    &&& forall|j: int|
        0 <= j < authors.len() ==> (#[trigger] info.authors@[j])@ == spec_trim(
            spec_text_of(nodes, authors[j] as int),
        )
    &&& if summaries.len() > 0 {
        info.summary@ == spec_markup_kids(nodes, summaries[0] as int, 0)
    } else {
        info.summary@ == "<p></p>"@
    }
}

/// `meta` is exactly the tag metadata of the page.
pub open spec fn spec_meta_matches(nodes: Seq<PageNode>, roots: Seq<usize>, meta: Meta) -> bool {
    let dts = spec_find(nodes, sel_of(META_TAGS_DT), roots);
    let dds = spec_find(nodes, sel_of(META_TAGS_DF), roots);
    meta_view(meta) == spec_meta_fold(nodes, dts, dds, 0, spec_empty_meta())
}

} // verus!
