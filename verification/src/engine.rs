//! Query execution: applying a compiled selector to a parsed page.
//!
//! Matchers apply left to right over a candidate set. An ordinary matcher
//! replaces the set by, for each candidate in order, the matches within the
//! candidate's subtree in document order, the candidate itself included. A
//! rescoping matcher replaces the set by all direct children and makes the
//! following matcher filter that set in place.

use vstd::prelude::*;

use crate::page::{node_children, wf_node_at, wf_nodes, Attr, Page, PageNode};
use crate::selector::{spec_attr_matches, Matcher, MatcherView, Selector};
use crate::strings::{seq_views, spec_split_ws, split_on_spaces, str_eq};

verus! {

/// The value of the named attribute, if any; with duplicate names the
/// last one wins.
pub open spec fn spec_get_attr(attrs: Seq<Attr>, name: Seq<char>) -> Option<Seq<char>>
    decreases attrs.len(),
{
    if attrs.len() == 0 {
        None
    } else if attrs.last().name@ == name {
        Some(attrs.last().value@)
    } else {
        spec_get_attr(attrs.drop_last(), name)
    }
}

/// Every needle occurs in the haystack.
pub open spec fn spec_any_eq(hay: Seq<Seq<char>>, x: Seq<char>) -> bool {
    exists|j: int| 0 <= j < hay.len() && hay[j] == x
}

pub open spec fn spec_all_in(needles: Seq<Seq<char>>, hay: Seq<Seq<char>>) -> bool {
    forall|i: int| 0 <= i < needles.len() ==> spec_any_eq(hay, #[trigger] needles[i])
}

/// Whether a matcher accepts an element with this tag and attribute list.
/// Id and class lists demand every listed token among the whitespace-split
/// attribute value; a listed attribute test fails only when the attribute is
/// present with a value that fails the test.
pub open spec fn spec_matcher_matches(m: MatcherView, tag: Seq<char>, attrs: Seq<Attr>) -> bool {
    let id_ok = match spec_get_attr(attrs, seq!['i', 'd']) {
        Some(v) => spec_all_in(m.id, spec_split_ws(v)),
        None => m.id.len() == 0,
    };
    let class_ok = match spec_get_attr(attrs, seq!['c', 'l', 'a', 's', 's']) {
        Some(v) => spec_all_in(m.class, spec_split_ws(v)),
        None => m.class.len() == 0,
    };
    let attr_ok = forall|j: int|
        0 <= j < m.attribute.len() ==> match spec_get_attr(
            attrs,
            (#[trigger] m.attribute[j]).0,
        ) {
            Some(v) => spec_attr_matches(m.attribute[j].1, v),
            None => true,
        };
    let tag_ok = m.tag.len() == 0 || spec_any_eq(m.tag, tag);
    tag_ok && id_ok && class_ok && attr_ok
}

/// Whether the node at `el` is an element the matcher accepts.
pub open spec fn spec_elem_matches(nodes: Seq<PageNode>, m: MatcherView, el: int) -> bool {
    match nodes[el] {
        PageNode::Element { tag, attrs, .. } => spec_matcher_matches(m, tag@, attrs@),
        PageNode::Text { .. } => false,
    }
}

/// Every handle is inside the arena.
pub open spec fn in_bounds(els: Seq<usize>, n: int) -> bool {
    forall|i: int| 0 <= i < els.len() ==> #[trigger] els[i] < n
}

/// The matches contributed by the subtree at `el`, in document order:
/// `el` itself when it matches, then each child's subtree in turn.
pub open spec fn spec_sub_results(nodes: Seq<PageNode>, m: MatcherView, el: int) -> Seq<usize>
    decreases nodes.len() - el, 1int, 0int,
        when wf_nodes(nodes) && 0 <= el < nodes.len()
    via spec_sub_results_decreases
{
    (if spec_elem_matches(nodes, m, el) {
        seq![el as usize]
    } else {
        Seq::empty()
    }) + spec_sub_kids(nodes, m, el, 0)
}

pub open spec fn spec_sub_kids(nodes: Seq<PageNode>, m: MatcherView, el: int, i: int) -> Seq<
    usize,
>
    decreases nodes.len() - el, 0int, node_children(nodes, el).len() - i,
        when wf_nodes(nodes) && 0 <= el < nodes.len() && 0 <= i
    via spec_sub_kids_decreases
{
    let kids = node_children(nodes, el);
    if i >= kids.len() {
        Seq::empty()
    } else {
        spec_sub_results(nodes, m, kids[i] as int) + spec_sub_kids(nodes, m, el, i + 1)
    }
}

#[via_fn]
proof fn spec_sub_results_decreases(nodes: Seq<PageNode>, m: MatcherView, el: int) {
}

#[via_fn]
proof fn spec_sub_kids_decreases(nodes: Seq<PageNode>, m: MatcherView, el: int, i: int) {
    assert(wf_node_at(nodes, el));
}

/// An ordinary matcher over a candidate list: each candidate contributes its
/// subtree's matches.
pub open spec fn spec_concat_subs(
    nodes: Seq<PageNode>,
    m: MatcherView,
    els: Seq<usize>,
    i: int,
) -> Seq<usize>
    decreases els.len() - i,
{
    if i < 0 || i >= els.len() {
        Seq::empty()
    } else {
        spec_sub_results(nodes, m, els[i] as int) + spec_concat_subs(nodes, m, els, i + 1)
    }
}

/// A matcher right after rescoping: the candidate list is filtered in place.
pub open spec fn spec_filter_direct(
    nodes: Seq<PageNode>,
    m: MatcherView,
    els: Seq<usize>,
    i: int,
) -> Seq<usize>
    decreases els.len() - i,
{
    if i < 0 || i >= els.len() {
        Seq::empty()
    } else {
        (if spec_elem_matches(nodes, m, els[i] as int) {
            seq![els[i]]
        } else {
            Seq::empty()
        }) + spec_filter_direct(nodes, m, els, i + 1)
    }
}

pub open spec fn spec_apply_matcher(
    nodes: Seq<PageNode>,
    m: MatcherView,
    els: Seq<usize>,
    direct: bool,
) -> Seq<usize> {
    if direct {
        spec_filter_direct(nodes, m, els, 0)
    } else {
        spec_concat_subs(nodes, m, els, 0)
    }
}

/// Rescoping: every candidate is replaced by its direct children, in order.
pub open spec fn spec_expand_children(nodes: Seq<PageNode>, els: Seq<usize>, i: int) -> Seq<usize>
    decreases els.len() - i,
{
    if i < 0 || i >= els.len() {
        Seq::empty()
    } else {
        node_children(nodes, els[i] as int) + spec_expand_children(nodes, els, i + 1)
    }
}

/// The whole query: matchers applied left to right from a candidate list.
pub open spec fn spec_find_rec(
    nodes: Seq<PageNode>,
    ms: Seq<MatcherView>,
    k: int,
    els: Seq<usize>,
    direct: bool,
) -> Seq<usize>
    decreases ms.len() - k,
{
    if k < 0 || k >= ms.len() {
        els
    } else if ms[k].direct_match {
        spec_find_rec(nodes, ms, k + 1, spec_expand_children(nodes, els, 0), true)
    } else {
        spec_find_rec(nodes, ms, k + 1, spec_apply_matcher(nodes, ms[k], els, direct), false)
    }
}

/// What a selector yields on a page, from the given starting candidates.
pub open spec fn spec_find(
    nodes: Seq<PageNode>,
    ms: Seq<MatcherView>,
    roots: Seq<usize>,
) -> Seq<usize> {
    spec_find_rec(nodes, ms, 0, roots, false)
}

/// The named attribute's value, cloned; the last duplicate wins.
pub fn get_attr(attrs: &Vec<Attr>, name: &str) -> (r: Option<String>)
    ensures
        match r {
            Some(v) => spec_get_attr(attrs@, name@) == Some(v@),
            None => spec_get_attr(attrs@, name@) is None,
        },
{
    let n = attrs.len();
    let mut j: usize = n;
    proof {
        assert(attrs@.take(n as int) =~= attrs@);
    }
    while j > 0
        invariant
            0 <= j <= n,
            n == attrs@.len(),
            spec_get_attr(attrs@, name@) == spec_get_attr(attrs@.take(j as int), name@),
        decreases j,
    {
        j = j - 1;
        proof {
            assert(attrs@.take(j + 1).drop_last() =~= attrs@.take(j as int));
            assert(attrs@.take(j + 1).last() == attrs@[j as int]);
        }
        if str_eq(attrs[j].name.as_str(), name) {
            return Some(attrs[j].value.clone());
        }
    }
    proof {
        assert(attrs@.take(0) =~= Seq::<Attr>::empty());
    }
    None
}

/// Whether `x` occurs among the views of `hay`.
fn any_eq(hay: &Vec<String>, x: &str) -> (r: bool)
    ensures
        r == spec_any_eq(seq_views(hay@), x@),
{
    let n = hay.len();
    let mut i: usize = 0;
    while i < n
        invariant
            0 <= i <= n,
            n == hay@.len(),
            forall|j: int| 0 <= j < i ==> seq_views(hay@)[j] != x@,
        decreases n - i,
    {
        proof {
            assert(seq_views(hay@)[i as int] == hay@[i as int]@);
        }
        if str_eq(hay[i].as_str(), x) {
            return true;
        }
        i = i + 1;
    }
    false
}

/// Whether every needle occurs in the haystack.
fn all_present(needles: &Vec<String>, hay: &Vec<String>) -> (r: bool)
    ensures
        r == spec_all_in(seq_views(needles@), seq_views(hay@)),
{
    let n = needles.len();
    let mut i: usize = 0;
    while i < n
        invariant
            0 <= i <= n,
            n == needles@.len(),
            forall|j: int|
                0 <= j < i ==> spec_any_eq(seq_views(hay@), #[trigger] seq_views(needles@)[j]),
        decreases n - i,
    {
        proof {
            assert(seq_views(needles@)[i as int] == needles@[i as int]@);
        }
        if !any_eq(hay, needles[i].as_str()) {
            return false;
        }
        i = i + 1;
    }
    true
}

impl Matcher {
    /// Whether this matcher accepts an element with the given tag and
    /// attribute list.
    pub fn matches(&self, tag: &str, attrs: &Vec<Attr>) -> (r: bool)
        ensures
            r == spec_matcher_matches(self@, tag@, attrs@),
    {
        proof {
            reveal_strlit("id");
            reveal_strlit("class");
            assert("id"@ =~= seq!['i', 'd']);
            assert("class"@ =~= seq!['c', 'l', 'a', 's', 's']);
        }
        let id_ok: bool = match get_attr(attrs, "id") {
            Some(v) => {
                let toks = split_on_spaces(v.as_str());
                all_present(&self.id, &toks)
            },
            None => self.id.len() == 0,
        };
        let class_ok: bool = match get_attr(attrs, "class") {
            Some(v) => {
                let toks = split_on_spaces(v.as_str());
                all_present(&self.class, &toks)
            },
            None => self.class.len() == 0,
        };
        let mut attr_ok = true;
        let an = self.attribute.len();
        let mut j: usize = 0;
        while j < an && attr_ok
            invariant
                0 <= j <= an,
                an == self.attribute@.len(),
                attr_ok ==> forall|t: int|
                    0 <= t < j ==> match spec_get_attr(
                        attrs@,
                        (#[trigger] self@.attribute[t]).0,
                    ) {
                        Some(v) => spec_attr_matches(self@.attribute[t].1, v),
                        None => true,
                    },
                !attr_ok ==> exists|t: int|
                    0 <= t < j && match spec_get_attr(
                        attrs@,
                        (#[trigger] self@.attribute[t]).0,
                    ) {
                        Some(v) => !spec_attr_matches(self@.attribute[t].1, v),
                        None => false,
                    },
            decreases an - j,
        {
            proof {
                assert(self@.attribute[j as int].0 == self.attribute@[j as int].0@);
                assert(self@.attribute[j as int].1 == self.attribute@[j as int].1@);
            }
            let pair = &self.attribute[j];
            if let Some(value) = get_attr(attrs, pair.0.as_str()) {
                if !pair.1.matches(value) {
                    attr_ok = false;
                }
            }
            j = j + 1;
        }
        let tag_ok: bool = self.tag.len() == 0 || any_eq(&self.tag, tag);
        tag_ok && id_ok && class_ok && attr_ok
    }
}

impl Page {
    /// The matches contributed by the subtree at `el`, per `spec_sub_results`.
    fn sub_results(&self, m: &Matcher, el: usize) -> (r: Vec<usize>)
        requires
            self.wf(),
            el < self.nodes@.len(),
        ensures
            r@ == spec_sub_results(self.nodes@, m@, el as int),
            in_bounds(r@, self.nodes@.len() as int),
        decreases self.nodes@.len() - el,
    {
        let ghost nodes = self.nodes@;
        let mut acc: Vec<usize> = Vec::new();
        match &self.nodes[el] {
            PageNode::Text { .. } => {
                proof {
                    assert(node_children(nodes, el as int).len() == 0);
                    assert(acc@ =~= spec_sub_results(nodes, m@, el as int));
                }
                acc
            },
            PageNode::Element { tag, attrs, children } => {
                let ghost own = if spec_elem_matches(nodes, m@, el as int) {
                    seq![el]
                } else {
                    Seq::<usize>::empty()
                };
                if m.matches(tag.as_str(), attrs) {
                    acc.push(el);
                }
                proof {
                    assert(acc@ =~= own);
                }
                let n = children.len();
                let mut i: usize = 0;
                while i < n
                    invariant
                        0 <= i <= n,
                        self.wf(),
                        nodes == self.nodes@,
                        el < nodes.len(),
                        nodes[el as int] matches PageNode::Element { children: ch, .. }
                            && ch@ == children@,
                        n == children@.len(),
                        acc@ + spec_sub_kids(nodes, m@, el as int, i as int) == own
                            + spec_sub_kids(nodes, m@, el as int, 0),
                        in_bounds(acc@, nodes.len() as int),
                    decreases n - i,
                {
                    proof {
                        assert(wf_node_at(nodes, el as int));
                        assert(node_children(nodes, el as int) == children@);
                    }
                    let ghost before = acc@;
                    let c = children[i];
                    let mut part = self.sub_results(m, c);
                    proof {
                        assert((before + part@) + spec_sub_kids(nodes, m@, el as int, i + 1) =~=
                        before + spec_sub_kids(nodes, m@, el as int, i as int));
                    }
                    acc.append(&mut part);
                    i = i + 1;
                }
                proof {
                    assert(spec_sub_kids(nodes, m@, el as int, n as int) =~= Seq::<usize>::empty());
                    assert(acc@ =~= own + spec_sub_kids(nodes, m@, el as int, 0));
                    assert(acc@ =~= spec_sub_results(nodes, m@, el as int));
                }
                acc
            },
        }
    }

    /// Whether the node at `el` is an element this matcher accepts.
    fn elem_matches(&self, m: &Matcher, el: usize) -> (r: bool)
        requires
            self.wf(),
            el < self.nodes@.len(),
        ensures
            r == spec_elem_matches(self.nodes@, m@, el as int),
    {
        match &self.nodes[el] {
            PageNode::Element { tag, attrs, .. } => m.matches(tag.as_str(), attrs),
            PageNode::Text { .. } => false,
        }
    }

    /// One matcher applied over the candidate list.
    fn apply_matcher(&self, m: &Matcher, els: &Vec<usize>, direct: bool) -> (r: Vec<usize>)
        requires
            self.wf(),
            in_bounds(els@, self.nodes@.len() as int),
        ensures
            r@ == spec_apply_matcher(self.nodes@, m@, els@, direct),
            in_bounds(r@, self.nodes@.len() as int),
    {
        let ghost nodes = self.nodes@;
        let mut acc: Vec<usize> = Vec::new();
        let n = els.len();
        let mut i: usize = 0;
        if direct {
            while i < n
                invariant
                    0 <= i <= n,
                    direct,
                    self.wf(),
                    nodes == self.nodes@,
                    n == els@.len(),
                    in_bounds(els@, nodes.len() as int),
                    acc@ + spec_filter_direct(nodes, m@, els@, i as int) == spec_filter_direct(
                        nodes,
                        m@,
                        els@,
                        0,
                    ),
                    in_bounds(acc@, nodes.len() as int),
                decreases n - i,
            {
                let ghost before = acc@;
                let e = els[i];
                if self.elem_matches(m, e) {
                    proof {
                        assert((before + seq![e]) + spec_filter_direct(nodes, m@, els@, i + 1) =~=
                        before + spec_filter_direct(nodes, m@, els@, i as int));
                    }
                    acc.push(e);
                } else {
                    proof {
                        assert(before + spec_filter_direct(nodes, m@, els@, i + 1) =~= before
                            + spec_filter_direct(nodes, m@, els@, i as int));
                    }
                }
                i = i + 1;
            }
            proof {
                assert(spec_filter_direct(nodes, m@, els@, n as int) =~= Seq::<usize>::empty());
                assert(acc@ =~= spec_filter_direct(nodes, m@, els@, 0));
            }
        } else {
            while i < n
                invariant
                    0 <= i <= n,
                    !direct,
                    self.wf(),
                    nodes == self.nodes@,
                    n == els@.len(),
                    in_bounds(els@, nodes.len() as int),
                    acc@ + spec_concat_subs(nodes, m@, els@, i as int) == spec_concat_subs(
                        nodes,
                        m@,
                        els@,
                        0,
                    ),
                    in_bounds(acc@, nodes.len() as int),
                decreases n - i,
            {
                let ghost before = acc@;
                let e = els[i];
                let mut part = self.sub_results(m, e);
                proof {
                    assert((before + part@) + spec_concat_subs(nodes, m@, els@, i + 1) =~= before
                        + spec_concat_subs(nodes, m@, els@, i as int));
                }
                acc.append(&mut part);
                i = i + 1;
            }
            proof {
                assert(spec_concat_subs(nodes, m@, els@, n as int) =~= Seq::<usize>::empty());
                assert(acc@ =~= spec_concat_subs(nodes, m@, els@, 0));
            }
        }
        acc
    }

    /// All direct children of every candidate, in order.
    fn expand_children(&self, els: &Vec<usize>) -> (r: Vec<usize>)
        requires
            self.wf(),
            in_bounds(els@, self.nodes@.len() as int),
        ensures
            r@ == spec_expand_children(self.nodes@, els@, 0),
            in_bounds(r@, self.nodes@.len() as int),
    {
        let ghost nodes = self.nodes@;
        let mut acc: Vec<usize> = Vec::new();
        let n = els.len();
        let mut i: usize = 0;
        while i < n
            invariant
                0 <= i <= n,
                self.wf(),
                nodes == self.nodes@,
                n == els@.len(),
                in_bounds(els@, nodes.len() as int),
                acc@ + spec_expand_children(nodes, els@, i as int) == spec_expand_children(
                    nodes,
                    els@,
                    0,
                ),
                in_bounds(acc@, nodes.len() as int),
            decreases n - i,
        {
            let ghost before = acc@;
            let e = els[i];
            proof {
                assert(wf_node_at(nodes, e as int));
            }
            match &self.nodes[e] {
                PageNode::Element { children, .. } => {
                    let mut part = children.clone();
                    proof {
                        assert(node_children(nodes, e as int) == children@);
                        assert((before + part@) + spec_expand_children(nodes, els@, i + 1) =~=
                        before + spec_expand_children(nodes, els@, i as int));
                    }
                    acc.append(&mut part);
                },
                PageNode::Text { .. } => {
                    proof {
                        assert(node_children(nodes, e as int) =~= Seq::<usize>::empty());
                        assert(before + spec_expand_children(nodes, els@, i + 1) =~= before
                            + spec_expand_children(nodes, els@, i as int));
                    }
                },
            }
            i = i + 1;
        }
        proof {
            assert(spec_expand_children(nodes, els@, n as int) =~= Seq::<usize>::empty());
            assert(acc@ =~= spec_expand_children(nodes, els@, 0));
        }
        acc
    }

    /// Runs a query from the given starting candidates.
    fn run_query(&self, sel: &Selector, init: Vec<usize>) -> (r: Vec<usize>)
        requires
            self.wf(),
            in_bounds(init@, self.nodes@.len() as int),
        ensures
            r@ == spec_find(self.nodes@, sel@, init@),
            in_bounds(r@, self.nodes@.len() as int),
    {
        let ghost nodes = self.nodes@;
        let ghost ms = sel@;
        let mut els = init;
        let mut direct = false;
        let n = sel.matchers.len();
        let mut k: usize = 0;
        while k < n
            invariant
                0 <= k <= n,
                self.wf(),
                nodes == self.nodes@,
                ms == sel@,
                n == sel.matchers@.len(),
                in_bounds(els@, nodes.len() as int),
                spec_find(nodes, ms, init@) == spec_find_rec(
                    nodes,
                    ms,
                    k as int,
                    els@,
                    direct,
                ),
            decreases n - k,
        {
            proof {
                assert(ms[k as int] == sel.matchers@[k as int]@);
            }
            let matcher = &sel.matchers[k];
            if matcher.direct_match {
                els = self.expand_children(&els);
                direct = true;
            } else {
                els = self.apply_matcher(matcher, &els, direct);
                direct = false;
            }
            k = k + 1;
        }
        els
    }

    /// All nodes the selector yields, searching from the page roots.
    pub fn select(&self, sel: &Selector) -> (r: Vec<usize>)
        requires
            self.wf(),
        ensures
            r@ == spec_find(self.nodes@, sel@, self.roots@),
            in_bounds(r@, self.nodes@.len() as int),
    {
        let init = self.roots.clone();
        self.run_query(sel, init)
    }

    /// All nodes the selector yields, searching below the node at `el`.
    pub fn select_from(&self, el: usize, sel: &Selector) -> (r: Vec<usize>)
        requires
            self.wf(),
            el < self.nodes@.len(),
        ensures
            r@ == spec_find(self.nodes@, sel@, node_children(self.nodes@, el as int)),
            in_bounds(r@, self.nodes@.len() as int),
    {
        proof {
            assert(wf_node_at(self.nodes@, el as int));
        }
        let init = match &self.nodes[el] {
            PageNode::Element { children, .. } => children.clone(),
            PageNode::Text { .. } => Vec::new(),
        };
        proof {
            assert(init@ =~= node_children(self.nodes@, el as int));
        }
        self.run_query(sel, init)
    }

    /// The value of the named attribute on an element node.
    pub fn attr(&self, el: usize, name: &str) -> (r: Option<String>)
        requires
            el < self.nodes@.len(),
        ensures
            match self.nodes@[el as int] {
                PageNode::Element { attrs, .. } => match r {
                    Some(v) => spec_get_attr(attrs@, name@) == Some(v@),
                    None => spec_get_attr(attrs@, name@) is None,
                },
                PageNode::Text { .. } => r is None,
            },
    {
        match &self.nodes[el] {
            PageNode::Element { attrs, .. } => get_attr(attrs, name),
            PageNode::Text { .. } => None,
        }
    }
}

/// The element children of a node, text children dropped.
pub open spec fn spec_elem_kids(nodes: Seq<PageNode>, el: int, i: int) -> Seq<usize>
    decreases node_children(nodes, el).len() - i,
{
    let kids = node_children(nodes, el);
    if i < 0 || i >= kids.len() {
        Seq::empty()
    } else {
        (if 0 <= kids[i] < nodes.len() && nodes[kids[i] as int] is Element {
            seq![kids[i]]
        } else {
            Seq::empty()
        }) + spec_elem_kids(nodes, el, i + 1)
    }
}

impl Page {
    /// The element children of the node at `el`, in order.
    pub fn children(&self, el: usize) -> (r: Vec<usize>)
        requires
            self.wf(),
            el < self.nodes@.len(),
        ensures
            r@ == spec_elem_kids(self.nodes@, el as int, 0),
            in_bounds(r@, self.nodes@.len() as int),
    {
        let ghost nodes = self.nodes@;
        let mut acc: Vec<usize> = Vec::new();
        match &self.nodes[el] {
            PageNode::Text { .. } => {
                proof {
                    assert(node_children(nodes, el as int).len() == 0);
                    assert(acc@ =~= spec_elem_kids(nodes, el as int, 0));
                }
            },
            PageNode::Element { children, .. } => {
                let n = children.len();
                let mut i: usize = 0;
                while i < n
                    invariant
                        0 <= i <= n,
                        self.wf(),
                        nodes == self.nodes@,
                        el < nodes.len(),
                        nodes[el as int] matches PageNode::Element { children: ch, .. }
                            && ch@ == children@,
                        n == children@.len(),
                        acc@ + spec_elem_kids(nodes, el as int, i as int) == spec_elem_kids(
                            nodes,
                            el as int,
                            0,
                        ),
                        in_bounds(acc@, nodes.len() as int),
                    decreases n - i,
                {
                    proof {
                        assert(wf_node_at(nodes, el as int));
                        assert(node_children(nodes, el as int) == children@);
                    }
                    let ghost before = acc@;
                    let c = children[i];
                    let is_elem = match &self.nodes[c] {
                        PageNode::Element { .. } => true,
                        PageNode::Text { .. } => false,
                    };
                    if is_elem {
                        proof {
                            assert((before + seq![c]) + spec_elem_kids(nodes, el as int, i + 1)
                                =~= before + spec_elem_kids(nodes, el as int, i as int));
                        }
                        acc.push(c);
                    } else {
                        proof {
                            assert(before + spec_elem_kids(nodes, el as int, i + 1) =~= before
                                + spec_elem_kids(nodes, el as int, i as int));
                        }
                    }
                    i = i + 1;
                }
                proof {
                    assert(spec_elem_kids(nodes, el as int, n as int) =~= Seq::<usize>::empty());
                    assert(acc@ =~= spec_elem_kids(nodes, el as int, 0));
                }
            },
        }
        acc
    }
}

} // verus!
