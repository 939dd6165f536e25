//! A parsed page: an arena of nodes addressed by dense indices. Children
//! always carry larger indices than their parent (preorder numbering), so
//! traversals terminate and document order within a subtree is index order.

use vstd::prelude::*;

use html5ever::tendril::TendrilSink;

verus! {

/// One attribute of an element, as parsed.
#[derive(Debug, Clone, PartialEq, Eq)]
pub struct Attr {
    pub name: String,
    pub value: String,
}

/// One node of a parsed page.
#[derive(Debug, Clone)]
pub enum PageNode {
    Element { tag: String, attrs: Vec<Attr>, children: Vec<usize> },
    Text { content: String },
}

/// A parsed page. Query results are indices into `nodes`.
#[derive(Debug)]
pub struct Page {
    pub nodes: Vec<PageNode>,
    pub roots: Vec<usize>,
}

/// The children index list of a node; empty for text nodes.
pub open spec fn node_children(nodes: Seq<PageNode>, el: int) -> Seq<usize> {
    match nodes[el] {
        PageNode::Element { children, .. } => children@,
        PageNode::Text { .. } => Seq::empty(),
    }
}

/// Node `i` only points at nodes after itself and inside the arena.
pub open spec fn wf_node_at(nodes: Seq<PageNode>, i: int) -> bool {
    match nodes[i] {
        PageNode::Element { children, .. } => forall|j: int|
            0 <= j < children@.len() ==> i < #[trigger] children@[j] < nodes.len(),
        PageNode::Text { .. } => true,
    }
}

pub open spec fn wf_nodes(nodes: Seq<PageNode>) -> bool {
    forall|i: int| 0 <= i < nodes.len() ==> #[trigger] wf_node_at(nodes, i)
}

impl Page {
    /// The arena is well formed: every child link goes forward, and every
    /// root is in bounds.
    pub open spec fn wf(self) -> bool {
        &&& wf_nodes(self.nodes@)
        &&& forall|j: int| 0 <= j < self.roots@.len() ==> self.roots@[j] < self.nodes@.len()
    }

    /// Parses markup into an arena, per `dom_of`. Parsing never fails: the
    /// parser repairs malformed input as browsers do.
    pub fn parse(input: &str) -> (p: Page)
        ensures
            p.wf(),
            (p.nodes@, p.roots@) == dom_of(input@),
    {
        parse_markup(input)
    }

    pub fn node_count(&self) -> (n: usize)
        ensures
            n == self.nodes@.len(),
    {
        self.nodes.len()
    }

    pub fn root_handles(&self) -> (r: Vec<usize>)
        ensures
            r@ == self.roots@,
    {
        self.roots.clone()
    }

    /// The tag of an element node; `None` for a text node.
    pub fn tag(&self, el: usize) -> (r: Option<&String>)
        requires
            el < self.nodes@.len(),
        ensures
            match r {
                Some(t) => self.nodes@[el as int] matches PageNode::Element { tag, .. }
                    && t@ == tag@,
                None => self.nodes@[el as int] is Text,
            },
    {
        match &self.nodes[el] {
            PageNode::Element { tag, .. } => Some(tag),
            PageNode::Text { .. } => None,
        }
    }
}

/// What the browser-grade parser yields on a markup text: the arena nodes
/// and the root handles. The parse depends on the text alone, so naming it
/// lets callers' contracts speak of what a fetched page contains.
pub uninterp spec fn dom_of(s: Seq<char>) -> (Seq<PageNode>, Seq<usize>);

/// A DOM node of markup5ever_arcdom, opaque to the verifier; the copy
/// functions below read it only inside trusted bodies.
#[verifier::external_type_specification]
#[verifier::external_body]
pub struct ExDomNode(markup5ever_arcdom::Node);

/// Relies on html5ever's `parse_document` driving `markup5ever_arcdom::ArcDom`
/// to parse markup as a browser would; the tree is then copied into the arena
/// in preorder, which establishes the forward-pointing well-formedness below.
#[verifier::external_body]
fn parse_markup(input: &str) -> (p: Page)
    ensures
        p.wf(),
        (p.nodes@, p.roots@) == dom_of(input@),
{
    let mut tb = html5ever::tree_builder::TreeBuilderOpts::default();
    tb.drop_doctype = true;
    let opts = html5ever::driver::ParseOpts { tree_builder: tb, ..Default::default() };
    let mut nodes: Vec<PageNode> = Vec::new();
    let mut roots: Vec<usize> = Vec::new();
    let parser = html5ever::parse_document(markup5ever_arcdom::ArcDom::default(), opts);
    if let Ok(dom) = parser.from_utf8().read_from(&mut input.as_bytes()) {
        for child in dom.document.children.borrow().iter() {
            if let Some(h) = copy_node(&mut nodes, child) {
                roots.push(h);
            }
        }
    }
    Page { nodes, roots }
}

/// Relies on `markup5ever_arcdom::NodeData` to tell node kinds apart: element
/// and text nodes are copied into the arena, other kinds are dropped.
#[verifier::external_body]
fn copy_node(
    nodes: &mut Vec<PageNode>,
    handle: &std::sync::Arc<markup5ever_arcdom::Node>,
) -> (h: Option<usize>)
    ensures
        final(nodes)@.len() >= old(nodes)@.len(),
        forall|i: int| 0 <= i < old(nodes)@.len() ==> final(nodes)@[i] == old(nodes)@[i],
        match h {
            Some(idx) => old(nodes)@.len() <= idx < final(nodes)@.len(),
            None => final(nodes)@ == old(nodes)@,
        },
{
    match &handle.data {
        markup5ever_arcdom::NodeData::Element { .. } => Some(copy_element(nodes, handle)),
        markup5ever_arcdom::NodeData::Text { contents } => {
            nodes.push(PageNode::Text { content: contents.borrow().to_string() });
            Some(nodes.len() - 1)
        },
        _ => None,
    }
}

/// Relies on the element's attribute list: each attribute's local name and
/// value are copied out as plain strings, in order.
#[verifier::external_body]
fn copy_attrs(handle: &std::sync::Arc<markup5ever_arcdom::Node>) -> (r: Vec<Attr>) {
    let mut list: Vec<Attr> = Vec::new();
    if let markup5ever_arcdom::NodeData::Element { attrs, .. } = &handle.data {
        for a in attrs.borrow().iter() {
            list.push(Attr { name: a.name.local.to_string(), value: a.value.to_string() });
        }
    }
    list
}

/// Relies on the same node data to copy one element: its local tag name, its
/// attributes' local names and values, and, recursively, its children. The
/// body is total: a handle of any other kind (which `copy_node` never
/// passes) becomes an empty text node, so the contract holds of every
/// handle.
#[verifier::external_body]
fn copy_element(
    nodes: &mut Vec<PageNode>,
    handle: &std::sync::Arc<markup5ever_arcdom::Node>,
) -> (h: usize)
    ensures
        final(nodes)@.len() > old(nodes)@.len(),
        forall|i: int| 0 <= i < old(nodes)@.len() ==> final(nodes)@[i] == old(nodes)@[i],
        h == old(nodes)@.len(),
{
    let idx = nodes.len();
    if let markup5ever_arcdom::NodeData::Element { name, .. } = &handle.data {
        let list = copy_attrs(handle);
        nodes.push(PageNode::Element { tag: name.local.to_string(), attrs: list, children: Vec::new() });
    } else {
        nodes.push(PageNode::Text { content: String::new() });
    }
    let mut children: Vec<usize> = Vec::new();
    for child in handle.children.borrow().iter() {
        if let Some(c) = copy_node(nodes, child) { children.push(c); }
    }
    if let PageNode::Element { children: slot, .. } = &mut nodes[idx] { *slot = children; }
    idx
}

} // verus!

verus! {

/// All text below a node, in document order: text children contribute their
/// content, element children contribute their own text, recursively.
pub open spec fn spec_text_of(nodes: Seq<PageNode>, el: int) -> Seq<char>
    decreases nodes.len() - el, 1int, 0int,
        when wf_nodes(nodes) && 0 <= el < nodes.len()
    via spec_text_of_decreases
{
    spec_text_kids(nodes, el, 0)
}

pub open spec fn spec_text_kids(nodes: Seq<PageNode>, el: int, i: int) -> Seq<char>
    decreases nodes.len() - el, 0int, node_children(nodes, el).len() - i,
        when wf_nodes(nodes) && 0 <= el < nodes.len() && 0 <= i
    via spec_text_kids_decreases
{
    let kids = node_children(nodes, el);
    if i >= kids.len() {
        Seq::empty()
    } else {
        let c = kids[i] as int;
        let piece = match nodes[c] {
            PageNode::Text { content } => content@,
            PageNode::Element { .. } => spec_text_of(nodes, c),
        };
        piece + spec_text_kids(nodes, el, i + 1)
    }
}

#[via_fn]
proof fn spec_text_of_decreases(nodes: Seq<PageNode>, el: int) {
}

#[via_fn]
proof fn spec_text_kids_decreases(nodes: Seq<PageNode>, el: int, i: int) {
    assert(wf_node_at(nodes, el));
}

impl Page {
    /// Concatenated descendant text, per `spec_text_of`.
    pub fn text(&self, el: usize) -> (r: String)
        requires
            self.wf(),
            el < self.nodes@.len(),
        ensures
            r@ == spec_text_of(self.nodes@, el as int),
        decreases self.nodes@.len() - el,
    {
        let ghost nodes = self.nodes@;
        let mut out = String::new();
        match &self.nodes[el] {
            PageNode::Text { .. } => {
                proof {
                    assert(node_children(nodes, el as int).len() == 0);
                    assert(out@ =~= spec_text_of(nodes, el as int));
                }
            },
            PageNode::Element { children, .. } => {
                let n = children.len();
                let mut i: usize = 0;
                while i < n
                    invariant
                        0 <= i <= n,
                        self.wf(),
                        nodes == self.nodes@,
                        el < nodes.len(),
                        nodes[el as int] matches PageNode::Element { children: ch, .. }
                            && ch@ == children@,
                        n == children@.len(),
                        spec_text_of(nodes, el as int) == out@ + spec_text_kids(
                            nodes,
                            el as int,
                            i as int,
                        ),
                    decreases n - i,
                {
                    proof {
                        assert(wf_node_at(nodes, el as int));
                        assert(node_children(nodes, el as int) == children@);
                    }
                    let c = children[i];
                    match &self.nodes[c] {
                        PageNode::Text { content } => {
                            proof {
                                assert(out@ + (content@ + spec_text_kids(
                                    nodes,
                                    el as int,
                                    i + 1,
                                )) =~= (out@ + content@) + spec_text_kids(nodes, el as int, i + 1));
                            }
                            out.append(content.as_str());
                        },
                        PageNode::Element { .. } => {
                            let t = self.text(c);
                            proof {
                                assert(out@ + (t@ + spec_text_kids(nodes, el as int, i + 1)) =~= (
                                out@ + t@) + spec_text_kids(nodes, el as int, i + 1));
                            }
                            out.append(t.as_str());
                        },
                    }
                    i = i + 1;
                }
                proof {
                    assert(spec_text_kids(nodes, el as int, n as int) =~= Seq::<char>::empty());
                    assert(out@ + Seq::<char>::empty() =~= out@);
                }
            },
        }
        out
    }
}

} // verus!

verus! {

/// Escaping for text content, as pages serialize it: `&`, no-break space,
/// `<` and `>` become entities.
pub open spec fn esc_text_char(c: char) -> Seq<char> {
    if c == '&' {
        seq!['&', 'a', 'm', 'p', ';']
    } else if c == '\u{a0}' {
        seq!['&', 'n', 'b', 's', 'p', ';']
    } else if c == '<' {
        seq!['&', 'l', 't', ';']
    } else if c == '>' {
        seq!['&', 'g', 't', ';']
    } else {
        seq![c]
    }
}

pub open spec fn spec_escape_text(s: Seq<char>) -> Seq<char>
    decreases s.len(),
{
    if s.len() == 0 {
        Seq::empty()
    } else {
        esc_text_char(s[0]) + spec_escape_text(s.drop_first())
    }
}

/// Escaping for attribute values: `&`, no-break space and `"` become
/// entities.
pub open spec fn esc_attr_char(c: char) -> Seq<char> {
    if c == '&' {
        seq!['&', 'a', 'm', 'p', ';']
    } else if c == '\u{a0}' {
        seq!['&', 'n', 'b', 's', 'p', ';']
    } else if c == '"' {
        seq!['&', 'q', 'u', 'o', 't', ';']
    } else {
        seq![c]
    }
}

pub open spec fn spec_escape_attr(s: Seq<char>) -> Seq<char>
    decreases s.len(),
{
    if s.len() == 0 {
        Seq::empty()
    } else {
        esc_attr_char(s[0]) + spec_escape_attr(s.drop_first())
    }
}

proof fn lemma_escape_text_snoc(s: Seq<char>, c: char)
    ensures
        spec_escape_text(s.push(c)) =~= spec_escape_text(s) + esc_text_char(c),
    decreases s.len(),
{
    let t = s.push(c);
    assert(spec_escape_text(t) == esc_text_char(t[0]) + spec_escape_text(t.drop_first()));
    if s.len() == 0 {
        assert(t.drop_first() =~= Seq::<char>::empty());
        assert(t[0] == c);
        assert(esc_text_char(c) + spec_escape_text(Seq::<char>::empty()) =~= esc_text_char(c));
        assert(spec_escape_text(s) + esc_text_char(c) =~= esc_text_char(c));
    } else {
        assert(t.drop_first() =~= s.drop_first().push(c));
        assert(t[0] == s[0]);
        lemma_escape_text_snoc(s.drop_first(), c);
        assert(esc_text_char(s[0]) + (spec_escape_text(s.drop_first()) + esc_text_char(c)) =~= (
        esc_text_char(s[0]) + spec_escape_text(s.drop_first())) + esc_text_char(c));
    }
}

proof fn lemma_escape_attr_snoc(s: Seq<char>, c: char)
    ensures
        spec_escape_attr(s.push(c)) =~= spec_escape_attr(s) + esc_attr_char(c),
    decreases s.len(),
{
    let t = s.push(c);
    assert(spec_escape_attr(t) == esc_attr_char(t[0]) + spec_escape_attr(t.drop_first()));
    if s.len() == 0 {
        assert(t.drop_first() =~= Seq::<char>::empty());
        assert(t[0] == c);
        assert(esc_attr_char(c) + spec_escape_attr(Seq::<char>::empty()) =~= esc_attr_char(c));
        assert(spec_escape_attr(s) + esc_attr_char(c) =~= esc_attr_char(c));
    } else {
        assert(t.drop_first() =~= s.drop_first().push(c));
        assert(t[0] == s[0]);
        lemma_escape_attr_snoc(s.drop_first(), c);
        assert(esc_attr_char(s[0]) + (spec_escape_attr(s.drop_first()) + esc_attr_char(c)) =~= (
        esc_attr_char(s[0]) + spec_escape_attr(s.drop_first())) + esc_attr_char(c));
    }
}

/// A void element: serialized as its start tag alone, children and end tag
/// left out.
pub open spec fn spec_is_void_tag(t: Seq<char>) -> bool {
    t == "area"@ || t == "base"@ || t == "basefont"@ || t == "bgsound"@ || t == "br"@ || t
        == "col"@ || t == "embed"@ || t == "frame"@ || t == "hr"@ || t == "img"@ || t
        == "input"@ || t == "keygen"@ || t == "link"@ || t == "meta"@ || t == "param"@ || t
        == "source"@ || t == "track"@ || t == "wbr"@
}

/// A raw-text element: its text children serialize unescaped. Scripting is
/// off in this crawler, so `noscript` is not among them.
pub open spec fn spec_is_raw_text_tag(t: Seq<char>) -> bool {
    t == "style"@ || t == "script"@ || t == "xmp"@ || t == "iframe"@ || t == "noembed"@ || t
        == "noframes"@ || t == "plaintext"@
}

fn is_void_tag(t: &str) -> (r: bool)
    ensures
        r == spec_is_void_tag(t@),
{
    crate::strings::str_eq(t, "area") || crate::strings::str_eq(t, "base")
        || crate::strings::str_eq(t, "basefont") || crate::strings::str_eq(t, "bgsound")
        || crate::strings::str_eq(t, "br") || crate::strings::str_eq(t, "col")
        || crate::strings::str_eq(t, "embed") || crate::strings::str_eq(t, "frame")
        || crate::strings::str_eq(t, "hr") || crate::strings::str_eq(t, "img")
        || crate::strings::str_eq(t, "input") || crate::strings::str_eq(t, "keygen")
        || crate::strings::str_eq(t, "link") || crate::strings::str_eq(t, "meta")
        || crate::strings::str_eq(t, "param") || crate::strings::str_eq(t, "source")
        || crate::strings::str_eq(t, "track") || crate::strings::str_eq(t, "wbr")
}

fn is_raw_text_tag(t: &str) -> (r: bool)
    ensures
        r == spec_is_raw_text_tag(t@),
{
    crate::strings::str_eq(t, "style") || crate::strings::str_eq(t, "script")
        || crate::strings::str_eq(t, "xmp") || crate::strings::str_eq(t, "iframe")
        || crate::strings::str_eq(t, "noembed") || crate::strings::str_eq(t, "noframes")
        || crate::strings::str_eq(t, "plaintext")
}

/// Whether text directly below this node serializes unescaped.
pub open spec fn spec_raw_parent(nodes: Seq<PageNode>, el: int) -> bool {
    match nodes[el] {
        PageNode::Element { tag, .. } => spec_is_raw_text_tag(tag@),
        PageNode::Text { .. } => false,
    }
}

/// The serialized attribute list, a leading space before each entry.
pub open spec fn spec_attrs_markup(attrs: Seq<Attr>, i: int) -> Seq<char>
    decreases attrs.len() - i,
{
    if i < 0 || i >= attrs.len() {
        Seq::empty()
    } else {
        seq![' '] + attrs[i].name@ + seq!['=', '"'] + spec_escape_attr(attrs[i].value@)
            + seq!['"'] + spec_attrs_markup(attrs, i + 1)
    }
}

/// The markup of one node: text is escaped; an element is its start tag
/// with its attributes, and, unless it is void, its children's markup and
/// a matching end tag.
pub open spec fn spec_markup_of(nodes: Seq<PageNode>, el: int) -> Seq<char>
    decreases nodes.len() - el, 1int, 0int,
        when wf_nodes(nodes) && 0 <= el < nodes.len()
    via spec_markup_of_decreases
{
    match nodes[el] {
        PageNode::Text { content } => spec_escape_text(content@),
        PageNode::Element { tag, attrs, .. } => {
            let open_tag = seq!['<'] + tag@ + spec_attrs_markup(attrs@, 0) + seq!['>'];
            if spec_is_void_tag(tag@) {
                open_tag
            } else {
                open_tag + spec_markup_kids(nodes, el, 0) + seq!['<', '/'] + tag@ + seq!['>']
            }
        },
    }
}

/// The concatenated markup of a node's children: what `inner_markup`
/// yields. Text children of a raw-text parent ride through unescaped.
pub open spec fn spec_markup_kids(nodes: Seq<PageNode>, el: int, i: int) -> Seq<char>
    decreases nodes.len() - el, 0int, node_children(nodes, el).len() - i,
        when wf_nodes(nodes) && 0 <= el < nodes.len() && 0 <= i
    via spec_markup_kids_decreases
{
    let kids = node_children(nodes, el);
    if i >= kids.len() {
        Seq::empty()
    } else {
        let c = kids[i] as int;
        let piece = match nodes[c] {
            PageNode::Text { content } => if spec_raw_parent(nodes, el) {
                content@
            } else {
                spec_escape_text(content@)
            },
            PageNode::Element { .. } => spec_markup_of(nodes, c),
        };
        piece + spec_markup_kids(nodes, el, i + 1)
    }
}

#[via_fn]
proof fn spec_markup_of_decreases(nodes: Seq<PageNode>, el: int) {
}

#[via_fn]
proof fn spec_markup_kids_decreases(nodes: Seq<PageNode>, el: int, i: int) {
    assert(wf_node_at(nodes, el));
}

/// Appends every character of `s`.
fn push_str_chars(out: &mut Vec<char>, s: &str)
    ensures
        final(out)@ == old(out)@ + s@,
{
    let n = s.unicode_len();
    let mut i: usize = 0;
    while i < n
        invariant
            0 <= i <= n,
            n == s@.len(),
            out@ == old(out)@ + s@.take(i as int),
        decreases n - i,
    {
        let c = s.get_char(i);
        proof {
            assert((old(out)@ + s@.take(i as int)).push(c) =~= old(out)@ + s@.take(i + 1));
        }
        out.push(c);
        i = i + 1;
    }
    proof {
        assert(old(out)@ + s@.take(n as int) =~= old(out)@ + s@);
    }
}

/// Appends `s` escaped as text content.
fn push_escaped_text(out: &mut Vec<char>, s: &str)
    ensures
        final(out)@ == old(out)@ + spec_escape_text(s@),
{
    let n = s.unicode_len();
    let mut i: usize = 0;
    while i < n
        invariant
            0 <= i <= n,
            n == s@.len(),
            out@ == old(out)@ + spec_escape_text(s@.take(i as int)),
        decreases n - i,
    {
        let c = s.get_char(i);
        proof {
            assert(s@.take(i as int).push(c) =~= s@.take(i + 1));
            lemma_escape_text_snoc(s@.take(i as int), c);
        }
        if c == '&' {
            out.push('&');
            out.push('a');
            out.push('m');
            out.push('p');
            out.push(';');
        } else if c == '\u{a0}' {
            out.push('&');
            out.push('n');
            out.push('b');
            out.push('s');
            out.push('p');
            out.push(';');
        } else if c == '<' {
            out.push('&');
            out.push('l');
            out.push('t');
            out.push(';');
        } else if c == '>' {
            out.push('&');
            out.push('g');
            out.push('t');
            out.push(';');
        } else {
            out.push(c);
        }
        proof {
            assert(out@ =~= old(out)@ + spec_escape_text(s@.take(i + 1)));
        }
        i = i + 1;
    }
    proof {
        assert(s@.take(n as int) =~= s@);
    }
}

/// Appends `s` escaped as an attribute value.
fn push_escaped_attr(out: &mut Vec<char>, s: &str)
    ensures
        final(out)@ == old(out)@ + spec_escape_attr(s@),
{
    let n = s.unicode_len();
    let mut i: usize = 0;
    while i < n
        invariant
            0 <= i <= n,
            n == s@.len(),
            out@ == old(out)@ + spec_escape_attr(s@.take(i as int)),
        decreases n - i,
    {
        let c = s.get_char(i);
        proof {
            assert(s@.take(i as int).push(c) =~= s@.take(i + 1));
            lemma_escape_attr_snoc(s@.take(i as int), c);
        }
        if c == '&' {
            out.push('&');
            out.push('a');
            out.push('m');
            out.push('p');
            out.push(';');
        } else if c == '\u{a0}' {
            out.push('&');
            out.push('n');
            out.push('b');
            out.push('s');
            out.push('p');
            out.push(';');
        } else if c == '"' {
            out.push('&');
            out.push('q');
            out.push('u');
            out.push('o');
            out.push('t');
            out.push(';');
        } else {
            out.push(c);
        }
        proof {
            assert(out@ =~= old(out)@ + spec_escape_attr(s@.take(i + 1)));
        }
        i = i + 1;
    }
    proof {
        assert(s@.take(n as int) =~= s@);
    }
}

impl Page {
    /// Appends the markup of the node's children, per `spec_markup_kids`.
    fn push_kids_markup(&self, out: &mut Vec<char>, el: usize)
        requires
            self.wf(),
            el < self.nodes@.len(),
        ensures
            final(out)@ == old(out)@ + spec_markup_kids(self.nodes@, el as int, 0),
        decreases self.nodes@.len() - el, 0int,
    {
        let ghost nodes = self.nodes@;
        let raw = match &self.nodes[el] {
            PageNode::Element { tag, .. } => is_raw_text_tag(tag.as_str()),
            PageNode::Text { .. } => false,
        };
        match &self.nodes[el] {
            PageNode::Text { .. } => {
                proof {
                    assert(node_children(nodes, el as int).len() == 0);
                    assert(old(out)@ + spec_markup_kids(nodes, el as int, 0) =~= old(out)@);
                }
            },
            PageNode::Element { children, .. } => {
                let n = children.len();
                let mut i: usize = 0;
                while i < n
                    invariant
                        0 <= i <= n,
                        self.wf(),
                        nodes == self.nodes@,
                        el < nodes.len(),
                        nodes[el as int] matches PageNode::Element { children: ch, .. }
                            && ch@ == children@,
                        raw == spec_raw_parent(nodes, el as int),
                        n == children@.len(),
                        out@ + spec_markup_kids(nodes, el as int, i as int) == old(out)@
                            + spec_markup_kids(nodes, el as int, 0),
                    decreases n - i,
                {
                    proof {
                        assert(wf_node_at(nodes, el as int));
                        assert(node_children(nodes, el as int) == children@);
                    }
                    let ghost before = out@;
                    let c = children[i];
                    match &self.nodes[c] {
                        PageNode::Text { content } => {
                            if raw {
                                push_str_chars(out, content.as_str());
                            } else {
                                push_escaped_text(out, content.as_str());
                            }
                        },
                        PageNode::Element { .. } => {
                            self.push_node_markup(out, c);
                        },
                    }
                    proof {
                        assert(out@ + spec_markup_kids(nodes, el as int, i + 1) =~= before
                            + spec_markup_kids(nodes, el as int, i as int));
                    }
                    i = i + 1;
                }
                proof {
                    assert(spec_markup_kids(nodes, el as int, n as int) =~= Seq::<char>::empty());
                    assert(out@ + Seq::<char>::empty() =~= out@);
                }
            },
        }
    }

    /// Appends the markup of one node, per `spec_markup_of`.
    fn push_node_markup(&self, out: &mut Vec<char>, el: usize)
        requires
            self.wf(),
            el < self.nodes@.len(),
        ensures
            final(out)@ == old(out)@ + spec_markup_of(self.nodes@, el as int),
        decreases self.nodes@.len() - el, 1int,
    {
        let ghost nodes = self.nodes@;
        match &self.nodes[el] {
            PageNode::Text { content } => {
                push_escaped_text(out, content.as_str());
            },
            PageNode::Element { tag, attrs, .. } => {
                out.push('<');
                push_str_chars(out, tag.as_str());
                let an = attrs.len();
                let mut a: usize = 0;
                proof {
                    assert(out@ =~= old(out)@ + (seq!['<'] + tag@));
                }
                while a < an
                    invariant
                        0 <= a <= an,
                        self.wf(),
                        nodes == self.nodes@,
                        el < nodes.len(),
                        nodes[el as int] matches PageNode::Element { tag: t2, attrs: at2, .. }
                            && t2@ == tag@ && at2@ == attrs@,
                        an == attrs@.len(),
                        out@ + spec_attrs_markup(attrs@, a as int) == old(out)@ + (seq!['<']
                            + tag@ + spec_attrs_markup(attrs@, 0)),
                    decreases an - a,
                {
                    let ghost before = out@;
                    let at = &attrs[a];
                    out.push(' ');
                    push_str_chars(out, at.name.as_str());
                    out.push('=');
                    out.push('"');
                    push_escaped_attr(out, at.value.as_str());
                    out.push('"');
                    proof {
                        assert(out@ =~= before + (seq![' '] + attrs@[a as int].name@ + seq![
                            '=',
                            '"',
                        ] + spec_escape_attr(attrs@[a as int].value@) + seq!['"']));
                        assert(out@ + spec_attrs_markup(attrs@, a + 1) =~= before
                            + spec_attrs_markup(attrs@, a as int));
                    }
                    a = a + 1;
                }
                out.push('>');
                let ghost opened = old(out)@ + (seq!['<'] + tag@ + spec_attrs_markup(attrs@, 0)
                    + seq!['>']);
                proof {
                    assert(spec_attrs_markup(attrs@, an as int) =~= Seq::<char>::empty());
                    assert(out@ =~= opened);
                }
                if is_void_tag(tag.as_str()) {
                    proof {
                        assert(out@ =~= old(out)@ + spec_markup_of(nodes, el as int));
                    }
                } else {
                    self.push_kids_markup(out, el);
                    out.push('<');
                    out.push('/');
                    push_str_chars(out, tag.as_str());
                    out.push('>');
                    proof {
                        assert(out@ =~= old(out)@ + spec_markup_of(nodes, el as int));
                    }
                }
            },
        }
    }

    /// Serialized markup of the node's children only, excluding the node's
    /// own tag.
    pub fn inner_markup(&self, el: usize) -> (r: String)
        requires
            self.wf(),
            el < self.nodes@.len(),
        ensures
            r@ == spec_markup_kids(self.nodes@, el as int, 0),
    {
        let mut out: Vec<char> = Vec::new();
        self.push_kids_markup(&mut out, el);
        crate::strings::string_from_chars(&out)
    }
}

} // verus!
