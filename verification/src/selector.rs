//! The selector grammar: whitespace-separated tokens, where `>` rescopes to
//! direct children and a token combines a tag name with `#id`, `.class` and
//! `[attr]` / `[attr=v]` / `[attr^=v]` / `[attr$=v]` / `[attr*=v]` tests.

use vstd::prelude::*;

use crate::strings::{
    seq_views, spec_contains, spec_ends_with, spec_split_char, spec_split_ws,
    spec_starts_with, spec_trim_quotes, split_on_char, split_on_spaces, str_contains, str_eq,
    trim_quotes,
};

verus! {

/// One test against an attribute value.
#[derive(Debug, Clone, PartialEq, Eq)]
pub enum AttributeSpec {
    /// The attribute exists; any value passes.
    Present,
    /// The value equals the operand.
    Exact(String),
    /// The value starts with the operand.
    Starts(String),
    /// The value ends with the operand.
    Ends(String),
    /// The value contains the operand.
    Contains(String),
}

/// Spec-level form of an attribute test.
#[verifier::ext_equal]
pub ghost enum SpecAttr {
    Present,
    Exact(Seq<char>),
    Starts(Seq<char>),
    Ends(Seq<char>),
    Contains(Seq<char>),
}

impl View for AttributeSpec {
    type V = SpecAttr;

    open spec fn view(&self) -> SpecAttr {
        match self {
            AttributeSpec::Present => SpecAttr::Present,
            AttributeSpec::Exact(v) => SpecAttr::Exact(v@),
            AttributeSpec::Starts(v) => SpecAttr::Starts(v@),
            AttributeSpec::Ends(v) => SpecAttr::Ends(v@),
            AttributeSpec::Contains(v) => SpecAttr::Contains(v@),
        }
    }
}

/// Law: the presence test passes every value, the empty one included;
/// only a present value that fails its test can reject a match.
pub proof fn lemma_present_matches_all(v: Seq<char>)
    ensures
        spec_attr_matches(SpecAttr::Present, v),
{
}

/// Whether an attribute value passes a test.
pub open spec fn spec_attr_matches(a: SpecAttr, v: Seq<char>) -> bool {
    match a {
        SpecAttr::Present => true,
        SpecAttr::Exact(p) => v == p,
        SpecAttr::Starts(p) => spec_starts_with(v, p),
        SpecAttr::Ends(p) => spec_ends_with(v, p),
        SpecAttr::Contains(p) => spec_contains(v, p),
    }
}

impl AttributeSpec {
    /// Applies the test to an attribute value.
    pub fn matches(&self, other: String) -> (r: bool)
        ensures
            r == spec_attr_matches(self@, other@),
    {
        match self {
            AttributeSpec::Present => true,
            AttributeSpec::Exact(v) => str_eq(other.as_str(), v.as_str()),
            AttributeSpec::Starts(v) => crate::strings::str_starts_with(
                other.as_str(),
                v.as_str(),
            ),
            AttributeSpec::Ends(v) => crate::strings::str_ends_with(other.as_str(), v.as_str()),
            AttributeSpec::Contains(v) => str_contains(other.as_str(), v.as_str()),
        }
    }
}

/// One token of a selector, compiled.
#[derive(Debug, Clone, PartialEq, Eq)]
pub struct Matcher {
    pub tag: Vec<String>,
    pub class: Vec<String>,
    pub id: Vec<String>,
    pub attribute: Vec<(String, AttributeSpec)>,
    pub direct_match: bool,
}

/// Spec-level form of a compiled token.
#[verifier::ext_equal]
pub ghost struct MatcherView {
    pub tag: Seq<Seq<char>>,
    pub class: Seq<Seq<char>>,
    pub id: Seq<Seq<char>>,
    pub attribute: Seq<(Seq<char>, SpecAttr)>,
    pub direct_match: bool,
}

/// The views of a keyed attribute-test list.
pub open spec fn attr_pairs_view(v: Seq<(String, AttributeSpec)>) -> Seq<(Seq<char>, SpecAttr)> {
    v.map_values(|p: (String, AttributeSpec)| (p.0@, p.1@))
}

impl View for Matcher {
    type V = MatcherView;

    open spec fn view(&self) -> MatcherView {
        MatcherView {
            tag: seq_views(self.tag@),
            class: seq_views(self.class@),
            id: seq_views(self.id@),
            attribute: attr_pairs_view(self.attribute@),
            direct_match: self.direct_match,
        }
    }
}

/// The matcher a lone `>` token compiles to: no constraint, only rescoping.
pub open spec fn spec_direct_matcher() -> MatcherView {
    MatcherView {
        tag: Seq::empty(),
        class: Seq::empty(),
        id: Seq::empty(),
        attribute: Seq::empty(),
        direct_match: true,
    }
}

/// The matcher every token starts from.
pub open spec fn spec_empty_matcher() -> MatcherView {
    MatcherView {
        tag: Seq::empty(),
        class: Seq::empty(),
        id: Seq::empty(),
        attribute: Seq::empty(),
        direct_match: false,
    }
}

pub open spec fn spec_contains_char(s: Seq<char>, c: char) -> bool {
    exists|i: int| 0 <= i < s.len() && s[i] == c
}

/// Splits a token into segments: `#`, `.` and `[` begin a new segment that
/// keeps its delimiter, `]` ends a segment and is dropped.
pub open spec fn spec_segs(s: Seq<char>, buf: Seq<char>) -> Seq<Seq<char>>
    decreases s.len(),
{
    if s.len() == 0 {
        seq![buf]
    } else {
        let c = s[0];
        if c == '#' || c == '.' || c == '[' {
            seq![buf] + spec_segs(s.drop_first(), seq![c])
        } else if c == ']' {
            seq![buf] + spec_segs(s.drop_first(), Seq::empty())
        } else {
            spec_segs(s.drop_first(), buf.push(c))
        }
    }
}

pub open spec fn spec_segments(s: Seq<char>) -> Seq<Seq<char>> {
    spec_segs(s, Seq::empty())
}

/// Index of the first pair carrying this key, or the list length.
pub open spec fn spec_key_index(attrs: Seq<(Seq<char>, SpecAttr)>, k: Seq<char>) -> int
    decreases attrs.len(),
{
    if attrs.len() == 0 {
        0
    } else if attrs[0].0 == k {
        0
    } else {
        1 + spec_key_index(attrs.drop_first(), k)
    }
}

/// Keyed insert: replaces the first pair with this key, else appends.
pub open spec fn spec_attr_insert(
    attrs: Seq<(Seq<char>, SpecAttr)>,
    k: Seq<char>,
    v: SpecAttr,
) -> Seq<(Seq<char>, SpecAttr)> {
    let i = spec_key_index(attrs, k);
    if i < attrs.len() {
        attrs.update(i, (k, v))
    } else {
        attrs.push((k, v))
    }
}

/// The attribute test an `[attr...]` segment body denotes, applied to `m`.
/// `None` is the malformed case: an operand with an empty key.
pub open spec fn spec_add_attr(m: MatcherView, body: Seq<char>) -> Option<MatcherView> {
    let parts = spec_split_char(body, '=');
    if parts.len() == 1 {
        Some(MatcherView { attribute: spec_attr_insert(m.attribute, body, SpecAttr::Present), ..m })
    } else if parts[0].len() == 0 {
        None
    } else {
        let v = spec_trim_quotes(parts[1]);
        let marker = parts[0].last();
        let short = parts[0].drop_last();
        if marker == '^' {
            Some(MatcherView {
                attribute: spec_attr_insert(m.attribute, short, SpecAttr::Starts(v)),
                ..m
            })
        } else if marker == '$' {
            Some(MatcherView {
                attribute: spec_attr_insert(m.attribute, short, SpecAttr::Ends(v)),
                ..m
            })
        } else if marker == '*' {
            Some(MatcherView {
                attribute: spec_attr_insert(m.attribute, short, SpecAttr::Contains(v)),
                ..m
            })
        } else {
            Some(MatcherView {
                attribute: spec_attr_insert(m.attribute, parts[0], SpecAttr::Exact(v)),
                ..m
            })
        }
    }
}

/// What one segment adds to a matcher.
pub open spec fn spec_segment_apply(m: MatcherView, seg: Seq<char>) -> Option<MatcherView> {
    if seg.len() == 0 {
        Some(m)
    } else if seg[0] == '#' {
        Some(MatcherView { id: m.id.push(seg.drop_first()), ..m })
    } else if seg[0] == '.' {
        Some(MatcherView { class: m.class.push(seg.drop_first()), ..m })
    } else if seg[0] == '[' {
        spec_add_attr(m, seg.drop_first())
    } else {
        Some(MatcherView { tag: m.tag.push(seg), ..m })
    }
}

pub open spec fn spec_apply_segments(
    m: MatcherView,
    segs: Seq<Seq<char>>,
    i: int,
) -> Option<MatcherView>
    decreases segs.len() - i,
{
    if i < 0 || i >= segs.len() {
        Some(m)
    } else {
        match spec_segment_apply(m, segs[i]) {
            Some(next) => spec_apply_segments(next, segs, i + 1),
            None => None,
        }
    }
}

/// The matcher a whole token denotes. A token holding `>` anywhere denotes
/// the rescoping matcher; otherwise its segments are applied in order.
pub open spec fn spec_matcher(token: Seq<char>) -> Option<MatcherView> {
    if spec_contains_char(token, '>') {
        Some(spec_direct_matcher())
    } else {
        spec_apply_segments(spec_empty_matcher(), spec_segments(token), 0)
    }
}

/// The matcher list a selector text denotes, one per whitespace token;
/// `None` if any token is malformed.
pub open spec fn spec_selector_from(tokens: Seq<Seq<char>>, i: int) -> Option<Seq<MatcherView>>
    decreases tokens.len() - i,
{
    if i < 0 || i >= tokens.len() {
        Some(Seq::empty())
    } else {
        match spec_matcher(tokens[i]) {
            Some(m) => match spec_selector_from(tokens, i + 1) {
                Some(rest) => Some(seq![m] + rest),
                None => None,
            },
            None => None,
        }
    }
}

/// The compiled form of a selector text, when every token is well formed.
pub open spec fn spec_selector(text: Seq<char>) -> Option<Seq<MatcherView>> {
    spec_selector_from(spec_split_ws(text), 0)
}

/// A selector text lies in the grammar: compiling it cannot fail.
pub open spec fn wf_selector_text(text: Seq<char>) -> bool {
    spec_selector(text) is Some
}

/// A compiled selector: an ordered list of matchers.
#[derive(Debug, Clone, PartialEq, Eq)]
pub struct Selector {
    pub matchers: Vec<Matcher>,
}

impl View for Selector {
    type V = Seq<MatcherView>;

    open spec fn view(&self) -> Seq<MatcherView> {
        self.matchers@.map_values(|m: Matcher| m@)
    }
}

} // verus!

verus! {

fn contains_gt(s: &str) -> (r: bool)
    ensures
        r == spec_contains_char(s@, '>'),
{
    let n = s.unicode_len();
    let mut i: usize = 0;
    while i < n
        invariant
            0 <= i <= n,
            n == s@.len(),
            forall|k: int| 0 <= k < i ==> s@[k] != '>',
        decreases n - i,
    {
        if s.get_char(i) == '>' {
            return true;
        }
        i = i + 1;
    }
    false
}

/// Cuts a token into its segments, per `spec_segments`.
fn segments(input: &str) -> (r: Vec<String>)
    ensures
        seq_views(r@) == spec_segments(input@),
{
    let n = input.unicode_len();
    let mut out: Vec<String> = Vec::new();
    let mut buf: Vec<char> = Vec::new();
    let mut i: usize = 0;
    proof {
        assert(input@.skip(0) =~= input@);
        assert(seq_views(out@) + spec_segs(input@, Seq::empty()) =~~= spec_segments(input@));
    }
    while i < n
        invariant
            0 <= i <= n,
            n == input@.len(),
            seq_views(out@) + spec_segs(input@.skip(i as int), buf@) =~~= spec_segments(input@),
        decreases n - i,
    {
        let c = input.get_char(i);
        proof {
            assert(input@.skip(i as int).drop_first() =~= input@.skip(i + 1));
        }
        if c == '#' || c == '.' || c == '[' {
            let seg = crate::strings::string_from_chars(&buf);
            proof {
                assert(seq_views(out@.push(seg)) =~~= seq_views(out@) + seq![seg@]);
            }
            out.push(seg);
            buf = Vec::new();
            buf.push(c);
            proof {
                assert(buf@ =~= seq![c]);
            }
        } else if c == ']' {
            let seg = crate::strings::string_from_chars(&buf);
            proof {
                assert(seq_views(out@.push(seg)) =~~= seq_views(out@) + seq![seg@]);
            }
            out.push(seg);
            buf = Vec::new();
        } else {
            buf.push(c);
        }
        i = i + 1;
    }
    let seg = crate::strings::string_from_chars(&buf);
    proof {
        assert(input@.skip(i as int) =~= Seq::<char>::empty());
        assert(seq_views(out@.push(seg)) =~~= seq_views(out@) + seq![seg@]);
    }
    out.push(seg);
    out
}

proof fn lemma_key_index_unique(attrs: Seq<(Seq<char>, SpecAttr)>, k: Seq<char>, j: int)
    requires
        0 <= j <= attrs.len(),
        forall|t: int| 0 <= t < j ==> (#[trigger] attrs[t]).0 != k,
        j == attrs.len() || attrs[j].0 == k,
    ensures
        spec_key_index(attrs, k) == j,
    decreases attrs.len(),
{
    if attrs.len() == 0 || attrs[0].0 == k {
    } else {
        assert(j > 0);
        assert(forall|t: int|
            0 <= t < j - 1 ==> (#[trigger] attrs.drop_first()[t]).0 != k);
        lemma_key_index_unique(attrs.drop_first(), k, j - 1);
    }
}

/// Keyed insert into the attribute-test list: last write for a key wins.
fn insert_attr(attrs: &mut Vec<(String, AttributeSpec)>, k: String, v: AttributeSpec)
    ensures
        attr_pairs_view(final(attrs)@) == spec_attr_insert(
            attr_pairs_view(old(attrs)@),
            k@,
            v@,
        ),
{
    let ghost pairs = attr_pairs_view(attrs@);
    let n = attrs.len();
    let mut i: usize = 0;
    while i < n
        invariant
            0 <= i <= n,
            n == attrs@.len(),
            attr_pairs_view(attrs@) == pairs,
            pairs == attr_pairs_view(old(attrs)@),
            forall|t: int| 0 <= t < i ==> (#[trigger] pairs[t]).0 != k@,
        decreases n - i,
    {
        if str_eq(attrs[i].0.as_str(), k.as_str()) {
            proof {
                assert(pairs[i as int].0 == k@);
                lemma_key_index_unique(pairs, k@, i as int);
            }
            attrs.remove(i);
            attrs.insert(i, (k, v));
            proof {
                assert(attr_pairs_view(attrs@) =~~= pairs.update(i as int, (k@, v@)));
            }
            return;
        }
        proof {
            assert(pairs[i as int].0 == attrs@[i as int].0@);
        }
        i = i + 1;
    }
    proof {
        lemma_key_index_unique(pairs, k@, n as int);
    }
    attrs.push((k, v));
    proof {
        assert(attr_pairs_view(attrs@) =~~= pairs.push((k@, v@)));
    }
}

impl Matcher {
    /// A matcher with no constraints.
    pub fn empty() -> (r: Matcher)
        ensures
            r@ == spec_empty_matcher(),
    {
        let r = Matcher {
            tag: Vec::new(),
            class: Vec::new(),
            id: Vec::new(),
            attribute: Vec::new(),
            direct_match: false,
        };
        proof {
            assert(r@ =~~= spec_empty_matcher());
        }
        r
    }

    /// Records one `[attr...]` test. `false` is the malformed case, an
    /// operand with an empty key, which leaves the matcher unchanged.
    pub fn add_data_attribute(&mut self, attr_text: String) -> (ok: bool)
        ensures
            match spec_add_attr(old(self)@, attr_text@) {
                Some(m) => ok && final(self)@ == m,
                None => !ok && *final(self) == *old(self),
            },
    {
        let parts = split_on_char(attr_text.as_str(), '=');
        proof {
            assert(seq_views(parts@)[0] == parts@[0]@);
        }
        if parts.len() == 1 {
            insert_attr(&mut self.attribute, attr_text, AttributeSpec::Present);
            proof {
                assert(self@ =~~= spec_add_attr(old(self)@, attr_text@)->Some_0);
            }
            return true;
        }
        let key_part = &parts[0];
        let kn = key_part.as_str().unicode_len();
        if kn == 0 {
            return false;
        }
        proof {
            assert(seq_views(parts@)[1] == parts@[1]@);
        }
        let v = trim_quotes(parts[1].as_str());
        let marker = key_part.as_str().get_char(kn - 1);
        if marker == '^' || marker == '$' || marker == '*' {
            let short = key_part.as_str().substring_char(0, kn - 1).to_owned();
            proof {
                assert(short@ =~= parts@[0]@.drop_last());
            }
            let test = if marker == '^' {
                AttributeSpec::Starts(v)
            } else if marker == '$' {
                AttributeSpec::Ends(v)
            } else {
                AttributeSpec::Contains(v)
            };
            insert_attr(&mut self.attribute, short, test);
        } else {
            let key = key_part.clone();
            insert_attr(&mut self.attribute, key, AttributeSpec::Exact(v));
        }
        proof {
            assert(self@ =~~= spec_add_attr(old(self)@, attr_text@)->Some_0);
        }
        true
    }

    /// Folds one segment into the matcher; `false` is the malformed case.
    fn apply_segment(&mut self, seg: &String) -> (ok: bool)
        ensures
            match spec_segment_apply(old(self)@, seg@) {
                Some(m) => ok && final(self)@ == m,
                None => !ok && *final(self) == *old(self),
            },
    {
        let n = seg.as_str().unicode_len();
        if n == 0 {
            return true;
        }
        let c = seg.as_str().get_char(0);
        if c == '#' {
            let rest = seg.as_str().substring_char(1, n).to_owned();
            proof {
                assert(rest@ =~= seg@.drop_first());
            }
            self.id.push(rest);
            proof {
                assert(self@ =~~= spec_segment_apply(old(self)@, seg@)->Some_0);
            }
            true
        } else if c == '.' {
            let rest = seg.as_str().substring_char(1, n).to_owned();
            proof {
                assert(rest@ =~= seg@.drop_first());
            }
            self.class.push(rest);
            proof {
                assert(self@ =~~= spec_segment_apply(old(self)@, seg@)->Some_0);
            }
            true
        } else if c == '[' {
            let rest = seg.as_str().substring_char(1, n).to_owned();
            proof {
                assert(rest@ =~= seg@.drop_first());
            }
            self.add_data_attribute(rest)
        } else {
            self.tag.push(seg.clone());
            proof {
                assert(self@ =~~= spec_segment_apply(old(self)@, seg@)->Some_0);
            }
            true
        }
    }

    /// Compiles one selector token. `None` is the malformed case.
    pub fn parse(input: &str) -> (r: Option<Matcher>)
        ensures
            match r {
                Some(m) => spec_matcher(input@) == Some(m@),
                None => spec_matcher(input@) is None,
            },
    {
        if contains_gt(input) {
            let m = Matcher {
                tag: Vec::new(),
                class: Vec::new(),
                id: Vec::new(),
                attribute: Vec::new(),
                direct_match: true,
            };
            proof {
                assert(m@ =~~= spec_direct_matcher());
            }
            return Some(m);
        }
        let segs = segments(input);
        let ghost segviews = spec_segments(input@);
        let mut m = Matcher::empty();
        let mut k: usize = 0;
        while k < segs.len()
            invariant
                0 <= k <= segs@.len(),
                seq_views(segs@) == segviews,
                segviews == spec_segments(input@),
                !spec_contains_char(input@, '>'),
                spec_apply_segments(spec_empty_matcher(), segviews, 0) == spec_apply_segments(
                    m@,
                    segviews,
                    k as int,
                ),
            decreases segs@.len() - k,
        {
            proof {
                assert(segviews[k as int] == segs@[k as int]@);
            }
            if !m.apply_segment(&segs[k]) {
                return None;
            }
            k = k + 1;
        }
        Some(m)
    }
}

/// The views of a matcher list.
pub open spec fn matcher_views(v: Seq<Matcher>) -> Seq<MatcherView> {
    v.map_values(|m: Matcher| m@)
}

impl Selector {
    /// Compiles a selector text. `None` is the malformed case: an attribute
    /// token whose operand has no key, which the fixed grammar never holds.
    pub fn parse(text: &str) -> (r: Option<Selector>)
        ensures
            match r {
                Some(sel) => spec_selector(text@) == Some(sel@),
                None => !wf_selector_text(text@),
            },
    {
        let tokens = split_on_spaces(text);
        let ghost tokviews = spec_split_ws(text@);
        let mut ms: Vec<Matcher> = Vec::new();
        let mut k: usize = 0;
        while k < tokens.len()
            invariant
                0 <= k <= tokens@.len(),
                seq_views(tokens@) == tokviews,
                tokviews == spec_split_ws(text@),
                match spec_selector_from(tokviews, k as int) {
                    Some(rest) => spec_selector_from(tokviews, 0) == Some(
                        matcher_views(ms@) + rest,
                    ),
                    None => spec_selector_from(tokviews, 0) is None,
                },
            decreases tokens@.len() - k,
        {
            proof {
                assert(tokviews[k as int] == tokens@[k as int]@);
            }
            match Matcher::parse(tokens[k].as_str()) {
                Some(m) => {
                    proof {
                        let rest = spec_selector_from(tokviews, k as int)->Some_0;
                        let tail = spec_selector_from(tokviews, k + 1)->Some_0;
                        assert(matcher_views(ms@.push(m)) =~= matcher_views(ms@) + seq![m@]);
                        assert(matcher_views(ms@) + (seq![m@] + tail) =~= (matcher_views(ms@)
                            + seq![m@]) + tail);
                    }
                    ms.push(m);
                },
                None => {
                    return None;
                },
            }
            k = k + 1;
        }
        proof {
            assert(matcher_views(ms@) + Seq::<MatcherView>::empty() =~= matcher_views(ms@));
        }
        Some(Selector { matchers: ms })
    }
}

} // verus!
