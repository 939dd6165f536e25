//! The read path's presentation helpers: pagination links and readable
//! digit grouping.

use vstd::prelude::*;

use crate::strings::{spec_decimal, u64_to_string, usize_to_string};

verus! {

/// A search request from the page form.
#[derive(Debug, Clone, PartialEq, Eq)]
pub struct SearchQuery {
    pub query: String,
    pub page: usize,
}

/// The part of a search request that rides along in pagination links.
#[derive(Debug, Clone, Copy)]
pub struct SearchQueryPart<'q> {
    pub query: &'q str,
}

/// How a pagination link renders.
#[derive(Debug, Clone, Copy, PartialEq, Eq, Structural)]
pub enum LinkState {
    Normal,
    Active,
    Disabled,
}

/// One pagination link.
#[derive(Debug, Clone, PartialEq, Eq)]
pub struct Link {
    pub state: LinkState,
    pub href: String,
    pub text: String,
}

/// Spec-level form of a link.
#[verifier::ext_equal]
pub ghost struct LinkView {
    pub state: LinkState,
    pub href: Seq<char>,
    pub text: Seq<char>,
}

pub open spec fn link_view(l: Link) -> LinkView {
    LinkView { state: l.state, href: l.href@, text: l.text@ }
}

/// An entry of the pager strip before rendering: a numbered page (with
/// whether it is the current one) or an ellipsis.
#[derive(Debug, Clone, Copy, PartialEq, Eq, Structural)]
pub enum Pager {
    Num(bool, usize),
    Ellipse,
}

/// `?fragment&page=N`.
pub open spec fn spec_page_href(fragment: Seq<char>, page: int) -> Seq<char> {
    seq!['?'] + fragment + seq!['&', 'p', 'a', 'g', 'e', '='] + spec_decimal(page)
}

/// The digits of a number grouped by thousands, a comma between groups.
pub open spec fn spec_grouped(s: Seq<char>) -> Seq<char>
    decreases s.len(),
{
    if s.len() <= 3 {
        s
    } else {
        spec_grouped(s.take(s.len() - 3)) + seq![','] + s.skip(s.len() - 3)
    }
}

/// The window of pages kept around the current one: one below to one
/// above, saturating at both ends of the number range.
pub open spec fn spec_window_lo(page: int) -> int {
    if page >= 1 {
        page - 1
    } else {
        page
    }
}

pub open spec fn spec_window_hi(page: int) -> int {
    if page + 1 <= usize::MAX {
        page + 1
    } else {
        page
    }
}

/// The pager strip: first and last page always numbered, the window around
/// the current page numbered, stretches between collapsed to one ellipsis.
pub open spec fn spec_pagers(pages: int, page: int, i: int, acc: Seq<Pager>) -> Seq<Pager>
    decreases pages - i + 1,
{
    if i < 1 || i > pages {
        acc
    } else {
        let acc2 = if i == 1 || i == pages {
            acc.push(Pager::Num(i == page, i as usize))
        } else if spec_window_lo(page) <= i <= spec_window_hi(page) {
            acc.push(Pager::Num(i == page, i as usize))
        } else if acc.len() > 0 && acc.last() != Pager::Ellipse {
            acc.push(Pager::Ellipse)
        } else {
            acc
        };
        spec_pagers(pages, page, i + 1, acc2)
    }
}

/// How one pager entry renders: a numbered link carries the grouped page
/// number and points at that page; an ellipsis is inert.
pub open spec fn spec_pager_link(fragment: Seq<char>, p: Pager) -> LinkView {
    match p {
        Pager::Num(active, pg) => LinkView {
            state: if active {
                LinkState::Active
            } else {
                LinkState::Normal
            },
            href: spec_page_href(fragment, pg as int),
            text: spec_grouped(spec_decimal(pg as int)),
        },
        Pager::Ellipse => LinkView { state: LinkState::Normal, href: seq!['#'], text: seq![
            '.',
            '.',
        ] },
    }
}

pub open spec fn spec_prev_link(fragment: Seq<char>, page: int) -> LinkView {
    LinkView {
        state: if page == 1 {
            LinkState::Disabled
        } else {
            LinkState::Normal
        },
        href: spec_page_href(fragment, page),
        text: "previous"@,
    }
}

pub open spec fn spec_next_link(fragment: Seq<char>, pages: int, page: int) -> LinkView {
    LinkView {
        state: if page == pages {
            LinkState::Disabled
        } else {
            LinkState::Normal
        },
        href: spec_page_href(fragment, page),
        text: "next"@,
    }
}

/// Builds `?fragment&page=N`.
fn page_href(fragment: &str, page: usize) -> (r: String)
    ensures
        r@ == spec_page_href(fragment@, page as int),
{
    let mut out = String::from_str("?");
    out.append(fragment);
    out.append("&page=");
    let digits = usize_to_string(page);
    out.append(digits.as_str());
    proof {
        reveal_strlit("?");
        reveal_strlit("&page=");
        assert("?"@ =~= seq!['?']);
        assert("&page="@ =~= seq!['&', 'p', 'a', 'g', 'e', '=']);
        assert(out@ =~= spec_page_href(fragment@, page as int));
    }
    out
}

/// The characters of a string slice.
fn str_to_chars(s: &str) -> (r: Vec<char>)
    ensures
        r@ == s@,
{
    let n = s.unicode_len();
    let mut out: Vec<char> = Vec::new();
    let mut i: usize = 0;
    while i < n
        invariant
            0 <= i <= n,
            n == s@.len(),
            out@ == s@.take(i as int),
        decreases n - i,
    {
        let c = s.get_char(i);
        proof {
            assert(s@.take(i as int).push(c) =~= s@.take(i + 1));
        }
        out.push(c);
        i = i + 1;
    }
    proof {
        assert(s@.take(n as int) =~= s@);
    }
    out
}

/// Groups the first `upto` characters by threes from the right.
fn grouped_chars(digits: &Vec<char>, upto: usize) -> (r: Vec<char>)
    requires
        upto <= digits@.len(),
    ensures
        r@ == spec_grouped(digits@.take(upto as int)),
    decreases upto,
{
    if upto <= 3 {
        let mut out: Vec<char> = Vec::new();
        let mut i: usize = 0;
        while i < upto
            invariant
                0 <= i <= upto <= digits@.len(),
                out@ == digits@.take(upto as int).take(i as int),
            decreases upto - i,
        {
            let c = digits[i];
            proof {
                assert(digits@.take(upto as int).take(i as int).push(c) =~= digits@.take(
                    upto as int,
                ).take(i + 1));
            }
            out.push(c);
            i = i + 1;
        }
        proof {
            assert(digits@.take(upto as int).take(upto as int) =~= digits@.take(upto as int));
        }
        out
    } else {
        let mut out = grouped_chars(digits, upto - 3);
        out.push(',');
        let mut i: usize = upto - 3;
        while i < upto
            invariant
                3 < upto,
                upto - 3 <= i <= upto <= digits@.len(),
                out@ == spec_grouped(digits@.take(upto - 3)) + seq![','] + digits@.subrange(
                    upto - 3,
                    i as int,
                ),
            decreases upto - i,
        {
            let c = digits[i];
            proof {
                let prefix = spec_grouped(digits@.take(upto - 3)) + seq![','];
                assert(digits@.subrange(upto - 3, i as int).push(c) =~= digits@.subrange(
                    upto - 3,
                    i + 1,
                ));
                assert((prefix + digits@.subrange(upto - 3, i as int)).push(c) =~= prefix
                    + digits@.subrange(upto - 3, i as int).push(c));
            }
            out.push(c);
            i = i + 1;
        }
        proof {
            assert(digits@.take(upto as int).take(upto - 3) =~= digits@.take(upto - 3));
            assert(digits@.take(upto as int).skip(upto - 3) =~= digits@.subrange(
                upto - 3,
                upto as int,
            ));
        }
        out
    }
}

/// The grouped decimal rendering of a number.
pub fn grouped_decimal(n: u64) -> (r: String)
    ensures
        r@ == spec_grouped(spec_decimal(n as int)),
{
    let digits = u64_to_string(n);
    let chars = str_to_chars(digits.as_str());
    let len = chars.len();
    let grouped = grouped_chars(&chars, len);
    proof {
        assert(chars@.take(len as int) =~= chars@);
    }
    crate::strings::string_from_chars(&grouped)
}

} // verus!

verus! {

/// A number rendered with thousands separators.
#[derive(Debug, Clone, Copy)]
pub struct Readable<N> {
    pub inner: N,
}

/// Wraps a number for readable rendering.
pub trait IntoReadable: Sized {
    fn into_readable(self) -> (r: Readable<Self>)
        ensures
            r.inner == self,
    ;
}

impl IntoReadable for usize {
    fn into_readable(self) -> (r: Readable<usize>)
        ensures
            r.inner == self,
    {
        Readable { inner: self }
    }
}

impl IntoReadable for u64 {
    fn into_readable(self) -> (r: Readable<u64>)
        ensures
            r.inner == self,
    {
        Readable { inner: self }
    }
}

impl IntoReadable for u32 {
    fn into_readable(self) -> (r: Readable<u32>)
        ensures
            r.inner == self,
    {
        Readable { inner: self }
    }
}

impl IntoReadable for isize {
    fn into_readable(self) -> (r: Readable<isize>)
        ensures
            r.inner == self,
    {
        Readable { inner: self }
    }
}

impl IntoReadable for i64 {
    fn into_readable(self) -> (r: Readable<i64>)
        ensures
            r.inner == self,
    {
        Readable { inner: self }
    }
}

impl IntoReadable for i32 {
    fn into_readable(self) -> (r: Readable<i32>)
        ensures
            r.inner == self,
    {
        Readable { inner: self }
    }
}

/// The readable form of a signed number: a minus sign, then the grouped
/// magnitude.
pub open spec fn spec_signed_grouped(n: int) -> Seq<char> {
    if n < 0 {
        seq!['-'] + spec_grouped(spec_decimal(-n))
    } else {
        spec_grouped(spec_decimal(n))
    }
}

impl Readable<u64> {
    pub fn text(&self) -> (r: String)
        ensures
            r@ == spec_grouped(spec_decimal(self.inner as int)),
    {
        grouped_decimal(self.inner)
    }
}

impl Readable<usize> {
    pub fn text(&self) -> (r: String)
        ensures
            r@ == spec_grouped(spec_decimal(self.inner as int)),
    {
        grouped_decimal(self.inner as u64)
    }
}

impl Readable<u32> {
    pub fn text(&self) -> (r: String)
        ensures
            r@ == spec_grouped(spec_decimal(self.inner as int)),
    {
        grouped_decimal(self.inner as u64)
    }
}

impl Readable<i64> {
    pub fn text(&self) -> (r: String)
        ensures
            r@ == spec_signed_grouped(self.inner as int),
    {
        if self.inner < 0 {
            let mag = (-(self.inner as i128)) as u64;
            let grouped = grouped_decimal(mag);
            let mut out = String::from_str("-");
            out.append(grouped.as_str());
            proof {
                reveal_strlit("-");
                assert("-"@ =~= seq!['-']);
                assert(out@ =~= spec_signed_grouped(self.inner as int));
            }
            out
        } else {
            grouped_decimal(self.inner as u64)
        }
    }
}

impl Readable<i32> {
    pub fn text(&self) -> (r: String)
        ensures
            r@ == spec_signed_grouped(self.inner as int),
    {
        Readable { inner: self.inner as i64 }.text()
    }
}

impl Readable<isize> {
    pub fn text(&self) -> (r: String)
        ensures
            r@ == spec_signed_grouped(self.inner as int),
    {
        Readable { inner: self.inner as i64 }.text()
    }
}

/// The pagination strip of a results page.
#[derive(Debug, Clone, PartialEq, Eq)]
pub struct Pagination {
    pub prev: Link,
    pub parts: Vec<Link>,
    pub next: Link,
}

impl Pagination {
    /// Builds the full strip, per `spec_pagers` and `spec_pager_link`.
    pub fn paginate(fragment: &str, pages: usize, page: usize) -> (r: (Link, Vec<Link>, Link))
        ensures
            link_view(r.0) == spec_prev_link(fragment@, page as int),
            link_view(r.2) == spec_next_link(fragment@, pages as int, page as int),
            ({
                let pagers = spec_pagers(pages as int, page as int, 1, Seq::empty());
                &&& r.1@.len() == pagers.len()
                &&& forall|j: int|
                    0 <= j < pagers.len() ==> link_view(#[trigger] r.1@[j]) == spec_pager_link(
                        fragment@,
                        pagers[j],
                    )
            }),
    {
        let prev = Link {
            state: if page == 1 {
                LinkState::Disabled
            } else {
                LinkState::Normal
            },
            href: page_href(fragment, page),
            text: String::from_str("previous"),
        };
        let ghost goal = spec_pagers(pages as int, page as int, 1, Seq::empty());
        let mut buff: Vec<Pager> = Vec::new();
        if pages >= 1 {
            let mut i: usize = 1;
            loop
                invariant_except_break
                    goal == spec_pagers(pages as int, page as int, i as int, buff@),
                invariant
                    1 <= i <= pages,
                ensures
                    goal == buff@,
                decreases pages - i,
            {
                if i == 1 || i == pages {
                    buff.push(Pager::Num(i == page, i));
                } else {
                    let lo = if page >= 1 {
                        page - 1
                    } else {
                        page
                    };
                    let hi = if page < usize::MAX {
                        page + 1
                    } else {
                        page
                    };
                    if lo <= i && i <= hi {
                        buff.push(Pager::Num(i == page, i));
                    } else {
                        let keep = buff.len() > 0 && buff[buff.len() - 1] != Pager::Ellipse;
                        if keep {
                            buff.push(Pager::Ellipse);
                        }
                    }
                }
                if i == pages {
                    proof {
                        assert(goal == spec_pagers(pages as int, page as int, i + 1, buff@));
                    }
                    break;
                }
                i = i + 1;
            }
        }
        let next = Link {
            state: if page == pages {
                LinkState::Disabled
            } else {
                LinkState::Normal
            },
            href: page_href(fragment, page),
            text: String::from_str("next"),
        };
        let mut parts: Vec<Link> = Vec::new();
        let n = buff.len();
        let mut k: usize = 0;
        while k < n
            invariant
                0 <= k <= n,
                n == buff@.len(),
                buff@ == goal,
                parts@.len() == k,
                forall|j: int|
                    0 <= j < k ==> link_view(#[trigger] parts@[j]) == spec_pager_link(
                        fragment@,
                        buff@[j],
                    ),
            decreases n - k,
        {
            let link = match buff[k] {
                Pager::Num(active, pg) => Link {
                    state: if active {
                        LinkState::Active
                    } else {
                        LinkState::Normal
                    },
                    href: page_href(fragment, pg),
                    text: grouped_decimal(pg as u64),
                },
                Pager::Ellipse => {
                    let l = Link {
                        state: LinkState::Normal,
                        href: String::from_str("#"),
                        text: String::from_str(".."),
                    };
                    proof {
                        reveal_strlit("#");
                        reveal_strlit("..");
                        assert("#"@ =~= seq!['#']);
                        assert(".."@ =~= seq!['.', '.']);
                    }
                    l
                },
            };
            parts.push(link);
            k = k + 1;
        }
        (prev, parts, next)
    }

    /// Builds the strip for one results page.
    pub fn new(fragment: String, page: usize, pages: usize) -> (r: Pagination)
        ensures
            link_view(r.prev) == spec_prev_link(fragment@, page as int),
            link_view(r.next) == spec_next_link(fragment@, pages as int, page as int),
            ({
                let pagers = spec_pagers(pages as int, page as int, 1, Seq::empty());
                &&& r.parts@.len() == pagers.len()
                &&& forall|j: int|
                    0 <= j < pagers.len() ==> link_view(#[trigger] r.parts@[j]) == spec_pager_link(
                        fragment@,
                        pagers[j],
                    )
            }),
    {
        let (prev, parts, next) = Self::paginate(fragment.as_str(), pages, page);
        Pagination { prev, parts, next }
    }
}

/// The fixed page size of the search front end.
pub const SEARCH_LIMIT: usize = 20;

/// The result offset a 1-based page maps to: `None` when the page number
/// is zero or the offset cannot be represented.
pub fn search_offset(page: usize) -> (r: Option<usize>)
    ensures
        match r {
            Some(v) => page >= 1 && v == 20 * (page - 1),
            None => page == 0 || 20 * (page - 1) > usize::MAX,
        },
{
    if page == 0 {
        return None;
    }
    let base = page - 1;
    if base > usize::MAX / 20 {
        proof {
            assert(20 * ((usize::MAX / 20) + 1) > usize::MAX);
        }
        return None;
    }
    proof {
        assert(20 * (usize::MAX / 20) <= usize::MAX);
    }
    Some(base * 20)
}

/// How many result pages a hit count fills, rounding up; `None` when the
/// count is too large to round.
pub fn result_pages(num_hits: usize) -> (r: Option<usize>)
    ensures
        match r {
            Some(v) => num_hits + 19 <= usize::MAX && v == (num_hits + 19) / 20,
            None => num_hits + 19 > usize::MAX,
        },
{
    if num_hits > usize::MAX - 19 {
        return None;
    }
    Some((num_hits + 19) / 20)
}

/// An error of the read path, carrying its report text.
#[derive(Debug, Clone, PartialEq, Eq)]
pub struct Error(pub String);

impl Error {
    /// Wraps any report into the read path's error.
    pub fn from_any(report: String) -> (r: Error)
        ensures
            r.0 == report,
    {
        Error(report)
    }

    /// The report text.
    pub fn report(&self) -> (r: &String)
        ensures
            r == self.0,
    {
        &self.0
    }
}

} // verus!
