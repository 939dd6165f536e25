//! URLs as plain parts: scheme, authority, and path-with-query, each the
//! empty string when absent. A relative link is resolved by rebuilding it
//! against the crawl's base scheme and authority; a bare path is never
//! trusted as absolute.

use vstd::prelude::*;

use crate::errors::CrawlError;
use crate::strings::{
    parse_usize, spec_all_digits, spec_digits_val, spec_split_char, split_on_char, upto_len,
};

verus! {

/// A URL split into its three parts.
#[derive(Debug, Clone)]
pub struct UrlParts {
    pub scheme: String,
    pub authority: String,
    pub path_and_query: String,
}

/// What http's URI parser yields on a text: the three parts, or nothing
/// when the text is no URI reference.
pub uninterp spec fn url_parts_of(s: Seq<char>) -> Option<(Seq<char>, Seq<char>, Seq<char>)>;

/// Relies on `http::Uri`'s parser to split a URL into scheme, authority and
/// path-with-query, each the empty string when the part is absent.
#[verifier::external_body]
fn split_url(s: &str) -> (r: Option<UrlParts>)
    ensures
        match r {
            Some(p) => url_parts_of(s@) == Some((p.scheme@, p.authority@, p.path_and_query@)),
            None => url_parts_of(s@) is None,
        },
{
    match http::Uri::try_from(s) {
        Ok(uri) => Some(UrlParts {
            scheme: uri.scheme_str().unwrap_or("").to_string(),
            authority: uri.authority().map(|a| a.as_str()).unwrap_or("").to_string(),
            path_and_query: uri.path_and_query().map(|p| p.as_str()).unwrap_or("").to_string(),
        }),
        Err(_) => None,
    }
}

/// Parses a link into URL parts; `None` when it is no URI reference.
pub fn parse_url(s: &str) -> (r: Option<UrlParts>)
    ensures
        match r {
            Some(p) => url_parts_of(s@) == Some((p.scheme@, p.authority@, p.path_and_query@)),
            None => url_parts_of(s@) is None,
        },
{
    split_url(s)
}

/// The textual form of URL parts.
pub open spec fn spec_url_text(u: UrlParts) -> Seq<char> {
    u.scheme@ + seq![':', '/', '/'] + u.authority@ + u.path_and_query@
}

impl UrlParts {
    /// Renders the URL as text.
    pub fn to_text(&self) -> (r: String)
        ensures
            r@ == spec_url_text(*self),
    {
        let mut out = self.scheme.clone();
        out.append("://");
        out.append(self.authority.as_str());
        out.append(self.path_and_query.as_str());
        proof {
            reveal_strlit("://");
            assert("://"@ =~= seq![':', '/', '/']);
            assert(out@ =~= spec_url_text(*self));
        }
        out
    }
}

/// Resolves a link against the base: the base's scheme and authority carry
/// over, the link supplies path and query. Fails exactly when the base lacks
/// a scheme or authority, or the link lacks a path.
pub fn rebuild_url(base_url: &UrlParts, new_url: &UrlParts) -> (r: Result<UrlParts, CrawlError>)
    ensures
        match r {
            Ok(u) => base_url.scheme@.len() > 0 && base_url.authority@.len() > 0
                && new_url.path_and_query@.len() > 0 && u.scheme@ == base_url.scheme@
                && u.authority@ == base_url.authority@ && u.path_and_query@
                == new_url.path_and_query@,
            Err(e) => (base_url.scheme@.len() == 0 && e is MissingScheme) || (
            base_url.scheme@.len() > 0 && base_url.authority@.len() == 0 && e is MissingAuthority)
                || (base_url.scheme@.len() > 0 && base_url.authority@.len() > 0
                && new_url.path_and_query@.len() == 0 && e is MissingPath),
        },
{
    if base_url.scheme.as_str().unicode_len() == 0 {
        return Err(CrawlError::MissingScheme);
    }
    if base_url.authority.as_str().unicode_len() == 0 {
        return Err(CrawlError::MissingAuthority);
    }
    if new_url.path_and_query.as_str().unicode_len() == 0 {
        return Err(CrawlError::MissingPath);
    }
    Ok(UrlParts {
        scheme: base_url.scheme.clone(),
        authority: base_url.authority.clone(),
        path_and_query: new_url.path_and_query.clone(),
    })
}

/// `u` holds exactly these three parts.
pub open spec fn spec_url_matches(u: UrlParts, r: (Seq<char>, Seq<char>, Seq<char>)) -> bool {
    u.scheme@ == r.0 && u.authority@ == r.1 && u.path_and_query@ == r.2
}

/// The three parts of a URL value, for comparing optional URLs at spec
/// level.
pub open spec fn spec_url_opt_view(o: Option<UrlParts>) -> Option<(Seq<char>, Seq<char>, Seq<char>)> {
    match o {
        Some(u) => Some((u.scheme@, u.authority@, u.path_and_query@)),
        None => None,
    }
}

/// What resolving a link against the base yields: the base's scheme and
/// authority with the link's path and query, or nothing when the link is
/// no URI reference, the base lacks a part, or the link lacks a path.
pub open spec fn spec_resolve(base: UrlParts, link: Seq<char>) -> Option<(
    Seq<char>,
    Seq<char>,
    Seq<char>,
)> {
    match url_parts_of(link) {
        Some(p) => if base.scheme@.len() > 0 && base.authority@.len() > 0 && p.2.len() > 0 {
            Some((base.scheme@, base.authority@, p.2))
        } else {
            None
        },
        None => None,
    }
}

/// The story id a path-with-query denotes, when its second non-empty
/// segment is an in-range number.
pub open spec fn spec_story_id(paq: Seq<char>) -> Option<int> {
    let segs = spec_path_segments(paq);
    if segs.len() >= 2 && segs[1].len() > 0 && spec_all_digits(segs[1]) && spec_digits_val(
        segs[1],
    ) <= usize::MAX {
        Some(spec_digits_val(segs[1]))
    } else {
        None
    }
}

/// The pieces of a path split on `/`, empty pieces dropped.
pub open spec fn spec_keep_nonempty(ps: Seq<Seq<char>>, i: int) -> Seq<Seq<char>>
    decreases ps.len() - i,
{
    if i < 0 || i >= ps.len() {
        Seq::empty()
    } else {
        (if ps[i].len() > 0 {
            seq![ps[i]]
        } else {
            Seq::empty()
        }) + spec_keep_nonempty(ps, i + 1)
    }
}

/// The path of a path-with-query: everything before the first `?`.
pub open spec fn spec_path_of(paq: Seq<char>) -> Seq<char> {
    paq.take(upto_len(paq, '?') as int)
}

/// The non-empty `/`-separated segments of the path.
pub open spec fn spec_path_segments(paq: Seq<char>) -> Seq<Seq<char>> {
    spec_keep_nonempty(spec_split_char(spec_path_of(paq), '/'), 0)
}

/// The story id is the second non-empty path segment, read as a number.
/// Fails with `NoStoryId` when there is no such segment, and `BadStoryId`
/// when it is not an in-range number.
pub fn story_id_from_path(paq: &str) -> (r: Result<usize, CrawlError>)
    ensures
        match r {
            Ok(id) => spec_path_segments(paq@).len() >= 2 && spec_all_digits(
                spec_path_segments(paq@)[1],
            ) && spec_path_segments(paq@)[1].len() > 0 && id == spec_digits_val(
                spec_path_segments(paq@)[1],
            ),
            Err(e) => (e is NoStoryId && spec_path_segments(paq@).len() < 2) || (e is BadStoryId
                && spec_path_segments(paq@).len() >= 2 && spec_story_id(paq@) is None),
        },
        r is Ok <==> spec_story_id(paq@) is Some,
        r is Ok ==> r->Ok_0 == spec_story_id(paq@)->Some_0,
{
    let n = paq.unicode_len();
    let mut q: usize = 0;
    while q < n && paq.get_char(q) != '?'
        invariant
            0 <= q <= n,
            n == paq@.len(),
            forall|k: int| 0 <= k < q ==> paq@[k] != '?',
        decreases n - q,
    {
        q = q + 1;
    }
    proof {
        crate::strings::lemma_upto_len_unique(paq@, '?', q as int);
    }
    let path = paq.substring_char(0, q).to_owned();
    proof {
        assert(path@ =~= spec_path_of(paq@));
    }
    let pieces = split_on_char(path.as_str(), '/');
    let ghost pviews = spec_split_char(path@, '/');
    let mut segs: Vec<String> = Vec::new();
    let pn = pieces.len();
    let mut i: usize = 0;
    while i < pn
        invariant
            0 <= i <= pn,
            pn == pieces@.len(),
            crate::strings::seq_views(pieces@) == pviews,
            crate::strings::seq_views(segs@) + spec_keep_nonempty(pviews, i as int)
                =~~= spec_keep_nonempty(pviews, 0),
        decreases pn - i,
    {
        proof {
            assert(pviews[i as int] == pieces@[i as int]@);
        }
        let piece = &pieces[i];
        if piece.as_str().unicode_len() > 0 {
            let ghost before = crate::strings::seq_views(segs@);
            let copy = piece.clone();
            proof {
                assert(crate::strings::seq_views(segs@.push(copy)) =~~= before + seq![copy@]);
                assert((before + seq![copy@]) + spec_keep_nonempty(pviews, i + 1) =~~= before
                    + spec_keep_nonempty(pviews, i as int));
            }
            segs.push(copy);
        }
        i = i + 1;
    }
    proof {
        assert(spec_keep_nonempty(pviews, pn as int) =~~= Seq::<Seq<char>>::empty());
        assert(crate::strings::seq_views(segs@) =~~= spec_keep_nonempty(pviews, 0));
    }
    if segs.len() < 2 {
        return Err(CrawlError::NoStoryId);
    }
    proof {
        assert(crate::strings::seq_views(segs@)[1] == segs@[1]@);
    }
    match parse_usize(segs[1].as_str()) {
        Some(id) => Ok(id),
        None => Err(CrawlError::BadStoryId),
    }
}

} // verus!
