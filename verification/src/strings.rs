//! Verified building blocks for text handling: whitespace trimming,
//! substring tests, splitting, and decimal conversion.

use vstd::prelude::*;

verus! {

/// The whitespace characters recognised by this library: Unicode's
/// White_Space set, the characters `char::is_whitespace` accepts.
pub open spec fn is_space_char(c: char) -> bool {
    let n = c as u32;
    n == 0x9 || n == 0xA || n == 0xB || n == 0xC || n == 0xD || n == 0x20 || n == 0x85
        || n == 0xA0 || n == 0x1680 || (0x2000 <= n && n <= 0x200A) || n == 0x2028
        || n == 0x2029 || n == 0x202F || n == 0x205F || n == 0x3000
}

pub fn is_space(c: char) -> (r: bool)
    ensures
        r == is_space_char(c),
{
    let n = c as u32;
    n == 0x9 || n == 0xA || n == 0xB || n == 0xC || n == 0xD || n == 0x20 || n == 0x85
        || n == 0xA0 || n == 0x1680 || (0x2000 <= n && n <= 0x200A) || n == 0x2028
        || n == 0x2029 || n == 0x202F || n == 0x205F || n == 0x3000
}

pub open spec fn spec_trim_start(s: Seq<char>) -> Seq<char>
    decreases s.len(),
{
    if s.len() > 0 && is_space_char(s[0]) {
        spec_trim_start(s.drop_first())
    } else {
        s
    }
}

pub open spec fn spec_trim_end(s: Seq<char>) -> Seq<char>
    decreases s.len(),
{
    if s.len() > 0 && is_space_char(s.last()) {
        spec_trim_end(s.drop_last())
    } else {
        s
    }
}

/// What trimming both ends of a string leaves.
pub open spec fn spec_trim(s: Seq<char>) -> Seq<char> {
    spec_trim_end(spec_trim_start(s))
}

proof fn lemma_trim_start_skip(s: Seq<char>, i: int)
    requires
        0 <= i <= s.len(),
        forall|k: int| 0 <= k < i ==> is_space_char(s[k]),
    ensures
        spec_trim_start(s) == spec_trim_start(s.skip(i)),
    decreases i,
{
    if i > 0 {
        assert(s.skip(0) =~= s);
        assert(is_space_char(s[0]));
        assert(s.drop_first() =~= s.skip(1));
        lemma_trim_start_skip_step(s, i);
    } else {
        assert(s.skip(0) =~= s);
    }
}

proof fn lemma_trim_start_skip_step(s: Seq<char>, i: int)
    requires
        1 <= i <= s.len(),
        forall|k: int| 0 <= k < i ==> is_space_char(s[k]),
    ensures
        spec_trim_start(s) == spec_trim_start(s.skip(i)),
    decreases i,
{
    assert(s.drop_first() =~= s.skip(1));
    if i == 1 {
        assert(spec_trim_start(s) == spec_trim_start(s.skip(1)));
    } else {
        assert(forall|k: int| 0 <= k < i - 1 ==> is_space_char(s.skip(1)[k]));
        lemma_trim_start_skip_step(s.skip(1), i - 1);
        assert(s.skip(1).skip(i - 1) =~= s.skip(i));
    }
}

proof fn lemma_trim_start_id(s: Seq<char>)
    requires
        s.len() == 0 || !is_space_char(s[0]),
    ensures
        spec_trim_start(s) == s,
{
}

proof fn lemma_trim_end_take(s: Seq<char>, j: int)
    requires
        0 <= j <= s.len(),
        forall|k: int| j <= k < s.len() ==> is_space_char(s[k]),
    ensures
        spec_trim_end(s) == spec_trim_end(s.take(j)),
    decreases s.len() - j,
{
    if j == s.len() {
        assert(s.take(j) =~= s);
    } else {
        assert(s.len() > 0 && is_space_char(s.last()));
        assert(s.drop_last() =~= s.take(s.len() - 1));
        lemma_trim_end_take(s.take(s.len() - 1), j);
        assert(s.take(s.len() - 1).take(j) =~= s.take(j));
    }
}

proof fn lemma_trim_end_id(s: Seq<char>)
    requires
        s.len() == 0 || !is_space_char(s.last()),
    ensures
        spec_trim_end(s) == s,
{
}

/// Removes leading whitespace in place.
pub fn string_trim_start(text: &mut String)
    ensures
        final(text)@ == spec_trim_start(old(text)@),
{
    let ghost s = text@;
    let n = text.as_str().unicode_len();
    let mut i: usize = 0;
    while i < n && is_space(text.as_str().get_char(i))
        invariant
            0 <= i <= n,
            n == s.len(),
            text@ == s,
            forall|k: int| 0 <= k < i ==> is_space_char(s[k]),
        decreases n - i,
    {
        i = i + 1;
    }
    let trimmed = text.as_str().substring_char(i, n).to_owned();
    proof {
        lemma_trim_start_skip(s, i as int);
        assert(s.skip(i as int) =~= s.subrange(i as int, n as int));
        lemma_trim_start_id(s.subrange(i as int, n as int));
    }
    *text = trimmed;
}

/// Removes trailing whitespace in place.
pub fn string_trim_end(text: &mut String)
    ensures
        final(text)@ == spec_trim_end(old(text)@),
{
    let ghost s = text@;
    let n = text.as_str().unicode_len();
    let mut j: usize = n;
    while j > 0 && is_space(text.as_str().get_char(j - 1))
        invariant
            0 <= j <= n,
            n == s.len(),
            text@ == s,
            forall|k: int| j <= k < n ==> is_space_char(s[k]),
        decreases j,
    {
        j = j - 1;
    }
    let trimmed = text.as_str().substring_char(0, j).to_owned();
    proof {
        lemma_trim_end_take(s, j as int);
        assert(s.take(j as int) =~= s.subrange(0, j as int));
        lemma_trim_end_id(s.subrange(0, j as int));
    }
    *text = trimmed;
}

/// Removes whitespace from both ends in place.
pub fn string_trim(text: &mut String)
    ensures
        final(text)@ == spec_trim(old(text)@),
{
    string_trim_start(text);
    string_trim_end(text);
}

/// `p` occurs at the start of `s`.
pub open spec fn spec_starts_with(s: Seq<char>, p: Seq<char>) -> bool {
    p.len() <= s.len() && s.subrange(0, p.len() as int) == p
}

/// `p` occurs at the end of `s`.
pub open spec fn spec_ends_with(s: Seq<char>, p: Seq<char>) -> bool {
    p.len() <= s.len() && s.subrange(s.len() - p.len(), s.len() as int) == p
}

/// `p` occurs in `s` starting at position `i`.
pub open spec fn spec_matches_at(s: Seq<char>, p: Seq<char>, i: int) -> bool {
    0 <= i && i + p.len() <= s.len() && s.subrange(i, i + p.len() as int) == p
}

/// `p` occurs somewhere in `s`.
pub open spec fn spec_contains(s: Seq<char>, p: Seq<char>) -> bool {
    exists|i: int| spec_matches_at(s, p, i)
}

/// Character-for-character equality of two string slices.
pub fn str_eq(a: &str, b: &str) -> (r: bool)
    ensures
        r == (a@ == b@),
{
    let an = a.unicode_len();
    let bn = b.unicode_len();
    if an != bn {
        return false;
    }
    let mut i: usize = 0;
    while i < an
        invariant
            0 <= i <= an,
            an == a@.len(),
            an == b@.len(),
            forall|k: int| 0 <= k < i ==> a@[k] == b@[k],
        decreases an - i,
    {
        if a.get_char(i) != b.get_char(i) {
            return false;
        }
        i = i + 1;
    }
    proof {
        assert(a@ =~= b@);
    }
    true
}

/// Whether `p` occurs in `s` starting at `i`.
pub fn matches_at(s: &str, p: &str, i: usize) -> (r: bool)
    requires
        i + p@.len() <= s@.len(),
        s@.len() <= usize::MAX,
    ensures
        r == spec_matches_at(s@, p@, i as int),
{
    let pn = p.unicode_len();
    let mut k: usize = 0;
    while k < pn
        invariant
            0 <= k <= pn,
            pn == p@.len(),
            i + pn <= s@.len() <= usize::MAX,
            forall|m: int| 0 <= m < k ==> s@[i + m] == p@[m],
        decreases pn - k,
    {
        if s.get_char(i + k) != p.get_char(k) {
            assert(s@.subrange(i as int, i + pn as int)[k as int] != p@[k as int]);
            return false;
        }
        k = k + 1;
    }
    proof {
        assert(s@.subrange(i as int, i + pn as int) =~= p@);
    }
    true
}

pub fn str_starts_with(s: &str, p: &str) -> (r: bool)
    ensures
        r == spec_starts_with(s@, p@),
{
    let sn = s.unicode_len();
    let pn = p.unicode_len();
    if pn > sn {
        return false;
    }
    matches_at(s, p, 0)
}

pub fn str_ends_with(s: &str, p: &str) -> (r: bool)
    ensures
        r == spec_ends_with(s@, p@),
{
    let sn = s.unicode_len();
    let pn = p.unicode_len();
    if pn > sn {
        return false;
    }
    matches_at(s, p, sn - pn)
}

pub fn str_contains(s: &str, p: &str) -> (r: bool)
    ensures
        r == spec_contains(s@, p@),
{
    let sn = s.unicode_len();
    let pn = p.unicode_len();
    if pn > sn {
        assert(forall|i: int| !spec_matches_at(s@, p@, i));
        return false;
    }
    if pn == 0 {
        proof {
            assert(s@.subrange(0, 0) =~= p@);
            assert(spec_matches_at(s@, p@, 0));
        }
        return true;
    }
    let bound = sn - pn;
    let mut i: usize = 0;
    while i <= bound
        invariant
            0 <= i <= bound + 1,
            1 <= pn <= sn,
            bound == sn - pn,
            sn == s@.len(),
            pn == p@.len(),
            forall|k: int| 0 <= k < i ==> !spec_matches_at(s@, p@, k),
        decreases bound + 1 - i,
    {
        if matches_at(s, p, i) {
            assert(spec_matches_at(s@, p@, i as int));
            return true;
        }
        i = i + 1;
    }
    proof {
        assert(forall|k: int| k > sn - pn ==> !spec_matches_at(s@, p@, k));
    }
    false
}

} // verus!

verus! {

/// The views of a sequence of owned strings.
pub open spec fn seq_views(v: Seq<String>) -> Seq<Seq<char>> {
    v.map_values(|t: String| t@)
}

/// Length of the leading run of non-whitespace characters.
pub open spec fn token_len(s: Seq<char>) -> nat
    decreases s.len(),
{
    if s.len() == 0 || is_space_char(s[0]) {
        0
    } else {
        1 + token_len(s.drop_first())
    }
}

proof fn lemma_token_len(s: Seq<char>)
    ensures
        token_len(s) <= s.len(),
        forall|m: int| 0 <= m < token_len(s) ==> !is_space_char(s[m]),
        token_len(s) < s.len() ==> is_space_char(s[token_len(s) as int]),
    decreases s.len(),
{
    if s.len() > 0 && !is_space_char(s[0]) {
        lemma_token_len(s.drop_first());
        assert forall|m: int| 0 <= m < token_len(s) implies !is_space_char(s[m]) by {
            if m >= 1 {
                assert(s[m] == s.drop_first()[m - 1]);
            }
        }
    }
}

proof fn lemma_token_len_unique(s: Seq<char>, k: int)
    requires
        0 <= k <= s.len(),
        forall|m: int| 0 <= m < k ==> !is_space_char(s[m]),
        k == s.len() || is_space_char(s[k]),
    ensures
        token_len(s) == k,
    decreases s.len(),
{
    if s.len() == 0 || is_space_char(s[0]) {
    } else {
        assert(k > 0);
        assert(forall|m: int| 0 <= m < k - 1 ==> !is_space_char(#[trigger] s.drop_first()[m]));
        lemma_token_len_unique(s.drop_first(), k - 1);
    }
}

/// The whitespace-separated tokens of `s`, in order, empty runs dropped.
pub open spec fn spec_split_ws(s: Seq<char>) -> Seq<Seq<char>>
    decreases s.len(),
    via spec_split_ws_decreases
{
    if s.len() == 0 {
        Seq::empty()
    } else if is_space_char(s[0]) {
        spec_split_ws(s.drop_first())
    } else {
        seq![s.take(token_len(s) as int)] + spec_split_ws(s.skip(token_len(s) as int))
    }
}

#[via_fn]
proof fn spec_split_ws_decreases(s: Seq<char>) {
    lemma_token_len(s);
}

/// Splits on whitespace, returning the non-empty tokens in order.
pub fn split_on_spaces(s: &str) -> (r: Vec<String>)
    ensures
        seq_views(r@) == spec_split_ws(s@),
{
    let n = s.unicode_len();
    let mut out: Vec<String> = Vec::new();
    let mut i: usize = 0;
    proof {
        assert(s@.skip(0) =~= s@);
        assert(seq_views(out@) + spec_split_ws(s@) =~~= spec_split_ws(s@));
    }
    while i < n
        invariant
            0 <= i <= n,
            n == s@.len(),
            seq_views(out@) + spec_split_ws(s@.skip(i as int)) =~~= spec_split_ws(s@),
        decreases n - i,
    {
        if is_space(s.get_char(i)) {
            proof {
                assert(s@.skip(i as int).drop_first() =~= s@.skip(i + 1));
            }
            i = i + 1;
        } else {
            let start = i;
            let mut j = i + 1;
            while j < n && !is_space(s.get_char(j))
                invariant
                    start < j <= n,
                    n == s@.len(),
                    forall|m: int| start <= m < j ==> !is_space_char(s@[m]),
                decreases n - j,
            {
                j = j + 1;
            }
            let tok = s.substring_char(start, j).to_owned();
            proof {
                let rest = s@.skip(start as int);
                assert(forall|m: int|
                    0 <= m < j - start ==> !is_space_char(#[trigger] rest[m]));
                lemma_token_len_unique(rest, j - start);
                assert(rest.take(j - start) =~= s@.subrange(start as int, j as int));
                assert(rest.skip(j - start) =~= s@.skip(j as int));
                assert(seq_views(out@.push(tok)) =~~= seq_views(out@) + seq![tok@]);
            }
            out.push(tok);
            i = j;
        }
    }
    proof {
        assert(s@.skip(i as int) =~= Seq::<char>::empty());
        assert(seq_views(out@) + spec_split_ws(s@.skip(i as int)) =~~= seq_views(out@));
    }
    out
}

/// Length of the leading run of characters other than `c`.
pub open spec fn upto_len(s: Seq<char>, c: char) -> nat
    decreases s.len(),
{
    if s.len() == 0 || s[0] == c {
        0
    } else {
        1 + upto_len(s.drop_first(), c)
    }
}

proof fn lemma_upto_len(s: Seq<char>, c: char)
    ensures
        upto_len(s, c) <= s.len(),
        forall|m: int| 0 <= m < upto_len(s, c) ==> s[m] != c,
        upto_len(s, c) < s.len() ==> s[upto_len(s, c) as int] == c,
    decreases s.len(),
{
    if s.len() > 0 && s[0] != c {
        lemma_upto_len(s.drop_first(), c);
        assert forall|m: int| 0 <= m < upto_len(s, c) implies s[m] != c by {
            if m >= 1 {
                assert(s[m] == s.drop_first()[m - 1]);
            }
        }
    }
}

pub proof fn lemma_upto_len_unique(s: Seq<char>, c: char, k: int)
    requires
        0 <= k <= s.len(),
        forall|m: int| 0 <= m < k ==> s[m] != c,
        k == s.len() || s[k] == c,
    ensures
        upto_len(s, c) == k,
    decreases s.len(),
{
    if s.len() == 0 || s[0] == c {
    } else {
        assert(k > 0);
        assert(forall|m: int| 0 <= m < k - 1 ==> #[trigger] s.drop_first()[m] != c);
        lemma_upto_len_unique(s.drop_first(), c, k - 1);
    }
}

/// The pieces of `s` split on separator `c`, empty pieces kept.
pub open spec fn spec_split_char(s: Seq<char>, c: char) -> Seq<Seq<char>>
    decreases s.len(),
    via spec_split_char_decreases
{
    let k = upto_len(s, c) as int;
    if k == s.len() {
        seq![s]
    } else {
        seq![s.take(k)] + spec_split_char(s.skip(k + 1), c)
    }
}

#[via_fn]
proof fn spec_split_char_decreases(s: Seq<char>, c: char) {
    lemma_upto_len(s, c);
}

/// Splits on the separator character, keeping empty pieces.
pub fn split_on_char(s: &str, c: char) -> (r: Vec<String>)
    ensures
        seq_views(r@) == spec_split_char(s@, c),
        r@.len() >= 1,
{
    let n = s.unicode_len();
    let mut out: Vec<String> = Vec::new();
    let mut i: usize = 0;
    proof {
        assert(s@.skip(0) =~= s@);
        assert(seq_views(out@) + spec_split_char(s@, c) =~~= spec_split_char(s@, c));
    }
    loop
        invariant
            0 <= i <= n,
            n == s@.len(),
            seq_views(out@) + spec_split_char(s@.skip(i as int), c) =~~= spec_split_char(s@, c),
        decreases n - i,
    {
        let start = i;
        let mut j = i;
        while j < n && s.get_char(j) != c
            invariant
                start <= j <= n,
                n == s@.len(),
                forall|m: int| start <= m < j ==> s@[m] != c,
            decreases n - j,
        {
            j = j + 1;
        }
        let piece = s.substring_char(start, j).to_owned();
        proof {
            let rest = s@.skip(start as int);
            assert forall|m: int| 0 <= m < j - start implies rest[m] != c by {
                assert(rest[m] == s@[start + m]);
            }
            lemma_upto_len_unique(rest, c, j - start);
            assert(rest.take(j - start) =~= s@.subrange(start as int, j as int));
            assert(seq_views(out@.push(piece)) =~~= seq_views(out@) + seq![piece@]);
            if j < n {
                assert(rest.skip(j - start + 1) =~= s@.skip(j + 1));
            } else {
                assert(rest.take(j - start) =~= rest);
                assert(spec_split_char(rest, c) =~~= seq![piece@]);
            }
        }
        out.push(piece);
        if j < n {
            i = j + 1;
        } else {
            return out;
        }
    }
}

} // verus!

verus! {

pub open spec fn spec_trim_start_quotes(s: Seq<char>) -> Seq<char>
    decreases s.len(),
{
    if s.len() > 0 && s[0] == '"' {
        spec_trim_start_quotes(s.drop_first())
    } else {
        s
    }
}

pub open spec fn spec_trim_end_quotes(s: Seq<char>) -> Seq<char>
    decreases s.len(),
{
    if s.len() > 0 && s.last() == '"' {
        spec_trim_end_quotes(s.drop_last())
    } else {
        s
    }
}

/// What stripping double quotes from both ends of a string leaves.
pub open spec fn spec_trim_quotes(s: Seq<char>) -> Seq<char> {
    spec_trim_end_quotes(spec_trim_start_quotes(s))
}

proof fn lemma_trim_start_quotes_skip(s: Seq<char>, i: int)
    requires
        0 <= i <= s.len(),
        forall|k: int| 0 <= k < i ==> s[k] == '"',
    ensures
        spec_trim_start_quotes(s) == spec_trim_start_quotes(s.skip(i)),
    decreases i,
{
    if i > 0 {
        assert(s.drop_first() =~= s.skip(1));
        assert forall|k: int| 0 <= k < i - 1 implies s.skip(1)[k] == '"' by {
            assert(s.skip(1)[k] == s[k + 1]);
        }
        lemma_trim_start_quotes_skip(s.skip(1), i - 1);
        assert(s.skip(1).skip(i - 1) =~= s.skip(i));
    } else {
        assert(s.skip(0) =~= s);
    }
}

proof fn lemma_trim_end_quotes_take(s: Seq<char>, j: int)
    requires
        0 <= j <= s.len(),
        forall|k: int| j <= k < s.len() ==> s[k] == '"',
    ensures
        spec_trim_end_quotes(s) == spec_trim_end_quotes(s.take(j)),
    decreases s.len() - j,
{
    if j == s.len() {
        assert(s.take(j) =~= s);
    } else {
        assert(s.drop_last() =~= s.take(s.len() - 1));
        lemma_trim_end_quotes_take(s.take(s.len() - 1), j);
        assert(s.take(s.len() - 1).take(j) =~= s.take(j));
    }
}

/// Strips all leading and trailing double quotes.
pub fn trim_quotes(s: &str) -> (r: String)
    ensures
        r@ == spec_trim_quotes(s@),
{
    let n = s.unicode_len();
    let mut i: usize = 0;
    while i < n && s.get_char(i) == '"'
        invariant
            0 <= i <= n,
            n == s@.len(),
            forall|k: int| 0 <= k < i ==> s@[k] == '"',
        decreases n - i,
    {
        i = i + 1;
    }
    let mut j: usize = n;
    while j > i && s.get_char(j - 1) == '"'
        invariant
            i <= j <= n,
            n == s@.len(),
            forall|k: int| j <= k < n ==> s@[k] == '"',
        decreases j,
    {
        j = j - 1;
    }
    let r = s.substring_char(i, j).to_owned();
    proof {
        let mid = s@.skip(i as int);
        lemma_trim_start_quotes_skip(s@, i as int);
        assert(mid.len() == 0 || mid[0] != '"');
        assert(spec_trim_start_quotes(mid) == mid);
        assert forall|k: int| j - i <= k < mid.len() implies mid[k] == '"' by {
            assert(mid[k] == s@[i + k]);
        }
        lemma_trim_end_quotes_take(mid, j - i);
        assert(mid.take(j - i) =~= s@.subrange(i as int, j as int));
        if j > i {
            assert(s@.subrange(i as int, j as int).last() == s@[j - 1]);
        }
        assert(spec_trim_end_quotes(s@.subrange(i as int, j as int))
            == s@.subrange(i as int, j as int));
    }
    r
}

/// A decimal digit.
pub open spec fn is_digit_char(c: char) -> bool {
    48 <= c as u32 <= 57
}

pub open spec fn digit_val(c: char) -> int {
    c as u32 - 48
}

/// The number a sequence of decimal digits denotes, most significant first.
pub open spec fn spec_digits_val(s: Seq<char>) -> int
    decreases s.len(),
{
    if s.len() == 0 {
        0
    } else {
        spec_digits_val(s.drop_last()) * 10 + digit_val(s.last())
    }
}

pub open spec fn spec_all_digits(s: Seq<char>) -> bool {
    forall|i: int| 0 <= i < s.len() ==> is_digit_char(s[i])
}

proof fn lemma_digits_val_nonneg(s: Seq<char>)
    requires
        spec_all_digits(s),
    ensures
        spec_digits_val(s) >= 0,
    decreases s.len(),
{
    if s.len() > 0 {
        assert(forall|i: int|
            0 <= i < s.drop_last().len() ==> is_digit_char(#[trigger] s.drop_last()[i]));
        lemma_digits_val_nonneg(s.drop_last());
    }
}

proof fn lemma_digits_val_prefix(s: Seq<char>, m: int)
    requires
        spec_all_digits(s),
        0 <= m <= s.len(),
    ensures
        spec_digits_val(s) >= spec_digits_val(s.take(m)),
    decreases s.len() - m,
{
    if m < s.len() {
        assert(s.take(m + 1).drop_last() =~= s.take(m));
        assert(forall|i: int|
            0 <= i < s.take(m).len() ==> is_digit_char(#[trigger] s.take(m)[i]));
        lemma_digits_val_nonneg(s.take(m));
        assert(spec_digits_val(s.take(m + 1))
            == spec_digits_val(s.take(m)) * 10 + digit_val(s.take(m + 1).last()));
        assert(spec_digits_val(s.take(m + 1)) >= spec_digits_val(s.take(m)));
        lemma_digits_val_prefix(s, m + 1);
    } else {
        assert(s.take(m) =~= s);
    }
}

/// Parses a non-empty, all-digit decimal string; anything else is `None`.
pub fn parse_usize(s: &str) -> (r: Option<usize>)
    ensures
        r is Some <==> (spec_all_digits(s@) && s@.len() > 0 && spec_digits_val(s@)
            <= usize::MAX),
        r is Some ==> r->0 == spec_digits_val(s@),
{
    let n = s.unicode_len();
    if n == 0 {
        return None;
    }
    let limit: usize = usize::MAX / 10;
    let last_digit: usize = usize::MAX % 10;
    let mut acc: usize = 0;
    let mut i: usize = 0;
    while i < n
        invariant
            0 <= i <= n,
            n == s@.len(),
            limit == usize::MAX / 10,
            last_digit == usize::MAX % 10,
            forall|k: int| 0 <= k < i ==> is_digit_char(s@[k]),
            acc == spec_digits_val(s@.take(i as int)),
        decreases n - i,
    {
        let c = s.get_char(i);
        let cv = c as u32;
        if cv < 48 || cv > 57 {
            assert(!is_digit_char(s@[i as int]));
            return None;
        }
        let d = (cv - 48) as usize;
        if acc > limit || (acc == limit && d > last_digit) {
            proof {
                assert(s@.take(i + 1).drop_last() =~= s@.take(i as int));
                assert(spec_digits_val(s@.take(i + 1)) == acc * 10 + d);
                assert(acc * 10 + d > usize::MAX) by {
                    assert(usize::MAX == (usize::MAX / 10) * 10 + usize::MAX % 10);
                }
                if spec_all_digits(s@) {
                    lemma_digits_val_prefix(s@, i + 1);
                }
            }
            return None;
        }
        proof {
            assert(acc * 10 + d <= usize::MAX) by {
                assert(usize::MAX == (usize::MAX / 10) * 10 + usize::MAX % 10);
            }
            assert(s@.take(i + 1).drop_last() =~= s@.take(i as int));
        }
        acc = acc * 10 + d;
        i = i + 1;
    }
    proof {
        assert(s@.take(n as int) =~= s@);
    }
    Some(acc)
}

pub open spec fn spec_digit_char(d: int) -> char {
    if d == 0 { '0' }
    else if d == 1 { '1' }
    else if d == 2 { '2' }
    else if d == 3 { '3' }
    else if d == 4 { '4' }
    else if d == 5 { '5' }
    else if d == 6 { '6' }
    else if d == 7 { '7' }
    else if d == 8 { '8' }
    else { '9' }
}

/// The decimal rendering of `n`, most significant digit first.
pub open spec fn spec_decimal(n: int) -> Seq<char>
    decreases n,
{
    if n < 10 {
        seq![spec_digit_char(n)]
    } else {
        spec_decimal(n / 10) + seq![spec_digit_char(n % 10)]
    }
}

fn digit_char(d: u64) -> (c: char)
    requires
        d < 10,
    ensures
        c == spec_digit_char(d as int),
{
    if d == 0 { '0' }
    else if d == 1 { '1' }
    else if d == 2 { '2' }
    else if d == 3 { '3' }
    else if d == 4 { '4' }
    else if d == 5 { '5' }
    else if d == 6 { '6' }
    else if d == 7 { '7' }
    else if d == 8 { '8' }
    else { '9' }
}

/// The reversal of a character sequence.
pub open spec fn rev_chars(s: Seq<char>) -> Seq<char> {
    Seq::new(s.len(), |i: int| s[s.len() - 1 - i])
}

/// Relies on std's `String::push`: appending one character appends it to
/// the view.
pub assume_specification[ String::push ](s: &mut String, value: char)
    ensures
        final(s)@ == old(s)@.push(value),
;

/// A string holding exactly these characters.
pub(crate) fn string_from_chars(v: &Vec<char>) -> (r: String)
    ensures
        r@ == v@,
{
    let n = v.len();
    let mut out = String::new();
    let mut i: usize = 0;
    while i < n
        invariant
            0 <= i <= n,
            n == v@.len(),
            out@ == v@.take(i as int),
        decreases n - i,
    {
        let c = v[i];
        proof {
            assert(v@.take(i as int).push(c) =~= v@.take(i + 1));
        }
        out.push(c);
        i = i + 1;
    }
    proof {
        assert(v@.take(n as int) =~= v@);
    }
    out
}

/// Renders `n` in decimal.
pub fn u64_to_string(n: u64) -> (r: String)
    ensures
        r@ == spec_decimal(n as int),
{
    let mut digits: Vec<char> = Vec::new();
    let mut m = n;
    loop
        invariant_except_break
            spec_decimal(n as int) =~= spec_decimal(m as int) + rev_chars(digits@),
        ensures
            spec_decimal(n as int) =~= rev_chars(digits@),
        decreases m,
    {
        let d = m % 10;
        let c = digit_char(d);
        proof {
            assert(rev_chars(digits@.push(c)) =~= seq![c] + rev_chars(digits@));
        }
        digits.push(c);
        if m < 10 {
            break;
        }
        m = m / 10;
    }
    let k = digits.len();
    let mut ordered: Vec<char> = Vec::new();
    let mut j = k;
    while j > 0
        invariant
            0 <= j <= k,
            k == digits@.len(),
            ordered@.len() == k - j,
            forall|t: int| 0 <= t < k - j ==> ordered@[t] == digits@[k - 1 - t],
        decreases j,
    {
        j = j - 1;
        let c = digits[j];
        ordered.push(c);
    }
    proof {
        assert(ordered@ =~= rev_chars(digits@));
    }
    string_from_chars(&ordered)
}

/// Renders `n` in decimal.
pub fn usize_to_string(n: usize) -> (r: String)
    ensures
        r@ == spec_decimal(n as int),
{
    u64_to_string(n as u64)
}

} // verus!
