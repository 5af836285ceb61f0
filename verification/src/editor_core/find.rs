//! Find engine: non-overlapping substring search over the codepoints of
//! a string, optionally case-insensitive and/or whole-word.
//!
//! Offsets are codepoint offsets of the haystack, half-open
//! `[start, end)`. A match is a run of whole haystack codepoints whose
//! folded characters are exactly the folded needle. Matches are found
//! greedily left to right: after a match the scan resumes at its end,
//! otherwise one codepoint further. An empty needle finds nothing.

use std::ops::Range;
use vstd::prelude::*;

use crate::text::{chars_eq, chars_of, char_is_alphanumeric, char_lowercase, is_alphanumeric, lowercase_of, push_all};

verus! {

/// Codepoint range of a single match, half-open `[start, end)`.
pub type Match = Range<usize>;

/// Search options. The default is the most permissive search:
/// case-insensitive, not whole-word.
#[derive(Debug, Clone, Copy, Default, PartialEq, Eq)]
pub struct FindOptions {
    /// When `true`, characters must match exactly; when `false`, each
    /// character is compared through its full lowercase mapping
    /// (`char::to_lowercase`, which may expand one character into
    /// several, as `İ` into `i` and U+0307).
    pub case_sensitive: bool,
    /// When `true`, a match only counts if both of its ends are word
    /// boundaries (see [`is_word_boundary`]).
    pub whole_word: bool,
}

impl FindOptions {
    /// Case-insensitive, not whole-word.
    pub fn permissive() -> (r: Self)
        ensures
            !r.case_sensitive && !r.whole_word,
    {
        FindOptions { case_sensitive: false, whole_word: false }
    }

    /// Case-sensitive, not whole-word.
    pub fn case_sensitive() -> (r: Self)
        ensures
            r.case_sensitive && !r.whole_word,
    {
        FindOptions { case_sensitive: true, whole_word: false }
    }

    /// Whole-word, case-insensitive.
    pub fn whole_word() -> (r: Self)
        ensures
            !r.case_sensitive && r.whole_word,
    {
        FindOptions { case_sensitive: false, whole_word: true }
    }
}

/// The characters a codepoint is compared as: itself when the search is
/// case-sensitive, otherwise its full lowercase mapping (the character
/// itself should that mapping be empty).
pub open spec fn spec_fold(c: char, case_sensitive: bool) -> Seq<char> {
    if case_sensitive || char_lowercase(c).len() == 0 {
        seq![c]
    } else {
        char_lowercase(c)
    }
}

/// A string folded: the folds of its characters, in order.
pub open spec fn spec_fold_seq(s: Seq<char>, case_sensitive: bool) -> Seq<char>
    decreases s.len(),
{
    if s.len() == 0 {
        Seq::empty()
    } else {
        spec_fold_seq(s.drop_last(), case_sensitive) + spec_fold(s.last(), case_sensitive)
    }
}

/// Position `pos` of `text` is a word boundary: it is the start, at or
/// past the end, or the characters on its two sides disagree on being
/// alphanumeric.
pub open spec fn spec_word_boundary(text: Seq<char>, pos: int) -> bool {
    pos == 0 || pos >= text.len() || char_is_alphanumeric(text[pos - 1])
        != char_is_alphanumeric(text[pos])
}

/// Where a candidate match that has reached codepoint `e`, with `acc`
/// folded characters gathered, ends: whole codepoints are taken until
/// `need` folded characters are gathered or the text ends.
pub open spec fn spec_match_end(text: Seq<char>, case_sensitive: bool, e: int, acc: int, need: int) -> int
    decreases text.len() - e,
{
    if acc >= need || e < 0 || e >= text.len() {
        e
    } else {
        spec_match_end(text, case_sensitive, e + 1, acc + spec_fold(text[e], case_sensitive).len(), need)
    }
}

/// `[i, e)` of `text` is a match of the folded needle `n`: its folded
/// characters are exactly `n`, and, for a whole-word search, both ends
/// are word boundaries.
pub open spec fn spec_match_at(
    text: Seq<char>,
    n: Seq<char>,
    case_sensitive: bool,
    whole_word: bool,
    i: int,
    e: int,
) -> bool {
    &&& spec_fold_seq(text.subrange(i, e), case_sensitive) == n
    &&& (!whole_word || (spec_word_boundary(text, i) && spec_word_boundary(text, e)))
}

/// The greedy left-to-right scan from codepoint `i`: the matches found
/// from there on, as `(start, end)` pairs.
pub open spec fn spec_scan(
    text: Seq<char>,
    n: Seq<char>,
    case_sensitive: bool,
    whole_word: bool,
    i: int,
) -> Seq<(int, int)>
    decreases text.len() - i,
{
    if n.len() == 0 || i < 0 || i >= text.len() {
        Seq::empty()
    } else {
        let e = spec_match_end(text, case_sensitive, i, 0, n.len() as int);
        if i < e <= text.len() && spec_match_at(text, n, case_sensitive, whole_word, i, e) {
            seq![(i, e)] + spec_scan(text, n, case_sensitive, whole_word, e)
        } else {
            spec_scan(text, n, case_sensitive, whole_word, i + 1)
        }
    }
}

/// All matches of `needle` in `haystack` under `opts`, as pairs.
pub open spec fn spec_find(haystack: Seq<char>, needle: Seq<char>, opts: FindOptions) -> Seq<
    (int, int),
> {
    spec_scan(
        haystack,
        spec_fold_seq(needle, opts.case_sensitive),
        opts.case_sensitive,
        opts.whole_word,
        0,
    )
}

/// The matches as pairs of integers.
pub open spec fn match_pairs(ms: Seq<Match>) -> Seq<(int, int)> {
    ms.map_values(|m: Match| (m.start as int, m.end as int))
}

/// Every pair of the scan from `i` lies within `[i, text.len()]`, is
/// non-empty and a match, and the pairs are sorted and non-overlapping.
pub proof fn lemma_scan_shape(
    text: Seq<char>,
    n: Seq<char>,
    cs: bool,
    ww: bool,
    i: int,
)
    requires
        0 <= i,
    ensures
        ({
            let r = spec_scan(text, n, cs, ww, i);
            &&& forall|k: int|
                0 <= k < r.len() ==> i <= #[trigger] r[k].0 && r[k].0 < r[k].1 && r[k].1 <= text.len()
                    && spec_match_at(text, n, cs, ww, r[k].0, r[k].1)
            &&& forall|k: int| 0 <= k < r.len() - 1 ==> #[trigger] r[k].1 <= r[k + 1].0
            &&& i <= text.len() ==> r.len() <= text.len() - i
        }),
    decreases text.len() - i,
{
    if n.len() == 0 || i >= text.len() {
    } else {
        let e = spec_match_end(text, cs, i, 0, n.len() as int);
        if i < e <= text.len() && spec_match_at(text, n, cs, ww, i, e) {
            lemma_scan_shape(text, n, cs, ww, e);
            let rest = spec_scan(text, n, cs, ww, e);
            let r = spec_scan(text, n, cs, ww, i);
            assert(r == seq![(i, e)] + rest);
            assert forall|k: int| 0 <= k < r.len() - 1 implies #[trigger] r[k].1 <= r[k + 1].0 by {
                if k > 0 {
                    assert(r[k] == rest[k - 1]);
                    assert(r[k + 1] == rest[k]);
                } else {
                    assert(r[1] == rest[0]);
                }
            }
            assert forall|k: int| 0 <= k < r.len() implies i <= #[trigger] r[k].0 && r[k].0 < r[k].1
                && r[k].1 <= text.len() && spec_match_at(text, n, cs, ww, r[k].0, r[k].1) by {
                if k > 0 {
                    assert(r[k] == rest[k - 1]);
                }
            }
        } else {
            lemma_scan_shape(text, n, cs, ww, i + 1);
            assert(spec_scan(text, n, cs, ww, i) == spec_scan(text, n, cs, ww, i + 1));
        }
    }
}

/// The characters codepoint `c` is compared as (see [`FindOptions`]).
pub fn fold(c: char, opts: FindOptions) -> (r: Vec<char>)
    ensures
        r@ == spec_fold(c, opts.case_sensitive),
{
    if !opts.case_sensitive {
        let low = lowercase_of(c);
        if low.len() > 0 {
            return low;
        }
    }
    let mut one: Vec<char> = Vec::new();
    one.push(c);
    proof {
        assert(one@ =~= seq![c]);
    }
    one
}

/// The folds of the characters of `cs`, one per codepoint.
fn fold_pieces(cs: &Vec<char>, opts: FindOptions) -> (r: Vec<Vec<char>>)
    ensures
        r@.len() == cs@.len(),
        forall|k: int| 0 <= k < r@.len() ==> (#[trigger] r@[k])@ == spec_fold(cs@[k], opts.case_sensitive),
{
    let mut out: Vec<Vec<char>> = Vec::new();
    let mut i: usize = 0;
    while i < cs.len()
        invariant
            i <= cs@.len(),
            out@.len() == i,
            forall|k: int| 0 <= k < i ==> (#[trigger] out@[k])@ == spec_fold(cs@[k], opts.case_sensitive),
        decreases cs@.len() - i,
    {
        out.push(fold(cs[i], opts));
        i += 1;
    }
    out
}

/// The folded characters of codepoints `[i, e)`, given their folds.
fn join_pieces(Ghost(text): Ghost<Seq<char>>, pieces: &Vec<Vec<char>>, opts: FindOptions, i: usize, e: usize) -> (r: Vec<char>)
    requires
        i <= e <= pieces@.len(),
        pieces@.len() == text.len(),
        forall|k: int| 0 <= k < pieces@.len() ==> (#[trigger] pieces@[k])@ == spec_fold(text[k], opts.case_sensitive),
    ensures
        r@ == spec_fold_seq(text.subrange(i as int, e as int), opts.case_sensitive),
{
    let mut out: Vec<char> = Vec::new();
    let mut k: usize = i;
    assert(text.subrange(i as int, i as int) =~= Seq::<char>::empty());
    while k < e
        invariant
            i <= k <= e <= pieces@.len(),
            pieces@.len() == text.len(),
            forall|j: int| 0 <= j < pieces@.len() ==> (#[trigger] pieces@[j])@ == spec_fold(text[j], opts.case_sensitive),
            out@ == spec_fold_seq(text.subrange(i as int, k as int), opts.case_sensitive),
        decreases e - k,
    {
        push_all(&mut out, pieces[k].as_slice());
        proof {
            let s1 = text.subrange(i as int, k + 1);
            assert(s1.drop_last() =~= text.subrange(i as int, k as int));
            assert(s1.last() == text[k as int]);
        }
        k += 1;
    }
    out
}

/// `true` iff codepoint position `pos` of `text` is a word boundary: the
/// start and end (and anything past the end) always are; otherwise the
/// two neighbouring codepoints must disagree on `is_alphanumeric`.
pub fn is_word_boundary(text: &str, pos: usize) -> (r: bool)
    ensures
        r == spec_word_boundary(text@, pos as int),
{
    let len = text.unicode_len();
    if pos == 0 || pos >= len {
        return true;
    }
    let p = text.get_char(pos - 1);
    let c = text.get_char(pos);
    is_alphanumeric(p) != is_alphanumeric(c)
}

/// Where the candidate match at codepoint `i` ends (see
/// [`spec_match_end`]).
fn match_end(Ghost(text): Ghost<Seq<char>>, pieces: &Vec<Vec<char>>, opts: FindOptions, i: usize, need: usize) -> (e: usize)
    requires
        i <= pieces@.len(),
        pieces@.len() == text.len(),
        forall|k: int| 0 <= k < pieces@.len() ==> (#[trigger] pieces@[k])@ == spec_fold(text[k], opts.case_sensitive),
    ensures
        e == spec_match_end(text, opts.case_sensitive, i as int, 0, need as int),
        i <= e <= text.len(),
{
    let mut e: usize = i;
    let mut acc: usize = 0;
    while acc < need && e < pieces.len()
        invariant
            i <= e <= pieces@.len(),
            acc <= need,
            pieces@.len() == text.len(),
            forall|k: int| 0 <= k < pieces@.len() ==> (#[trigger] pieces@[k])@ == spec_fold(text[k], opts.case_sensitive),
            spec_match_end(text, opts.case_sensitive, e as int, acc as int, need as int) == spec_match_end(
                text,
                opts.case_sensitive,
                i as int,
                0,
                need as int,
            ),
        decreases pieces@.len() - e,
    {
        let plen = pieces[e].len();
        proof {
            assert(pieces@[e as int]@ == spec_fold(text[e as int], opts.case_sensitive));
            assert(spec_match_end(text, opts.case_sensitive, e as int, acc as int, need as int) == spec_match_end(
                text,
                opts.case_sensitive,
                e + 1,
                acc + plen,
                need as int,
            ));
        }
        if plen >= need - acc {
            acc = need;
        } else {
            acc = acc + plen;
        }
        e = e + 1;
    }
    e
}

/// Finds all non-overlapping occurrences of `needle` in `haystack`,
/// scanning greedily from the left. Returns codepoint ranges of the
/// haystack sorted by `start`; an empty needle gives none.
pub fn find(haystack: &str, needle: &str, opts: FindOptions) -> (r: Vec<Match>)
    ensures
        match_pairs(r@) == spec_find(haystack@, needle@, opts),
        needle@.len() == 0 ==> r@.len() == 0,
        forall|k: int|
            0 <= k < r@.len() ==> (#[trigger] r@[k]).start < r@[k].end && r@[k].end <= haystack@.len()
                && spec_match_at(
                haystack@,
                spec_fold_seq(needle@, opts.case_sensitive),
                opts.case_sensitive,
                opts.whole_word,
                r@[k].start as int,
                r@[k].end as int,
            ),
        forall|k: int| 0 <= k < r@.len() - 1 ==> (#[trigger] r@[k]).end <= r@[k + 1].start,
        r@.len() <= haystack@.len(),
{
    let ghost cs = opts.case_sensitive;
    let ghost ww = opts.whole_word;
    let ghost text = haystack@;
    let ghost ns = spec_fold_seq(needle@, cs);
    let mut matches: Vec<Match> = Vec::new();
    let nchars = chars_of(needle);
    let npieces = fold_pieces(&nchars, opts);
    let n = join_pieces(Ghost(needle@), &npieces, opts, 0, nchars.len());
    proof {
        assert(needle@.subrange(0, needle@.len() as int) =~= needle@);
    }
    if nchars.len() == 0 {
        assert(match_pairs(matches@) =~= spec_find(haystack@, needle@, opts));
        return matches;
    }
    if n.len() == 0 {
        assert(match_pairs(matches@) =~= spec_find(haystack@, needle@, opts));
        return matches;
    }
    let hchars = chars_of(haystack);
    let pieces = fold_pieces(&hchars, opts);
    let len = hchars.len();
    let mut i: usize = 0;
    while i < len
        invariant
            n@ == ns,
            ns == spec_fold_seq(needle@, cs),
            n@.len() > 0,
            hchars@ == text,
            len == text.len(),
            pieces@.len() == text.len(),
            forall|k: int| 0 <= k < pieces@.len() ==> (#[trigger] pieces@[k])@ == spec_fold(text[k], cs),
            i <= len,
            cs == opts.case_sensitive,
            ww == opts.whole_word,
            text == haystack@,
            match_pairs(matches@) + spec_scan(text, ns, cs, ww, i as int) == spec_scan(text, ns, cs, ww, 0),
        decreases len - i,
    {
        let ghost before = matches@;
        let e = match_end(Ghost(text), &pieces, opts, i, n.len());
        let mut found = false;
        if i < e {
            let w = join_pieces(Ghost(text), &pieces, opts, i, e);
            if chars_eq(w.as_slice(), n.as_slice()) {
                if !opts.whole_word || (is_word_boundary(haystack, i) && is_word_boundary(haystack, e)) {
                    found = true;
                }
            }
        }
        if found {
            matches.push(i..e);
            proof {
                assert(match_pairs(matches@) =~= match_pairs(before).push((i as int, e as int)));
                let rest = spec_scan(text, ns, cs, ww, e as int);
                assert(spec_scan(text, ns, cs, ww, i as int) == seq![(i as int, e as int)] + rest);
                assert(match_pairs(before) + (seq![(i as int, e as int)] + rest) =~= match_pairs(matches@)
                    + rest);
            }
            i = e;
        } else {
            i += 1;
        }
    }
    assert(match_pairs(matches@) =~= match_pairs(matches@) + spec_scan(text, ns, cs, ww, i as int));
    proof {
        lemma_scan_shape(text, ns, cs, ww, 0);
        let r = spec_find(haystack@, needle@, opts);
        assert(match_pairs(matches@) == r);
        assert forall|k: int| 0 <= k < matches@.len() implies (#[trigger] matches@[k]).start
            < matches@[k].end && matches@[k].end <= haystack@.len() && spec_match_at(
            haystack@,
            ns,
            cs,
            ww,
            matches@[k].start as int,
            matches@[k].end as int,
        ) by {
            assert(match_pairs(matches@)[k] == r[k]);
            assert(r[k].0 < r[k].1);
        }
        assert forall|k: int| 0 <= k < matches@.len() - 1 implies (
        #[trigger] matches@[k]).end <= matches@[k + 1].start by {
            assert(match_pairs(matches@)[k] == r[k]);
            assert(match_pairs(matches@)[k + 1] == r[k + 1]);
            assert(r[k].1 <= r[k + 1].0);
        }
    }
    matches
}

/// Each folded codepoint adds at least one character: the fold of the
/// first `k` codepoints is at least `k - e` longer than that of the
/// first `e`.
pub proof fn lemma_fold_len_grows(s: Seq<char>, cs: bool, e: int, k: int)
    requires
        0 <= e <= k <= s.len(),
    ensures
        spec_fold_seq(s.take(k), cs).len() >= spec_fold_seq(s.take(e), cs).len() + (k - e),
    decreases k - e,
{
    if k > e {
        lemma_fold_len_grows(s, cs, e, k - 1);
        assert(s.take(k).drop_last() =~= s.take(k - 1));
        assert(s.take(k).last() == s[k - 1]);
    }
}

/// Walking a text from `e` with the folded length of its first `e`
/// codepoints, until its whole folded length is gathered, ends at the
/// end of the text.
proof fn lemma_match_end_whole(s: Seq<char>, cs: bool, e: int)
    requires
        0 <= e <= s.len(),
    ensures
        spec_match_end(s, cs, e, spec_fold_seq(s.take(e), cs).len() as int, spec_fold_seq(s, cs).len() as int)
            == s.len(),
    decreases s.len() - e,
{
    assert(s.take(s.len() as int) =~= s);
    if e < s.len() {
        lemma_fold_len_grows(s, cs, e + 1, s.len() as int);
        assert(s.take(e + 1).drop_last() =~= s.take(e));
        assert(s.take(e + 1).last() == s[e]);
        lemma_match_end_whole(s, cs, e + 1);
    }
}

/// Searching a non-empty haystack for itself, with both options off,
/// finds exactly one match covering the whole haystack.
pub proof fn law_find_self(haystack: Seq<char>)
    requires
        haystack.len() > 0,
    ensures
        spec_find(haystack, haystack, FindOptions { case_sensitive: false, whole_word: false })
            == seq![(0int, haystack.len() as int)],
{
    let f = spec_fold_seq(haystack, false);
    let n = haystack.len() as int;
    assert(haystack.take(0) =~= Seq::<char>::empty());
    lemma_match_end_whole(haystack, false, 0);
    lemma_fold_len_grows(haystack, false, 0, n);
    assert(haystack.take(n) =~= haystack);
    assert(haystack.subrange(0, n) =~= haystack);
    assert(spec_scan(haystack, f, false, false, n) == Seq::<(int, int)>::empty());
    assert(spec_scan(haystack, f, false, false, 0) =~= seq![(0int, n)]);
}

} // verus!
