//! The block structure of the body: blocks are the `\n`-separated
//! lines of the linearised text. Spec functions over codepoint
//! sequences, their lemmas, and the scans that compute them.

use vstd::prelude::*;

verus! {

/// Number of `\n` codepoints in `s`.
pub open spec fn count_nl(s: Seq<char>) -> nat
    decreases s.len(),
{
    if s.len() == 0 {
        0
    } else {
        count_nl(s.drop_last()) + if s.last() == '\n' {
            1nat
        } else {
            0nat
        }
    }
}

/// The `\n`-separated lines of `s` (there is always at least one).
pub open spec fn lines(s: Seq<char>) -> Seq<Seq<char>>
    decreases s.len(),
{
    if s.len() == 0 {
        seq![Seq::<char>::empty()]
    } else {
        let pre = lines(s.drop_last());
        if s.last() == '\n' {
            pre.push(Seq::<char>::empty())
        } else {
            pre.update(pre.len() - 1, pre.last().push(s.last()))
        }
    }
}

/// Start of the line holding position `p`: just after the last `\n`
/// before `p`, or 0.
pub open spec fn line_start_of(s: Seq<char>, p: int) -> int
    decreases p,
{
    if p <= 0 {
        0
    } else if s[p - 1] == '\n' {
        p
    } else {
        line_start_of(s, p - 1)
    }
}

/// End of the line holding position `p`: the first `\n` at or after
/// `p`, or the end of `s`.
pub open spec fn line_end_of(s: Seq<char>, p: int) -> int
    decreases s.len() - p,
{
    if p >= s.len() {
        s.len() as int
    } else if s[p] == '\n' {
        p
    } else {
        line_end_of(s, p + 1)
    }
}

/// Position of the `\n` that ends block `k` (meaningful for
/// `k < count_nl(s)`).
pub open spec fn newline_index(s: Seq<char>, k: nat) -> int {
    choose|j: int| 0 <= j < s.len() && s[j] == '\n' && count_nl(s.take(j)) == k
}

/// One more codepoint adds one more `\n` count exactly when it is `\n`.
pub proof fn lemma_count_nl_step(s: Seq<char>, p: int)
    requires
        0 <= p < s.len(),
    ensures
        count_nl(s.take(p + 1)) == count_nl(s.take(p)) + if s[p] == '\n' {
            1nat
        } else {
            0nat
        },
        lines(s.take(p + 1)) == (if s[p] == '\n' {
            lines(s.take(p)).push(Seq::<char>::empty())
        } else {
            lines(s.take(p)).update(lines(s.take(p)).len() - 1, lines(s.take(p)).last().push(s[p]))
        }),
{
    assert(s.take(p + 1).drop_last() =~= s.take(p));
    lemma_lines_len(s.take(p));
}

/// There is one more line than there are `\n`.
pub proof fn lemma_lines_len(s: Seq<char>)
    ensures
        lines(s).len() == count_nl(s) + 1,
    decreases s.len(),
{
    if s.len() > 0 {
        lemma_lines_len(s.drop_last());
    }
}

/// The `\n` count of a prefix grows with the prefix and is bounded by
/// its length.
pub proof fn lemma_count_nl_mono(s: Seq<char>, p: int, q: int)
    requires
        0 <= p <= q <= s.len(),
    ensures
        count_nl(s.take(p)) <= count_nl(s.take(q)),
        count_nl(s.take(q)) <= q,
    decreases q,
{
    if q > 0 {
        lemma_count_nl_step(s, q - 1);
        if p < q {
            lemma_count_nl_mono(s, p, q - 1);
        } else {
            lemma_count_nl_mono(s, p - 1, q - 1);
        }
    } else {
        assert(s.take(0) =~= Seq::<char>::empty());
    }
}

/// `s` is its own full prefix.
pub proof fn lemma_take_all(s: Seq<char>)
    ensures
        s.take(s.len() as int) == s,
{
    assert(s.take(s.len() as int) =~= s);
}

/// A line's start and end enclose the position.
pub proof fn lemma_line_bounds(s: Seq<char>, p: int)
    requires
        0 <= p <= s.len(),
    ensures
        0 <= line_start_of(s, p) <= p <= line_end_of(s, p) <= s.len(),
    decreases s.len() - p,
{
    lemma_line_start_le(s, p);
    if p < s.len() && s[p] != '\n' {
        lemma_line_bounds(s, p + 1);
    }
}

proof fn lemma_line_start_le(s: Seq<char>, p: int)
    requires
        0 <= p <= s.len(),
    ensures
        0 <= line_start_of(s, p) <= p,
    decreases p,
{
    if p > 0 && s[p - 1] != '\n' {
        lemma_line_start_le(s, p - 1);
    }
}

/// If the prefix up to `p` holds more than `k` newlines, the `k`-th
/// newline lies before `p`.
pub proof fn lemma_newline_exists(s: Seq<char>, p: int, k: nat)
    requires
        0 <= p <= s.len(),
        k < count_nl(s.take(p)),
    ensures
        exists|j: int| 0 <= j < p && s[j] == '\n' && count_nl(s.take(j)) == k,
    decreases p,
{
    if p == 0 {
        assert(s.take(0) =~= Seq::<char>::empty());
    } else {
        lemma_count_nl_step(s, p - 1);
        if k < count_nl(s.take(p - 1)) {
            lemma_newline_exists(s, p - 1, k);
            let j = choose|j: int| 0 <= j < p - 1 && s[j] == '\n' && count_nl(s.take(j)) == k;
            assert(0 <= j < p && s[j] == '\n' && count_nl(s.take(j)) == k);
        } else {
            assert(s[p - 1] == '\n' && count_nl(s.take(p - 1)) == k);
        }
    }
}

/// Two distinct newlines end distinct blocks.
pub proof fn lemma_newline_unique(s: Seq<char>, a: int, b: int)
    requires
        0 <= a < b < s.len(),
        s[a] == '\n',
    ensures
        count_nl(s.take(a)) < count_nl(s.take(b)),
{
    lemma_count_nl_step(s, a);
    lemma_count_nl_mono(s, a + 1, b);
}

/// The `k`-th newline, when it exists, is the one `newline_index` names.
pub proof fn lemma_newline_index(s: Seq<char>, j: int, k: nat)
    requires
        0 <= j < s.len(),
        s[j] == '\n',
        count_nl(s.take(j)) == k,
    ensures
        newline_index(s, k) == j,
{
    let i = newline_index(s, k);
    assert(0 <= i < s.len() && s[i] == '\n' && count_nl(s.take(i)) == k);
    if i < j {
        lemma_newline_unique(s, i, j);
    } else if j < i {
        lemma_newline_unique(s, j, i);
    }
}

/// Number of `\n` in `s[..upto]`.
pub fn count_newlines(s: &[char], upto: usize) -> (r: usize)
    requires
        upto <= s@.len(),
    ensures
        r == count_nl(s@.take(upto as int)),
        r <= upto,
{
    let mut i: usize = 0;
    let mut n: usize = 0;
    proof {
        assert(s@.take(0) =~= Seq::<char>::empty());
    }
    while i < upto
        invariant
            i <= upto <= s@.len(),
            n == count_nl(s@.take(i as int)),
            n <= i,
        decreases upto - i,
    {
        proof {
            lemma_count_nl_step(s@, i as int);
        }
        if s[i] == '\n' {
            n = n + 1;
        }
        i = i + 1;
    }
    n
}

/// Start and end of the line holding position `p`.
pub fn line_bounds(s: &[char], p: usize) -> (r: (usize, usize))
    requires
        p <= s@.len(),
    ensures
        r.0 == line_start_of(s@, p as int),
        r.1 == line_end_of(s@, p as int),
        r.0 <= p <= r.1 <= s@.len(),
{
    proof {
        lemma_line_bounds(s@, p as int);
    }
    let mut start: usize = 0;
    let mut i: usize = 0;
    while i < p
        invariant
            i <= p <= s@.len(),
            start == line_start_of(s@, i as int),
        decreases p - i,
    {
        if s[i] == '\n' {
            start = i + 1;
        }
        i = i + 1;
    }
    let mut end: usize = p;
    while end < s.len() && s[end] != '\n'
        invariant
            p <= end <= s@.len(),
            line_end_of(s@, end as int) == line_end_of(s@, p as int),
        decreases s@.len() - end,
    {
        end = end + 1;
    }
    (start, end)
}

/// Position of the `\n` that ends block `k`, if there is one.
pub fn find_newline(s: &[char], k: usize) -> (r: Option<usize>)
    ensures
        match r {
            Some(j) => j < s@.len() && s@[j as int] == '\n' && count_nl(s@.take(j as int)) == k,
            None => forall|j: int|
                0 <= j < s@.len() ==> !(s@[j] == '\n' && #[trigger] count_nl(s@.take(j)) == k),
        },
{
    let mut i: usize = 0;
    let mut n: usize = 0;
    proof {
        assert(s@.take(0) =~= Seq::<char>::empty());
    }
    while i < s.len()
        invariant
            i <= s@.len(),
            n == count_nl(s@.take(i as int)),
            n <= i,
            forall|j: int| 0 <= j < i ==> !(s@[j] == '\n' && #[trigger] count_nl(s@.take(j)) == k),
        decreases s@.len() - i,
    {
        proof {
            lemma_count_nl_step(s@, i as int);
        }
        if s[i] == '\n' {
            if n == k {
                return Some(i);
            }
            n = n + 1;
        }
        i = i + 1;
    }
    None
}

/// The lines of `s`, each as a vector of codepoints.
pub fn split_lines(s: &[char]) -> (r: Vec<Vec<char>>)
    ensures
        r@.len() == lines(s@).len(),
        forall|j: int| 0 <= j < r@.len() ==> (#[trigger] r@[j])@ == lines(s@)[j],
{
    let mut done: Vec<Vec<char>> = Vec::new();
    let mut cur: Vec<char> = Vec::new();
    let mut i: usize = 0;
    proof {
        assert(s@.take(0) =~= Seq::<char>::empty());
    }
    while i < s.len()
        invariant
            i <= s@.len(),
            lines(s@.take(i as int)).len() == done@.len() + 1,
            forall|j: int| 0 <= j < done@.len() ==> (#[trigger] done@[j])@ == lines(s@.take(i as int))[j],
            cur@ == lines(s@.take(i as int)).last(),
        decreases s@.len() - i,
    {
        proof {
            lemma_count_nl_step(s@, i as int);
        }
        if s[i] == '\n' {
            done.push(cur);
            cur = Vec::new();
        } else {
            cur.push(s[i]);
        }
        i = i + 1;
    }
    proof {
        lemma_take_all(s@);
    }
    done.push(cur);
    done
}

} // verus!
