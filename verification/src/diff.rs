//! Line-level shortest-edit-script diff engine.
//!
//! `get_diff` reports how many lines must be removed from one text and how
//! many must be inserted to obtain another, keeping the relative order of
//! the unchanged lines.  The counts are minimal: they are tied to the length
//! of a longest common subsequence of the two line sequences, and the public
//! lemmas below state both that the counts are achievable and that no edit
//! script does better.

use vstd::prelude::*;
use crate::text::lines_of;
use crate::text::split_lines;
use crate::text::str_eq;

verus! {

/// Length of a longest common subsequence of `a` and `b`.
pub open spec fn lcs_len(a: Seq<Seq<char>>, b: Seq<Seq<char>>) -> int
    decreases a.len() + b.len(),
{
    if a.len() == 0 || b.len() == 0 {
        0
    } else if a[0] == b[0] {
        1 + lcs_len(a.skip(1), b.skip(1))
    } else {
        let d = lcs_len(a.skip(1), b);
        let e = lcs_len(a, b.skip(1));
        if d >= e {
            d
        } else {
            e
        }
    }
}

/// Fewest lines that must be removed from `a` to reach `b`.
pub open spec fn spec_deletions(a: Seq<Seq<char>>, b: Seq<Seq<char>>) -> int {
    a.len() - lcs_len(a, b)
}

/// Fewest lines that must be inserted into `a` to reach `b`.
pub open spec fn spec_additions(a: Seq<Seq<char>>, b: Seq<Seq<char>>) -> int {
    b.len() - lcs_len(a, b)
}

/// `x` can be obtained from `y` by removing lines, keeping the order.
pub open spec fn is_subsequence_of(x: Seq<Seq<char>>, y: Seq<Seq<char>>) -> bool
    decreases x.len() + y.len(),
{
    if x.len() == 0 {
        true
    } else if y.len() == 0 {
        false
    } else {
        (x[0] == y[0] && is_subsequence_of(x.skip(1), y.skip(1))) || is_subsequence_of(
            x,
            y.skip(1),
        )
    }
}

pub proof fn lemma_lcs_len_bounds(a: Seq<Seq<char>>, b: Seq<Seq<char>>)
    ensures
        0 <= lcs_len(a, b),
        lcs_len(a, b) <= a.len(),
        lcs_len(a, b) <= b.len(),
    decreases a.len() + b.len(),
{
    if a.len() == 0 || b.len() == 0 {
    } else if a[0] == b[0] {
        lemma_lcs_len_bounds(a.skip(1), b.skip(1));
    } else {
        lemma_lcs_len_bounds(a.skip(1), b);
        lemma_lcs_len_bounds(a, b.skip(1));
    }
}

/// Dropping the first line of either side lowers the longest common
/// subsequence by at most one, and never raises it.
pub proof fn lemma_lcs_step(a: Seq<Seq<char>>, b: Seq<Seq<char>>)
    ensures
        a.len() > 0 ==> lcs_len(a.skip(1), b) <= lcs_len(a, b) <= lcs_len(a.skip(1), b) + 1,
        b.len() > 0 ==> lcs_len(a, b.skip(1)) <= lcs_len(a, b) <= lcs_len(a, b.skip(1)) + 1,
    decreases a.len() + b.len(),
{
    if a.len() == 0 || b.len() == 0 {
    } else {
        lemma_lcs_step(a.skip(1), b);
        lemma_lcs_step(a, b.skip(1));
    }
}

proof fn lemma_subseq_widen(x: Seq<Seq<char>>, y: Seq<Seq<char>>)
    requires
        y.len() > 0,
        is_subsequence_of(x, y.skip(1)),
    ensures
        is_subsequence_of(x, y),
{
}

/// No common subsequence is longer than the longest common subsequence.
pub proof fn lemma_common_subseq_le(a: Seq<Seq<char>>, b: Seq<Seq<char>>, c: Seq<Seq<char>>)
    requires
        is_subsequence_of(c, a),
        is_subsequence_of(c, b),
    ensures
        c.len() <= lcs_len(a, b),
    decreases a.len() + b.len(),
{
    if c.len() == 0 {
        lemma_lcs_len_bounds(a, b);
    } else {
        if is_subsequence_of(c, a.skip(1)) {
            lemma_common_subseq_le(a.skip(1), b, c);
            lemma_lcs_step(a, b);
        } else if is_subsequence_of(c, b.skip(1)) {
            lemma_common_subseq_le(a, b.skip(1), c);
            lemma_lcs_step(a, b);
        } else {
            assert(c[0] == a[0] && is_subsequence_of(c.skip(1), a.skip(1)));
            assert(c[0] == b[0] && is_subsequence_of(c.skip(1), b.skip(1)));
            lemma_common_subseq_le(a.skip(1), b.skip(1), c.skip(1));
        }
    }
}

/// One longest common subsequence, picked the way `lcs_len` counts.
pub open spec fn lcs_seq(a: Seq<Seq<char>>, b: Seq<Seq<char>>) -> Seq<Seq<char>>
    decreases a.len() + b.len(),
{
    if a.len() == 0 || b.len() == 0 {
        Seq::empty()
    } else if a[0] == b[0] {
        seq![a[0]] + lcs_seq(a.skip(1), b.skip(1))
    } else if lcs_len(a.skip(1), b) >= lcs_len(a, b.skip(1)) {
        lcs_seq(a.skip(1), b)
    } else {
        lcs_seq(a, b.skip(1))
    }
}

/// `lcs_seq` is a common subsequence of the stated length.
pub proof fn lemma_lcs_seq(a: Seq<Seq<char>>, b: Seq<Seq<char>>)
    ensures
        lcs_seq(a, b).len() == lcs_len(a, b),
        is_subsequence_of(lcs_seq(a, b), a),
        is_subsequence_of(lcs_seq(a, b), b),
    decreases a.len() + b.len(),
{
    if a.len() == 0 || b.len() == 0 {
    } else if a[0] == b[0] {
        lemma_lcs_seq(a.skip(1), b.skip(1));
        let c = seq![a[0]] + lcs_seq(a.skip(1), b.skip(1));
        assert(c.skip(1) =~= lcs_seq(a.skip(1), b.skip(1)));
        assert(is_subsequence_of(c, a));
        assert(is_subsequence_of(c, b));
    } else if lcs_len(a.skip(1), b) >= lcs_len(a, b.skip(1)) {
        lemma_lcs_seq(a.skip(1), b);
        lemma_subseq_widen(lcs_seq(a.skip(1), b), a);
    } else {
        lemma_lcs_seq(a, b.skip(1));
        lemma_subseq_widen(lcs_seq(a, b.skip(1)), b);
    }
}

pub proof fn lemma_subseq_refl(x: Seq<Seq<char>>)
    ensures
        is_subsequence_of(x, x),
    decreases x.len(),
{
    if x.len() > 0 {
        lemma_subseq_refl(x.skip(1));
    }
}

/// A sequence is a subsequence of itself followed by anything.
pub proof fn lemma_subseq_concat_left(a: Seq<Seq<char>>, s: Seq<Seq<char>>)
    ensures
        is_subsequence_of(a, a + s),
    decreases a.len(),
{
    if a.len() == 0 {
    } else {
        assert((a + s)[0] == a[0]);
        assert((a + s).skip(1) =~= a.skip(1) + s);
        lemma_subseq_concat_left(a.skip(1), s);
    }
}

/// Law: diffing a line sequence against itself reports no edits.
pub proof fn lemma_diff_self(x: Seq<Seq<char>>)
    ensures
        spec_deletions(x, x) == 0,
        spec_additions(x, x) == 0,
{
    lemma_subseq_refl(x);
    lemma_common_subseq_le(x, x, x);
    lemma_lcs_len_bounds(x, x);
}

/// Law (minimality): any way to turn `a` into `b` that keeps the lines of a
/// common subsequence `c` uses at least `a.len() - c.len()` removals and at
/// least `b.len() - c.len()` insertions, so the reported counts are the
/// smallest possible.
pub proof fn lemma_diff_minimal(a: Seq<Seq<char>>, b: Seq<Seq<char>>, c: Seq<Seq<char>>)
    requires
        is_subsequence_of(c, a),
        is_subsequence_of(c, b),
    ensures
        spec_deletions(a, b) <= a.len() - c.len(),
        spec_additions(a, b) <= b.len() - c.len(),
{
    lemma_common_subseq_le(a, b, c);
}

/// Law (achievability): the reported counts are realized by keeping the
/// lines of one concrete common subsequence, so an edit script with exactly
/// these counts exists.
pub proof fn lemma_diff_achievable(a: Seq<Seq<char>>, b: Seq<Seq<char>>)
    ensures
        is_subsequence_of(lcs_seq(a, b), a),
        is_subsequence_of(lcs_seq(a, b), b),
        spec_deletions(a, b) == a.len() - lcs_seq(a, b).len(),
        spec_additions(a, b) == b.len() - lcs_seq(a, b).len(),
{
    lemma_lcs_seq(a, b);
}

/// Law: appending lines to a text costs exactly that many insertions.
pub proof fn lemma_diff_append(a: Seq<Seq<char>>, s: Seq<Seq<char>>)
    ensures
        spec_deletions(a, a + s) == 0,
        spec_additions(a, a + s) == s.len(),
{
    lemma_subseq_refl(a);
    lemma_subseq_concat_left(a, s);
    lemma_common_subseq_le(a, a + s, a);
    lemma_lcs_len_bounds(a, a + s);
}

/// Law: removing trailing lines from a text costs exactly that many
/// removals.
pub proof fn lemma_diff_drop_suffix(a: Seq<Seq<char>>, s: Seq<Seq<char>>)
    ensures
        spec_deletions(a + s, a) == s.len(),
        spec_additions(a + s, a) == 0,
{
    lemma_subseq_refl(a);
    lemma_subseq_concat_left(a, s);
    lemma_common_subseq_le(a + s, a, a);
    lemma_lcs_len_bounds(a + s, a);
}

/// Equality of two owned strings, by their characters.
pub fn string_eq(x: &String, y: &String) -> (r: bool)
    ensures
        r == (x@ == y@),
{
    str_eq(x.as_str(), y.as_str())
}

fn zero_row(len: usize) -> (r: Vec<usize>)
    ensures
        r@.len() == len,
        forall|k: int| 0 <= k < len ==> r@[k] == 0,
{
    let mut v: Vec<usize> = Vec::new();
    while v.len() < len
        invariant
            v@.len() <= len,
            forall|k: int| 0 <= k < v@.len() ==> v@[k] == 0,
        decreases len - v@.len(),
    {
        v.push(0);
    }
    v
}

/// Minimal removal and insertion counts between two line sequences, by the
/// classic longest-common-subsequence table.
pub fn diff_counts(a: &Vec<String>, b: &Vec<String>) -> (r: (usize, usize))
    requires
        a@.len() < usize::MAX,
        b@.len() < usize::MAX,
    ensures
        r.0 == spec_deletions(a.deep_view(), b.deep_view()),
        r.1 == spec_additions(a.deep_view(), b.deep_view()),
{
    let ghost av = a.deep_view();
    let ghost bv = b.deep_view();
    let n = a.len();
    let m = b.len();
    // row below the one being filled: prev[j] == lcs_len of the suffixes
    // starting at i + 1 and j
    let mut prev = zero_row(m + 1);
    proof {
        assert forall|j: int| 0 <= j <= m implies lcs_len(av.skip(n as int), bv.skip(j)) == 0 by {
            assert(av.skip(n as int).len() == 0);
        }
    }
    let mut i = n;
    while i > 0
        invariant
            n == av.len(),
            m == bv.len(),
            av == a.deep_view(),
            bv == b.deep_view(),
            n < usize::MAX,
            m < usize::MAX,
            i <= n,
            prev@.len() == m + 1,
            forall|j: int| 0 <= j <= m ==> prev@[j] == lcs_len(av.skip(i as int), bv.skip(j)),
        decreases i,
    {
        i = i - 1;
        let mut cur = zero_row(m + 1);
        proof {
            assert(bv.skip(m as int).len() == 0);
        }
        let mut j = m;
        while j > 0
            invariant
                n == av.len(),
                m == bv.len(),
                av == a.deep_view(),
                bv == b.deep_view(),
                n < usize::MAX,
                m < usize::MAX,
                i < n,
                j <= m,
                prev@.len() == m + 1,
                cur@.len() == m + 1,
                forall|jj: int| 0 <= jj <= m ==> prev@[jj] == lcs_len(av.skip(i + 1), bv.skip(jj)),
                forall|jj: int| j <= jj <= m ==> cur@[jj] == lcs_len(av.skip(i as int), bv.skip(jj)),
            decreases j,
        {
            j = j - 1;
            proof {
                lemma_lcs_len_bounds(av.skip(i + 1), bv.skip(j + 1));
                lemma_lcs_len_bounds(av.skip(i + 1), bv.skip(j as int));
                lemma_lcs_len_bounds(av.skip(i as int), bv.skip(j + 1));
                assert(av.skip(i + 1).len() == n - i - 1);
            }
            let v: usize = if string_eq(&a[i], &b[j]) {
                1 + prev[j + 1]
            } else {
                let x = prev[j];
                let y = cur[j + 1];
                if x >= y {
                    x
                } else {
                    y
                }
            };
            proof {
                let ai = av.skip(i as int);
                let bj = bv.skip(j as int);
                assert(ai[0] == av[i as int]);
                assert(bj[0] == bv[j as int]);
                assert(ai.skip(1) =~= av.skip(i + 1));
                assert(bj.skip(1) =~= bv.skip(j + 1));
                assert(av[i as int] == a@[i as int]@);
                assert(bv[j as int] == b@[j as int]@);
                assert(v == lcs_len(av.skip(i as int), bv.skip(j as int)));
            }
            cur[j] = v;
        }
        prev = cur;
    }
    let l = prev[0];
    proof {
        assert(av.skip(0) =~= av);
        assert(bv.skip(0) =~= bv);
        lemma_lcs_len_bounds(av, bv);
    }
    (n - l, m - l)
}

/// Caps a count at the largest value the snapshot fields can carry.
pub open spec fn cap_u32(n: int) -> int {
    if n > u32::MAX as int {
        u32::MAX as int
    } else {
        n
    }
}

/// What `get_diff` returns for two texts: the minimal line removal and
/// insertion counts, or, for texts too large for the table or the counters,
/// a whole-file replacement (every old line removed, every new line added),
/// capped at the counter range.
pub open spec fn spec_get_diff(old: Seq<char>, new: Seq<char>) -> (int, int) {
    let a = lines_of(old);
    let b = lines_of(new);
    if a.len() < usize::MAX && b.len() < usize::MAX && spec_deletions(a, b) <= u32::MAX as int
        && spec_additions(a, b) <= u32::MAX as int {
        (spec_deletions(a, b), spec_additions(a, b))
    } else {
        (cap_u32(a.len() as int), cap_u32(b.len() as int))
    }
}

pub proof fn lemma_spec_get_diff_bounds(old: Seq<char>, new: Seq<char>)
    ensures
        0 <= spec_get_diff(old, new).0 <= u32::MAX,
        0 <= spec_get_diff(old, new).1 <= u32::MAX,
{
    lemma_lcs_len_bounds(lines_of(old), lines_of(new));
}

pub(crate) fn cap_len_u32(len: usize) -> (r: u32)
    ensures
        r == cap_u32(len as int),
{
    if len > u32::MAX as usize {
        u32::MAX
    } else {
        len as u32
    }
}

/// Line-level diff of two texts: how many lines must be deleted from `old`
/// and how many added to reach `new`, as `spec_get_diff` states.
pub fn get_diff(old: &str, new: &str) -> (r: (u32, u32))
    ensures
        r.0 == spec_get_diff(old@, new@).0,
        r.1 == spec_get_diff(old@, new@).1,
{
    let a = split_lines(old);
    let b = split_lines(new);
    proof {
        assert(a.deep_view().len() == a@.len());
        assert(b.deep_view().len() == b@.len());
    }
    if a.len() < usize::MAX && b.len() < usize::MAX {
        let (d, ins) = diff_counts(&a, &b);
        if d <= u32::MAX as usize && ins <= u32::MAX as usize {
            return (d as u32, ins as u32);
        }
        (cap_len_u32(a.len()), cap_len_u32(b.len()))
    } else {
        (cap_len_u32(a.len()), cap_len_u32(b.len()))
    }
}

} // verus!
