//! Mathematical model of the longest common subsequence.
//!
//! `lcs_len` gives the LCS length of two character sequences and `lcs_seq`
//! the particular LCS that a traceback with the Vertical-over-Horizontal
//! tie-break recovers.  The lemmas here state the laws the executable
//! engine is proved against.

use vstd::prelude::*;

verus! {

/// Length of the longest common subsequence of `a` and `b`.
pub open spec fn lcs_len(a: Seq<char>, b: Seq<char>) -> nat
    decreases a.len() + b.len(),
{
    if a.len() == 0 || b.len() == 0 {
        0
    } else if a.last() == b.last() {
        lcs_len(a.drop_last(), b.drop_last()) + 1
    } else if lcs_len(a.drop_last(), b) >= lcs_len(a, b.drop_last()) {
        lcs_len(a.drop_last(), b)
    } else {
        lcs_len(a, b.drop_last())
    }
}

/// The longest common subsequence that the traceback recovers: on a tie
/// between dropping the last unit of `a` (Vertical) and dropping the last
/// unit of `b` (Horizontal), Vertical wins.
pub open spec fn lcs_seq(a: Seq<char>, b: Seq<char>) -> Seq<char>
    decreases a.len() + b.len(),
{
    if a.len() == 0 || b.len() == 0 {
        Seq::empty()
    } else if a.last() == b.last() {
        lcs_seq(a.drop_last(), b.drop_last()).push(a.last())
    } else if lcs_len(a.drop_last(), b) >= lcs_len(a, b.drop_last()) {
        lcs_seq(a.drop_last(), b)
    } else {
        lcs_seq(a, b.drop_last())
    }
}

/// `s` appears inside `t` in order (not necessarily contiguously).
pub open spec fn is_subsequence(s: Seq<char>, t: Seq<char>) -> bool
    decreases t.len(),
{
    if s.len() == 0 {
        true
    } else if t.len() == 0 {
        false
    } else if s.last() == t.last() {
        is_subsequence(s.drop_last(), t.drop_last())
    } else {
        is_subsequence(s, t.drop_last())
    }
}

/// Whether the traceback that starts at the bottom-right corner of the DP
/// table for `a` and `b` visits cell `(i, j)`.  The walk mirrors `lcs_seq`:
/// it starts at `(|a|, |b|)` and at each visited cell moves diagonally on a
/// unit match, otherwise up (Vertical) unless the left neighbour strictly
/// wins, stopping at the border.
pub open spec fn on_path(a: Seq<char>, b: Seq<char>, i: int, j: int) -> bool
    decreases a.len() + b.len(),
{
    if a.len() == 0 || b.len() == 0 {
        false
    } else if i == a.len() && j == b.len() {
        true
    } else if a.last() == b.last() {
        on_path(a.drop_last(), b.drop_last(), i, j)
    } else if lcs_len(a.drop_last(), b) >= lcs_len(a, b.drop_last()) {
        on_path(a.drop_last(), b, i, j)
    } else {
        on_path(a, b.drop_last(), i, j)
    }
}

/// One unfolding of `lcs_seq`, phrased for the traceback step.
pub proof fn lemma_lcs_seq_step(a: Seq<char>, b: Seq<char>)
    requires
        a.len() > 0,
        b.len() > 0,
    ensures
        a.last() == b.last() ==> lcs_seq(a, b) == lcs_seq(a.drop_last(), b.drop_last()).push(
            a.last(),
        ),
        a.last() != b.last() && lcs_len(a.drop_last(), b) >= lcs_len(a, b.drop_last())
            ==> lcs_seq(a, b) == lcs_seq(a.drop_last(), b),
        a.last() != b.last() && lcs_len(a.drop_last(), b) < lcs_len(a, b.drop_last()) ==> lcs_seq(
            a,
            b,
        ) == lcs_seq(a, b.drop_last()),
{
}

/// One unfolding of `on_path`: away from the start cell, a traceback step
/// shrinks the pair of prefixes and keeps the visited set.
pub proof fn lemma_on_path_step(a: Seq<char>, b: Seq<char>, i: int, j: int)
    requires
        a.len() > 0,
        b.len() > 0,
        !(i == a.len() && j == b.len()),
    ensures
        a.last() == b.last() ==> on_path(a, b, i, j) == on_path(
            a.drop_last(),
            b.drop_last(),
            i,
            j,
        ),
        a.last() != b.last() && lcs_len(a.drop_last(), b) >= lcs_len(a, b.drop_last()) ==> on_path(
            a,
            b,
            i,
            j,
        ) == on_path(a.drop_last(), b, i, j),
        a.last() != b.last() && lcs_len(a.drop_last(), b) < lcs_len(a, b.drop_last()) ==> on_path(
            a,
            b,
            i,
            j,
        ) == on_path(a, b.drop_last(), i, j),
{
}

/// Every cell the traceback visits lies strictly inside the table.
pub proof fn lemma_on_path_bounds(a: Seq<char>, b: Seq<char>, i: int, j: int)
    ensures
        on_path(a, b, i, j) ==> 1 <= i <= a.len() && 1 <= j <= b.len(),
    decreases a.len() + b.len(),
{
    if a.len() == 0 || b.len() == 0 {
    } else if i == a.len() && j == b.len() {
    } else if a.last() == b.last() {
        lemma_on_path_bounds(a.drop_last(), b.drop_last(), i, j);
    } else if lcs_len(a.drop_last(), b) >= lcs_len(a, b.drop_last()) {
        lemma_on_path_bounds(a.drop_last(), b, i, j);
    } else {
        lemma_on_path_bounds(a, b.drop_last(), i, j);
    }
}

/// Reversing after a push puts the pushed unit in front.
pub proof fn lemma_reverse_push(s: Seq<char>, c: char)
    ensures
        s.push(c).reverse() == seq![c] + s.reverse(),
{
    assert(s.push(c).reverse() =~= seq![c] + s.reverse());
}

/// `f` maps each position of `s` to the strictly increasing position of
/// `t` where that unit appears.
pub open spec fn is_embedding(f: Seq<int>, s: Seq<char>, t: Seq<char>) -> bool {
    &&& f.len() == s.len()
    &&& (forall|k: int| 0 <= k < f.len() ==> 0 <= #[trigger] f[k] < t.len() && t[f[k]] == s[k])
    &&& (forall|k: int| 0 < k < f.len() ==> f[k - 1] < #[trigger] f[k])
}

/// A subsequence embeds into its containing sequence: every unit of `s`
/// appears within `t`, in order, at strictly increasing positions.
pub proof fn lemma_subsequence_embedding(s: Seq<char>, t: Seq<char>)
    requires
        is_subsequence(s, t),
    ensures
        exists|f: Seq<int>| is_embedding(f, s, t),
    decreases t.len(),
{
    if s.len() == 0 {
        assert(is_embedding(Seq::<int>::empty(), s, t));
    } else if s.last() == t.last() {
        lemma_subsequence_embedding(s.drop_last(), t.drop_last());
        let g = choose|g: Seq<int>| is_embedding(g, s.drop_last(), t.drop_last());
        let f = g.push(t.len() - 1);
        assert(is_embedding(f, s, t));
    } else {
        lemma_subsequence_embedding(s, t.drop_last());
        let g = choose|g: Seq<int>| is_embedding(g, s, t.drop_last());
        assert(is_embedding(g, s, t));
    }
}

/// Dropping the last unit of a subsequence keeps it a subsequence.
pub proof fn lemma_subsequence_drop_last(s: Seq<char>, t: Seq<char>)
    requires
        s.len() > 0,
        is_subsequence(s, t),
    ensures
        is_subsequence(s.drop_last(), t),
    decreases t.len(),
{
    if t.len() == 0 {
    } else if s.last() == t.last() {
        if s.drop_last().len() == 0 {
        } else if s.drop_last().last() == t.last() {
            lemma_subsequence_drop_last(s.drop_last(), t.drop_last());
        }
    } else {
        lemma_subsequence_drop_last(s, t.drop_last());
        if s.drop_last().len() == 0 {
        } else if s.drop_last().last() == t.last() {
            lemma_subsequence_drop_last(s.drop_last(), t.drop_last());
        }
    }
}

/// Extending the containing sequence keeps a subsequence.
pub proof fn lemma_subsequence_extend(s: Seq<char>, t: Seq<char>, c: char)
    requires
        is_subsequence(s, t),
    ensures
        is_subsequence(s, t.push(c)),
{
    assert(t.push(c).drop_last() =~= t);
    assert(t.push(c).last() == c);
    if s.len() == 0 {
    } else if s.last() == c {
        lemma_subsequence_drop_last(s, t);
    }
}

/// The recovered LCS is a subsequence of both inputs: every unit of it
/// appears, in order, within `a` and within `b`.
pub proof fn lemma_lcs_seq_is_common_subsequence(a: Seq<char>, b: Seq<char>)
    ensures
        is_subsequence(lcs_seq(a, b), a),
        is_subsequence(lcs_seq(a, b), b),
    decreases a.len() + b.len(),
{
    if a.len() == 0 || b.len() == 0 {
    } else if a.last() == b.last() {
        lemma_lcs_seq_is_common_subsequence(a.drop_last(), b.drop_last());
        let w = lcs_seq(a.drop_last(), b.drop_last());
        let r = w.push(a.last());
        assert(r.drop_last() =~= w);
        assert(r.last() == a.last());
    } else if lcs_len(a.drop_last(), b) >= lcs_len(a, b.drop_last()) {
        lemma_lcs_seq_is_common_subsequence(a.drop_last(), b);
        lemma_subsequence_extend(lcs_seq(a.drop_last(), b), a.drop_last(), a.last());
        assert(a.drop_last().push(a.last()) =~= a);
    } else {
        lemma_lcs_seq_is_common_subsequence(a, b.drop_last());
        lemma_subsequence_extend(lcs_seq(a, b.drop_last()), b.drop_last(), b.last());
        assert(b.drop_last().push(b.last()) =~= b);
    }
}

/// No common subsequence of `a` and `b` is longer than `lcs_len(a, b)`:
/// the computed length is genuinely the longest.
pub proof fn lemma_lcs_len_is_maximal(c: Seq<char>, a: Seq<char>, b: Seq<char>)
    requires
        is_subsequence(c, a),
        is_subsequence(c, b),
    ensures
        c.len() <= lcs_len(a, b),
    decreases a.len() + b.len(),
{
    if c.len() == 0 {
    } else if a.len() == 0 || b.len() == 0 {
    } else if a.last() == b.last() {
        if c.last() == a.last() {
            lemma_lcs_len_is_maximal(c.drop_last(), a.drop_last(), b.drop_last());
        } else {
            lemma_lcs_len_is_maximal(c, a.drop_last(), b.drop_last());
        }
    } else {
        if c.last() != a.last() {
            lemma_lcs_len_is_maximal(c, a.drop_last(), b);
        } else {
            lemma_lcs_len_is_maximal(c, a, b.drop_last());
        }
    }
}

/// Dropping the last unit of either input can only shorten the LCS: the
/// table of prefix-LCS lengths is non-decreasing along rows and columns.
pub proof fn lemma_lcs_len_monotonic(a: Seq<char>, b: Seq<char>)
    ensures
        a.len() > 0 ==> lcs_len(a.drop_last(), b) <= lcs_len(a, b),
        b.len() > 0 ==> lcs_len(a, b.drop_last()) <= lcs_len(a, b),
{
    if a.len() > 0 {
        lemma_lcs_seq_is_common_subsequence(a.drop_last(), b);
        lemma_subsequence_extend(lcs_seq(a.drop_last(), b), a.drop_last(), a.last());
        assert(a.drop_last().push(a.last()) =~= a);
        lemma_lcs_seq_len(a.drop_last(), b);
        lemma_lcs_len_is_maximal(lcs_seq(a.drop_last(), b), a, b);
    }
    if b.len() > 0 {
        lemma_lcs_seq_is_common_subsequence(a, b.drop_last());
        lemma_subsequence_extend(lcs_seq(a, b.drop_last()), b.drop_last(), b.last());
        assert(b.drop_last().push(b.last()) =~= b);
        lemma_lcs_seq_len(a, b.drop_last());
        lemma_lcs_len_is_maximal(lcs_seq(a, b.drop_last()), a, b);
    }
}

/// The LCS length never exceeds the length of either input.
pub proof fn lemma_lcs_len_le(a: Seq<char>, b: Seq<char>)
    ensures
        lcs_len(a, b) <= a.len(),
        lcs_len(a, b) <= b.len(),
    decreases a.len() + b.len(),
{
    if a.len() == 0 || b.len() == 0 {
    } else if a.last() == b.last() {
        lemma_lcs_len_le(a.drop_last(), b.drop_last());
    } else {
        lemma_lcs_len_le(a.drop_last(), b);
        lemma_lcs_len_le(a, b.drop_last());
    }
}

/// The recovered subsequence has exactly the LCS length.
pub proof fn lemma_lcs_seq_len(a: Seq<char>, b: Seq<char>)
    ensures
        lcs_seq(a, b).len() == lcs_len(a, b),
    decreases a.len() + b.len(),
{
    if a.len() == 0 || b.len() == 0 {
    } else if a.last() == b.last() {
        lemma_lcs_seq_len(a.drop_last(), b.drop_last());
    } else if lcs_len(a.drop_last(), b) >= lcs_len(a, b.drop_last()) {
        lemma_lcs_seq_len(a.drop_last(), b);
    } else {
        lemma_lcs_seq_len(a, b.drop_last());
    }
}

/// The LCS length is symmetric in its two arguments.
pub proof fn lemma_lcs_len_symmetric(a: Seq<char>, b: Seq<char>)
    ensures
        lcs_len(a, b) == lcs_len(b, a),
    decreases a.len() + b.len(),
{
    if a.len() == 0 || b.len() == 0 {
    } else if a.last() == b.last() {
        lemma_lcs_len_symmetric(a.drop_last(), b.drop_last());
    } else {
        lemma_lcs_len_symmetric(a.drop_last(), b);
        lemma_lcs_len_symmetric(a, b.drop_last());
    }
}

/// The LCS of a sequence with itself is the sequence.
pub proof fn lemma_lcs_self(a: Seq<char>)
    ensures
        lcs_seq(a, a) == a,
    decreases a.len(),
{
    if a.len() == 0 {
        assert(lcs_seq(a, a) =~= a);
    } else {
        lemma_lcs_self(a.drop_last());
        assert(lcs_seq(a, a) =~= a);
    }
}

/// An empty input yields an empty LCS of length zero.
pub proof fn lemma_lcs_empty(b: Seq<char>)
    ensures
        lcs_seq(Seq::<char>::empty(), b) == Seq::<char>::empty(),
        lcs_len(Seq::<char>::empty(), b) == 0,
        lcs_seq(b, Seq::<char>::empty()) == Seq::<char>::empty(),
        lcs_len(b, Seq::<char>::empty()) == 0,
{
}

/// Inputs that share no unit have an empty LCS of length zero.
pub proof fn lemma_no_common_units(a: Seq<char>, b: Seq<char>)
    requires
        forall|i: int, j: int| 0 <= i < a.len() && 0 <= j < b.len() ==> a[i] != b[j],
    ensures
        lcs_len(a, b) == 0,
        lcs_seq(a, b) == Seq::<char>::empty(),
    decreases a.len() + b.len(),
{
    if a.len() == 0 || b.len() == 0 {
        assert(lcs_seq(a, b) =~= Seq::<char>::empty());
    } else {
        assert(a.last() != b.last());
        lemma_no_common_units(a.drop_last(), b);
        lemma_no_common_units(a, b.drop_last());
    }
}

} // verus!
