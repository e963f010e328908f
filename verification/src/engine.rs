//! The DP engine: builds the table, recovers one longest common
//! subsequence by traceback, and offers a space-saving length-only variant.

use vstd::prelude::*;
use vstd::string::StrSliceExecFns;

use crate::model::lcs_len;
use crate::model::lcs_seq;
use crate::model::lemma_lcs_len_le;
use crate::model::lemma_lcs_seq_step;
use crate::model::lemma_on_path_bounds;
use crate::model::lemma_on_path_step;
use crate::model::lemma_reverse_push;
use crate::model::on_path;
use crate::table::build_table;
use crate::table::expected_direction;
use crate::table::table_wf;
use crate::table::Arrow;
use crate::table::Cell;

verus! {

/// The characters of a string, in order.
fn str_chars(s: &str) -> (v: Vec<char>)
    ensures
        v@ == s@,
{
    let n = s.unicode_len();
    let mut v: Vec<char> = Vec::new();
    let mut i: usize = 0;
    while i < n
        invariant
            i <= n,
            n == s@.len(),
            v@.len() == i,
            forall|k: int| 0 <= k < i ==> v@[k] == s@[k],
        decreases n - i,
    {
        let c = s.get_char(i);
        v.push(c);
        i += 1;
    }
    proof {
        assert(v@ =~= s@);
    }
    v
}

/// Relies on `String`'s `FromIterator<char>`: collecting characters yields
/// the string whose characters are exactly those, in order.
#[verifier::external_body]
pub(crate) fn chars_to_string(v: &Vec<char>) -> (s: String)
    ensures
        s@ == v@,
{
    v.iter().collect()
}

/// Computes one longest common subsequence of `a` and `b` together with the
/// fully populated DP table, its traceback path marked.
///
/// The result string is the LCS that the Vertical-over-Horizontal tie-break
/// selects; each table cell holds the LCS length of the corresponding
/// prefixes, its direction marker, and whether the traceback visited it.
#[verifier::loop_isolation(false)]
pub fn lcs_with_table(a: &str, b: &str) -> (res: (String, Vec<Vec<Cell>>))
    requires
        a@.len() < u32::MAX,
        b@.len() < u32::MAX,
    ensures
        res.0@ == lcs_seq(a@, b@),
        table_wf(res.1@, a@, b@),
        forall|i: int, j: int|
            0 <= i <= a@.len() && 0 <= j <= b@.len() ==> (#[trigger] res.1@[i]@[j]).path
                == on_path(a@, b@, i, j),
{
    let row_chars = str_chars(a);
    let col_chars = str_chars(b);
    let mut table = build_table(&row_chars, &col_chars);
    let alen = row_chars.len();
    let blen = col_chars.len();
    let mut rev: Vec<char> = Vec::new();
    let mut x: usize = alen;
    let mut y: usize = blen;
    proof {
        assert(a@.take(alen as int) =~= a@);
        assert(b@.take(blen as int) =~= b@);
        assert(rev@.reverse() =~= Seq::<char>::empty());
        assert(lcs_seq(a@, b@) + Seq::<char>::empty() =~= lcs_seq(a@, b@));
    }
    while x > 0 && y > 0
        invariant
            x <= a@.len(),
            y <= b@.len(),
            table_wf(table@, a@, b@),
            lcs_seq(a@, b@) == lcs_seq(a@.take(x as int), b@.take(y as int)) + rev@.reverse(),
            forall|i: int, j: int|
                0 <= i <= a@.len() && 0 <= j <= b@.len() ==> (#[trigger] table@[i]@[j]).path == (
                on_path(a@, b@, i, j) && !on_path(a@.take(x as int), b@.take(y as int), i, j)),
            forall|i: int, j: int|
                on_path(a@.take(x as int), b@.take(y as int), i, j) ==> on_path(a@, b@, i, j),
        decreases x + y,
    {
        let ghost ta = a@.take(x as int);
        let ghost tb = b@.take(y as int);
        let ghost t0 = table@;
        proof {
            assert(ta.len() == x as int && tb.len() == y as int);
            assert(ta.last() == a@[x as int - 1]);
            assert(tb.last() == b@[y as int - 1]);
            assert(ta.drop_last() =~= a@.take(x as int - 1));
            assert(tb.drop_last() =~= b@.take(y as int - 1));
            assert(on_path(ta, tb, x as int, y as int));
            assert(on_path(a@, b@, x as int, y as int));
        }
        let c = table[x][y];
        table[x][y] = Cell { length: c.length, direction: c.direction, path: true };
        proof {
            assert(table@[x as int]@ =~= t0[x as int]@.update(
                y as int,
                Cell { length: c.length, direction: c.direction, path: true },
            ));
            assert(forall|i: int, j: int|
                0 <= i <= a@.len() && 0 <= j <= b@.len() && !(i == x as int && j == y as int)
                    ==> (#[trigger] table@[i]@[j]) == t0[i]@[j]);
        }
        let cx = row_chars[x - 1];
        let cy = col_chars[y - 1];
        if cx == cy {
            proof {
                lemma_lcs_seq_step(ta, tb);
                lemma_reverse_push(rev@, cx);
                assert(lcs_seq(ta.drop_last(), tb.drop_last()).push(cx) =~= lcs_seq(
                    ta.drop_last(),
                    tb.drop_last(),
                ) + seq![cx]);
                assert((lcs_seq(ta.drop_last(), tb.drop_last()) + seq![cx]) + rev@.reverse()
                    =~= lcs_seq(ta.drop_last(), tb.drop_last()) + (seq![cx] + rev@.reverse()));
            }
            rev.push(cx);
        } else {
            proof {
                lemma_lcs_seq_step(ta, tb);
            }
        }
        let ghost xg = x as int;
        let ghost yg = y as int;
        match c.direction {
            Arrow::Diagonal => {
                x -= 1;
                y -= 1;
            },
            Arrow::Vertical => {
                x -= 1;
            },
            Arrow::Horizontal => {
                y -= 1;
            },
            Arrow::Empty => {
                proof {
                    assert(c.direction == expected_direction(a@, b@, xg, yg));
                    assert(false);
                }
            },
        }
        proof {
            let ta2 = a@.take(x as int);
            let tb2 = b@.take(y as int);
            assert(ta2 =~= (if x as int == xg { ta } else { ta.drop_last() }));
            assert(tb2 =~= (if y as int == yg { tb } else { tb.drop_last() }));
            assert forall|i: int, j: int| !(i == xg && j == yg) implies on_path(ta, tb, i, j)
                == on_path(ta2, tb2, i, j) by {
                lemma_on_path_step(ta, tb, i, j);
            }
            assert forall|i: int, j: int| on_path(ta2, tb2, i, j) implies on_path(
                a@,
                b@,
                i,
                j,
            ) by {
                lemma_on_path_bounds(ta2, tb2, i, j);
                lemma_on_path_step(ta, tb, i, j);
            }
            lemma_on_path_bounds(ta2, tb2, xg, yg);
            assert(!on_path(ta2, tb2, xg, yg));
            assert forall|i: int, j: int| 0 <= i <= a@.len() && 0 <= j <= b@.len() implies (
            #[trigger] table@[i]@[j]).path == (on_path(a@, b@, i, j) && !on_path(
                ta2,
                tb2,
                i,
                j,
            )) by {
                if i == xg && j == yg {
                } else {
                    assert(table@[i]@[j] == t0[i]@[j]);
                }
            }
        }
    }
    proof {
        let ta = a@.take(x as int);
        let tb = b@.take(y as int);
        assert(lcs_seq(ta, tb) =~= Seq::<char>::empty());
        assert(lcs_seq(a@, b@) =~= rev@.reverse());
        assert forall|i: int, j: int| 0 <= i <= a@.len() && 0 <= j <= b@.len() implies (
        #[trigger] table@[i]@[j]).path == on_path(a@, b@, i, j) by {
            assert(!on_path(ta, tb, i, j));
        }
    }
    let mut out: Vec<char> = Vec::new();
    let mut k: usize = rev.len();
    while k > 0
        invariant
            k <= rev@.len(),
            out@.len() == rev@.len() - k,
            forall|m: int| 0 <= m < out@.len() ==> out@[m] == rev@[rev@.len() - 1 - m],
        decreases k,
    {
        let c = rev[k - 1];
        out.push(c);
        k -= 1;
    }
    proof {
        assert(out@ =~= rev@.reverse());
    }
    let s = chars_to_string(&out);
    (s, table)
}

/// Computes one longest common subsequence of `a` and `b`.
pub fn lcs(a: &str, b: &str) -> (r: String)
    requires
        a@.len() < u32::MAX,
        b@.len() < u32::MAX,
    ensures
        r@ == lcs_seq(a@, b@),
{
    let res = lcs_with_table(a, b);
    res.0
}

/// Computes only the LCS length, keeping a single row of lengths instead of
/// the full table.
#[verifier::loop_isolation(false)]
pub fn lcs_length(a: &str, b: &str) -> (n: u32)
    requires
        a@.len() < u32::MAX,
        b@.len() < u32::MAX,
    ensures
        n as nat == lcs_len(a@, b@),
{
    let col_chars = str_chars(b);
    let alen = a.unicode_len();
    let blen = col_chars.len();
    let mut lens: Vec<u32> = Vec::new();
    let mut j: usize = 0;
    while j <= blen
        invariant
            j <= blen + 1,
            lens@.len() == j,
            forall|jj: int| 0 <= jj < j ==> (#[trigger] lens@[jj]) == 0,
        decreases blen + 1 - j,
    {
        lens.push(0);
        j += 1;
    }
    proof {
        assert forall|jj: int| 0 <= jj <= blen as int implies lcs_len(
            a@.take(0),
            b@.take(jj),
        ) == 0 by {
            assert(a@.take(0).len() == 0);
        }
    }
    let mut i: usize = 1;
    while i <= alen
        invariant
            1 <= i <= alen + 1,
            lens@.len() == blen + 1,
            forall|jj: int|
                0 <= jj <= blen ==> (#[trigger] lens@[jj]) as nat == lcs_len(
                    a@.take(i as int - 1),
                    b@.take(jj),
                ),
        decreases alen + 1 - i,
    {
        let ac = a.get_char(i - 1);
        let mut prev: u32 = 0;
        let mut j: usize = 1;
        proof {
            assert(lcs_len(a@.take(i as int - 1), b@.take(0)) == 0);
        }
        while j <= blen
            invariant
                1 <= i <= alen,
                1 <= j <= blen + 1,
                ac == a@[i as int - 1],
                lens@.len() == blen + 1,
                prev as nat == lcs_len(a@.take(i as int - 1), b@.take(j as int - 1)),
                forall|jj: int|
                    0 <= jj < j ==> (#[trigger] lens@[jj]) as nat == lcs_len(
                        a@.take(i as int),
                        b@.take(jj),
                    ),
                forall|jj: int|
                    j <= jj <= blen ==> (#[trigger] lens@[jj]) as nat == lcs_len(
                        a@.take(i as int - 1),
                        b@.take(jj),
                    ),
            decreases blen + 1 - j,
        {
            proof {
                crate::table::lemma_lcs_len_step(a@, b@, i as int, j as int);
                lemma_lcs_len_le(a@.take(i as int - 1), b@.take(j as int - 1));
                assert(a@.take(i as int - 1).len() == i - 1);
                assert(lcs_len(a@.take(i as int), b@.take(0)) == 0);
            }
            let temp = lens[j];
            let bc = col_chars[j - 1];
            let newv = if ac == bc {
                prev + 1
            } else if lens[j - 1] > lens[j] {
                lens[j - 1]
            } else {
                lens[j]
            };
            lens[j] = newv;
            prev = temp;
            j += 1;
        }
        i += 1;
    }
    proof {
        assert(a@.take(alen as int) =~= a@);
        assert(b@.take(blen as int) =~= b@);
    }
    lens[blen]
}

} // verus!
