//! The DP table: cells with a prefix-LCS length, a direction marker that
//! records which predecessor produced that length, and a traceback flag.

use vstd::prelude::*;

use crate::model::lcs_len;

verus! {

/// Which predecessor cell a table entry's length came from.
#[derive(Clone, Copy, PartialEq, Eq, Structural)]
pub enum Arrow {
    Vertical,
    Horizontal,
    Diagonal,
    Empty,
}

/// One entry of the DP table.
#[derive(Clone, Copy)]
pub struct Cell {
    /// LCS length of the two prefixes that end at this cell.
    pub length: u32,
    /// Predecessor marker; `Empty` only on the border row and column.
    pub direction: Arrow,
    /// True exactly for the cells the traceback visited.
    pub path: bool,
}

impl Cell {
    /// A border cell: length zero, no predecessor, not on the traceback.
    pub fn new() -> (c: Cell)
        ensures
            c.length == 0,
            c.direction == Arrow::Empty,
            !c.path,
    {
        Cell { length: 0, direction: Arrow::Empty, path: false }
    }
}

/// The direction marker the construction stores at `(i, j)`: `Diagonal` on a
/// unit match, otherwise `Horizontal` only when the left neighbour strictly
/// beats the upper one (ties go to `Vertical`), and `Empty` on the border.
pub open spec fn expected_direction(a: Seq<char>, b: Seq<char>, i: int, j: int) -> Arrow {
    if i == 0 || j == 0 {
        Arrow::Empty
    } else if a[i - 1] == b[j - 1] {
        Arrow::Diagonal
    } else if lcs_len(a.take(i), b.take(j - 1)) > lcs_len(a.take(i - 1), b.take(j)) {
        Arrow::Horizontal
    } else {
        Arrow::Vertical
    }
}

/// The table has `(|a|+1) x (|b|+1)` cells and each one holds the LCS length
/// of the corresponding prefixes together with its direction marker.
pub open spec fn table_wf(t: Seq<Vec<Cell>>, a: Seq<char>, b: Seq<char>) -> bool {
    &&& t.len() == a.len() + 1
    &&& (forall|i: int| 0 <= i <= a.len() ==> (#[trigger] t[i])@.len() == b.len() + 1)
    &&& (forall|i: int, j: int|
        0 <= i <= a.len() && 0 <= j <= b.len() ==> (#[trigger] t[i]@[j]).length == lcs_len(
            a.take(i),
            b.take(j),
        ))
    &&& (forall|i: int, j: int|
        0 <= i <= a.len() && 0 <= j <= b.len() ==> (#[trigger] t[i]@[j]).direction
            == expected_direction(a, b, i, j))
}

/// The one-character glyph that depicts a direction marker in the rendered
/// table: a backslash for Diagonal, a dash for Horizontal, a bar for
/// Vertical, and a space for the border.
pub open spec fn glyph_of(d: Arrow) -> char {
    match d {
        Arrow::Diagonal => '\\',
        Arrow::Horizontal => '-',
        Arrow::Vertical => '|',
        Arrow::Empty => ' ',
    }
}

/// Returns the glyph that depicts `d`.
pub fn direction_glyph(d: Arrow) -> (g: char)
    ensures
        g == glyph_of(d),
{
    match d {
        Arrow::Diagonal => '\\',
        Arrow::Horizontal => '-',
        Arrow::Vertical => '|',
        Arrow::Empty => ' ',
    }
}

/// One step of the LCS recurrence, phrased on prefixes of the inputs.
pub proof fn lemma_lcs_len_step(a: Seq<char>, b: Seq<char>, i: int, j: int)
    requires
        1 <= i <= a.len(),
        1 <= j <= b.len(),
    ensures
        a[i - 1] == b[j - 1] ==> lcs_len(a.take(i), b.take(j)) == lcs_len(
            a.take(i - 1),
            b.take(j - 1),
        ) + 1,
        a[i - 1] != b[j - 1] ==> lcs_len(a.take(i), b.take(j)) == (if lcs_len(
            a.take(i),
            b.take(j - 1),
        ) > lcs_len(a.take(i - 1), b.take(j)) {
            lcs_len(a.take(i), b.take(j - 1))
        } else {
            lcs_len(a.take(i - 1), b.take(j))
        }),
{
    assert(a.take(i).drop_last() =~= a.take(i - 1));
    assert(b.take(j).drop_last() =~= b.take(j - 1));
    assert(a.take(i).last() == a[i - 1]);
    assert(b.take(j).last() == b[j - 1]);
}

/// Builds the DP table for `a` (rows) and `b` (columns): border cells are
/// empty, every inner cell follows the LCS recurrence, and no cell is marked
/// as lying on the traceback path yet.
pub fn build_table(a: &Vec<char>, b: &Vec<char>) -> (t: Vec<Vec<Cell>>)
    requires
        a@.len() < u32::MAX,
        b@.len() < u32::MAX,
    ensures
        table_wf(t@, a@, b@),
        forall|i: int, j: int|
            0 <= i <= a@.len() && 0 <= j <= b@.len() ==> !(#[trigger] t@[i]@[j]).path,
{
    let alen = a.len();
    let blen = b.len();
    let mut t: Vec<Vec<Cell>> = Vec::new();

    let mut row0: Vec<Cell> = Vec::new();
    let mut j: usize = 0;
    while j <= blen
        invariant
            j <= blen + 1,
            blen == b@.len(),
            blen < u32::MAX,
            row0@.len() == j,
            forall|jj: int|
                0 <= jj < j ==> (#[trigger] row0@[jj]) == (Cell {
                    length: 0,
                    direction: Arrow::Empty,
                    path: false,
                }),
        decreases blen + 1 - j,
    {
        row0.push(Cell::new());
        j += 1;
    }
    t.push(row0);

    let mut i: usize = 1;
    while i <= alen
        invariant
            1 <= i <= alen + 1,
            alen == a@.len(),
            blen == b@.len(),
            alen < u32::MAX,
            blen < u32::MAX,
            t@.len() == i,
            forall|ii: int| 0 <= ii < i ==> (#[trigger] t@[ii])@.len() == blen + 1,
            forall|ii: int, jj: int|
                0 <= ii < i && 0 <= jj <= blen ==> (#[trigger] t@[ii]@[jj]).length == lcs_len(
                    a@.take(ii),
                    b@.take(jj),
                ),
            forall|ii: int, jj: int|
                0 <= ii < i && 0 <= jj <= blen ==> (#[trigger] t@[ii]@[jj]).direction
                    == expected_direction(a@, b@, ii, jj),
            forall|ii: int, jj: int|
                0 <= ii < i && 0 <= jj <= blen ==> !(#[trigger] t@[ii]@[jj]).path,
        decreases alen + 1 - i,
    {
        let mut row: Vec<Cell> = Vec::new();
        row.push(Cell::new());
        let mut j: usize = 1;
        while j <= blen
            invariant
                1 <= i <= alen,
                1 <= j <= blen + 1,
                alen == a@.len(),
                blen == b@.len(),
                alen < u32::MAX,
                blen < u32::MAX,
                t@.len() == i,
                forall|ii: int| 0 <= ii < i ==> (#[trigger] t@[ii])@.len() == blen + 1,
                forall|ii: int, jj: int|
                    0 <= ii < i && 0 <= jj <= blen ==> (#[trigger] t@[ii]@[jj]).length == lcs_len(
                        a@.take(ii),
                        b@.take(jj),
                    ),
                forall|ii: int, jj: int|
                    0 <= ii < i && 0 <= jj <= blen ==> (#[trigger] t@[ii]@[jj]).direction
                        == expected_direction(a@, b@, ii, jj),
                forall|ii: int, jj: int|
                    0 <= ii < i && 0 <= jj <= blen ==> !(#[trigger] t@[ii]@[jj]).path,
                row@.len() == j,
                forall|jj: int|
                    0 <= jj < j ==> (#[trigger] row@[jj]).length == lcs_len(
                        a@.take(i as int),
                        b@.take(jj),
                    ),
                forall|jj: int|
                    0 <= jj < j ==> (#[trigger] row@[jj]).direction == expected_direction(
                        a@,
                        b@,
                        i as int,
                        jj,
                    ),
                forall|jj: int| 0 <= jj < j ==> !(#[trigger] row@[jj]).path,
            decreases blen + 1 - j,
        {
            proof {
                lemma_lcs_len_step(a@, b@, i as int, j as int);
                crate::model::lemma_lcs_len_le(a@.take(i as int - 1), b@.take(j as int - 1));
                assert(a@.take(i as int - 1).len() == i - 1);
            }
            let up = t[i - 1][j].length;
            let up_left = t[i - 1][j - 1].length;
            let left = row[j - 1].length;
            let c = if a[i - 1] == b[j - 1] {
                Cell { length: up_left + 1, direction: Arrow::Diagonal, path: false }
            } else if left > up {
                Cell { length: left, direction: Arrow::Horizontal, path: false }
            } else {
                Cell { length: up, direction: Arrow::Vertical, path: false }
            };
            row.push(c);
            j += 1;
        }
        t.push(row);
        i += 1;
    }
    t
}

} // verus!
