//! Verified text for the table renderer: each cell becomes its direction
//! glyph followed by its length centered in a width-three field, together
//! with its traceback flag, so a caller only prints (and may colour the
//! flagged cells).

use vstd::prelude::*;

use crate::model::lemma_reverse_push;
use crate::table::glyph_of;
use crate::table::Cell;

verus! {

/// The character for a single decimal digit.
pub open spec fn digit_char(d: nat) -> char {
    if d == 0 {
        '0'
    } else if d == 1 {
        '1'
    } else if d == 2 {
        '2'
    } else if d == 3 {
        '3'
    } else if d == 4 {
        '4'
    } else if d == 5 {
        '5'
    } else if d == 6 {
        '6'
    } else if d == 7 {
        '7'
    } else if d == 8 {
        '8'
    } else {
        '9'
    }
}

/// Decimal representation of `n`: most significant digit first, no leading
/// zeros (a single `'0'` for zero).
pub open spec fn dec_rep(n: nat) -> Seq<char>
    decreases n,
{
    if n < 10 {
        seq![digit_char(n)]
    } else {
        dec_rep(n / 10).push(digit_char(n % 10))
    }
}

/// `s` centered in a field of width three; text wider than the field is
/// kept whole, and the extra space of a width-two text goes to the right.
pub open spec fn centered3(s: Seq<char>) -> Seq<char> {
    if s.len() >= 3 {
        s
    } else if s.len() == 2 {
        s.push(' ')
    } else if s.len() == 1 {
        (seq![' '] + s).push(' ')
    } else {
        seq![' ', ' ', ' ']
    }
}

/// The rendered text of one cell: its direction glyph, then its length
/// centered in a width-three field.
pub open spec fn cell_text(c: Cell) -> Seq<char> {
    seq![glyph_of(c.direction)] + centered3(dec_rep(c.length as nat))
}

fn digit(d: u32) -> (c: char)
    requires
        d < 10,
    ensures
        c == digit_char(d as nat),
{
    if d == 0 {
        '0'
    } else if d == 1 {
        '1'
    } else if d == 2 {
        '2'
    } else if d == 3 {
        '3'
    } else if d == 4 {
        '4'
    } else if d == 5 {
        '5'
    } else if d == 6 {
        '6'
    } else if d == 7 {
        '7'
    } else if d == 8 {
        '8'
    } else {
        '9'
    }
}

/// The decimal digits of `n`, most significant first.
fn u32_decimal(n: u32) -> (v: Vec<char>)
    ensures
        v@ == dec_rep(n as nat),
{
    let mut acc: Vec<char> = Vec::new();
    let mut cur = n;
    proof {
        assert(acc@.reverse() =~= Seq::<char>::empty());
        assert(dec_rep(cur as nat) + Seq::<char>::empty() =~= dec_rep(n as nat));
    }
    while cur >= 10
        invariant
            dec_rep(n as nat) == dec_rep(cur as nat) + acc@.reverse(),
        decreases cur,
    {
        let d = cur % 10;
        proof {
            lemma_reverse_push(acc@, digit_char(d as nat));
            assert(dec_rep(cur as nat / 10).push(digit_char(cur as nat % 10)) =~= dec_rep(
                cur as nat / 10,
            ) + seq![digit_char(cur as nat % 10)]);
            assert((dec_rep(cur as nat / 10) + seq![digit_char(cur as nat % 10)]) + acc@.reverse()
                =~= dec_rep(cur as nat / 10) + (seq![digit_char(cur as nat % 10)]
                + acc@.reverse()));
        }
        acc.push(digit(d));
        cur = cur / 10;
    }
    let mut v: Vec<char> = Vec::new();
    v.push(digit(cur));
    let mut k: usize = acc.len();
    while k > 0
        invariant
            k <= acc@.len(),
            v@.len() == 1 + acc@.len() - k,
            v@[0] == digit_char(cur as nat),
            forall|m: int| 1 <= m < v@.len() ==> v@[m] == acc@[acc@.len() - m],
        decreases k,
    {
        let c = acc[k - 1];
        v.push(c);
        k -= 1;
    }
    proof {
        assert(v@ =~= seq![digit_char(cur as nat)] + acc@.reverse());
        assert(dec_rep(cur as nat) == seq![digit_char(cur as nat)]);
    }
    v
}

/// Pads `v` to the width-three centered field.
fn pad_centered3(v: Vec<char>) -> (out: Vec<char>)
    ensures
        out@ == centered3(v@),
{
    if v.len() >= 3 {
        v
    } else if v.len() == 2 {
        let mut out = v;
        out.push(' ');
        out
    } else if v.len() == 1 {
        let c = v[0];
        let mut out: Vec<char> = Vec::new();
        out.push(' ');
        out.push(c);
        out.push(' ');
        proof {
            assert(out@ =~= centered3(v@));
        }
        out
    } else {
        let mut out: Vec<char> = Vec::new();
        out.push(' ');
        out.push(' ');
        out.push(' ');
        proof {
            assert(out@ =~= centered3(v@));
        }
        out
    }
}

/// Renders one table row: for every cell, its text and whether it lies on
/// the traceback path (so that a caller can emphasize it).
pub fn render_row(row: &Vec<Cell>) -> (out: Vec<(String, bool)>)
    ensures
        out@.len() == row@.len(),
        forall|j: int|
            0 <= j < row@.len() ==> (#[trigger] out@[j]).0@ == cell_text(row@[j]) && out@[j].1
                == row@[j].path,
{
    let mut out: Vec<(String, bool)> = Vec::new();
    let mut j: usize = 0;
    while j < row.len()
        invariant
            j <= row@.len(),
            out@.len() == j,
            forall|m: int|
                0 <= m < j ==> (#[trigger] out@[m]).0@ == cell_text(row@[m]) && out@[m].1
                    == row@[m].path,
        decreases row@.len() - j,
    {
        let c = row[j];
        let digits = u32_decimal(c.length);
        let field = pad_centered3(digits);
        let mut cv: Vec<char> = Vec::new();
        cv.push(crate::table::direction_glyph(c.direction));
        let mut k: usize = 0;
        while k < field.len()
            invariant
                k <= field@.len(),
                cv@.len() == 1 + k,
                cv@[0] == glyph_of(c.direction),
                forall|m: int| 0 <= m < k ==> cv@[1 + m] == field@[m],
            decreases field@.len() - k,
        {
            let ch = field[k];
            cv.push(ch);
            k += 1;
        }
        proof {
            assert(cv@ =~= cell_text(c));
        }
        let s = crate::engine::chars_to_string(&cv);
        out.push((s, c.path));
        j += 1;
    }
    out
}

} // verus!
