//! Random input strings for empirical studies of the expected LCS length
//! over a bounded alphabet.

use rand::Rng;
use vstd::prelude::*;

verus! {

/// `c` lies in the alphabet of the `k + 1` letters that starts at `'A'`.
pub open spec fn in_alphabet(c: char, k: u8) -> bool {
    65 <= c as u32 <= 65 + k as u32
}

/// Relies on `rand::thread_rng` and `Rng::gen_range`: the drawn byte lies
/// within the given (non-empty) inclusive range.  Nothing more is promised:
/// the draw is random.
#[verifier::external_body]
fn random_byte_in(lo: u8, hi: u8) -> (r: u8)
    requires
        lo <= hi,
    ensures
        lo <= r <= hi,
{
    rand::thread_rng().gen_range(lo..=hi)
}

/// A string of `n` units drawn at random from the alphabet of `k + 1`
/// letters starting at `'A'`.
pub fn random_string(n: u32, k: u8) -> (s: String)
    requires
        k <= 190,
    ensures
        s@.len() == n,
        forall|i: int| 0 <= i < s@.len() ==> in_alphabet(#[trigger] s@[i], k),
{
    let mut v: Vec<char> = Vec::new();
    let mut i: u32 = 0;
    while i < n
        invariant
            i <= n,
            k <= 190,
            v@.len() == i,
            forall|m: int| 0 <= m < v@.len() ==> in_alphabet(#[trigger] v@[m], k),
        decreases n - i,
    {
        let b = random_byte_in(65, 65 + k);
        v.push(b as char);
        i += 1;
    }
    crate::engine::chars_to_string(&v)
}

} // verus!
