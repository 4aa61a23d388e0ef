//! The ROM image format: a flat file of 2-byte little-endian words.
//! A trailing odd byte is ignored; the first word sits at address 0.

use vstd::prelude::*;

verus! {

/// The words a byte image denotes, two little-endian bytes each.
pub open spec fn spec_words_of_bytes(b: Seq<u8>) -> Seq<u16> {
    Seq::new((b.len() / 2) as nat, |i: int| (b[2 * i] + 256 * b[2 * i + 1]) as u16)
}

/// Decodes a ROM image into its memory words.
pub fn words_from_bytes(b: &[u8]) -> (r: Vec<u16>)
    ensures
        r@ == spec_words_of_bytes(b@),
{
    let n = b.len() / 2;
    let mut out: Vec<u16> = Vec::new();
    let mut k: usize = 0;
    while k < n
        invariant
            k <= n,
            n == b@.len() / 2,
            n <= usize::MAX / 2,
            out@.len() == k,
            forall|i: int| 0 <= i < k ==> out@[i] == (b@[2 * i] + 256 * b@[2 * i + 1]) as u16,
        decreases n - k,
    {
        let w: u16 = (b[2 * k] as u16) + 256 * (b[2 * k + 1] as u16);
        out.push(w);
        k = k + 1;
    }
    proof {
        assert(out@ =~= spec_words_of_bytes(b@));
    }
    out
}

} // verus!
