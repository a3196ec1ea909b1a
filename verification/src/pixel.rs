//! Pixel-layout conversion between two packed four-byte-per-pixel layouts.
//!
//! The transform swaps bytes 0 and 2 of every four-byte group and leaves
//! bytes 1 and 3 unchanged; it is its own inverse.

use vstd::prelude::*;

use crate::StreamError;

verus! {

/// The byte at position `i` of the converted buffer: within each four-byte
/// group, positions 0 and 2 are exchanged, positions 1 and 3 are kept.
pub open spec fn swapped_byte(s: Seq<u8>, i: int) -> u8 {
    if i % 4 == 0 {
        s[i + 2]
    } else if i % 4 == 2 {
        s[i - 2]
    } else {
        s[i]
    }
}

/// The converted buffer as a whole.
pub open spec fn swapped(s: Seq<u8>) -> Seq<u8> {
    Seq::new(s.len(), |i: int| swapped_byte(s, i))
}

/// Converts a packed BGRA buffer to RGBA (or back: the transform is its own
/// inverse). Returns `InvalidBufferLength` exactly when the buffer's length
/// is not a multiple of four.
pub fn bgra_to_rgba(bgra: &[u8]) -> (r: Result<Vec<u8>, StreamError>)
    ensures
        r is Ok <==> bgra@.len() % 4 == 0,
        r matches Ok(out) ==> out@ == swapped(bgra@),
        r matches Err(e) ==> e == StreamError::InvalidBufferLength,
{
    if bgra.len() % 4 != 0 {
        return Err(StreamError::InvalidBufferLength);
    }
    let mut rgba: Vec<u8> = Vec::new();
    let mut i: usize = 0;
    while i < bgra.len()
        invariant
            i % 4 == 0,
            i <= bgra@.len(),
            bgra@.len() % 4 == 0,
            rgba@.len() == i,
            forall|j: int| 0 <= j < i ==> rgba@[j] == swapped_byte(bgra@, j),
        decreases bgra@.len() - i,
    {
        rgba.push(bgra[i + 2]);
        rgba.push(bgra[i + 1]);
        rgba.push(bgra[i]);
        rgba.push(bgra[i + 3]);
        i = i + 4;
    }
    assert(rgba@ =~= swapped(bgra@));
    Ok(rgba)
}

/// The conversion is an involution: applied twice it gives back the
/// original buffer, for every buffer the conversion accepts.
pub proof fn lemma_swap_involution(s: Seq<u8>)
    requires
        s.len() % 4 == 0,
    ensures
        swapped(swapped(s)) == s,
{
    let t = swapped(s);
    assert forall|i: int| 0 <= i < s.len() implies swapped(t)[i] == s[i] by {
        if i % 4 == 0 {
            assert(swapped(t)[i] == t[i + 2]);
            assert((i + 2) % 4 == 2);
            assert(t[i + 2] == s[i]);
        } else if i % 4 == 2 {
            assert(swapped(t)[i] == t[i - 2]);
            assert((i - 2) % 4 == 0);
            assert(t[i - 2] == s[i]);
        }
    }
    assert(swapped(swapped(s)) =~= s);
}

} // verus!
