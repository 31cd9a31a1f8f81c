//! Byte-order helpers shared by the telemetry decoders.

use vstd::prelude::*;

verus! {

/// The value of a big-endian 16-bit word made of `hi` followed by `lo`.
pub open spec fn be_u16(hi: u8, lo: u8) -> int {
    hi as int * 256 + lo as int
}

/// Decodes a big-endian 16-bit word.
pub fn u16_from_be(hi: u8, lo: u8) -> (r: u16)
    ensures
        r == be_u16(hi, lo),
{
    (hi as u16) * 256 + (lo as u16)
}

} // verus!
