//! Decoding of the counter packets of the raw radio receive test.

use vstd::prelude::*;

verus! {

/// The little-endian value of four bytes.
pub open spec fn le_u32(b0: u8, b1: u8, b2: u8, b3: u8) -> int {
    b0 as int + b1 as int * 0x100 + b2 as int * 0x1_0000 + b3 as int * 0x100_0000
}

/// The counter carried by a packet: present exactly when the packet is four bytes
/// long, read little-endian.
pub fn count_from_packet(bytes: &[u8]) -> (r: Option<u32>)
    ensures
        r is Some <==> bytes@.len() == 4,
        r matches Some(c) ==> c == le_u32(bytes@[0], bytes@[1], bytes@[2], bytes@[3]),
{
    if bytes.len() != 4 {
        return None;
    }
    let b0 = bytes[0] as u32;
    let b1 = bytes[1] as u32;
    let b2 = bytes[2] as u32;
    let b3 = bytes[3] as u32;
    Some(b0 + b1 * 0x100 + b2 * 0x1_0000 + b3 * 0x100_0000)
}

} // verus!
