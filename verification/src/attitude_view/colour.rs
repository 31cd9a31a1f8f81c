//! RGB colour with `0RGB` packing.

use vstd::prelude::*;

verus! {

#[derive(Clone, Copy, Debug, PartialEq, Eq, Structural)]
pub struct Colour {
    pub r: u8,
    pub g: u8,
    pub b: u8,
}

/// The `0x00RRGGBB` word of a colour.
pub open spec fn packed_0rgb(c: Colour) -> int {
    c.r as int * 0x10000 + c.g as int * 0x100 + c.b as int
}

impl Colour {
    pub fn new(r: u8, g: u8, b: u8) -> (c: Self)
        ensures
            c == (Colour { r, g, b }),
    {
        Colour { r, g, b }
    }

    /// Packs into a `0x00RRGGBB` word, the software framebuffer's pixel format.
    pub fn as_0rgb(&self) -> (w: u32)
        ensures
            w == packed_0rgb(*self),
            w < 0x100_0000,
    {
        let r = self.r;
        let g = self.g;
        let b = self.b;
        assert(((r as u32) << 16u32) == r as u32 * 0x10000) by (bit_vector);
        assert(((g as u32) << 8u32) == g as u32 * 0x100) by (bit_vector);
        ((r as u32) << 16) + ((g as u32) << 8) + (b as u32)
    }
}

} // verus!
