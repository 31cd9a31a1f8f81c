//! Integer parts of the ground station's software attitude renderer: colour
//! packing, span filling, vertex ordering, mesh triangulation and the
//! framebuffer-to-RGBA conversion.

use vstd::prelude::*;
use colour::{Colour, packed_0rgb};

pub mod colour;
pub mod raster;
pub mod geometry;

verus! {

/// Square render resolution, in pixels.
pub const WIDTH: usize = 480;
pub const HEIGHT: usize = 480;

/// Red, green and blue bytes of a `0x00RRGGBB` pixel.
pub open spec fn red_of(px: u32) -> u8 {
    ((px >> 16u32) & 0xffu32) as u8
}

pub open spec fn green_of(px: u32) -> u8 {
    ((px >> 8u32) & 0xffu32) as u8
}

pub open spec fn blue_of(px: u32) -> u8 {
    (px & 0xffu32) as u8
}

/// Expands each `0RGB` pixel of `buffer` into four RGBA bytes (alpha 255) at the
/// same pixel position of `rgba`; bytes of `rgba` beyond the last pixel are left alone.
pub fn framebuffer_to_rgba(buffer: &[u32], rgba: &mut [u8])
    requires
        old(rgba)@.len() >= 4 * buffer@.len(),
    ensures
        final(rgba)@.len() == old(rgba)@.len(),
        forall|i: int|
            0 <= i < buffer@.len() ==> {
                &&& #[trigger] final(rgba)@[4 * i] == red_of(buffer@[i])
                &&& final(rgba)@[4 * i + 1] == green_of(buffer@[i])
                &&& final(rgba)@[4 * i + 2] == blue_of(buffer@[i])
                &&& final(rgba)@[4 * i + 3] == 255
            },
        forall|k: int|
            4 * buffer@.len() <= k < old(rgba)@.len() ==> #[trigger] final(rgba)@[k]
                == old(rgba)@[k],
{
    let n = buffer.len();
    let len = rgba.len();
    let mut i: usize = 0;
    while i < n
        invariant
            n == buffer@.len(),
            i <= n,
            rgba@.len() == old(rgba)@.len(),
            rgba@.len() >= 4 * n,
            len == rgba@.len(),
            forall|j: int|
                0 <= j < i ==> {
                    &&& #[trigger] rgba@[4 * j] == red_of(buffer@[j])
                    &&& rgba@[4 * j + 1] == green_of(buffer@[j])
                    &&& rgba@[4 * j + 2] == blue_of(buffer@[j])
                    &&& rgba@[4 * j + 3] == 255
                },
            forall|k: int| 4 * i <= k < rgba@.len() ==> #[trigger] rgba@[k] == old(rgba)@[k],
        decreases n - i,
    {
        let px = buffer[i];
        assert(i * 4 + 3 < len);
        rgba[i * 4] = ((px >> 16) & 0xff) as u8;
        rgba[i * 4 + 1] = ((px >> 8) & 0xff) as u8;
        rgba[i * 4 + 2] = (px & 0xff) as u8;
        rgba[i * 4 + 3] = 255;
        i += 1;
    }
}

/// A pixel packed by `Colour::as_0rgb` expands back to the colour's own red, green
/// and blue bytes: packing and the RGBA conversion are inverse.
pub proof fn lemma_rgba_recovers_colour(c: Colour, px: u32)
    requires
        px == packed_0rgb(c),
    ensures
        red_of(px) == c.r,
        green_of(px) == c.g,
        blue_of(px) == c.b,
{
    let r = c.r;
    let g = c.g;
    let b = c.b;
    assert(((px >> 16u32) & 0xffu32) as u8 == r && ((px >> 8u32) & 0xffu32) as u8 == g && (px
        & 0xffu32) as u8 == b) by (bit_vector)
        requires
            px == r as int * 0x10000 + g as int * 0x100 + b as int,
    ;
}

} // verus!
