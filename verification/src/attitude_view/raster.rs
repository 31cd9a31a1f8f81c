//! Span filling and vertex ordering for the software triangle rasteriser.

use vstd::prelude::*;
use super::{HEIGHT, WIDTH};

verus! {

#[derive(Clone, Copy, Debug, PartialEq, Eq, Structural)]
pub struct Point {
    pub x: u32,
    pub y: u32,
}

/// Index of the first pixel of screen row `y` (row 0 is the bottom of the image).
pub open spec fn row_offset(y: u32) -> int {
    (HEIGHT - y - 1) * WIDTH
}

/// Whether framebuffer index `k` is one that `draw_horiz_line(_, x1, x2, y, _)` paints:
/// a column between `x1` and `x2` inclusive, inside the image, on row `y`.
pub open spec fn in_span(k: int, x1: u32, x2: u32, y: u32) -> bool {
    let lo = if x1 <= x2 { x1 } else { x2 };
    let hi = if x1 <= x2 { x2 } else { x1 };
    &&& y < HEIGHT
    &&& row_offset(y) + lo <= k <= row_offset(y) + hi
    &&& k < row_offset(y) + WIDTH
}

/// Paints columns `x1..=x2` (in either order, clipped to the image width) of row `y`;
/// rows at or beyond the image height are ignored.
pub fn draw_horiz_line(buffer: &mut [u32], x1: u32, x2: u32, y: u32, colour: u32)
    requires
        ({
            let lo = if x1 <= x2 { x1 } else { x2 };
            let hi = if x1 <= x2 { x2 } else { x1 };
            let last = if hi < WIDTH { hi as int } else { WIDTH - 1 };
            y < HEIGHT && lo < WIDTH ==> row_offset(y) + last < old(buffer)@.len()
        }),
    ensures
        final(buffer)@.len() == old(buffer)@.len(),
        forall|k: int|
            0 <= k < old(buffer)@.len() ==> #[trigger] final(buffer)@[k] == if in_span(k, x1, x2, y) {
                colour
            } else {
                old(buffer)@[k]
            },
{
    if (y as usize) >= HEIGHT {
        return;
    }
    let y_offset = (HEIGHT - (y as usize) - 1) * WIDTH;
    let (lo, hi) = if x1 > x2 { (x2, x1) } else { (x1, x2) };
    let last: usize = if (hi as usize) < WIDTH { hi as usize } else { WIDTH - 1 };
    let mut i: usize = lo as usize;
    while i <= last
        invariant
            y < HEIGHT,
            y_offset == row_offset(y),
            lo as int == (if x1 <= x2 { x1 } else { x2 }),
            hi as int == (if x1 <= x2 { x2 } else { x1 }),
            last == (if hi < WIDTH { hi as int } else { WIDTH - 1 }),
            lo <= i,
            i <= last + 1 || i == lo,
            lo < WIDTH ==> y_offset + last < buffer@.len(),
            buffer@.len() == old(buffer)@.len(),
            forall|k: int|
                0 <= k < buffer@.len() ==> #[trigger] buffer@[k] == if in_span(k, x1, x2, y) && k
                    < y_offset + i {
                    colour
                } else {
                    old(buffer)@[k]
                },
        decreases last + 1 - i,
    {
        buffer[y_offset + i] = colour;
        i += 1;
    }
}

/// The span painted does not depend on the order in which its two ends are given.
pub proof fn lemma_span_order_irrelevant(k: int, x1: u32, x2: u32, y: u32)
    ensures
        in_span(k, x1, x2, y) == in_span(k, x2, x1, y),
{
}

/// On a row inside the image, `draw_horiz_line` paints every column from the lower
/// end to the higher end inclusive that lies inside the image, a span whose two ends
/// are equal included; the pixel of column `x` on row `y` is at index
/// `(HEIGHT - 1 - y) * WIDTH + x`.
pub proof fn lemma_span_paints_every_column(x1: u32, x2: u32, y: u32, x: u32)
    requires
        y < HEIGHT,
        x < WIDTH,
        x1 <= x <= x2 || x2 <= x <= x1,
    ensures
        in_span((HEIGHT - 1 - y) * WIDTH + x, x1, x2, y),
{
}

/// `draw_horiz_line` paints nothing outside the span: a painted index lies on row
/// `y < HEIGHT`, in a column inside the image and between the two ends inclusive.
pub proof fn lemma_span_paints_only_the_span(k: int, x1: u32, x2: u32, y: u32)
    requires
        in_span(k, x1, x2, y),
    ensures
        y < HEIGHT,
        0 <= k - (HEIGHT - 1 - y) * WIDTH < WIDTH,
        x1 <= k - (HEIGHT - 1 - y) * WIDTH <= x2 || x2 <= k - (HEIGHT - 1 - y) * WIDTH <= x1,
{
}

/// Orders three points by decreasing y: `(max, mid, min)`.
pub open spec fn sorted_by_y_desc(r: (Point, Point, Point)) -> bool {
    r.0.y >= r.1.y && r.1.y >= r.2.y
}

/// Whether `r` holds the same three points as `(p1, p2, p3)`, in some order.
pub open spec fn is_permutation(r: (Point, Point, Point), p1: Point, p2: Point, p3: Point) -> bool {
    ||| r == (p1, p2, p3)
    ||| r == (p1, p3, p2)
    ||| r == (p2, p1, p3)
    ||| r == (p2, p3, p1)
    ||| r == (p3, p1, p2)
    ||| r == (p3, p2, p1)
}

/// Orders three points by decreasing y (`pmax.y >= pmid.y >= pmin.y`), by three
/// compare-and-swap steps; among points of equal y the order is the one those
/// steps leave, which need not be their order in the arguments.
pub fn sort_points_by_y(p1: Point, p2: Point, p3: Point) -> (r: (Point, Point, Point))
    ensures
        sorted_by_y_desc(r),
        is_permutation(r, p1, p2, p3),
        r == spec_sort_points_by_y(p1, p2, p3),
{
    let mut pmax = p1;
    let mut pmid = p2;
    let mut pmin = p3;

    if pmid.y > pmax.y {
        let t = pmax;
        pmax = pmid;
        pmid = t;
    }
    if pmin.y > pmax.y {
        let t = pmax;
        pmax = pmin;
        pmin = t;
    }
    if pmin.y > pmid.y {
        let t = pmid;
        pmid = pmin;
        pmin = t;
    }
    (pmax, pmid, pmin)
}

/// The three compare-and-swap steps of `sort_points_by_y`.
pub open spec fn spec_sort_points_by_y(p1: Point, p2: Point, p3: Point) -> (Point, Point, Point) {
    let (a, b) = if p2.y > p1.y { (p2, p1) } else { (p1, p2) };
    let (a, c) = if p3.y > a.y { (p3, a) } else { (a, p3) };
    let (b, c) = if c.y > b.y { (c, b) } else { (b, c) };
    (a, b, c)
}

} // verus!
