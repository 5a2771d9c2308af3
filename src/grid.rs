use vstd::prelude::*;

use vstd::arithmetic::div_mod::lemma_fundamental_div_mod;

use crate::board::in_grid;

verus! {

/// Index of the band that `pos` falls in when a span of `extent` pixels is cut
/// into three equal bands; positions at or past the end fall in the last band.
pub open spec fn band(pos: int, extent: int) -> int {
    let b = (3 * pos) / extent;
    if b > 2 {
        2
    } else {
        b
    }
}

/// Band of `pos` in a span of `extent` pixels, with the facts that place it.
fn band_of(pos: u32, extent: u32) -> (r: usize)
    requires
        extent > 0,
    ensures
        r as int == band(pos as int, extent as int),
        r < 3,
        pos < extent ==> r * extent <= 3 * pos < (r + 1) * extent,
{
    let b: u64 = (3 * pos as u64) / (extent as u64);
    proof {
        lemma_fundamental_div_mod(3 * pos as int, extent as int);
        if pos < extent {
            assert(b * extent <= 3 * pos) by (nonlinear_arith)
                requires
                    3 * pos == extent * b + (3 * pos) % (extent as int),
                    0 <= (3 * pos) % (extent as int),
            ;
            assert(3 * pos < (b + 1) * extent) by (nonlinear_arith)
                requires
                    3 * pos == extent * b + (3 * pos) % (extent as int),
                    (3 * pos) % (extent as int) < extent,
            ;
            assert(b < 3) by (nonlinear_arith)
                requires
                    b * extent <= 3 * pos,
                    pos < extent,
                    extent > 0,
            ;
        }
    }
    if b > 2 {
        2
    } else {
        b as usize
    }
}

/// The cell under a pointer at `x`, `y` (pixels from the top-left corner) in a
/// window of `width` by `height` pixels cut into a 3x3 grid of equal regions.
/// Returns `(row, col)`: the row follows `y`, the column follows `x`. Every
/// position gets exactly one cell; one inside the window gets the region that
/// holds it, one beyond the right or bottom edge gets the last column or row.
pub fn cell_at(x: u32, y: u32, width: u32, height: u32) -> (r: (usize, usize))
    requires
        width > 0,
        height > 0,
    ensures
        r.0 as int == band(y as int, height as int),
        r.1 as int == band(x as int, width as int),
        in_grid(r.0 as int, r.1 as int),
        y < height ==> r.0 * height <= 3 * y < (r.0 + 1) * height,
        x < width ==> r.1 * width <= 3 * x < (r.1 + 1) * width,
{
    (band_of(y, height), band_of(x, width))
}

} // verus!
