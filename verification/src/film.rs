//! The film's pixel rectangles: the range of pixels an image stores, and
//! the (wider) range of pixels that samples may contribute to.

use vstd::prelude::*;

verus! {

/// The buffer cell of film pixel `(x, y)` when rows of `width` pixels
/// starting at `(x_start, y_start)` are stored row-major: filling one
/// pixel's cell can never touch another pixel's, since distinct pixels in
/// range give distinct indices.
pub fn pixel_index(x: u32, y: u32, x_start: u32, y_start: u32, width: u32) -> (r: usize)
    requires
        x_start <= x,
        y_start <= y,
        x - x_start < width,
        (y - y_start) * width + (x - x_start) <= usize::MAX,
    ensures
        r == (y - y_start) * width + (x - x_start),
{
    proof {
        assert(0 <= (y - y_start) * (width as int)) by (nonlinear_arith)
            requires
                y_start <= y && 0 <= width as int,
        ;
    }
    let row = (y - y_start) as u64;
    let col = (x - x_start) as u64;
    let idx = row * (width as u64) + col;
    idx as usize
}

/// Row-major pixel indexing is injective: pixels of distinct rows, or of
/// the same row and distinct columns, get distinct buffer cells, and a
/// pixel in an image of `height` rows stays within the buffer.
pub proof fn lemma_pixel_index_injective(width: int, height: int, row1: int, col1: int, row2: int, col2: int)
    requires
        0 <= row1 < height,
        0 <= col1 < width,
        0 <= row2 < height,
        0 <= col2 < width,
        (row1, col1) != (row2, col2),
    ensures
        row1 * width + col1 != row2 * width + col2,
        row1 * width + col1 < width * height,
{
    assert(row1 * width + col1 != row2 * width + col2) by (nonlinear_arith)
        requires
            0 <= row1 && 0 <= col1 && col1 < width && 0 <= row2 && 0 <= col2 && col2 < width && (
            row1 != row2 || col1 != col2),
    ;
    assert(row1 * width + col1 < width * height) by (nonlinear_arith)
        requires
            0 <= row1 && row1 < height && 0 <= col1 && col1 < width,
    ;
}

/// A half-open rectangle of film pixels: `x` in `[xstart, xend)`, `y` in
/// `[ystart, yend)`.
pub struct Extent {
    xstart: u32,
    xend: u32,
    ystart: u32,
    yend: u32,
}

impl Extent {
    pub closed spec fn xstart_spec(self) -> u32 {
        self.xstart
    }

    pub closed spec fn xend_spec(self) -> u32 {
        self.xend
    }

    pub closed spec fn ystart_spec(self) -> u32 {
        self.ystart
    }

    pub closed spec fn yend_spec(self) -> u32 {
        self.yend
    }

    pub fn new(xstart: u32, xend: u32, ystart: u32, yend: u32) -> (r: Extent)
        ensures
            r.xstart_spec() == xstart,
            r.xend_spec() == xend,
            r.ystart_spec() == ystart,
            r.yend_spec() == yend,
    {
        Extent { xstart, xend, ystart, yend }
    }

    pub fn xstart(&self) -> (r: u32)
        ensures
            r == self.xstart_spec(),
    {
        self.xstart
    }

    pub fn xend(&self) -> (r: u32)
        ensures
            r == self.xend_spec(),
    {
        self.xend
    }

    pub fn ystart(&self) -> (r: u32)
        ensures
            r == self.ystart_spec(),
    {
        self.ystart
    }

    pub fn yend(&self) -> (r: u32)
        ensures
            r == self.yend_spec(),
    {
        self.yend
    }
}

} // verus!
