//! Image-plane sampling: the rectangular pixel window a sampler walks, its
//! subdivision into tiles for parallel rendering, and the row-major pixel
//! traversal that hands out camera samples.

use vstd::arithmetic::div_mod::{
    lemma_div_is_ordered,
    lemma_div_multiples_vanish,
    lemma_div_pos_is_pos,
    lemma_fundamental_div_mod_converse,
    lemma_fundamental_div_mod,
    lemma_mod_bound,
    lemma_multiply_divide_lt,
};
use vstd::arithmetic::mul::{lemma_mul_inequality, lemma_mul_nonnegative};
use vstd::prelude::*;

verus! {

/// Boundary of the `k`-th of `n` equal tiles of a span of `d` pixels:
/// tile `k` covers pixels `[tile_bound(d, n, k), tile_bound(d, n, k + 1))`.
pub open spec fn tile_bound(d: int, n: int, k: int) -> int {
    (k * d) / n
}

/// Tile boundaries start at the span's start, end at its end, and never
/// move backwards: consecutive tiles of a span abut, so together the `n`
/// tiles cover the span exactly, without overlap.
pub proof fn lemma_tile_bounds_cover(d: int, n: int, k1: int, k2: int)
    requires
        1 <= n,
        0 <= d,
        0 <= k1 <= k2 <= n,
    ensures
        tile_bound(d, n, 0) == 0,
        tile_bound(d, n, n) == d,
        tile_bound(d, n, k1) <= tile_bound(d, n, k2),
        0 <= tile_bound(d, n, k1) <= d,
{
    lemma_div_multiples_vanish(d, n);
    lemma_mul_inequality(k1, k2, d);
    lemma_div_is_ordered(k1 * d, k2 * d, n);
    lemma_mul_nonnegative(k1, d);
    lemma_div_pos_is_pos(k1 * d, n);
    lemma_mul_inequality(k2, n, d);
    lemma_div_is_ordered(k2 * d, n * d, n);
    lemma_mul_inequality(k1, n, d);
    lemma_div_is_ordered(k1 * d, n * d, n);
}

/// How a span of `count` tiles is balanced between the two image axes:
/// starting from `count` columns and one row, trade a factor of two from
/// columns to rows while the columns are still even and a tile is more
/// oversized in `y` than in `x`.
pub open spec fn tile_split(dx: int, dy: int, nx: int, ny: int) -> (int, int)
    decreases nx,
{
    if 1 <= nx && nx % 2 == 0 && 2 * dx * ny < dy * nx {
        tile_split(dx, dy, nx / 2, ny * 2)
    } else {
        (nx, ny)
    }
}

/// The split preserves the tile count.
pub proof fn lemma_tile_split_product(dx: int, dy: int, nx: int, ny: int)
    requires
        1 <= nx,
        1 <= ny,
    ensures
        1 <= tile_split(dx, dy, nx, ny).0,
        1 <= tile_split(dx, dy, nx, ny).1,
        tile_split(dx, dy, nx, ny).0 * tile_split(dx, dy, nx, ny).1 == nx * ny,
    decreases nx,
{
    if 1 <= nx && nx % 2 == 0 && 2 * dx * ny < dy * nx {
        lemma_tile_split_product(dx, dy, nx / 2, ny * 2);
        assert((nx / 2) * (ny * 2) == nx * ny) by (nonlinear_arith)
            requires
                nx % 2 == 0,
        ;
    }
}

/// Whether a tile is more oversized vertically than horizontally:
/// `2 * dx * ny < dy * nx`, computed without overflow.
fn tile_more_vertical(dx: u32, dy: u32, nx: u32, ny: u32) -> (r: bool)
    ensures
        r == (2 * (dx as int) * (ny as int) < (dy as int) * (nx as int)),
{
    proof {
        assert((dx as int) * (ny as int) < 0x10000000000000000) by (nonlinear_arith)
            requires
                0 <= (dx as int) && (dx as int) < 0x100000000,
                0 <= (ny as int) && (ny as int) < 0x100000000,
        ;
        assert(2 * (dx as int) * (ny as int) < 0x20000000000000000) by (nonlinear_arith)
            requires
                0 <= (dx as int) && (dx as int) < 0x100000000,
                0 <= (ny as int) && (ny as int) < 0x100000000,
        ;
        assert((dy as int) * (nx as int) < 0x10000000000000000) by (nonlinear_arith)
            requires
                0 <= (dy as int) && (dy as int) < 0x100000000,
                0 <= (nx as int) && (nx as int) < 0x100000000,
        ;
    }
    2 * (dx as u128) * (ny as u128) < (dy as u128) * (nx as u128)
}

/// The `k`-th tile boundary of a span of `d` pixels cut into `n` tiles.
fn tile_bound_exec(d: u32, n: u32, k: u32) -> (r: u32)
    requires
        1 <= n,
        k <= n,
    ensures
        r as int == tile_bound(d as int, n as int, k as int),
        r <= d,
{
    proof {
        assert((k as int) * (d as int) < 0x10000000000000000) by (nonlinear_arith)
            requires
                0 <= (k as int) && (k as int) < 0x100000000,
                0 <= (d as int) && (d as int) < 0x100000000,
        ;
        lemma_tile_bounds_cover(d as int, n as int, k as int, k as int);
    }
    (((k as u64) * (d as u64)) / (n as u64)) as u32
}

/// A half-open rectangle of pixels: `x` in `[x_start, x_end)`,
/// `y` in `[y_start, y_end)`.
pub struct SamplerWindow {
    pub x_start: u32,
    pub x_end: u32,
    pub y_start: u32,
    pub y_end: u32,
}

impl SamplerWindow {
    /// Both ranges are ordered.
    pub open spec fn wf(self) -> bool {
        self.x_start <= self.x_end && self.y_start <= self.y_end
    }

    pub open spec fn is_empty_spec(self) -> bool {
        self.x_start == self.x_end || self.y_start == self.y_end
    }

    pub open spec fn width(self) -> int {
        self.x_end - self.x_start
    }

    pub open spec fn height(self) -> int {
        self.y_end - self.y_start
    }

    /// Tiles along `x` when this window is cut into `count` tiles.
    pub open spec fn tiles_x(self, count: int) -> int {
        tile_split(self.width(), self.height(), count, 1).0
    }

    /// Tiles along `y` when this window is cut into `count` tiles.
    pub open spec fn tiles_y(self, count: int) -> int {
        tile_split(self.width(), self.height(), count, 1).1
    }

    /// The rectangle of tile `num` of `count`, as
    /// `(x_start, x_end, y_start, y_end)`: tiles are numbered row-major
    /// over a `tiles_x` by `tiles_y` grid, and each grid cell takes the
    /// corresponding slice of the window in each axis.
    pub open spec fn sub_window_spec(self, num: int, count: int) -> (int, int, int, int) {
        let nx = self.tiles_x(count);
        let ny = self.tiles_y(count);
        let xo = num % nx;
        let yo = num / nx;
        (
            self.x_start + tile_bound(self.width(), nx, xo),
            self.x_start + tile_bound(self.width(), nx, xo + 1),
            self.y_start + tile_bound(self.height(), ny, yo),
            self.y_start + tile_bound(self.height(), ny, yo + 1),
        )
    }

    pub fn new(x_start: u32, x_end: u32, y_start: u32, y_end: u32) -> (w: SamplerWindow)
        ensures
            w.x_start == x_start,
            w.x_end == x_end,
            w.y_start == y_start,
            w.y_end == y_end,
    {
        SamplerWindow { x_start, x_end, y_start, y_end }
    }

    /// The full image window `[0, width) x [0, height)`.
    pub fn from_dimensions(width: u32, height: u32) -> (w: SamplerWindow)
        ensures
            w.x_start == 0,
            w.x_end == width,
            w.y_start == 0,
            w.y_end == height,
            w.wf(),
    {
        SamplerWindow { x_start: 0, x_end: width, y_start: 0, y_end: height }
    }

    /// A window holds no pixel exactly when one of its ranges is empty.
    pub fn is_empty(&self) -> (r: bool)
        ensures
            r == self.is_empty_spec(),
    {
        self.x_start == self.x_end || self.y_start == self.y_end
    }

    /// Cut the window into a grid of `count` tiles balancing the tile
    /// aspect ratio, and return how many tiles each axis gets.
    fn tile_counts(&self, count: u32) -> (r: (u32, u32))
        requires
            self.wf(),
            1 <= count,
        ensures
            r.0 == self.tiles_x(count as int),
            r.1 == self.tiles_y(count as int),
            1 <= r.0,
            1 <= r.1,
            r.0 * r.1 == count,
    {
        let dx = self.x_end - self.x_start;
        let dy = self.y_end - self.y_start;
        let mut nx = count;
        let mut ny: u32 = 1;
        proof {
            lemma_tile_split_product(dx as int, dy as int, count as int, 1);
        }
        while nx % 2 == 0 && tile_more_vertical(dx, dy, nx, ny)
            invariant
                dx == self.width(),
                dy == self.height(),
                1 <= nx,
                1 <= ny,
                (nx as int) * (ny as int) == count as int,
                tile_split(dx as int, dy as int, nx as int, ny as int) == tile_split(
                    dx as int,
                    dy as int,
                    count as int,
                    1,
                ),
            decreases nx,
        {
            proof {
                assert(2 * (ny as int) <= count as int) by (nonlinear_arith)
                    requires
                        (nx as int) * (ny as int) == count as int,
                        nx % 2 == 0,
                        1 <= nx,
                        1 <= ny,
                ;
                assert(((nx as int) / 2) * ((ny as int) * 2) == count as int) by (nonlinear_arith)
                    requires
                        (nx as int) * (ny as int) == count as int,
                        nx % 2 == 0,
                ;
            }
            nx = nx / 2;
            ny = ny * 2;
        }
        proof {
            lemma_tile_split_product(dx as int, dy as int, count as int, 1);
        }
        (nx, ny)
    }

    /// Tile `num` of `count`: slice the window into a grid that balances
    /// the tile aspect ratio, and return the rectangle of grid cell
    /// `num` (numbered row-major). The tile lies within the window, and
    /// tiles with consecutive numbers abut, so the `count` tiles cover
    /// the window exactly.
    pub fn compute_sub_window(&self, num: u32, count: u32) -> (w: SamplerWindow)
        requires
            self.wf(),
            1 <= count,
            num < count,
        ensures
            (w.x_start as int, w.x_end as int, w.y_start as int, w.y_end as int)
                == self.sub_window_spec(num as int, count as int),
            w.wf(),
            self.x_start <= w.x_start,
            w.x_end <= self.x_end,
            self.y_start <= w.y_start,
            w.y_end <= self.y_end,
    {
        let dx = self.x_end - self.x_start;
        let dy = self.y_end - self.y_start;
        let (nx, ny) = self.tile_counts(count);

        let xo = num % nx;
        let yo = num / nx;
        proof {
            assert((num as int) < (nx as int) * (ny as int));
            lemma_multiply_divide_lt(num as int, nx as int, ny as int);
            assert(yo as int == num as int / nx as int);
            assert(xo as int == num as int % nx as int);
            assert(yo < ny);
            assert(xo < nx);
            lemma_tile_bounds_cover(dx as int, nx as int, xo as int, xo as int + 1);
            lemma_tile_bounds_cover(dx as int, nx as int, xo as int + 1, nx as int);
            lemma_tile_bounds_cover(dy as int, ny as int, yo as int, yo as int + 1);
            lemma_tile_bounds_cover(dy as int, ny as int, yo as int + 1, ny as int);
        }
        let x0 = tile_bound_exec(dx, nx, xo);
        let x1 = tile_bound_exec(dx, nx, xo + 1);
        let y0 = tile_bound_exec(dy, ny, yo);
        let y1 = tile_bound_exec(dy, ny, yo + 1);

        SamplerWindow {
            x_start: self.x_start + x0,
            x_end: self.x_start + x1,
            y_start: self.y_start + y0,
            y_end: self.y_start + y1,
        }
    }
}


/// The tiles of a window tile it exactly: every tile lies within the
/// window; the first tile in each grid row starts at the window's left
/// edge and the last ends at its right edge, and likewise for the first
/// and last grid rows vertically; and the tile after `num` either starts
/// exactly where tile `num` ends (same grid row, same vertical range) or
/// starts the next grid row at the left edge, exactly where this row of
/// tiles ends. So the `count` tiles cover the window without gap or
/// overlap.
pub proof fn lemma_sub_windows_partition(w: SamplerWindow, num: int, count: int)
    requires
        w.wf(),
        1 <= count,
        0 <= num < count,
    ensures
        ({
            let nx = w.tiles_x(count);
            let ny = w.tiles_y(count);
            let (x0, x1, y0, y1) = w.sub_window_spec(num, count);
            &&& w.x_start <= x0 <= x1 <= w.x_end
            &&& w.y_start <= y0 <= y1 <= w.y_end
            &&& num % nx == 0 ==> x0 == w.x_start
            &&& num % nx == nx - 1 ==> x1 == w.x_end
            &&& num / nx == 0 ==> y0 == w.y_start
            &&& num / nx == ny - 1 ==> y1 == w.y_end
            &&& num + 1 < count && num % nx != nx - 1 ==> {
                let (x0b, x1b, y0b, y1b) = w.sub_window_spec(num + 1, count);
                x0b == x1 && y0b == y0 && y1b == y1
            }
            &&& num + 1 < count && num % nx == nx - 1 ==> {
                let (x0b, x1b, y0b, y1b) = w.sub_window_spec(num + 1, count);
                x0b == w.x_start && y0b == y1
            }
        }),
{
    let nx = w.tiles_x(count);
    let ny = w.tiles_y(count);
    let dx = w.width();
    let dy = w.height();
    lemma_tile_split_product(dx, dy, count, 1);
    assert(nx * ny == count);
    let xo = num % nx;
    let yo = num / nx;
    lemma_mod_bound(num, nx);
    lemma_div_pos_is_pos(num, nx);
    lemma_multiply_divide_lt(num, nx, ny);
    lemma_fundamental_div_mod(num, nx);
    assert(num == nx * yo + xo);
    lemma_tile_bounds_cover(dx, nx, 0, xo);
    lemma_tile_bounds_cover(dx, nx, xo, xo + 1);
    lemma_tile_bounds_cover(dx, nx, xo + 1, nx);
    lemma_tile_bounds_cover(dy, ny, 0, yo);
    lemma_tile_bounds_cover(dy, ny, yo, yo + 1);
    lemma_tile_bounds_cover(dy, ny, yo + 1, ny);
    if num + 1 < count {
        if xo != nx - 1 {
            assert(num + 1 == yo * nx + (xo + 1)) by (nonlinear_arith)
                requires
                    num == nx * yo + xo,
            ;
            lemma_fundamental_div_mod_converse(num + 1, nx, yo, xo + 1);
        } else {
            assert(num + 1 == (yo + 1) * nx + 0) by (nonlinear_arith)
                requires
                    num == nx * yo + xo && xo == nx - 1,
            ;
            lemma_fundamental_div_mod_converse(num + 1, nx, yo + 1, 0);
        }
    }
}

/// Row-major traversal of a sampling window: every pixel of the window is
/// visited in turn, and each pixel yields `samples_per_pixel` camera
/// samples before the traversal moves on.
pub struct RandomSampler {
    pub window: SamplerWindow,
    pub samples_per_pixel: usize,
    pub x_pos: u32,
    pub y_pos: u32,
    pub sample_pos: usize,
}

impl RandomSampler {
    /// No samples are left: the window never had a pixel, or every row
    /// has been walked.
    pub open spec fn exhausted(self) -> bool {
        self.window.is_empty_spec() || self.y_pos == self.window.y_end
    }

    /// The traversal's invariant: the position lies in the window, the
    /// per-pixel counter has not passed its bound, and an exhausted
    /// traversal rests at the start of a row.
    pub open spec fn inv(self) -> bool {
        &&& self.window.wf()
        &&& 1 <= self.samples_per_pixel
        &&& self.window.y_start <= self.y_pos <= self.window.y_end
        &&& self.window.x_start <= self.x_pos <= self.window.x_end
        &&& self.sample_pos <= self.samples_per_pixel
        &&& !self.exhausted() ==> self.x_pos < self.window.x_end && self.y_pos
            < self.window.y_end && self.sample_pos < self.samples_per_pixel
        &&& self.exhausted() ==> self.x_pos == self.window.x_start && self.sample_pos == 0
    }

    /// How many samples have been handed out so far.
    pub open spec fn emitted(self) -> int {
        ((self.y_pos - self.window.y_start) * self.window.width() + (self.x_pos
            - self.window.x_start)) * self.samples_per_pixel + self.sample_pos
    }

    /// How many samples the whole window yields.
    pub open spec fn total_samples(self) -> int {
        self.window.width() * self.window.height() * self.samples_per_pixel
    }

    /// The pixel that yields sample number `k`: pixels are numbered
    /// row-major from the window's corner, each covering
    /// `samples_per_pixel` consecutive sample numbers.
    pub open spec fn pixel_of(self, k: int) -> (int, int) {
        let p = k / (self.samples_per_pixel as int);
        (
            self.window.x_start + p % self.window.width(),
            self.window.y_start + p / self.window.width(),
        )
    }

    /// Start a traversal at the window's corner.
    pub fn new(window: SamplerWindow, samples_per_pixel: usize) -> (s: RandomSampler)
        requires
            window.wf(),
            1 <= samples_per_pixel,
        ensures
            s.window == window,
            s.samples_per_pixel == samples_per_pixel,
            s.inv(),
            s.emitted() == 0,
    {
        let s = RandomSampler {
            x_pos: window.x_start,
            y_pos: window.y_start,
            window,
            samples_per_pixel,
            sample_pos: 0,
        };
        proof {
            let w = s.window.width();
            let spp = s.samples_per_pixel as int;
            assert((0 * w + 0) * spp + 0 == 0) by (nonlinear_arith);
        }
        s
    }

    /// The pixel of the next camera sample, or `None` once the window is
    /// exhausted. Each call hands out exactly one sample; an exhausted
    /// traversal stays exhausted and unchanged.
    pub fn next_sample(&mut self) -> (r: Option<(u32, u32)>)
        requires
            old(self).inv(),
        ensures
            final(self).window == old(self).window,
            final(self).samples_per_pixel == old(self).samples_per_pixel,
            final(self).inv(),
            old(self).exhausted() ==> r is None && *final(self) == *old(self),
            !old(self).exhausted() ==> r == Some((old(self).x_pos, old(self).y_pos))
                && final(self).emitted() == old(self).emitted() + 1,
    {
        if self.window.x_start == self.window.x_end || self.window.y_start == self.window.y_end {
            return None;
        }
        if self.y_pos == self.window.y_end {
            return None;
        }
        let r = Some((self.x_pos, self.y_pos));
        let ghost pre = *self;
        self.sample_pos = self.sample_pos + 1;
        if self.sample_pos == self.samples_per_pixel {
            self.sample_pos = 0;
            self.x_pos = self.x_pos + 1;
            if self.x_pos == self.window.x_end {
                self.x_pos = self.window.x_start;
                self.y_pos = self.y_pos + 1;
            }
        }
        proof {
            let w = pre.window.width();
            let ys = pre.window.y_start as int;
            let xs = pre.window.x_start as int;
            let spp = pre.samples_per_pixel as int;
            let row = pre.y_pos - ys;
            let col = pre.x_pos - xs;
            assert((row * w + col + 1) * spp == (row * w + col) * spp + spp) by (nonlinear_arith);
            assert(((row + 1) * w + 0) * spp == (row * w + (w - 1) + 1) * spp) by (nonlinear_arith);
        }
        r
    }

    /// Every count the traversal keeps stays within the window's yield,
    /// and the traversal is exhausted exactly when the whole yield has
    /// been handed out.
    pub proof fn lemma_emitted_bounds(self)
        requires
            self.inv(),
        ensures
            0 <= self.emitted() <= self.total_samples(),
            self.exhausted() <==> self.emitted() == self.total_samples(),
    {
        let w = self.window.width();
        let h = self.window.height();
        let spp = self.samples_per_pixel as int;
        let row = self.y_pos - self.window.y_start;
        let col = self.x_pos - self.window.x_start;
        let sp = self.sample_pos as int;
        if self.exhausted() {
            if self.window.is_empty_spec() && self.y_pos != self.window.y_end {
                assert(w == 0);
                assert((row * 0 + 0) * spp + 0 == 0) by (nonlinear_arith);
                assert(0 * h * spp == 0) by (nonlinear_arith);
            } else {
                assert(row == h && col == 0 && sp == 0);
                assert((h * w + 0) * spp + 0 == w * h * spp) by (nonlinear_arith);
            }
        } else {
            assert(0 <= (row * w + col) * spp + sp) by (nonlinear_arith)
                requires
                    0 <= row && 0 <= col && 0 <= sp && 0 <= w && 1 <= spp,
            ;
            assert((row * w + col) * spp + sp < w * h * spp) by (nonlinear_arith)
                requires
                    0 <= row && row < h && 0 <= col && col < w && 0 <= sp && sp < spp && 1 <= spp,
            ;
        }
    }

    /// An unexhausted traversal stands exactly at the pixel that its next
    /// sample number names: samples are handed out in row-major pixel
    /// order, `samples_per_pixel` per pixel.
    pub proof fn lemma_position_is_next(self)
        requires
            self.inv(),
            !self.exhausted(),
        ensures
            (self.x_pos as int, self.y_pos as int) == self.pixel_of(self.emitted()),
    {
        let w = self.window.width();
        let spp = self.samples_per_pixel as int;
        let row = self.y_pos - self.window.y_start;
        let col = self.x_pos - self.window.x_start;
        let p = row * w + col;
        assert(0 <= p && col <= p) by (nonlinear_arith)
            requires
                p == row * w + col && 0 <= row && 0 <= col && 0 <= w,
        ;
        lemma_fundamental_div_mod_converse(p * spp + self.sample_pos, spp, p, self.sample_pos as int);
        lemma_fundamental_div_mod_converse(p, w, row, col);
    }

    /// One sample per call.
    pub fn maximum_sample_count(&self) -> (r: u32)
        ensures
            r == 1,
    {
        1
    }

    /// This sampler imposes no stratification granularity: any requested
    /// sample count is taken as it is.
    pub fn round_size(&self, size: u32) -> (r: u32)
        ensures
            r == size,
    {
        size
    }

    /// The traversal of tile `num` of `count`: a fresh traversal of the
    /// sub-window, or `None` when that tile holds no pixel.
    pub fn get_sub_sampler(&self, num: u32, count: u32) -> (r: Option<RandomSampler>)
        requires
            self.window.wf(),
            1 <= self.samples_per_pixel,
            1 <= count,
            num < count,
        ensures
            ({
                let (x0, x1, y0, y1) = self.window.sub_window_spec(num as int, count as int);
                match r {
                    None => x0 == x1 || y0 == y1,
                    Some(s) => {
                        &&& s.window.x_start == x0
                        &&& s.window.x_end == x1
                        &&& s.window.y_start == y0
                        &&& s.window.y_end == y1
                        &&& s.samples_per_pixel == self.samples_per_pixel
                        &&& s.inv()
                        &&& s.emitted() == 0
                    },
                }
            }),
    {
        let sub_window = self.window.compute_sub_window(num, count);
        if sub_window.is_empty() {
            None
        } else {
            Some(RandomSampler::new(sub_window, self.samples_per_pixel))
        }
    }
}

} // verus!
