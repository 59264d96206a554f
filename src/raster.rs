//! Raster layout of the rendered image and the stratified sample schedule
//! of each pixel.
use vstd::prelude::*;

verus! {

/// Sub-pixel cells per side of the stratification grid of a pixel.
pub const GRID_SIDE: usize = 2;

/// Sub-pixel cells per pixel.
pub const CELLS_PER_PIXEL: usize = 4;

/// The pixel grid of an image: `width * height` pixels stored row by row,
/// the origin at the top left.
#[derive(Clone, Copy, Debug, PartialEq, Eq, Structural)]
pub struct Raster {
    pub width: usize,
    pub height: usize,
}

impl Raster {
    /// The pixel count fits the address space.
    pub open spec fn wf(&self) -> bool {
        self.width * self.height <= usize::MAX
    }

    /// A raster of `width * height` pixels, when that many can be stored.
    pub fn new(width: usize, height: usize) -> (r: Option<Raster>)
        ensures
            r is Some <==> width * height <= usize::MAX,
            r matches Some(g) ==> g.wf() && g.width == width && g.height == height,
    {
        match width.checked_mul(height) {
            Some(_) => Some(Raster { width, height }),
            None => None,
        }
    }

    pub fn pixel_count(&self) -> (r: usize)
        requires
            self.wf(),
        ensures
            r == self.width * self.height,
    {
        self.width * self.height
    }

    /// Position in row-major storage of the pixel in column `x` of row `y`.
    pub fn index(&self, x: usize, y: usize) -> (r: usize)
        requires
            self.wf(),
            x < self.width,
            y < self.height,
        ensures
            r == y * self.width + x,
            r < self.width * self.height,
    {
        let w = self.width;
        let h = self.height;
        proof {
            assert(y * w + x < w * h) by (nonlinear_arith)
                requires
                    x < w,
                    y < h,
            ;
        }
        y * w + x
    }

    /// Column and row of the pixel stored at position `i`.
    pub fn position(&self, i: usize) -> (r: (usize, usize))
        requires
            self.wf(),
            i < self.width * self.height,
        ensures
            r == (i % self.width, i / self.width),
            r.0 < self.width,
            r.1 < self.height,
    {
        let w = self.width;
        let h = self.height;
        proof {
            assert(w > 0) by (nonlinear_arith)
                requires
                    i < w * h,
            ;
            assert(i / w < h) by (nonlinear_arith)
                requires
                    i < w * h,
                    w > 0,
            ;
        }
        (i % w, i / w)
    }
}

/// Storage position and pixel position are inverse to each other: the
/// pixel at `(x, y)` is stored at `y * width + x`, and position `i` holds
/// the pixel `(i % width, i / width)`.
pub proof fn lemma_index_position_inverse(g: Raster, x: int, y: int, i: int)
    requires
        g.wf(),
        0 <= x < g.width,
        0 <= y < g.height,
        0 <= i < g.width * g.height,
    ensures
        (y * g.width + x) % (g.width as int) == x,
        (y * g.width + x) / (g.width as int) == y,
        (i / (g.width as int)) * (g.width as int) + i % (g.width as int) == i,
{
    let w = g.width as int;
    assert((y * w + x) % w == x && (y * w + x) / w == y) by (nonlinear_arith)
        requires
            0 <= x < w,
            0 <= y,
    ;
    assert(w > 0) by (nonlinear_arith)
        requires
            0 <= i < w * g.height,
    ;
    assert((i / w) * w + i % w == i) by (nonlinear_arith)
        requires
            w > 0,
    ;
}

/// The cell `(column, row)` of the 2 x 2 sub-pixel grid for sample `k` of
/// a pixel: samples run through the four cells row by row, then start over.
pub open spec fn cell_spec(k: int) -> (usize, usize) {
    (((k % 4) % 2) as usize, ((k % 4) / 2) as usize)
}

/// Number of sub-pixel samples for `samples` full samples per pixel, when
/// it fits: every full sample visits each of the four cells once.
pub fn subpixel_sample_count(samples: usize) -> (r: Option<usize>)
    ensures
        r is Some <==> samples * 4 <= usize::MAX,
        r matches Some(n) ==> n == samples * 4,
{
    samples.checked_mul(CELLS_PER_PIXEL)
}

/// The sub-pixel cell that sample `k` of a pixel is drawn in.
pub fn subpixel_cell(k: usize) -> (r: (usize, usize))
    ensures
        r == cell_spec(k as int),
        r.0 < GRID_SIDE,
        r.1 < GRID_SIDE,
{
    let c = k % CELLS_PER_PIXEL;
    (c % GRID_SIDE, c / GRID_SIDE)
}

/// How many of the samples `0..n` fall in `cell`.
pub open spec fn samples_in_cell(n: nat, cell: (usize, usize)) -> nat
    decreases n,
{
    if n == 0 {
        0
    } else {
        samples_in_cell((n - 1) as nat, cell) + if cell_spec(n - 1) == cell {
            1nat
        } else {
            0nat
        }
    }
}

/// The schedule is stratified: over `4 * samples` sub-pixel samples each
/// of the four cells of the grid receives exactly `samples` of them.
pub proof fn lemma_schedule_is_stratified(samples: nat, cell: (usize, usize))
    requires
        cell.0 < 2,
        cell.1 < 2,
    ensures
        samples_in_cell(4 * samples, cell) == samples,
    decreases samples,
{
    if samples > 0 {
        let m = (samples - 1) as nat;
        lemma_schedule_is_stratified(m, cell);
        let b: int = 4 * (m as int);
        assert(cell_spec(b) == (0usize, 0usize) && cell_spec(b + 1) == (1usize, 0usize)
            && cell_spec(b + 2) == (0usize, 1usize) && cell_spec(b + 3) == (1usize, 1usize)) by {
            assert(b % 4 == 0 && (b + 1) % 4 == 1 && (b + 2) % 4 == 2 && (b + 3) % 4 == 3);
        }
        assert(samples_in_cell(4 * samples, cell) == samples_in_cell((b + 3) as nat, cell) + if cell_spec(b + 3) == cell { 1nat } else { 0nat });
        assert(samples_in_cell((b + 3) as nat, cell) == samples_in_cell((b + 2) as nat, cell) + if cell_spec(b + 2) == cell { 1nat } else { 0nat });
        assert(samples_in_cell((b + 2) as nat, cell) == samples_in_cell((b + 1) as nat, cell) + if cell_spec(b + 1) == cell { 1nat } else { 0nat });
        assert(samples_in_cell((b + 1) as nat, cell) == samples_in_cell(b as nat, cell) + if cell_spec(b) == cell { 1nat } else { 0nat });
    }
}

} // verus!
