//! Conversion of the fields into an RGBA pixel buffer.
//!
//! Every pixel of a `width x height` target maps to the grid cell under
//! it. A solid cell (permeability zero) gets a fixed highlight color;
//! every other cell gets a grayscale shade that darkens with smoke
//! density. The alpha channel is always opaque.

use vstd::prelude::*;

use crate::fixed::{in_range, tdiv, SCALE};
use crate::space::{
    lemma_flat_coords, lemma_row_major, sample_spec, Field, Space, SpaceModel, MAX_CELLS,
};

verus! {

/// Red channel of the highlight color for solid cells.
pub const SOLID_RED: u8 = 50;

/// Green channel of the highlight color for solid cells.
pub const SOLID_GREEN: u8 = 168;

/// Blue channel of the highlight color for solid cells.
pub const SOLID_BLUE: u8 = 82;

/// Grayscale shade of a smoke density: `(1 - density) * 255`, truncated
/// and clamped to a byte.
pub open spec fn shade_spec(d: int) -> int {
    let c = tdiv((SCALE as int - d) * 255, SCALE as int);
    if c < 0 {
        0
    } else if c > 255 {
        255
    } else {
        c
    }
}

/// The four RGBA bytes of the pixel at `(px, py)` on a `w x h` target.
pub open spec fn pixel_bytes_spec(m: SpaceModel, w: int, h: int, px: int, py: int) -> Seq<u8> {
    let ix = px * m.nx / w;
    let iy = py * m.ny / h;
    if sample_spec(m, Field::Permeability, ix, iy) == 0 {
        seq![SOLID_RED, SOLID_GREEN, SOLID_BLUE, 255u8]
    } else {
        let c = shade_spec(sample_spec(m, Field::SmokeDensity, ix, iy)) as u8;
        seq![c, c, c, 255u8]
    }
}

/// The RGBA bytes of the first `p` pixels, in row-major pixel order.
pub open spec fn render_upto_spec(m: SpaceModel, w: int, h: int, p: nat) -> Seq<u8>
    decreases p,
{
    if p == 0 {
        Seq::empty()
    } else {
        render_upto_spec(m, w, h, (p - 1) as nat) + pixel_bytes_spec(
            m,
            w,
            h,
            (p - 1) % w,
            (p - 1) / w,
        )
    }
}

/// The whole `w x h` RGBA buffer.
pub open spec fn render_spec(m: SpaceModel, w: int, h: int) -> Seq<u8> {
    render_upto_spec(m, w, h, (w * h) as nat)
}

proof fn lemma_render_upto_len(m: SpaceModel, w: int, h: int, p: nat)
    requires
        w > 0,
    ensures
        render_upto_spec(m, w, h, p).len() == 4 * p,
    decreases p,
{
    if p > 0 {
        lemma_render_upto_len(m, w, h, (p - 1) as nat);
    }
}

proof fn lemma_pixel_cell(p: int, n: int, w: int)
    requires
        0 <= p < w,
        0 < n <= MAX_CELLS as int,
        0 < w <= MAX_CELLS as int,
    ensures
        0 <= p * n <= MAX_CELLS as int * MAX_CELLS as int,
        0 <= (p * n) / w < n,
{
    assert(0 <= p * n <= MAX_CELLS as int * MAX_CELLS as int && 0 <= (p * n) / w < n)
        by (nonlinear_arith)
        requires
            0 <= p < w,
            0 < n <= MAX_CELLS as int,
            0 < w <= MAX_CELLS as int,
    ;
}

fn shade(d: i64) -> (c: u8)
    requires
        in_range(d as int),
    ensures
        c as int == shade_spec(d as int),
{
    let t = (SCALE - d) * 255;
    let q = t / SCALE;
    proof {
        assert(q == tdiv(t as int, SCALE as int));
    }
    if q < 0 {
        0
    } else if q > 255 {
        255
    } else {
        q as u8
    }
}

impl Space {
    /// Produce the RGBA pixel buffer of a `width x height` view of the
    /// domain: solid cells in the fixed highlight color, every other cell
    /// in a grayscale shade that darkens with smoke density.
    pub fn render(&self, width: i64, height: i64) -> (pixels: Vec<u8>)
        requires
            self@.wf(),
            0 < width <= MAX_CELLS,
            0 < height <= MAX_CELLS,
        ensures
            pixels@ == render_spec(self@, width as int, height as int),
            pixels@.len() == 4 * (width as int * height as int),
    {
        let ghost m = self@;
        let nx = self.num_cells_x;
        let ny = self.num_cells_y;
        proof {
            lemma_row_major(width as int - 1, height as int - 1, width as int, height as int);
        }
        let total = width * height;
        let mut pixels: Vec<u8> = Vec::new();
        let mut p: i64 = 0;
        while p < total
            invariant
                self@ == m,
                m.wf(),
                nx as int == m.nx,
                ny as int == m.ny,
                0 < width <= MAX_CELLS,
                0 < height <= MAX_CELLS,
                total == width * height,
                total <= (MAX_CELLS as int + 2) * (MAX_CELLS as int + 2),
                0 <= p <= total,
                pixels@ == render_upto_spec(m, width as int, height as int, p as nat),
            decreases total - p,
        {
            proof {
                lemma_flat_coords(p as int, width as int, height as int);
            }
            let px = p % width;
            let py = p / width;
            proof {
                lemma_pixel_cell(px as int, nx as int, width as int);
                lemma_pixel_cell(py as int, ny as int, height as int);
            }
            let ix = px * nx / width;
            let iy = py * ny / height;
            proof {
                assert(ix == (px as int) * (nx as int) / (width as int));
                assert(iy == (py as int) * (ny as int) / (height as int));
            }
            let perm = self.sample_exact(ix, iy, Field::Permeability);
            let ghost before = pixels@;
            if perm == 0 {
                pixels.push(SOLID_RED);
                pixels.push(SOLID_GREEN);
                pixels.push(SOLID_BLUE);
                pixels.push(255);
            } else {
                let smoke = self.sample_exact(ix, iy, Field::SmokeDensity);
                let c = shade(smoke);
                pixels.push(c);
                pixels.push(c);
                pixels.push(c);
                pixels.push(255);
            }
            proof {
                assert(pixels@ =~= before + pixel_bytes_spec(
                    m,
                    width as int,
                    height as int,
                    px as int,
                    py as int,
                ));
                assert(pixels@ == render_upto_spec(
                    m,
                    width as int,
                    height as int,
                    (p + 1) as nat,
                ));
            }
            p += 1;
        }
        proof {
            lemma_render_upto_len(m, width as int, height as int, total as nat);
        }
        pixels
    }
}

} // verus!
