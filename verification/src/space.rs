//! Grid storage and the field sampler.
//!
//! A [`Space`] owns four fixed-size arrays on a staggered grid: the two
//! velocity components live on cell faces, permeability and smoke density
//! at cell centers (permeability with one cell of padding on every side).
//! Three access modes are offered: exact (coordinates must be in range),
//! bounds-checked (out-of-range coordinates read as zero), and bilinearly
//! interpolated over fixed-point coordinates.

use vstd::prelude::*;

use crate::fixed::{
    fadd, fadd_spec, fixed_mod, fmul, fmul_spec, in_range, tdiv, HALF_SCALE, SCALE,
};

verus! {

/// Largest grid dimension the solver accepts, so that all index arithmetic
/// stays far from machine limits.
pub const MAX_CELLS: i64 = 10_000;

/// Selects one of the four stored fields.
#[derive(Clone, Copy)]
pub enum Field {
    VelocityX,
    VelocityY,
    Permeability,
    SmokeDensity,
}

/// Mathematical model of a [`Space`]: dimensions, tick size and the four
/// field arrays as sequences of fixed-point values.
pub ghost struct SpaceModel {
    pub nx: int,
    pub ny: int,
    pub dt: int,
    pub vx: Seq<int>,
    pub vy: Seq<int>,
    pub perm: Seq<int>,
    pub smoke: Seq<int>,
}

/// The simulation state: a staggered grid of velocities, a padded
/// permeability mask, and a cell-centered smoke-density tracer.
pub struct Space {
    pub num_cells_x: i64,
    pub num_cells_y: i64,
    pub velocities_x: Vec<i64>,
    pub velocities_y: Vec<i64>,
    pub permeabilities: Vec<i64>,
    pub smoke_densities: Vec<i64>,
    pub dt: i64,
}

/// A sequence of stored values, widened to mathematical integers.
pub open spec fn seq_int(s: Seq<i64>) -> Seq<int> {
    s.map_values(|v: i64| v as int)
}

impl View for Space {
    type V = SpaceModel;

    open spec fn view(&self) -> SpaceModel {
        SpaceModel {
            nx: self.num_cells_x as int,
            ny: self.num_cells_y as int,
            dt: self.dt as int,
            vx: seq_int(self.velocities_x@),
            vy: seq_int(self.velocities_y@),
            perm: seq_int(self.permeabilities@),
            smoke: seq_int(self.smoke_densities@),
        }
    }
}

impl SpaceModel {
    /// Well-formedness: dimensions are positive and bounded, each array has
    /// its fixed shape, stored values are within the saturation bounds, and
    /// the permeability mask holds weights between 0 (solid) and 1 (fully
    /// open); fractional weights are legal.
    pub open spec fn wf(self) -> bool {
        &&& 0 < self.nx <= MAX_CELLS as int
        &&& 0 < self.ny <= MAX_CELLS as int
        &&& self.vx.len() == (self.nx + 1) * self.ny
        &&& self.vy.len() == self.nx * (self.ny + 1)
        &&& self.perm.len() == (self.nx + 2) * (self.ny + 2)
        &&& self.smoke.len() == self.nx * self.ny
        &&& (forall|i: int| 0 <= i < self.vx.len() ==> in_range(#[trigger] self.vx[i]))
        &&& (forall|i: int| 0 <= i < self.vy.len() ==> in_range(#[trigger] self.vy[i]))
        &&& (forall|i: int| 0 <= i < self.smoke.len() ==> in_range(#[trigger] self.smoke[i]))
        &&& (forall|i: int|
            0 <= i < self.perm.len() ==> 0 <= #[trigger] self.perm[i] <= SCALE as int)
    }
}

/// Number of columns in a field's bounds-checked window.
pub open spec fn extent_x(m: SpaceModel, field: Field) -> int {
    match field {
        Field::VelocityX => m.nx + 1,
        Field::VelocityY => m.nx,
        Field::Permeability => m.nx + 1,
        Field::SmokeDensity => m.nx,
    }
}

/// Number of rows in a field's bounds-checked window.
pub open spec fn extent_y(m: SpaceModel, field: Field) -> int {
    match field {
        Field::VelocityX => m.ny,
        Field::VelocityY => m.ny + 1,
        Field::Permeability => m.ny + 1,
        Field::SmokeDensity => m.ny,
    }
}

/// Coordinates an exact access may use. Permeability admits the padding
/// ring, so its window extends one cell below zero.
pub open spec fn valid_coords(m: SpaceModel, field: Field, x: int, y: int) -> bool {
    match field {
        Field::Permeability => -1 <= x < m.nx + 1 && -1 <= y < m.ny + 1,
        _ => 0 <= x < extent_x(m, field) && 0 <= y < extent_y(m, field),
    }
}

/// Flat row-major index of a coordinate pair within its field's array.
pub open spec fn field_index(m: SpaceModel, field: Field, x: int, y: int) -> int {
    match field {
        Field::VelocityX => y * (m.nx + 1) + x,
        Field::VelocityY => y * m.nx + x,
        Field::Permeability => (y + 1) * (m.nx + 2) + (x + 1),
        Field::SmokeDensity => y * m.nx + x,
    }
}

/// The stored value at a coordinate pair (exact access).
pub open spec fn sample_spec(m: SpaceModel, field: Field, x: int, y: int) -> int {
    match field {
        Field::VelocityX => m.vx[field_index(m, field, x, y)],
        Field::VelocityY => m.vy[field_index(m, field, x, y)],
        Field::Permeability => m.perm[field_index(m, field, x, y)],
        Field::SmokeDensity => m.smoke[field_index(m, field, x, y)],
    }
}

/// Bounds-checked access: the stored value inside the field's window, and
/// exactly zero outside it (the open/zero boundary condition at the domain
/// edge).
pub open spec fn sample_bc_spec(m: SpaceModel, field: Field, x: int, y: int) -> int {
    if 0 <= x < extent_x(m, field) && 0 <= y < extent_y(m, field) {
        sample_spec(m, field, x, y)
    } else {
        0
    }
}

/// A field's staggering offset along `x`, in fixed-point units.
pub open spec fn offset_x(field: Field) -> int {
    match field {
        Field::VelocityX => HALF_SCALE as int,
        Field::VelocityY => 0,
        Field::Permeability => SCALE as int,
        Field::SmokeDensity => 0,
    }
}

/// A field's staggering offset along `y`, in fixed-point units.
pub open spec fn offset_y(field: Field) -> int {
    match field {
        Field::VelocityX => 0,
        Field::VelocityY => HALF_SCALE as int,
        Field::Permeability => SCALE as int,
        Field::SmokeDensity => 0,
    }
}

/// Linear blend of `a` and `b` with fraction `f` of `b`, in fixed point.
pub open spec fn lerp_spec(a: int, b: int, f: int) -> int {
    fadd_spec(fmul_spec(a, SCALE as int - f), fmul_spec(b, f))
}

/// Bilinear interpolation at a fixed-point coordinate: apply the field's
/// staggering offset, split into integer cell (the floor) and the
/// nonnegative floor-mod fraction — cell and fraction sum back to the
/// coordinate, also for negative coordinates — and blend the four
/// bounds-checked corner samples.
pub open spec fn interp_spec(m: SpaceModel, field: Field, x: int, y: int) -> int {
    let xo = fadd_spec(x, offset_x(field));
    let yo = fadd_spec(y, offset_y(field));
    let ix = xo / (SCALE as int);
    let iy = yo / (SCALE as int);
    let fx = xo % (SCALE as int);
    let fy = yo % (SCALE as int);
    let c00 = sample_bc_spec(m, field, ix, iy);
    let c10 = sample_bc_spec(m, field, ix + 1, iy);
    let c01 = sample_bc_spec(m, field, ix, iy + 1);
    let c11 = sample_bc_spec(m, field, ix + 1, iy + 1);
    let c0 = lerp_spec(c00, c10, fx);
    let c1 = lerp_spec(c01, c11, fx);
    lerp_spec(c0, c1, fy)
}

/// A row-major index lies within the array when its coordinates lie within
/// the array's shape.
pub proof fn lemma_row_major(x: int, y: int, w: int, h: int)
    requires
        0 <= x < w,
        0 <= y < h,
        w <= MAX_CELLS as int + 2,
        h <= MAX_CELLS as int + 2,
    ensures
        0 <= y * w + x < w * h,
        w * h <= (MAX_CELLS as int + 2) * (MAX_CELLS as int + 2),
{
    assert(0 <= y * w + x < w * h && w * h <= (MAX_CELLS as int + 2) * (MAX_CELLS as int + 2))
        by (nonlinear_arith)
        requires
            0 <= x < w,
            0 <= y < h,
            w <= MAX_CELLS as int + 2,
            h <= MAX_CELLS as int + 2,
    ;
}

/// Every sample of a well-formed space lies within the saturation bounds.
pub proof fn lemma_sample_in_range(m: SpaceModel, field: Field, x: int, y: int)
    requires
        m.wf(),
        valid_coords(m, field, x, y),
    ensures
        in_range(sample_spec(m, field, x, y)),
{
    match field {
        Field::VelocityX => {
            lemma_row_major(x, y, m.nx + 1, m.ny);
            assert(in_range(m.vx[y * (m.nx + 1) + x]));
        },
        Field::VelocityY => {
            lemma_row_major(x, y, m.nx, m.ny + 1);
            assert(in_range(m.vy[y * m.nx + x]));
        },
        Field::Permeability => {
            lemma_row_major(x + 1, y + 1, m.nx + 2, m.ny + 2);
            assert(0 <= m.perm[(y + 1) * (m.nx + 2) + (x + 1)] <= SCALE as int);
        },
        Field::SmokeDensity => {
            lemma_row_major(x, y, m.nx, m.ny);
            assert(in_range(m.smoke[y * m.nx + x]));
        },
    }
}

/// Splitting a flat row-major index into its coordinates stays within the
/// array's shape.
pub proof fn lemma_flat_coords(i: int, w: int, h: int)
    requires
        0 <= i < w * h,
        0 < w,
    ensures
        0 <= i % w < w,
        0 <= i / w < h,
{
    assert(0 <= i % w < w && 0 <= i / w < h) by (nonlinear_arith)
        requires
            0 <= i < w * h,
            0 < w,
    ;
}

/// Subtracting a coordinate's floor-mod fraction and dividing by the scale
/// (truncating) yields exactly the coordinate's floor division by the
/// scale, for negative coordinates too.
proof fn lemma_floor_split(xo: int, fx: int, q: int)
    requires
        fx == xo % (SCALE as int),
        q == tdiv(xo - fx, SCALE as int),
    ensures
        q == xo / (SCALE as int),
{
    let sc = SCALE as int;
    vstd::arithmetic::div_mod::lemma_fundamental_div_mod(xo, sc);
    assert(xo - fx == sc * (xo / sc));
    vstd::arithmetic::div_mod::lemma_mod_multiples_basic(xo / sc, sc);
    crate::fixed::lemma_tdiv_exact(xo - fx, sc);
    assert(sc * ((xo - fx) / sc) == sc * (xo / sc));
}

/// Updating one stored slot updates exactly that slot of the widened view.
pub proof fn lemma_seq_int_update(s: Seq<i64>, i: int, v: i64)
    requires
        0 <= i < s.len(),
    ensures
        seq_int(s.update(i, v)) == seq_int(s).update(i, v as int),
{
    assert(seq_int(s.update(i, v)) =~= seq_int(s).update(i, v as int));
}

/// Appending a stored value appends its widened value to the view.
pub proof fn lemma_seq_int_push(s: Seq<i64>, v: i64)
    ensures
        seq_int(s.push(v)) == seq_int(s).push(v as int),
{
    assert(seq_int(s.push(v)) =~= seq_int(s).push(v as int));
}

impl Space {
    /// Exact access: returns the stored value at in-range coordinates.
    pub fn sample_exact(&self, x: i64, y: i64, field: Field) -> (r: i64)
        requires
            self@.wf(),
            valid_coords(self@, field, x as int, y as int),
        ensures
            r == sample_spec(self@, field, x as int, y as int),
            in_range(r as int),
    {
        let nx = self.num_cells_x;
        match field {
            Field::VelocityX => {
                proof {
                    lemma_row_major(x as int, y as int, nx as int + 1, self@.ny);
                    assert(in_range(self@.vx[y * (nx as int + 1) + x]));
                }
                self.velocities_x[(y * (nx + 1) + x) as usize]
            },
            Field::VelocityY => {
                proof {
                    lemma_row_major(x as int, y as int, nx as int, self@.ny + 1);
                    assert(in_range(self@.vy[y * (nx as int) + x]));
                }
                self.velocities_y[(y * nx + x) as usize]
            },
            Field::Permeability => {
                proof {
                    lemma_row_major(x as int + 1, y as int + 1, nx as int + 2, self@.ny + 2);
                    assert(0 <= self@.perm[(y + 1) * (nx + 2) + (x + 1)] <= SCALE as int);
                }
                self.permeabilities[((y + 1) * (nx + 2) + (x + 1)) as usize]
            },
            Field::SmokeDensity => {
                proof {
                    lemma_row_major(x as int, y as int, nx as int, self@.ny);
                    assert(in_range(self@.smoke[y * (nx as int) + x]));
                }
                self.smoke_densities[(y * nx + x) as usize]
            },
        }
    }

    /// Exact write: replaces the stored value at in-range coordinates,
    /// leaving every other slot and every other field unchanged.
    pub fn set_exact(&mut self, x: i64, y: i64, field: Field, v: i64)
        requires
            old(self)@.wf(),
            valid_coords(old(self)@, field, x as int, y as int),
            in_range(v as int),
            (matches!(field, Field::Permeability) ==> 0 <= v <= SCALE),
        ensures
            final(self)@.wf(),
            model_with(final(self)@, old(self)@, field, field_index(old(self)@, field, x as int, y as int), v as int),
    {
        let nx = self.num_cells_x;
        let ghost m0 = self@;
        match field {
            Field::VelocityX => {
                proof {
                    lemma_row_major(x as int, y as int, nx as int + 1, self@.ny);
                    lemma_seq_int_update(
                        self.velocities_x@,
                        y as int * (nx as int + 1) + x as int,
                        v,
                    );
                }
                let i = (y * (nx + 1) + x) as usize;
                self.velocities_x.set(i, v);
            },
            Field::VelocityY => {
                proof {
                    lemma_row_major(x as int, y as int, nx as int, self@.ny + 1);
                    lemma_seq_int_update(self.velocities_y@, y as int * nx as int + x as int, v);
                }
                let i = (y * nx + x) as usize;
                self.velocities_y.set(i, v);
            },
            Field::Permeability => {
                proof {
                    lemma_row_major(x as int + 1, y as int + 1, nx as int + 2, self@.ny + 2);
                    lemma_seq_int_update(
                        self.permeabilities@,
                        (y as int + 1) * (nx as int + 2) + (x as int + 1),
                        v,
                    );
                }
                let i = ((y + 1) * (nx + 2) + (x + 1)) as usize;
                self.permeabilities.set(i, v);
            },
            Field::SmokeDensity => {
                proof {
                    lemma_row_major(x as int, y as int, nx as int, self@.ny);
                    lemma_seq_int_update(self.smoke_densities@, y as int * nx as int + x as int, v);
                }
                let i = (y * nx + x) as usize;
                self.smoke_densities.set(i, v);
            },
        }
    }

    /// Bounds-checked access: the stored value inside the field's window,
    /// zero outside it.
    pub fn sample_exact_with_bounds_check(&self, x: i64, y: i64, field: Field) -> (r: i64)
        requires
            self@.wf(),
        ensures
            r == sample_bc_spec(self@, field, x as int, y as int),
            in_range(r as int),
    {
        if x < 0 || y < 0 {
            return 0;
        }
        let (ex, ey) = match field {
            Field::VelocityX => (self.num_cells_x + 1, self.num_cells_y),
            Field::VelocityY => (self.num_cells_x, self.num_cells_y + 1),
            Field::Permeability => (self.num_cells_x + 1, self.num_cells_y + 1),
            Field::SmokeDensity => (self.num_cells_x, self.num_cells_y),
        };
        if x >= ex || y >= ey {
            return 0;
        }
        self.sample_exact(x, y, field)
    }

    /// Bilinearly interpolated access at a fixed-point coordinate.
    pub fn sample_interp(&self, x: i64, y: i64, field: Field) -> (r: i64)
        requires
            self@.wf(),
        ensures
            r == interp_spec(self@, field, x as int, y as int),
            in_range(r as int),
    {
        let (ox, oy) = match field {
            Field::VelocityX => (HALF_SCALE, 0),
            Field::VelocityY => (0, HALF_SCALE),
            Field::Permeability => (SCALE, SCALE),
            Field::SmokeDensity => (0, 0),
        };
        let xo = fadd(x, ox);
        let yo = fadd(y, oy);
        let fx = fixed_mod(xo, SCALE);
        let fy = fixed_mod(yo, SCALE);
        // subtracting the floor-mod fraction leaves the floor multiple of
        // SCALE, so this truncating division is the floor division that
        // pairs with the fraction
        let ix = (xo - fx) / SCALE;
        let iy = (yo - fy) / SCALE;
        proof {
            lemma_floor_split(xo as int, fx as int, ix as int);
            lemma_floor_split(yo as int, fy as int, iy as int);
        }
        let c00 = self.sample_exact_with_bounds_check(ix, iy, field);
        let c10 = self.sample_exact_with_bounds_check(ix + 1, iy, field);
        let c01 = self.sample_exact_with_bounds_check(ix, iy + 1, field);
        let c11 = self.sample_exact_with_bounds_check(ix + 1, iy + 1, field);
        let c0 = fadd(fmul(c00, SCALE - fx), fmul(c10, fx));
        let c1 = fadd(fmul(c01, SCALE - fx), fmul(c11, fx));
        fadd(fmul(c0, SCALE - fy), fmul(c1, fy))
    }
}

/// Center and radius, in cell units, of the built-in circular obstacle
/// carved out of the permeability mask at construction.
pub const OBSTACLE_CENTER_X: i64 = 50;

/// See [`OBSTACLE_CENTER_X`].
pub const OBSTACLE_CENTER_Y: i64 = 50;

/// See [`OBSTACLE_CENTER_X`].
pub const OBSTACLE_RADIUS: i64 = 10;

/// Whether the cell at `(x, y)` lies inside the built-in obstacle disc.
pub open spec fn carved(x: int, y: int) -> bool {
    (x - OBSTACLE_CENTER_X as int) * (x - OBSTACLE_CENTER_X as int) + (y - OBSTACLE_CENTER_Y as int)
        * (y - OBSTACLE_CENTER_Y as int) < OBSTACLE_RADIUS as int * OBSTACLE_RADIUS as int
}

/// Initial permeability at flat padded index `i`: zero inside the obstacle
/// disc, one everywhere else (padding included).
pub open spec fn perm_init_at(nx: int, ny: int, i: int) -> int {
    let x = i % (nx + 2) - 1;
    let y = i / (nx + 2) - 1;
    if 0 <= x < nx && 0 <= y < ny && carved(x, y) {
        0
    } else {
        SCALE as int
    }
}

/// The state a freshly constructed solver holds: velocities and smoke all
/// zero, permeability one everywhere except the carved obstacle disc.
pub open spec fn new_spec(nx: int, ny: int, dt: int) -> SpaceModel {
    SpaceModel {
        nx,
        ny,
        dt,
        vx: Seq::new(((nx + 1) * ny) as nat, |i: int| 0),
        vy: Seq::new((nx * (ny + 1)) as nat, |i: int| 0),
        perm: Seq::new(((nx + 2) * (ny + 2)) as nat, |i: int| perm_init_at(nx, ny, i)),
        smoke: Seq::new((nx * ny) as nat, |i: int| 0),
    }
}

proof fn lemma_square_bound(a: int)
    requires
        -2 * MAX_CELLS as int <= a <= 2 * MAX_CELLS as int,
    ensures
        0 <= a * a <= 4 * MAX_CELLS as int * MAX_CELLS as int,
{
    assert(0 <= a * a <= 4 * MAX_CELLS as int * MAX_CELLS as int) by (nonlinear_arith)
        requires
            -2 * MAX_CELLS as int <= a <= 2 * MAX_CELLS as int,
    ;
}

fn zero_vec(n: usize) -> (v: Vec<i64>)
    ensures
        seq_int(v@) == Seq::new(n as nat, |i: int| 0int),
{
    let mut v: Vec<i64> = Vec::new();
    let mut k: usize = 0;
    while k < n
        invariant
            k <= n,
            seq_int(v@) == Seq::new(k as nat, |i: int| 0int),
        decreases n - k,
    {
        proof {
            lemma_seq_int_push(v@, 0);
            assert(seq_int(v@).push(0int) =~= Seq::new((k + 1) as nat, |i: int| 0int));
        }
        v.push(0);
        k += 1;
    }
    v
}

impl Space {
    /// Construct a solver with the given grid dimensions and tick duration
    /// (a fixed-point number of seconds). Velocities and smoke start at
    /// zero; permeability starts at one everywhere except the built-in
    /// obstacle disc, which is carved to zero.
    pub fn new(num_cells_x: i64, num_cells_y: i64, dt: i64) -> (space: Space)
        requires
            0 < num_cells_x <= MAX_CELLS,
            0 < num_cells_y <= MAX_CELLS,
        ensures
            space@ == new_spec(num_cells_x as int, num_cells_y as int, dt as int),
            space@.wf(),
    {
        let nx = num_cells_x;
        let ny = num_cells_y;
        proof {
            lemma_row_major(nx as int, ny as int - 1, nx as int + 1, ny as int);
            lemma_row_major(nx as int - 1, ny as int, nx as int, ny as int + 1);
            lemma_row_major(nx as int + 1, ny as int + 1, nx as int + 2, ny as int + 2);
            lemma_row_major(nx as int - 1, ny as int - 1, nx as int, ny as int);
        }
        let velocities_x = zero_vec(((nx + 1) * ny) as usize);
        let velocities_y = zero_vec((nx * (ny + 1)) as usize);
        let smoke_densities = zero_vec((nx * ny) as usize);

        let perm_len = ((nx + 2) * (ny + 2)) as usize;
        let mut permeabilities: Vec<i64> = Vec::new();
        let mut k: usize = 0;
        while k < perm_len
            invariant
                k <= perm_len,
                perm_len == (nx as int + 2) * (ny as int + 2),
                0 < nx <= MAX_CELLS,
                0 < ny <= MAX_CELLS,
                seq_int(permeabilities@) == Seq::new(
                    k as nat,
                    |i: int| perm_init_at(nx as int, ny as int, i),
                ),
            decreases perm_len - k,
        {
            let i = k as i64;
            proof {
                lemma_row_major(nx as int + 1, ny as int + 1, nx as int + 2, ny as int + 2);
            }
            let x = i % (nx + 2) - 1;
            let y = i / (nx + 2) - 1;
            let inside = if 0 <= x && x < nx && 0 <= y && y < ny {
                let dx = x - OBSTACLE_CENTER_X;
                let dy = y - OBSTACLE_CENTER_Y;
                proof {
                    lemma_square_bound(dx as int);
                    lemma_square_bound(dy as int);
                }
                dx * dx + dy * dy < OBSTACLE_RADIUS * OBSTACLE_RADIUS
            } else {
                false
            };
            let value: i64 = if inside {
                0
            } else {
                SCALE
            };
            proof {
                assert(value as int == perm_init_at(nx as int, ny as int, i as int));
                lemma_seq_int_push(permeabilities@, value);
                assert(seq_int(permeabilities@).push(value as int) =~= Seq::new(
                    (k + 1) as nat,
                    |j: int| perm_init_at(nx as int, ny as int, j),
                ));
            }
            permeabilities.push(value);
            k += 1;
        }

        let space = Space {
            num_cells_x: nx,
            num_cells_y: ny,
            velocities_x,
            velocities_y,
            permeabilities,
            smoke_densities,
            dt,
        };
        proof {
            assert(space@ == new_spec(nx as int, ny as int, dt as int));
            assert(space@.wf()) by {
                let m = space@;
                assert(forall|i: int| 0 <= i < m.vx.len() ==> #[trigger] m.vx[i] == 0);
                assert(forall|i: int| 0 <= i < m.vy.len() ==> #[trigger] m.vy[i] == 0);
                assert(forall|i: int| 0 <= i < m.smoke.len() ==> #[trigger] m.smoke[i] == 0);
                assert(forall|i: int|
                    0 <= i < m.perm.len() ==> 0 <= #[trigger] m.perm[i] <= SCALE as int);
            };
        }
        space
    }
}

/// The two models agree everywhere except that `field`'s array in `m` is
/// `other`'s with slot `idx` set to `v`.
pub open spec fn model_with(m: SpaceModel, other: SpaceModel, field: Field, idx: int, v: int) -> bool {
    match field {
        Field::VelocityX => m == SpaceModel { vx: other.vx.update(idx, v), ..other },
        Field::VelocityY => m == SpaceModel { vy: other.vy.update(idx, v), ..other },
        Field::Permeability => m == SpaceModel { perm: other.perm.update(idx, v), ..other },
        Field::SmokeDensity => m == SpaceModel { smoke: other.smoke.update(idx, v), ..other },
    }
}

} // verus!
