//! Pressure projection: iterative divergence removal.
//!
//! Each pass scans the interior cells in row-major order. For every cell it
//! sums the four neighboring permeabilities `s`; a fully walled-in cell
//! (`s == 0`) is skipped. Otherwise the cell's divergence, scaled by the
//! overrelaxation factor, is distributed across the four adjacent velocity
//! faces in place, proportional to each neighbor's permeability — a
//! Gauss-Seidel relaxation in which every update is immediately visible to
//! the next cell of the same pass.

use vstd::prelude::*;

use crate::fixed::{
    fadd, fadd_spec, fmul, fmul_spec, fsub, fsub_spec, in_range, tdiv, OVERRELAXATION, SCALE,
};
use crate::space::{
    field_index, lemma_row_major, sample_spec, valid_coords, Field, Space, SpaceModel, MAX_CELLS,
};

verus! {

/// Sum of the four neighbor permeabilities of a cell.
pub open spec fn perm_sum_spec(m: SpaceModel, ix: int, iy: int) -> int {
    sample_spec(m, Field::Permeability, ix + 1, iy) + sample_spec(m, Field::Permeability, ix - 1, iy)
        + sample_spec(m, Field::Permeability, ix, iy + 1) + sample_spec(
        m,
        Field::Permeability,
        ix,
        iy - 1,
    )
}

/// A cell's divergence scaled by the overrelaxation factor.
pub open spec fn divergence_spec(m: SpaceModel, ix: int, iy: int) -> int {
    let u0 = sample_spec(m, Field::VelocityX, ix, iy);
    let u1 = sample_spec(m, Field::VelocityX, ix + 1, iy);
    let v0 = sample_spec(m, Field::VelocityY, ix, iy);
    let v1 = sample_spec(m, Field::VelocityY, ix, iy + 1);
    fmul_spec(OVERRELAXATION as int, fadd_spec(fsub_spec(u1, u0), fsub_spec(v1, v0)))
}

/// One projector update of a single interior cell: skip it when its
/// neighbor-permeability sum is zero, otherwise distribute the scaled
/// divergence across the four adjacent velocity faces in proportion to each
/// neighbor's permeability.
pub open spec fn cell_project_spec(m: SpaceModel, ix: int, iy: int) -> SpaceModel {
    let su0 = sample_spec(m, Field::Permeability, ix - 1, iy);
    let su1 = sample_spec(m, Field::Permeability, ix + 1, iy);
    let sv0 = sample_spec(m, Field::Permeability, ix, iy - 1);
    let sv1 = sample_spec(m, Field::Permeability, ix, iy + 1);
    let s = perm_sum_spec(m, ix, iy);
    if s == 0 {
        m
    } else {
        let u0 = sample_spec(m, Field::VelocityX, ix, iy);
        let u1 = sample_spec(m, Field::VelocityX, ix + 1, iy);
        let v0 = sample_spec(m, Field::VelocityY, ix, iy);
        let v1 = sample_spec(m, Field::VelocityY, ix, iy + 1);
        let d = divergence_spec(m, ix, iy);
        let i_u0 = field_index(m, Field::VelocityX, ix, iy);
        let i_u1 = field_index(m, Field::VelocityX, ix + 1, iy);
        let i_v0 = field_index(m, Field::VelocityY, ix, iy);
        let i_v1 = field_index(m, Field::VelocityY, ix, iy + 1);
        SpaceModel {
            vx: m.vx.update(i_u0, fadd_spec(u0, tdiv(d * su0, s))).update(
                i_u1,
                fsub_spec(u1, tdiv(d * su1, s)),
            ),
            vy: m.vy.update(i_v0, fadd_spec(v0, tdiv(d * sv0, s))).update(
                i_v1,
                fsub_spec(v1, tdiv(d * sv1, s)),
            ),
            ..m
        }
    }
}

/// The state after the first `n` cells (in row-major order) of one
/// projector pass have been updated.
pub open spec fn project_upto_spec(m: SpaceModel, n: nat) -> SpaceModel
    decreases n,
{
    if n == 0 {
        m
    } else {
        let c = n - 1;
        cell_project_spec(project_upto_spec(m, (n - 1) as nat), c % m.nx, c / m.nx)
    }
}

/// One whole projector pass over every interior cell.
pub open spec fn project_pass_spec(m: SpaceModel) -> SpaceModel {
    project_upto_spec(m, (m.nx * m.ny) as nat)
}

/// `n` projector passes.
pub open spec fn project_iter_spec(m: SpaceModel, n: nat) -> SpaceModel
    decreases n,
{
    if n == 0 {
        m
    } else {
        project_pass_spec(project_iter_spec(m, (n - 1) as nat))
    }
}

/// In a well-formed space a permeability sample is a weight between 0 and
/// `SCALE`.
pub proof fn lemma_perm_sample_bounds(m: SpaceModel, x: int, y: int)
    requires
        m.wf(),
        valid_coords(m, Field::Permeability, x, y),
    ensures
        0 <= sample_spec(m, Field::Permeability, x, y) <= SCALE as int,
{
    lemma_row_major(x + 1, y + 1, m.nx + 2, m.ny + 2);
    assert(0 <= m.perm[(y + 1) * (m.nx + 2) + (x + 1)] <= SCALE as int);
}

proof fn lemma_correction_fits(d: int, p: int, s: int)
    requires
        in_range(d),
        0 <= p <= s,
        s > 0,
    ensures
        in_range(tdiv(d * p, s)),
{
    if d >= 0 {
        assert(0 <= d * p <= d * s) by (nonlinear_arith)
            requires
                0 <= p <= s,
                d >= 0,
        ;
        assert(0 <= (d * p) / s <= (d * s) / s) by (nonlinear_arith)
            requires
                0 <= d * p <= d * s,
                s > 0,
        ;
        assert((d * s) / s == d) by (nonlinear_arith)
            requires
                s > 0,
        ;
    } else {
        assert(0 <= (-d) * p <= (-d) * s) by (nonlinear_arith)
            requires
                0 <= p <= s,
                d < 0,
        ;
        assert(0 <= ((-d) * p) / s <= ((-d) * s) / s) by (nonlinear_arith)
            requires
                0 <= (-d) * p <= (-d) * s,
                s > 0,
        ;
        assert(((-d) * s) / s == -d) by (nonlinear_arith)
            requires
                s > 0,
        ;
        assert(d * p == -((-d) * p)) by (nonlinear_arith);
    }
}

impl Space {
    /// Compute the truncated correction `d * p / s` for one velocity face.
    fn correction(&self, d: i64, p: i64, s: i64) -> (c: i64)
        requires
            in_range(d as int),
            0 <= p <= s,
            0 < s,
        ensures
            c == tdiv(d as int * p as int, s as int),
            in_range(c as int),
    {
        proof {
            crate::fixed::lemma_i64_product_fits(d as int, p as int);
            lemma_correction_fits(d as int, p as int, s as int);
        }
        let t: i128 = (d as i128) * (p as i128);
        let c: i128 = t / (s as i128);
        proof {
            assert(c == tdiv(t as int, s as int));
        }
        c as i64
    }

    /// One projector update of the interior cell `(ix, iy)`.
    pub fn project_cell(&mut self, ix: i64, iy: i64)
        requires
            old(self)@.wf(),
            0 <= ix < old(self)@.nx,
            0 <= iy < old(self)@.ny,
        ensures
            final(self)@ == cell_project_spec(old(self)@, ix as int, iy as int),
            final(self)@.wf(),
    {
        let ghost m0 = self@;
        proof {
            lemma_perm_sample_bounds(m0, ix as int - 1, iy as int);
            lemma_perm_sample_bounds(m0, ix as int + 1, iy as int);
            lemma_perm_sample_bounds(m0, ix as int, iy as int - 1);
            lemma_perm_sample_bounds(m0, ix as int, iy as int + 1);
        }
        let su0 = self.sample_exact(ix - 1, iy, Field::Permeability);
        let su1 = self.sample_exact(ix + 1, iy, Field::Permeability);
        let sv0 = self.sample_exact(ix, iy - 1, Field::Permeability);
        let sv1 = self.sample_exact(ix, iy + 1, Field::Permeability);
        let s = su1 + su0 + sv1 + sv0;

        if s == 0 {
            return ;
        }
        let u0 = self.sample_exact(ix, iy, Field::VelocityX);
        let u1 = self.sample_exact(ix + 1, iy, Field::VelocityX);
        let v0 = self.sample_exact(ix, iy, Field::VelocityY);
        let v1 = self.sample_exact(ix, iy + 1, Field::VelocityY);
        let d = fmul(OVERRELAXATION, fadd(fsub(u1, u0), fsub(v1, v0)));

        let c_u0 = self.correction(d, su0, s);
        let c_u1 = self.correction(d, su1, s);
        let c_v0 = self.correction(d, sv0, s);
        let c_v1 = self.correction(d, sv1, s);

        self.set_exact(ix, iy, Field::VelocityX, fadd(u0, c_u0));
        self.set_exact(ix + 1, iy, Field::VelocityX, fsub(u1, c_u1));
        self.set_exact(ix, iy, Field::VelocityY, fadd(v0, c_v0));
        self.set_exact(ix, iy + 1, Field::VelocityY, fsub(v1, c_v1));
        proof {
            assert(final(self)@ == cell_project_spec(m0, ix as int, iy as int));
        }
    }

    /// One projector pass: update every interior cell once, in row-major
    /// scan order.
    pub fn project(&mut self)
        requires
            old(self)@.wf(),
        ensures
            final(self)@ == project_pass_spec(old(self)@),
            final(self)@.wf(),
    {
        let ghost m0 = self@;
        let nx = self.num_cells_x;
        let ny = self.num_cells_y;
        proof {
            lemma_row_major(nx as int - 1, ny as int - 1, nx as int, ny as int);
        }
        let total = nx * ny;
        let mut c: i64 = 0;
        while c < total
            invariant
                0 <= c <= total,
                total == m0.nx * m0.ny,
                nx == m0.nx,
                ny == m0.ny,
                total <= (MAX_CELLS as int + 2) * (MAX_CELLS as int + 2),
                m0.wf(),
                self@ == project_upto_spec(m0, c as nat),
                self@.wf(),
                self@.nx == m0.nx,
                self@.ny == m0.ny,
            decreases total - c,
        {
            let ix = c % nx;
            let iy = c / nx;
            proof {
                assert(0 <= (c as int) % (nx as int) < nx as int);
                assert(0 <= (c as int) / (nx as int) < ny as int) by (nonlinear_arith)
                    requires
                        0 <= c as int && (c as int) < (nx as int) * (ny as int),
                        0 < nx as int,
                ;
            }
            self.project_cell(ix, iy);
            proof {
                assert(self@ == project_upto_spec(m0, (c + 1) as nat));
            }
            c += 1;
        }
        proof {
            assert(self@ == project_pass_spec(m0));
        }
    }
}

} // verus!
