//! Semi-Lagrangian advection of velocity and smoke.
//!
//! Every sample location interpolates the other velocity component at its
//! own position, traces the position backward by one explicit Euler step
//! (`-velocity * dt`), and interpolates the advected field there — always
//! reading the previous tick's arrays. The new arrays are built completely
//! before either replaces its predecessor, so no update of a tick is
//! visible to that same tick's computation.

use vstd::prelude::*;

use crate::fixed::{fmul, fmul_spec, fsub, fsub_spec, in_range, HALF_SCALE, SCALE};
use crate::space::{
    interp_spec, lemma_flat_coords, lemma_row_major, lemma_seq_int_push, sample_spec, seq_int,
    Field, Space, SpaceModel,
};

verus! {

/// The advected horizontal velocity for the face at flat index `i`.
pub open spec fn advected_vx_at(m: SpaceModel, i: int) -> int {
    let ix = i % (m.nx + 1);
    let iy = i / (m.nx + 1);
    let rx = ix * SCALE as int - HALF_SCALE as int;
    let ry = iy * SCALE as int;
    let vx = sample_spec(m, Field::VelocityX, ix, iy);
    let vy = interp_spec(m, Field::VelocityY, rx, ry);
    let px = fsub_spec(rx, fmul_spec(vx, m.dt));
    let py = fsub_spec(ry, fmul_spec(vy, m.dt));
    interp_spec(m, Field::VelocityX, px, py)
}

/// The advected vertical velocity for the face at flat index `i`.
pub open spec fn advected_vy_at(m: SpaceModel, i: int) -> int {
    let ix = i % m.nx;
    let iy = i / m.nx;
    let rx = ix * SCALE as int;
    let ry = iy * SCALE as int - HALF_SCALE as int;
    let vx = interp_spec(m, Field::VelocityX, rx, ry);
    let vy = sample_spec(m, Field::VelocityY, ix, iy);
    let px = fsub_spec(rx, fmul_spec(vx, m.dt));
    let py = fsub_spec(ry, fmul_spec(vy, m.dt));
    interp_spec(m, Field::VelocityY, px, py)
}

/// The advected smoke density for the cell at flat index `i`.
pub open spec fn advected_smoke_at(m: SpaceModel, i: int) -> int {
    let ix = i % m.nx;
    let iy = i / m.nx;
    let rx = ix * SCALE as int;
    let ry = iy * SCALE as int;
    let vx = interp_spec(m, Field::VelocityX, rx, ry);
    let vy = interp_spec(m, Field::VelocityY, rx, ry);
    let px = fsub_spec(rx, fmul_spec(vx, m.dt));
    let py = fsub_spec(ry, fmul_spec(vy, m.dt));
    interp_spec(m, Field::SmokeDensity, px, py)
}

/// Both velocity arrays replaced by their advected values, all computed
/// from the previous state.
pub open spec fn advect_velocities_spec(m: SpaceModel) -> SpaceModel {
    SpaceModel {
        vx: Seq::new(m.vx.len(), |i: int| advected_vx_at(m, i)),
        vy: Seq::new(m.vy.len(), |i: int| advected_vy_at(m, i)),
        ..m
    }
}

/// The smoke array replaced by its advected values.
pub open spec fn advect_smoke_spec(m: SpaceModel) -> SpaceModel {
    SpaceModel { smoke: Seq::new(m.smoke.len(), |i: int| advected_smoke_at(m, i)), ..m }
}

/// Every interpolated value lies within the saturation bounds.
pub proof fn lemma_interp_in_range(m: SpaceModel, field: Field, x: int, y: int)
    ensures
        in_range(interp_spec(m, field, x, y)),
{
}

impl Space {
    /// Advect both velocity components: trace each face location backward
    /// through the previous velocity field and interpolate the old value
    /// there. Both new arrays are computed before either is installed.
    pub fn advect_velocities(&mut self)
        requires
            old(self)@.wf(),
        ensures
            final(self)@ == advect_velocities_spec(old(self)@),
            final(self)@.wf(),
    {
        let ghost m0 = self@;
        let nx = self.num_cells_x;
        let ny = self.num_cells_y;
        proof {
            lemma_row_major(nx as int, ny as int - 1, nx as int + 1, ny as int);
            lemma_row_major(nx as int - 1, ny as int, nx as int, ny as int + 1);
        }
        let len_x = self.velocities_x.len();
        let mut copy_x: Vec<i64> = Vec::new();
        let mut i: usize = 0;
        while i < len_x
            invariant
                self@ == m0,
                m0.wf(),
                nx as int == m0.nx,
                ny as int == m0.ny,
                len_x == m0.vx.len(),
                len_x <= i64::MAX as int,
                i <= len_x,
                seq_int(copy_x@) == Seq::new(i as nat, |j: int| advected_vx_at(m0, j)),
            decreases len_x - i,
        {
            proof {
                lemma_flat_coords(i as int, m0.nx + 1, m0.ny);
            }
            let ii = i as i64;
            let ix = ii % (nx + 1);
            let iy = ii / (nx + 1);
            let rx = ix * SCALE - HALF_SCALE;
            let ry = iy * SCALE;
            let vx = self.sample_exact(ix, iy, Field::VelocityX);
            let vy = self.sample_interp(rx, ry, Field::VelocityY);
            let px = fsub(rx, fmul(vx, self.dt));
            let py = fsub(ry, fmul(vy, self.dt));
            let nv = self.sample_interp(px, py, Field::VelocityX);
            proof {
                assert(nv as int == advected_vx_at(m0, i as int));
                lemma_seq_int_push(copy_x@, nv);
                assert(seq_int(copy_x@).push(nv as int) =~= Seq::new(
                    (i + 1) as nat,
                    |j: int| advected_vx_at(m0, j),
                ));
            }
            copy_x.push(nv);
            i += 1;
        }

        let len_y = self.velocities_y.len();
        let mut copy_y: Vec<i64> = Vec::new();
        let mut k: usize = 0;
        while k < len_y
            invariant
                self@ == m0,
                m0.wf(),
                nx as int == m0.nx,
                ny as int == m0.ny,
                len_y == m0.vy.len(),
                len_y <= i64::MAX as int,
                k <= len_y,
                seq_int(copy_y@) == Seq::new(k as nat, |j: int| advected_vy_at(m0, j)),
            decreases len_y - k,
        {
            proof {
                lemma_flat_coords(k as int, m0.nx, m0.ny + 1);
            }
            let kk = k as i64;
            let ix = kk % nx;
            let iy = kk / nx;
            let rx = ix * SCALE;
            let ry = iy * SCALE - HALF_SCALE;
            let vx = self.sample_interp(rx, ry, Field::VelocityX);
            let vy = self.sample_exact(ix, iy, Field::VelocityY);
            let px = fsub(rx, fmul(vx, self.dt));
            let py = fsub(ry, fmul(vy, self.dt));
            let nv = self.sample_interp(px, py, Field::VelocityY);
            proof {
                assert(nv as int == advected_vy_at(m0, k as int));
                lemma_seq_int_push(copy_y@, nv);
                assert(seq_int(copy_y@).push(nv as int) =~= Seq::new(
                    (k + 1) as nat,
                    |j: int| advected_vy_at(m0, j),
                ));
            }
            copy_y.push(nv);
            k += 1;
        }

        self.velocities_x = copy_x;
        self.velocities_y = copy_y;
        proof {
            assert(self@ == advect_velocities_spec(m0));
            assert(self@.wf()) by {
                assert(forall|j: int|
                    0 <= j < self@.vx.len() ==> in_range(#[trigger] self@.vx[j])) by {
                    assert forall|j: int| 0 <= j < self@.vx.len() implies in_range(
                        #[trigger] self@.vx[j],
                    ) by {
                        assert(self@.vx[j] == advected_vx_at(m0, j));
                    };
                };
                assert(forall|j: int|
                    0 <= j < self@.vy.len() ==> in_range(#[trigger] self@.vy[j])) by {
                    assert forall|j: int| 0 <= j < self@.vy.len() implies in_range(
                        #[trigger] self@.vy[j],
                    ) by {
                        assert(self@.vy[j] == advected_vy_at(m0, j));
                    };
                };
            };
        }
    }

    /// Advect the smoke tracer: trace each cell center backward through the
    /// velocity field and interpolate the old smoke density there.
    pub fn advect_smoke(&mut self)
        requires
            old(self)@.wf(),
        ensures
            final(self)@ == advect_smoke_spec(old(self)@),
            final(self)@.wf(),
    {
        let ghost m0 = self@;
        let nx = self.num_cells_x;
        let ny = self.num_cells_y;
        proof {
            lemma_row_major(nx as int - 1, ny as int - 1, nx as int, ny as int);
        }
        let len = self.smoke_densities.len();
        let mut copy: Vec<i64> = Vec::new();
        let mut i: usize = 0;
        while i < len
            invariant
                self@ == m0,
                m0.wf(),
                nx as int == m0.nx,
                ny as int == m0.ny,
                len == m0.smoke.len(),
                len <= i64::MAX as int,
                i <= len,
                seq_int(copy@) == Seq::new(i as nat, |j: int| advected_smoke_at(m0, j)),
            decreases len - i,
        {
            proof {
                lemma_flat_coords(i as int, m0.nx, m0.ny);
            }
            let ii = i as i64;
            let ix = ii % nx;
            let iy = ii / nx;
            let rx = ix * SCALE;
            let ry = iy * SCALE;
            let vx = self.sample_interp(rx, ry, Field::VelocityX);
            let vy = self.sample_interp(rx, ry, Field::VelocityY);
            let px = fsub(rx, fmul(vx, self.dt));
            let py = fsub(ry, fmul(vy, self.dt));
            let nv = self.sample_interp(px, py, Field::SmokeDensity);
            proof {
                assert(nv as int == advected_smoke_at(m0, i as int));
                lemma_seq_int_push(copy@, nv);
                assert(seq_int(copy@).push(nv as int) =~= Seq::new(
                    (i + 1) as nat,
                    |j: int| advected_smoke_at(m0, j),
                ));
            }
            copy.push(nv);
            i += 1;
        }

        self.smoke_densities = copy;
        proof {
            assert(self@ == advect_smoke_spec(m0));
            assert(self@.wf()) by {
                assert(forall|j: int|
                    0 <= j < self@.smoke.len() ==> in_range(#[trigger] self@.smoke[j])) by {
                    assert forall|j: int| 0 <= j < self@.smoke.len() implies in_range(
                        #[trigger] self@.smoke[j],
                    ) by {
                        assert(self@.smoke[j] == advected_smoke_at(m0, j));
                    };
                };
            };
        }
    }
}

} // verus!
