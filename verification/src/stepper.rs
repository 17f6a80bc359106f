//! Source injection and the per-tick stepper.
//!
//! Once per tick, after advection, a fixed inflow region is re-seeded:
//! smoke density is overwritten with 1.0 in a block at the left edge and
//! the middle of the domain's height, and the horizontal velocity is
//! overwritten with a fixed jet speed on two face columns across the full
//! height. Values are overwritten, never accumulated.

use vstd::prelude::*;

use crate::advect::{advect_smoke_spec, advect_velocities_spec};
use crate::fixed::SCALE;
use crate::project::project_iter_spec;
use crate::space::{lemma_flat_coords, lemma_seq_int_push, seq_int, Space, SpaceModel};

verus! {

/// Number of projector passes every tick performs.
pub const PROJECTION_ITERATIONS: i64 = 100;

/// Fixed-point horizontal velocity of the inflow jet: 400 fixed units,
/// overwritten onto two face columns every tick.
pub const JET_VELOCITY: i64 = 400 * SCALE;

/// Number of cell columns, starting at the left edge, that the smoke
/// source fills.
pub const SMOKE_COLUMNS: i64 = 15;

/// First face column of the velocity jet.
pub const JET_FIRST_COLUMN: i64 = 4;

/// One past the last face column of the velocity jet.
pub const JET_LAST_COLUMN: i64 = 6;

/// Whether the smoke cell at flat index `i` lies in the source region:
/// the leftmost columns, in the central tenth of the domain's height.
pub open spec fn smoke_source_at(m: SpaceModel, i: int) -> bool {
    let ix = i % m.nx;
    let iy = i / m.nx;
    ix < SMOKE_COLUMNS as int && 9 * m.ny / 20 <= iy < 11 * m.ny / 20
}

/// Whether the horizontal-velocity face at flat index `i` lies in the jet.
pub open spec fn jet_face_at(m: SpaceModel, i: int) -> bool {
    let ix = i % (m.nx + 1);
    JET_FIRST_COLUMN as int <= ix < JET_LAST_COLUMN as int
}

/// The state after injection: smoke overwritten with 1.0 on the source
/// region, horizontal velocity overwritten with the jet speed on the jet
/// faces, everything else unchanged.
pub open spec fn inject_spec(m: SpaceModel) -> SpaceModel {
    SpaceModel {
        smoke: Seq::new(
            m.smoke.len(),
            |i: int|
                if smoke_source_at(m, i) {
                    SCALE as int
                } else {
                    m.smoke[i]
                },
        ),
        vx: Seq::new(
            m.vx.len(),
            |i: int|
                if jet_face_at(m, i) {
                    JET_VELOCITY as int
                } else {
                    m.vx[i]
                },
        ),
        ..m
    }
}

/// The state one whole tick advances to: the fixed number of projector
/// passes, velocity advection, smoke advection, then injection.
pub open spec fn step_spec(m: SpaceModel) -> SpaceModel {
    inject_spec(
        advect_smoke_spec(
            advect_velocities_spec(project_iter_spec(m, PROJECTION_ITERATIONS as nat)),
        ),
    )
}

impl Space {
    /// Re-seed the fixed inflow region: smoke density 1.0 on the source
    /// block, jet velocity on the jet face columns.
    pub fn add_smoke(&mut self)
        requires
            old(self)@.wf(),
        ensures
            final(self)@ == inject_spec(old(self)@),
            final(self)@.wf(),
    {
        let ghost m0 = self@;
        let nx = self.num_cells_x;
        let ny = self.num_cells_y;
        let lo = 9 * ny / 20;
        let hi = 11 * ny / 20;
        proof {
            crate::space::lemma_row_major(nx as int - 1, ny as int - 1, nx as int, ny as int);
            crate::space::lemma_row_major(nx as int, ny as int - 1, nx as int + 1, ny as int);
        }

        let len_s = self.smoke_densities.len();
        let mut new_smoke: Vec<i64> = Vec::new();
        let mut i: usize = 0;
        while i < len_s
            invariant
                self@ == m0,
                m0.wf(),
                nx as int == m0.nx,
                ny as int == m0.ny,
                lo as int == 9 * m0.ny / 20,
                hi as int == 11 * m0.ny / 20,
                len_s == m0.smoke.len(),
                len_s <= i64::MAX as int,
                i <= len_s,
                seq_int(new_smoke@) == Seq::new(
                    i as nat,
                    |j: int|
                        if smoke_source_at(m0, j) {
                            SCALE as int
                        } else {
                            m0.smoke[j]
                        },
                ),
            decreases len_s - i,
        {
            proof {
                lemma_flat_coords(i as int, m0.nx, m0.ny);
            }
            let ii = i as i64;
            let ix = ii % nx;
            let iy = ii / nx;
            let v: i64 = if ix < SMOKE_COLUMNS && lo <= iy && iy < hi {
                SCALE
            } else {
                self.smoke_densities[i]
            };
            proof {
                lemma_seq_int_push(new_smoke@, v);
                assert(seq_int(new_smoke@).push(v as int) =~= Seq::new(
                    (i + 1) as nat,
                    |j: int|
                        if smoke_source_at(m0, j) {
                            SCALE as int
                        } else {
                            m0.smoke[j]
                        },
                ));
            }
            new_smoke.push(v);
            i += 1;
        }

        let len_x = self.velocities_x.len();
        let mut new_vx: Vec<i64> = Vec::new();
        let mut k: usize = 0;
        while k < len_x
            invariant
                self@ == m0,
                m0.wf(),
                nx as int == m0.nx,
                len_x == m0.vx.len(),
                len_x <= i64::MAX as int,
                k <= len_x,
                seq_int(new_vx@) == Seq::new(
                    k as nat,
                    |j: int|
                        if jet_face_at(m0, j) {
                            JET_VELOCITY as int
                        } else {
                            m0.vx[j]
                        },
                ),
            decreases len_x - k,
        {
            proof {
                lemma_flat_coords(k as int, m0.nx + 1, m0.ny);
            }
            let kk = k as i64;
            let ix = kk % (nx + 1);
            let v: i64 = if JET_FIRST_COLUMN <= ix && ix < JET_LAST_COLUMN {
                JET_VELOCITY
            } else {
                self.velocities_x[k]
            };
            proof {
                lemma_seq_int_push(new_vx@, v);
                assert(seq_int(new_vx@).push(v as int) =~= Seq::new(
                    (k + 1) as nat,
                    |j: int|
                        if jet_face_at(m0, j) {
                            JET_VELOCITY as int
                        } else {
                            m0.vx[j]
                        },
                ));
            }
            new_vx.push(v);
            k += 1;
        }

        self.smoke_densities = new_smoke;
        self.velocities_x = new_vx;
        proof {
            assert(self@ == inject_spec(m0));
        }
    }

    /// Advance the simulation by exactly one tick: the fixed number of
    /// projector passes, velocity advection, smoke advection, then source
    /// injection, in that order.
    pub fn step(&mut self)
        requires
            old(self)@.wf(),
        ensures
            final(self)@ == step_spec(old(self)@),
            final(self)@.wf(),
    {
        let ghost m0 = self@;
        let mut n: i64 = 0;
        while n < PROJECTION_ITERATIONS
            invariant
                old(self)@ == m0,
                0 <= n <= PROJECTION_ITERATIONS,
                self@ == project_iter_spec(m0, n as nat),
                self@.wf(),
            decreases PROJECTION_ITERATIONS - n,
        {
            self.project();
            proof {
                assert(self@ == project_iter_spec(m0, (n + 1) as nat));
            }
            n += 1;
        }
        self.advect_velocities();
        self.advect_smoke();
        self.add_smoke();
    }
}

} // verus!
