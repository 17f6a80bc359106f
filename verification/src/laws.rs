//! Laws the solver obeys, stated and proved over the model.

use vstd::prelude::*;

use crate::fixed::{
    fadd_spec, fmul_spec, fsub_spec, in_range, lemma_tdiv_exact, tdiv, OVERRELAXATION, SCALE,
};
use crate::project::{cell_project_spec, divergence_spec, perm_sum_spec};
use crate::space::{
    extent_x, extent_y, field_index, interp_spec, lemma_row_major, lemma_sample_in_range, offset_x,
    offset_y, sample_bc_spec, sample_spec, Field, SpaceModel, MAX_CELLS,
};
use crate::stepper::step_spec;

verus! {

/// Bounds-checked sampling returns exactly zero at every coordinate
/// outside the field's window — in particular one cell before the window
/// and at the window's extent, on either axis.
pub proof fn lemma_bounds_check_zero_outside(m: SpaceModel, field: Field, x: int, y: int)
    requires
        !(0 <= x < extent_x(m, field)) || !(0 <= y < extent_y(m, field)),
    ensures
        sample_bc_spec(m, field, x, y) == 0,
{
}

/// Interpolated sampling at a coordinate exactly aligned to a field's own
/// staggering offset equals that field's exact sample at the corresponding
/// integer cell: the bilinear blend degenerates to the nearest value at
/// grid nodes.
pub proof fn lemma_interp_aligned(m: SpaceModel, field: Field, ix: int, iy: int)
    requires
        m.wf(),
        0 <= ix < extent_x(m, field),
        0 <= iy < extent_y(m, field),
    ensures
        interp_spec(
            m,
            field,
            ix * SCALE as int - offset_x(field),
            iy * SCALE as int - offset_y(field),
        ) == sample_spec(m, field, ix, iy),
{
    let s = SCALE as int;
    let x = ix * s - offset_x(field);
    let y = iy * s - offset_y(field);
    assert(0 <= ix * s <= (MAX_CELLS as int + 1) * s && 0 <= iy * s <= (MAX_CELLS as int + 1) * s)
        by (nonlinear_arith)
        requires
            0 <= ix <= MAX_CELLS as int + 1,
            0 <= iy <= MAX_CELLS as int + 1,
            s == 1000,
    ;
    let xo = fadd_spec(x, offset_x(field));
    let yo = fadd_spec(y, offset_y(field));
    assert(xo == ix * s);
    assert(yo == iy * s);
    assert((ix * s) / s == ix && (ix * s) % s == 0) by (nonlinear_arith)
        requires
            s > 0,
            ix >= 0,
    ;
    assert((iy * s) / s == iy && (iy * s) % s == 0) by (nonlinear_arith)
        requires
            s > 0,
            iy >= 0,
    ;
    lemma_sample_in_range(m, field, ix, iy);
    let c = sample_spec(m, field, ix, iy);
    assert(sample_bc_spec(m, field, ix, iy) == c);
    assert(tdiv(c * s, s) == c) by (nonlinear_arith)
        requires
            s > 0,
    ;
    assert(fmul_spec(c, s) == c);
}

/// For any interior cell whose neighbor-permeability sum `s` is positive,
/// one projector update scales the cell's measured divergence by exactly
/// `1 - overrelaxation`, provided the fixed-point operations involved are
/// exact there: no intermediate saturates, and the scaled divergence and
/// each face correction divide evenly.
pub proof fn lemma_projector_divergence_factor(m: SpaceModel, ix: int, iy: int)
    requires
        m.wf(),
        0 <= ix < m.nx,
        0 <= iy < m.ny,
        perm_sum_spec(m, ix, iy) > 0,
        in_range(raw_divergence_spec(m, ix, iy)),
        in_range(
            sample_spec(m, Field::VelocityX, ix + 1, iy) - sample_spec(m, Field::VelocityX, ix, iy),
        ),
        in_range(
            sample_spec(m, Field::VelocityY, ix, iy + 1) - sample_spec(m, Field::VelocityY, ix, iy),
        ),
        (OVERRELAXATION as int * raw_divergence_spec(m, ix, iy)) % (SCALE as int) == 0,
        in_range(OVERRELAXATION as int * raw_divergence_spec(m, ix, iy) / (SCALE as int)),
        correction_exact(m, ix, iy, ix - 1, iy, Field::VelocityX, ix, iy, true),
        correction_exact(m, ix, iy, ix + 1, iy, Field::VelocityX, ix + 1, iy, false),
        correction_exact(m, ix, iy, ix, iy - 1, Field::VelocityY, ix, iy, true),
        correction_exact(m, ix, iy, ix, iy + 1, Field::VelocityY, ix, iy + 1, false),
    ensures
        SCALE as int * raw_divergence_spec(cell_project_spec(m, ix, iy), ix, iy) == (SCALE as int
            - OVERRELAXATION as int) * raw_divergence_spec(m, ix, iy),
{
    let sc = SCALE as int;
    let ovr = OVERRELAXATION as int;
    let su0 = sample_spec(m, Field::Permeability, ix - 1, iy);
    let su1 = sample_spec(m, Field::Permeability, ix + 1, iy);
    let sv0 = sample_spec(m, Field::Permeability, ix, iy - 1);
    let sv1 = sample_spec(m, Field::Permeability, ix, iy + 1);
    let s = perm_sum_spec(m, ix, iy);
    let u0 = sample_spec(m, Field::VelocityX, ix, iy);
    let u1 = sample_spec(m, Field::VelocityX, ix + 1, iy);
    let v0 = sample_spec(m, Field::VelocityY, ix, iy);
    let v1 = sample_spec(m, Field::VelocityY, ix, iy + 1);
    let raw = raw_divergence_spec(m, ix, iy);

    assert(divergence_spec(m, ix, iy) == fmul_spec(ovr, raw));
    lemma_tdiv_exact(ovr * raw, sc);
    let d = ovr * raw / sc;
    assert(divergence_spec(m, ix, iy) == d);

    lemma_tdiv_exact(d * su0, s);
    lemma_tdiv_exact(d * su1, s);
    lemma_tdiv_exact(d * sv0, s);
    lemma_tdiv_exact(d * sv1, s);
    let q0 = d * su0 / s;
    let q1 = d * su1 / s;
    let q2 = d * sv0 / s;
    let q3 = d * sv1 / s;
    assert(q0 + q1 + q2 + q3 == d) by (nonlinear_arith)
        requires
            s > 0,
            s == su1 + su0 + sv1 + sv0,
            s * q0 == d * su0,
            s * q1 == d * su1,
            s * q2 == d * sv0,
            s * q3 == d * sv1,
    ;

    let m1 = cell_project_spec(m, ix, iy);
    lemma_row_major(ix, iy, m.nx + 1, m.ny);
    lemma_row_major(ix + 1, iy, m.nx + 1, m.ny);
    lemma_row_major(ix, iy, m.nx, m.ny + 1);
    lemma_row_major(ix, iy + 1, m.nx, m.ny + 1);
    assert(field_index(m, Field::VelocityX, ix, iy) != field_index(m, Field::VelocityX, ix + 1, iy));
    assert(field_index(m, Field::VelocityY, ix, iy) != field_index(m, Field::VelocityY, ix, iy + 1))
        by (nonlinear_arith)
        requires
            m.nx > 0,
            field_index(m, Field::VelocityY, ix, iy) == iy * m.nx + ix,
            field_index(m, Field::VelocityY, ix, iy + 1) == (iy + 1) * m.nx + ix,
    ;
    assert(sample_spec(m1, Field::VelocityX, ix, iy) == fadd_spec(u0, q0));
    assert(sample_spec(m1, Field::VelocityX, ix + 1, iy) == fsub_spec(u1, q1));
    assert(sample_spec(m1, Field::VelocityY, ix, iy) == fadd_spec(v0, q2));
    assert(sample_spec(m1, Field::VelocityY, ix, iy + 1) == fsub_spec(v1, q3));
    assert(raw_divergence_spec(m1, ix, iy) == (u1 - q1) - (u0 + q0) + (v1 - q3) - (v0 + q2));
    assert(raw_divergence_spec(m1, ix, iy) == raw - d);
    assert(sc * (raw - d) == (sc - ovr) * raw) by (nonlinear_arith)
        requires
            sc * d == ovr * raw,
    ;
}

/// The cell's divergence before the overrelaxation factor is applied.
pub open spec fn raw_divergence_spec(m: SpaceModel, ix: int, iy: int) -> int {
    sample_spec(m, Field::VelocityX, ix + 1, iy) - sample_spec(m, Field::VelocityX, ix, iy)
        + sample_spec(m, Field::VelocityY, ix, iy + 1) - sample_spec(m, Field::VelocityY, ix, iy)
}

/// The projector's correction for one velocity face is exact: the share of
/// the scaled divergence divides evenly and the updated face value does
/// not saturate.
pub open spec fn correction_exact(
    m: SpaceModel,
    ix: int,
    iy: int,
    px: int,
    py: int,
    vfield: Field,
    vx: int,
    vy: int,
    added: bool,
) -> bool {
    let s = perm_sum_spec(m, ix, iy);
    let d = OVERRELAXATION as int * raw_divergence_spec(m, ix, iy) / (SCALE as int);
    let p = sample_spec(m, Field::Permeability, px, py);
    let v = sample_spec(m, vfield, vx, vy);
    &&& (d * p) % s == 0
    &&& in_range(
        if added {
            v + d * p / s
        } else {
            v - d * p / s
        },
    )
}

/// A cell whose four permeability neighbors are all zero receives no
/// velocity modification from the projector, whatever the velocities hold:
/// a fully enclosed cell is inert.
pub proof fn lemma_enclosed_cell_inert(m: SpaceModel, ix: int, iy: int)
    requires
        sample_spec(m, Field::Permeability, ix - 1, iy) == 0,
        sample_spec(m, Field::Permeability, ix + 1, iy) == 0,
        sample_spec(m, Field::Permeability, ix, iy - 1) == 0,
        sample_spec(m, Field::Permeability, ix, iy + 1) == 0,
    ensures
        cell_project_spec(m, ix, iy) == m,
{
}

/// Determinism: the state a tick produces is a function of the state
/// before it alone — two solvers in equal states are equal after stepping.
/// Together with the constructor's contract, which fixes the initial state
/// as a function of `(nx, ny, dt)`, identical runs end identically.
pub proof fn lemma_step_deterministic(a: SpaceModel, b: SpaceModel)
    requires
        a == b,
    ensures
        step_spec(a) == step_spec(b),
{
}

} // verus!
