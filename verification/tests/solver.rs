use fluid_grid::fixed::{fadd, fixed_mod, fmul, fsub, MAX_MAGNITUDE, SCALE};
use fluid_grid::space::{Field, Space};

#[test]
fn fixed_mod_negative_wraps_into_range() {
    // -0.3 mod 1.0 == 0.7
    assert_eq!(fixed_mod(-300, 1000), 700);
}

#[test]
fn fixed_mod_positive_and_multiples() {
    assert_eq!(fixed_mod(300, 1000), 300);
    assert_eq!(fixed_mod(2500, 1000), 500);
    assert_eq!(fixed_mod(-2000, 1000), 0);
    assert_eq!(fixed_mod(-1, 3), 2);
    assert_eq!(fixed_mod(0, 7), 0);
}

#[test]
fn fixed_ops_saturate_and_truncate() {
    assert_eq!(fadd(MAX_MAGNITUDE, MAX_MAGNITUDE), MAX_MAGNITUDE);
    assert_eq!(fsub(-MAX_MAGNITUDE, MAX_MAGNITUDE), -MAX_MAGNITUDE);
    assert_eq!(fmul(2 * SCALE, 3 * SCALE), 6 * SCALE);
    assert_eq!(fmul(-1500, 1000), -1500);
    assert_eq!(fmul(1, 999), 0);
    assert_eq!(fmul(-1, 999), 0);
}

#[test]
fn construction_starts_at_rest() {
    let space = Space::new(5, 5, 17);
    for y in 0..5 {
        for x in 0..6 {
            assert_eq!(space.sample_exact(x, y, Field::VelocityX), 0);
        }
    }
    for y in 0..6 {
        for x in 0..5 {
            assert_eq!(space.sample_exact(x, y, Field::VelocityY), 0);
        }
    }
    for y in 0..5 {
        for x in 0..5 {
            assert_eq!(space.sample_exact(x, y, Field::SmokeDensity), 0);
            assert_eq!(space.sample_exact(x, y, Field::Permeability), SCALE);
        }
    }
}

#[test]
fn construction_carves_the_obstacle_disc() {
    let space = Space::new(100, 100, 17);
    assert_eq!(space.sample_exact(50, 50, Field::Permeability), 0);
    assert_eq!(space.sample_exact(45, 45, Field::Permeability), 0);
    assert_eq!(space.sample_exact(59, 50, Field::Permeability), 0);
    // exactly on the radius is outside the carved disc
    assert_eq!(space.sample_exact(50, 40, Field::Permeability), SCALE);
    assert_eq!(space.sample_exact(60, 50, Field::Permeability), SCALE);
    assert_eq!(space.sample_exact(19, 19, Field::Permeability), SCALE);
    // the padding ring is open
    assert_eq!(space.sample_exact(-1, -1, Field::Permeability), SCALE);
    assert_eq!(space.sample_exact(100, 100, Field::Permeability), SCALE);
}

#[test]
fn bounds_checked_sampling_is_zero_outside_every_extent() {
    let mut space = Space::new(4, 4, 17);
    // make the interior nonzero so the zeros below are meaningful
    space.set_exact(0, 0, Field::VelocityX, 111);
    space.set_exact(0, 0, Field::VelocityY, 222);
    space.set_exact(0, 0, Field::SmokeDensity, 333);
    let cases: [(Field, i64, i64); 4] = [
        (Field::VelocityX, 5, 4),
        (Field::VelocityY, 4, 5),
        (Field::Permeability, 5, 5),
        (Field::SmokeDensity, 4, 4),
    ];
    for (field, ex, ey) in cases {
        assert_eq!(space.sample_exact_with_bounds_check(-1, 0, field), 0);
        assert_eq!(space.sample_exact_with_bounds_check(ex, 0, field), 0);
        assert_eq!(space.sample_exact_with_bounds_check(0, -1, field), 0);
        assert_eq!(space.sample_exact_with_bounds_check(0, ey, field), 0);
    }
    assert_eq!(
        space.sample_exact_with_bounds_check(0, 0, Field::Permeability),
        SCALE
    );
    assert_eq!(
        space.sample_exact_with_bounds_check(0, 0, Field::VelocityX),
        111
    );
}

#[test]
fn interpolation_at_aligned_coordinates_is_exact() {
    let mut space = Space::new(4, 4, 17);
    space.set_exact(2, 1, Field::VelocityX, 12345);
    space.set_exact(1, 2, Field::VelocityY, -678);
    space.set_exact(3, 3, Field::SmokeDensity, 901);
    // VelocityX is staggered +0.5 in x, so its own node (2, 1) sits at
    // world coordinate (1.5, 1.0)
    assert_eq!(space.sample_interp(1500, 1000, Field::VelocityX), 12345);
    // VelocityY is staggered +0.5 in y
    assert_eq!(space.sample_interp(1000, 1500, Field::VelocityY), -678);
    // SmokeDensity is cell-centered
    assert_eq!(space.sample_interp(3000, 3000, Field::SmokeDensity), 901);
}

#[test]
fn interpolation_blends_between_nodes() {
    let mut space = Space::new(4, 4, 17);
    space.set_exact(1, 0, Field::SmokeDensity, SCALE);
    // halfway between cells (0,0) and (1,0): half of 1.0
    assert_eq!(space.sample_interp(500, 0, Field::SmokeDensity), 500);
    // three tenths of the way
    assert_eq!(space.sample_interp(300, 0, Field::SmokeDensity), 300);
}

#[test]
fn interpolation_pairs_floor_cell_with_floor_fraction() {
    let mut space = Space::new(4, 4, 17);
    space.set_exact(0, 0, Field::SmokeDensity, SCALE);
    // x = -0.3 splits into cell -1 and fraction 0.7: the out-of-domain
    // corner reads 0 and cell (0,0) carries weight 0.7
    assert_eq!(space.sample_interp(-300, 0, Field::SmokeDensity), 700);
    // the blend is continuous across zero
    assert_eq!(space.sample_interp(-1, 0, Field::SmokeDensity), 999);
    assert_eq!(space.sample_interp(0, 0, Field::SmokeDensity), SCALE);
}

#[test]
fn projector_weights_corrections_by_fractional_permeability() {
    let mut space = Space::new(3, 3, 17);
    // the left neighbor of cell (1,1) conducts at half weight
    space.set_exact(0, 1, Field::Permeability, 500);
    space.set_exact(2, 1, Field::VelocityX, 40 * SCALE);
    space.project_cell(1, 1);
    // s = 1000 + 500 + 1000 + 1000 = 3500, d = 1.9 * 40000 = 76000
    assert_eq!(space.sample_exact(1, 1, Field::VelocityX), 10857);
    assert_eq!(space.sample_exact(2, 1, Field::VelocityX), 40 * SCALE - 21714);
    assert_eq!(space.sample_exact(1, 1, Field::VelocityY), 21714);
    assert_eq!(space.sample_exact(1, 2, Field::VelocityY), -21714);
}

#[test]
fn projector_scales_divergence_by_one_minus_overrelaxation() {
    let mut space = Space::new(3, 3, 17);
    // raw divergence 40 units at cell (1,1); all four neighbors open
    space.set_exact(2, 1, Field::VelocityX, 40 * SCALE);
    space.project_cell(1, 1);
    assert_eq!(space.sample_exact(1, 1, Field::VelocityX), 19000);
    assert_eq!(space.sample_exact(2, 1, Field::VelocityX), 21000);
    assert_eq!(space.sample_exact(1, 1, Field::VelocityY), 19000);
    assert_eq!(space.sample_exact(1, 2, Field::VelocityY), -19000);
    let raw_after = space.sample_exact(2, 1, Field::VelocityX)
        - space.sample_exact(1, 1, Field::VelocityX)
        + space.sample_exact(1, 2, Field::VelocityY)
        - space.sample_exact(1, 1, Field::VelocityY);
    // (1 - 1.9) * 40000 == -36000
    assert_eq!(raw_after, -36000);
}

#[test]
fn fully_enclosed_cell_is_inert() {
    let mut space = Space::new(6, 6, 17);
    space.set_exact(1, 2, Field::Permeability, 0);
    space.set_exact(3, 2, Field::Permeability, 0);
    space.set_exact(2, 1, Field::Permeability, 0);
    space.set_exact(2, 3, Field::Permeability, 0);
    space.set_exact(2, 2, Field::VelocityX, 5000);
    space.set_exact(3, 2, Field::VelocityX, -700);
    space.set_exact(2, 2, Field::VelocityY, 123);
    space.set_exact(2, 3, Field::VelocityY, 9999);
    space.project_cell(2, 2);
    assert_eq!(space.sample_exact(2, 2, Field::VelocityX), 5000);
    assert_eq!(space.sample_exact(3, 2, Field::VelocityX), -700);
    assert_eq!(space.sample_exact(2, 2, Field::VelocityY), 123);
    assert_eq!(space.sample_exact(2, 3, Field::VelocityY), 9999);
}

#[test]
fn identical_runs_produce_identical_states() {
    let mut a = Space::new(20, 20, 17);
    let mut b = Space::new(20, 20, 17);
    for _ in 0..2 {
        a.step();
        b.step();
    }
    for y in 0..20 {
        for x in 0..21 {
            assert_eq!(
                a.sample_exact(x, y, Field::VelocityX),
                b.sample_exact(x, y, Field::VelocityX)
            );
        }
    }
    for y in 0..21 {
        for x in 0..20 {
            assert_eq!(
                a.sample_exact(x, y, Field::VelocityY),
                b.sample_exact(x, y, Field::VelocityY)
            );
        }
    }
    for y in -1..21 {
        for x in -1..21 {
            assert_eq!(
                a.sample_exact(x, y, Field::Permeability),
                b.sample_exact(x, y, Field::Permeability)
            );
        }
    }
    for y in 0..20 {
        for x in 0..20 {
            assert_eq!(
                a.sample_exact(x, y, Field::SmokeDensity),
                b.sample_exact(x, y, Field::SmokeDensity)
            );
        }
    }
}

#[test]
fn one_tick_seeds_the_source_and_leaves_the_far_corner_empty() {
    let mut space = Space::new(20, 20, 17);
    space.step();
    for x in 0..15 {
        for y in 9..11 {
            assert_eq!(space.sample_exact(x, y, Field::SmokeDensity), SCALE);
        }
    }
    assert_eq!(space.sample_exact(19, 19, Field::SmokeDensity), 0);
}

#[test]
fn one_tick_installs_the_velocity_jet() {
    let mut space = Space::new(20, 20, 17);
    space.step();
    for y in 0..20 {
        assert_eq!(space.sample_exact(4, y, Field::VelocityX), 400 * SCALE);
        assert_eq!(space.sample_exact(5, y, Field::VelocityX), 400 * SCALE);
    }
    assert_eq!(space.sample_exact(6, 0, Field::VelocityX), 0);
    assert_eq!(space.sample_exact(3, 0, Field::VelocityX), 0);
}

#[test]
fn render_colors_solid_smoke_and_clear_cells() {
    let mut space = Space::new(4, 4, 17);
    space.set_exact(0, 0, Field::SmokeDensity, SCALE);
    space.set_exact(1, 0, Field::Permeability, 0);
    let pixels = space.render(4, 4);
    assert_eq!(pixels.len(), 64);
    // full smoke renders black
    assert_eq!(&pixels[0..4], &[0, 0, 0, 255]);
    // a solid cell renders in the highlight color
    assert_eq!(&pixels[4..8], &[50, 168, 82, 255]);
    // a clear cell renders white
    assert_eq!(&pixels[8..12], &[255, 255, 255, 255]);
}

#[test]
fn render_upscales_by_nearest_cell() {
    let mut space = Space::new(2, 2, 17);
    space.set_exact(1, 1, Field::SmokeDensity, SCALE);
    let pixels = space.render(4, 4);
    assert_eq!(pixels.len(), 64);
    // pixel (3, 3) maps to cell (1, 1), which holds full smoke
    let p: usize = (3 * 4 + 3) * 4;
    assert_eq!(&pixels[p..p + 4], &[0, 0, 0, 255]);
    // pixel (0, 0) maps to cell (0, 0), which is clear
    assert_eq!(&pixels[0..4], &[255, 255, 255, 255]);
}
