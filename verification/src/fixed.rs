//! Fixed-point scalar arithmetic for the solver.
//!
//! Field values and coordinates are stored as `i64` multiples of `1/SCALE`,
//! so `SCALE` represents 1.0 and `HALF_SCALE` represents 0.5. Every
//! arithmetic operation saturates at `MAX_MAGNITUDE`, which keeps all
//! operations total and all stored values bounded.

use vstd::prelude::*;

verus! {

/// Number of fixed-point units that represent the value 1.0.
pub const SCALE: i64 = 1000;

/// Fixed-point representation of 0.5, the face-staggering offset.
pub const HALF_SCALE: i64 = 500;

/// Fixed-point representation of the projector's overrelaxation factor 1.9.
pub const OVERRELAXATION: i64 = 1900;

/// Largest magnitude a fixed-point value may take; all operations saturate here.
pub const MAX_MAGNITUDE: i64 = 1_000_000_000_000;

/// A value within the saturation bounds.
pub open spec fn in_range(x: int) -> bool {
    -(MAX_MAGNITUDE as int) <= x <= MAX_MAGNITUDE as int
}

/// Saturate an unbounded integer into the representable range.
pub open spec fn clip(x: int) -> int {
    if x > MAX_MAGNITUDE as int {
        MAX_MAGNITUDE as int
    } else if x < -(MAX_MAGNITUDE as int) {
        -(MAX_MAGNITUDE as int)
    } else {
        x
    }
}

/// Division truncating toward zero (the machine's signed division), for a
/// positive divisor.
pub open spec fn tdiv(n: int, d: int) -> int
    recommends
        d > 0,
{
    if n >= 0 {
        n / d
    } else {
        -((-n) / d)
    }
}

/// Saturating fixed-point addition.
pub open spec fn fadd_spec(a: int, b: int) -> int {
    clip(a + b)
}

/// Saturating fixed-point subtraction.
pub open spec fn fsub_spec(a: int, b: int) -> int {
    clip(a - b)
}

/// Saturating fixed-point multiplication: the double-width product is
/// rescaled by `SCALE` (truncating toward zero), then saturated.
pub open spec fn fmul_spec(a: int, b: int) -> int {
    clip(tdiv(a * b, SCALE as int))
}

pub proof fn lemma_i64_product_fits(a: int, b: int)
    requires
        i64::MIN as int <= a <= i64::MAX as int,
        i64::MIN as int <= b <= i64::MAX as int,
    ensures
        i128::MIN as int <= a * b <= i128::MAX as int,
{
    assert(i128::MIN as int <= a * b <= i128::MAX as int) by (nonlinear_arith)
        requires
            -0x8000_0000_0000_0000 <= a <= 0x7fff_ffff_ffff_ffff,
            -0x8000_0000_0000_0000 <= b <= 0x7fff_ffff_ffff_ffff,
    ;
}

fn clip_i128(x: i128) -> (r: i64)
    ensures
        r == clip(x as int),
        in_range(r as int),
{
    if x > MAX_MAGNITUDE as i128 {
        MAX_MAGNITUDE
    } else if x < -(MAX_MAGNITUDE as i128) {
        -MAX_MAGNITUDE
    } else {
        x as i64
    }
}

/// Saturating fixed-point addition of two representable values.
pub fn fadd(a: i64, b: i64) -> (r: i64)
    ensures
        r == fadd_spec(a as int, b as int),
        in_range(r as int),
{
    clip_i128(a as i128 + b as i128)
}

/// Saturating fixed-point subtraction.
pub fn fsub(a: i64, b: i64) -> (r: i64)
    ensures
        r == fsub_spec(a as int, b as int),
        in_range(r as int),
{
    clip_i128(a as i128 - b as i128)
}

/// Saturating fixed-point multiplication.
pub fn fmul(a: i64, b: i64) -> (r: i64)
    ensures
        r == fmul_spec(a as int, b as int),
        in_range(r as int),
{
    proof {
        lemma_i64_product_fits(a as int, b as int);
    }
    let p: i128 = (a as i128) * (b as i128);
    let q: i128 = p / (SCALE as i128);
    proof {
        assert(q == tdiv(p as int, SCALE as int));
    }
    clip_i128(q)
}

/// When the divisor divides the dividend, truncating division agrees with
/// mathematical (floor) division and the product recovers the dividend.
pub proof fn lemma_tdiv_exact(n: int, d: int)
    requires
        d > 0,
        n % d == 0,
    ensures
        tdiv(n, d) == n / d,
        d * (n / d) == n,
{
    vstd::arithmetic::div_mod::lemma_fundamental_div_mod(n, d);
    if n < 0 {
        let q = n / d;
        assert(-n == (-q) * d + 0) by (nonlinear_arith)
            requires
                n == d * q,
        ;
        vstd::arithmetic::div_mod::lemma_fundamental_div_mod_converse(-n, d, -q, 0);
    }
}

/// Floor-style remainder: the result is in `[0, b)` for every `a` and every
/// positive `b`, matching the mathematical (Euclidean) remainder.
pub fn fixed_mod(a: i64, b: i64) -> (r: i64)
    requires
        b > 0,
    ensures
        r == (a as int) % (b as int),
        0 <= r < b,
{
    let bi = b as i128;
    let m1 = (a as i128) % bi;
    let t = if m1 < 0 {
        m1 + bi
    } else {
        m1
    };
    proof {
        let ai = a as int;
        let bn = b as int;
        if ai >= 0 {
            assert(t == ai % bn);
        } else {
            let u = (-ai) % bn;
            assert(m1 == -u);
            vstd::arithmetic::div_mod::lemma_fundamental_div_mod(-ai, bn);
            let q = (-ai) / bn;
            assert(-ai == bn * q + u);
            if u == 0 {
                assert(ai == (-q) * bn + 0) by (nonlinear_arith)
                    requires
                        -ai == bn * q,
                ;
                vstd::arithmetic::div_mod::lemma_fundamental_div_mod_converse_mod(ai, bn, -q, 0);
                assert(t == ai % bn);
            } else {
                assert(ai == (-q - 1) * bn + (bn - u)) by (nonlinear_arith)
                    requires
                        -ai == bn * q + u,
                ;
                vstd::arithmetic::div_mod::lemma_fundamental_div_mod_converse_mod(
                    ai,
                    bn,
                    -q - 1,
                    bn - u,
                );
                assert(t == ai % bn);
            }
        }
    }
    t as i64
}

} // verus!
