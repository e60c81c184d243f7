//! Fixed-point scalars.
//!
//! Every real-valued quantity in this crate (coordinates, amplitudes,
//! phases, frequencies, times) is held as a signed integer counting
//! units of `1 / SCALE`, so that the whole simulation is exact integer
//! arithmetic and can be reasoned about directly.

use vstd::prelude::*;

verus! {

/// Number of raw units per one: all scalars are fixed-point values at
/// this scale (twelve fractional decimal digits).
pub const SCALE: i64 = 1_000_000_000_000;

/// Half pi at the fixed-point scale, rounded to the nearest unit.
pub const HALF_PI_FX: i64 = 1_570_796_326_795;

/// Pi at the fixed-point scale; exactly `2 * HALF_PI_FX`.
pub const PI_FX: i64 = 3_141_592_653_590;

/// Three half pi at the fixed-point scale; exactly `3 * HALF_PI_FX`.
pub const THREE_HALF_PI_FX: i64 = 4_712_388_980_385;

/// Two pi at the fixed-point scale; exactly `4 * HALF_PI_FX`.
pub const TWO_PI_FX: i64 = 6_283_185_307_180;

/// Largest raw amplitude a rotating arm may carry: keeps the sum of
/// three arm samples inside `i64` (see `spirograph`).
pub const AMP_LIMIT: i64 = 1_000_000_000_000_000_000;

/// Scales a raw double-width product back down, truncating toward
/// zero: the raw value of the product of two fixed-point scalars.
pub open spec fn fx_down(p: int) -> int {
    if p >= 0 {
        p / (SCALE as int)
    } else {
        -((-p) / (SCALE as int))
    }
}

/// The fixed-point product of two scalars.
pub open spec fn fx_mul(a: int, b: int) -> int {
    fx_down(a * b)
}

/// A bound on a raw product bounds the scaled-down result.
pub proof fn lemma_fx_down_bound(p: int, m: int)
    requires
        0 <= m,
        -m <= p <= m,
    ensures
        -(m / (SCALE as int)) <= fx_down(p) <= m / (SCALE as int),
{
    if p >= 0 {
        vstd::arithmetic::div_mod::lemma_div_is_ordered(p, m, SCALE as int);
        vstd::arithmetic::div_mod::lemma_div_is_ordered(0, p, SCALE as int);
    } else {
        vstd::arithmetic::div_mod::lemma_div_is_ordered(-p, m, SCALE as int);
        vstd::arithmetic::div_mod::lemma_div_is_ordered(0, -p, SCALE as int);
    }
}

/// A product of two single-width scalars stays strictly inside the
/// double-width range.
pub proof fn lemma_i64_product_bounds(a: int, b: int)
    by (nonlinear_arith)
    requires
        i64::MIN <= a <= i64::MAX,
        i64::MIN <= b <= i64::MAX,
    ensures
        -0x40000000000000000000000000000000 <= a * b,
        a * b <= 0x40000000000000000000000000000000,
{
}

/// Divides a double-width raw product by the scale, truncating toward
/// zero.
pub(crate) fn fx_down_exec(p: i128) -> (r: i128)
    requires
        i128::MIN < p,
    ensures
        r == fx_down(p as int),
{
    if p >= 0 {
        let q: u128 = (p as u128) / (SCALE as u128);
        proof {
            vstd::arithmetic::div_mod::lemma_div_is_ordered(
                p as int,
                i128::MAX as int,
                SCALE as int,
            );
            vstd::arithmetic::div_mod::lemma_div_is_ordered(0, p as int, SCALE as int);
        }
        q as i128
    } else {
        let n: u128 = (-p) as u128;
        let q: u128 = n / (SCALE as u128);
        proof {
            vstd::arithmetic::div_mod::lemma_div_is_ordered(
                n as int,
                i128::MAX as int,
                SCALE as int,
            );
            vstd::arithmetic::div_mod::lemma_div_is_ordered(0, n as int, SCALE as int);
        }
        -(q as i128)
    }
}

} // verus!
