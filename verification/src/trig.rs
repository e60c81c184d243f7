//! Fixed-point circular functions.
//!
//! Angles are fixed-point scalars in radians.  An angle is first
//! reduced into `[0, TWO_PI_FX)`, then folded into a quarter turn, and
//! the quarter-turn values come from truncated Taylor polynomials
//! evaluated exactly in integer arithmetic.  The spec functions
//! [`cos_fx`] and [`sin_fx`] are the crate's definition of cosine and
//! sine; the executable code computes precisely those values.

use vstd::prelude::*;
use crate::fixed::{SCALE, HALF_PI_FX, PI_FX, THREE_HALF_PI_FX, TWO_PI_FX};

verus! {

/// Upper bound on the squared quarter-turn argument, scaled down:
/// `HALF_PI_FX * HALF_PI_FX / SCALE` rounds down to a value below it.
const USQ_BOUND: u64 = 2_500_000_000_000;

/// An angle reduced into `[0, TWO_PI_FX)`.
pub open spec fn reduced(x: int) -> int {
    x % (TWO_PI_FX as int)
}

/// One factor of the Horner form of the Taylor polynomials:
/// `1 - (u / k) * inner`, on raw values.
pub open spec fn horner_step(u: int, inner: int, k: int) -> int {
    (SCALE as int) - ((u * inner) / (SCALE as int)) / k
}

/// Sine on a quarter turn: the Taylor polynomial of degree 15 in
/// Horner form, evaluated on raw values with truncating divisions.
pub open spec fn sin_poly(x: int) -> int {
    let u = (x * x) / (SCALE as int);
    let i6 = horner_step(u, SCALE as int, 210);
    let i5 = horner_step(u, i6, 156);
    let i4 = horner_step(u, i5, 110);
    let i3 = horner_step(u, i4, 72);
    let i2 = horner_step(u, i3, 42);
    let i1 = horner_step(u, i2, 20);
    let i0 = horner_step(u, i1, 6);
    (x * i0) / (SCALE as int)
}

/// Cosine on a quarter turn: the Taylor polynomial of degree 14 in
/// Horner form, evaluated on raw values with truncating divisions.
pub open spec fn cos_poly(x: int) -> int {
    let u = (x * x) / (SCALE as int);
    let j6 = horner_step(u, SCALE as int, 182);
    let j5 = horner_step(u, j6, 132);
    let j4 = horner_step(u, j5, 90);
    let j3 = horner_step(u, j4, 56);
    let j2 = horner_step(u, j3, 30);
    let j1 = horner_step(u, j2, 12);
    (SCALE as int) - ((u * j1) / (SCALE as int)) / 2
}

/// Cosine of an arbitrary angle: quadrant folding over the reduced
/// angle.
pub open spec fn cos_fx(x: int) -> int {
    let r = reduced(x);
    if r < HALF_PI_FX {
        cos_poly(r)
    } else if r < PI_FX {
        -sin_poly(r - HALF_PI_FX)
    } else if r < THREE_HALF_PI_FX {
        -cos_poly(r - PI_FX)
    } else {
        sin_poly(r - THREE_HALF_PI_FX)
    }
}

/// Sine of an arbitrary angle: quadrant folding over the reduced
/// angle.
pub open spec fn sin_fx(x: int) -> int {
    let r = reduced(x);
    if r < HALF_PI_FX {
        sin_poly(r)
    } else if r < PI_FX {
        cos_poly(r - HALF_PI_FX)
    } else if r < THREE_HALF_PI_FX {
        -sin_poly(r - PI_FX)
    } else {
        -cos_poly(r - THREE_HALF_PI_FX)
    }
}

/// One Horner factor on raw values.
fn horner_step_exec(u: u64, inner: u64, k: u64) -> (r: u64)
    requires
        u <= USQ_BOUND,
        inner <= SCALE as u64,
        6 <= k,
    ensures
        r as int == horner_step(u as int, inner as int, k as int),
        r <= SCALE as u64,
{
    proof {
        assert((u as int) * (inner as int) <= (USQ_BOUND as int) * (SCALE as int))
            by (nonlinear_arith)
            requires
                0 <= u <= USQ_BOUND as int,
                0 <= inner <= SCALE as int,
        ;
        assert(0 <= (u as int) * (inner as int)) by (nonlinear_arith)
            requires
                0 <= u,
                0 <= inner,
        ;
        vstd::arithmetic::div_mod::lemma_div_is_ordered(
            (u as int) * (inner as int),
            (USQ_BOUND as int) * (SCALE as int),
            SCALE as int,
        );
        vstd::arithmetic::div_mod::lemma_div_is_ordered(
            0,
            (u as int) * (inner as int),
            SCALE as int,
        );
    }
    let p: u128 = (u as u128) * (inner as u128);
    let t1: u128 = p / (SCALE as u128);
    proof {
        vstd::arithmetic::div_mod::lemma_div_is_ordered_by_denominator(t1 as int, 6, k as int);
        vstd::arithmetic::div_mod::lemma_div_is_ordered(t1 as int, USQ_BOUND as int, 6);
        vstd::arithmetic::div_mod::lemma_div_is_ordered(0, t1 as int, k as int);
    }
    let t: u128 = t1 / (k as u128);
    (SCALE as u64) - (t as u64)
}

/// The squared quarter-turn argument, scaled down.
fn square_down(x: u64) -> (u: u64)
    requires
        x <= HALF_PI_FX as u64,
    ensures
        u as int == ((x as int) * (x as int)) / (SCALE as int),
        u <= USQ_BOUND,
{
    proof {
        assert((x as int) * (x as int) <= (HALF_PI_FX as int) * (HALF_PI_FX as int))
            by (nonlinear_arith)
            requires
                0 <= x <= HALF_PI_FX as int,
        ;
        assert(0 <= (x as int) * (x as int)) by (nonlinear_arith)
            requires
                0 <= x,
        ;
        vstd::arithmetic::div_mod::lemma_div_is_ordered(
            (x as int) * (x as int),
            (HALF_PI_FX as int) * (HALF_PI_FX as int),
            SCALE as int,
        );
        vstd::arithmetic::div_mod::lemma_div_is_ordered(0, (x as int) * (x as int), SCALE as int);
    }
    let p: u128 = (x as u128) * (x as u128);
    (p / (SCALE as u128)) as u64
}

/// Sine on a quarter turn.
fn quarter_sin(x: i64) -> (r: i64)
    requires
        0 <= x <= HALF_PI_FX,
    ensures
        r as int == sin_poly(x as int),
        0 <= r <= x,
{
    let u: u64 = square_down(x as u64);
    let i6: u64 = horner_step_exec(u, SCALE as u64, 210);
    let i5: u64 = horner_step_exec(u, i6, 156);
    let i4: u64 = horner_step_exec(u, i5, 110);
    let i3: u64 = horner_step_exec(u, i4, 72);
    let i2: u64 = horner_step_exec(u, i3, 42);
    let i1: u64 = horner_step_exec(u, i2, 20);
    let i0: u64 = horner_step_exec(u, i1, 6);
    proof {
        assert((x as int) * (i0 as int) <= (x as int) * (SCALE as int)) by (nonlinear_arith)
            requires
                0 <= x,
                0 <= i0 <= SCALE as int,
        ;
        assert(0 <= (x as int) * (i0 as int)) by (nonlinear_arith)
            requires
                0 <= x,
                0 <= i0,
        ;
        assert((x as int) * (SCALE as int) <= (HALF_PI_FX as int) * (SCALE as int))
            by (nonlinear_arith)
            requires
                0 <= x <= HALF_PI_FX as int,
        ;
        vstd::arithmetic::div_mod::lemma_div_is_ordered(
            (x as int) * (i0 as int),
            (x as int) * (SCALE as int),
            SCALE as int,
        );
        vstd::arithmetic::div_mod::lemma_div_is_ordered(0, (x as int) * (i0 as int), SCALE as int);
        vstd::arithmetic::div_mod::lemma_div_by_multiple(x as int, SCALE as int);
    }
    let p: u128 = ((x as u64) as u128) * (i0 as u128);
    (p / (SCALE as u128)) as i64
}

/// Cosine on a quarter turn.
fn quarter_cos(x: i64) -> (r: i64)
    requires
        0 <= x <= HALF_PI_FX,
    ensures
        r as int == cos_poly(x as int),
        -SCALE <= r <= SCALE,
{
    let u: u64 = square_down(x as u64);
    let j6: u64 = horner_step_exec(u, SCALE as u64, 182);
    let j5: u64 = horner_step_exec(u, j6, 132);
    let j4: u64 = horner_step_exec(u, j5, 90);
    let j3: u64 = horner_step_exec(u, j4, 56);
    let j2: u64 = horner_step_exec(u, j3, 30);
    let j1: u64 = horner_step_exec(u, j2, 12);
    proof {
        assert((u as int) * (j1 as int) <= (USQ_BOUND as int) * (SCALE as int))
            by (nonlinear_arith)
            requires
                0 <= u <= USQ_BOUND as int,
                0 <= j1 <= SCALE as int,
        ;
        assert(0 <= (u as int) * (j1 as int)) by (nonlinear_arith)
            requires
                0 <= u,
                0 <= j1,
        ;
        vstd::arithmetic::div_mod::lemma_div_is_ordered(
            (u as int) * (j1 as int),
            (USQ_BOUND as int) * (SCALE as int),
            SCALE as int,
        );
        vstd::arithmetic::div_mod::lemma_div_is_ordered(0, (u as int) * (j1 as int), SCALE as int);
        vstd::arithmetic::div_mod::lemma_div_is_ordered(
            ((u as int) * (j1 as int)) / (SCALE as int),
            USQ_BOUND as int,
            2,
        );
    }
    let p: u128 = (u as u128) * (j1 as u128);
    let t: u128 = p / (SCALE as u128) / 2;
    let c: i128 = (SCALE as i128) - (t as i128);
    c as i64
}

/// Reduces an angle into `[0, TWO_PI_FX)`.
pub(crate) fn reduce_angle(x: i128) -> (r: i64)
    requires
        i128::MIN < x,
    ensures
        r as int == reduced(x as int),
        0 <= r < TWO_PI_FX,
{
    let tp: u128 = TWO_PI_FX as u128;
    if x >= 0 {
        let m: u128 = (x as u128) % tp;
        m as i64
    } else {
        let y: u128 = (-x) as u128;
        let m: u128 = y % tp;
        proof {
            vstd::arithmetic::div_mod::lemma_fundamental_div_mod(y as int, tp as int);
            let q = (y as int) / (tp as int);
            if m == 0 {
                vstd::arithmetic::div_mod::lemma_fundamental_div_mod_converse_mod(
                    x as int,
                    tp as int,
                    -q,
                    0,
                );
            } else {
                vstd::arithmetic::div_mod::lemma_fundamental_div_mod_converse_mod(
                    x as int,
                    tp as int,
                    -q - 1,
                    tp as int - m as int,
                );
            }
        }
        if m == 0 {
            0
        } else {
            (tp - m) as i64
        }
    }
}

/// The reduced angle's cosine and sine, by quadrant folding.
pub(crate) fn cos_sin(x: i128) -> (r: (i64, i64))
    requires
        i128::MIN < x,
    ensures
        r.0 as int == cos_fx(x as int),
        r.1 as int == sin_fx(x as int),
        -2 * SCALE <= r.0 <= 2 * SCALE,
        -2 * SCALE <= r.1 <= 2 * SCALE,
{
    let a: i64 = reduce_angle(x);
    if a < HALF_PI_FX {
        (quarter_cos(a), quarter_sin(a))
    } else if a < PI_FX {
        let y: i64 = a - HALF_PI_FX;
        (-quarter_sin(y), quarter_cos(y))
    } else if a < THREE_HALF_PI_FX {
        let y: i64 = a - PI_FX;
        (-quarter_cos(y), -quarter_sin(y))
    } else {
        let y: i64 = a - THREE_HALF_PI_FX;
        (quarter_sin(y), -quarter_cos(y))
    }
}

/// The circular functions have period `TWO_PI_FX`: adding a full
/// turn to an angle changes nothing.
pub proof fn lemma_full_turn(x: int)
    ensures
        cos_fx(x + TWO_PI_FX) == cos_fx(x),
        sin_fx(x + TWO_PI_FX) == sin_fx(x),
{
    vstd::arithmetic::div_mod::lemma_mod_add_multiples_vanish(x, TWO_PI_FX as int);
}

/// At angle zero the unit vector is exactly `(1, 0)`.
pub proof fn lemma_unit_circle_zero()
    ensures
        cos_fx(0) == SCALE,
        sin_fx(0) == 0,
{
    vstd::arithmetic::div_mod::lemma_small_mod(0, TWO_PI_FX as nat);
}

/// At the fixed-point representative of pi the unit vector is exactly
/// `(-1, 0)`.
pub proof fn lemma_unit_circle_pi()
    ensures
        cos_fx(PI_FX as int) == -SCALE,
        sin_fx(PI_FX as int) == 0,
{
    vstd::arithmetic::div_mod::lemma_small_mod(PI_FX as nat, TWO_PI_FX as nat);
}

} // verus!
