//! Planar vectors as complex numbers.
//!
//! A `Complex` holds a 2D point whose coordinates are fixed-point
//! scalars (see [`crate::fixed`]).  Arithmetic is exact integer
//! arithmetic; equality is approximate by design, comparing the
//! squared distance against a small threshold, because values come
//! out of trigonometric evaluation.

use vstd::prelude::*;
use crate::fixed::{SCALE, fx_down, fx_mul, fx_down_exec, lemma_i64_product_bounds};
use crate::trig::{cos_fx, sin_fx, cos_sin};

verus! {

/// Raw distance threshold under which two vectors compare equal:
/// one millionth.
pub const EQ_EPS: i64 = 1_000_000;

/// A 2D vector written as a complex number; both coordinates are raw
/// fixed-point scalars.
#[derive(Clone, Copy, Debug)]
pub struct Complex {
    pub re: i64,
    pub im: i64,
}

/// Squared Euclidean distance between two vectors, on raw values.
pub open spec fn dist_sq(a: Complex, b: Complex) -> int {
    (a.re - b.re) * (a.re - b.re) + (a.im - b.im) * (a.im - b.im)
}

/// Floor square root of a double-width value, by bisection.
fn isqrt_u128(n: u128) -> (r: u64)
    ensures
        (r as int) * (r as int) <= n as int,
        (n as int) < ((r as int) + 1) * ((r as int) + 1),
{
    let mut lo: u128 = 0;
    let mut hi: u128 = 0x1_0000_0000_0000_0000;
    proof {
        assert((hi as int) * (hi as int) > u128::MAX as int) by (nonlinear_arith)
            requires
                hi == 0x1_0000_0000_0000_0000,
        ;
    }
    while hi - lo > 1
        invariant
            lo < hi <= 0x1_0000_0000_0000_0000,
            (lo as int) * (lo as int) <= n as int,
            (n as int) < (hi as int) * (hi as int),
        decreases hi - lo,
    {
        let mid: u128 = lo + (hi - lo) / 2;
        proof {
            assert((mid as int) * (mid as int) < 0x100000000000000000000000000000000)
                by (nonlinear_arith)
                requires
                    0 <= mid < 0x1_0000_0000_0000_0000,
            ;
        }
        if mid * mid <= n {
            lo = mid;
        } else {
            hi = mid;
        }
    }
    lo as u64
}

impl Complex {
    /// Builds the vector with the given raw coordinates.
    pub fn new(re: i64, im: i64) -> (r: Complex)
        ensures
            r.re == re,
            r.im == im,
    {
        Complex { re, im }
    }

    /// Componentwise sum.
    pub fn add(self, other: Complex) -> (r: Complex)
        requires
            i64::MIN <= self.re + other.re <= i64::MAX,
            i64::MIN <= self.im + other.im <= i64::MAX,
        ensures
            r.re == self.re + other.re,
            r.im == self.im + other.im,
    {
        Complex { re: self.re + other.re, im: self.im + other.im }
    }

    /// Componentwise difference.
    pub fn sub(self, other: Complex) -> (r: Complex)
        requires
            i64::MIN <= self.re - other.re <= i64::MAX,
            i64::MIN <= self.im - other.im <= i64::MAX,
        ensures
            r.re == self.re - other.re,
            r.im == self.im - other.im,
    {
        Complex { re: self.re - other.re, im: self.im - other.im }
    }

    /// Complex product `(ac - bd, ad + bc)`, scaled back down.
    pub fn mul(self, other: Complex) -> (r: Complex)
        requires
            i64::MIN <= fx_down(self.re * other.re - self.im * other.im) <= i64::MAX,
            i64::MIN <= fx_down(self.re * other.im + self.im * other.re) <= i64::MAX,
        ensures
            r.re == fx_down(self.re * other.re - self.im * other.im),
            r.im == fx_down(self.re * other.im + self.im * other.re),
    {
        let a: i128 = self.re as i128;
        let b: i128 = self.im as i128;
        let c: i128 = other.re as i128;
        let d: i128 = other.im as i128;
        proof {
            lemma_i64_product_bounds(a as int, c as int);
            lemma_i64_product_bounds(b as int, d as int);
            lemma_i64_product_bounds(a as int, d as int);
            lemma_i64_product_bounds(b as int, c as int);
        }
        let re: i128 = fx_down_exec(a * c - b * d);
        let im: i128 = fx_down_exec(a * d + b * c);
        Complex { re: re as i64, im: im as i64 }
    }

    /// Scalar multiple: the product with the real vector `(k, 0)`.
    pub fn scale(k: i64, v: Complex) -> (r: Complex)
        requires
            i64::MIN <= fx_mul(k as int, v.re as int) <= i64::MAX,
            i64::MIN <= fx_mul(k as int, v.im as int) <= i64::MAX,
        ensures
            r.re == fx_mul(k as int, v.re as int),
            r.im == fx_mul(k as int, v.im as int),
    {
        proof {
            lemma_i64_product_bounds(k as int, v.re as int);
            lemma_i64_product_bounds(k as int, v.im as int);
        }
        let re: i128 = fx_down_exec((k as i128) * (v.re as i128));
        let im: i128 = fx_down_exec((k as i128) * (v.im as i128));
        Complex { re: re as i64, im: im as i64 }
    }

    /// Euclidean norm on raw values: the floor square root of the
    /// squared magnitude.  Total over all coordinates.
    pub fn mag(self) -> (r: u64)
        ensures
            (r as int) * (r as int) <= dist_sq(self, Complex { re: 0, im: 0 }),
            dist_sq(self, Complex { re: 0, im: 0 }) < ((r as int) + 1) * ((r as int) + 1),
    {
        let a: i128 = self.re as i128;
        let b: i128 = self.im as i128;
        proof {
            lemma_i64_product_bounds(a as int, a as int);
            lemma_i64_product_bounds(b as int, b as int);
            assert((a as int) * (a as int) >= 0) by (nonlinear_arith);
            assert((b as int) * (b as int) >= 0) by (nonlinear_arith);
        }
        let sq: u128 = ((a * a) as u128) + ((b * b) as u128);
        isqrt_u128(sq)
    }

    /// The point at the given angle on the unit circle:
    /// `(cos theta, sin theta)` at the crate's fixed-point scale.
    pub fn exp_i(theta: i64) -> (r: Complex)
        ensures
            r.re == cos_fx(theta as int),
            r.im == sin_fx(theta as int),
            -2 * SCALE <= r.re <= 2 * SCALE,
            -2 * SCALE <= r.im <= 2 * SCALE,
    {
        let cs: (i64, i64) = cos_sin(theta as i128);
        Complex { re: cs.0, im: cs.1 }
    }

    /// Whether the two vectors lie strictly within `epsilon` of each
    /// other; false whenever `epsilon` is not positive.
    pub fn approx_eq(a: Complex, b: Complex, epsilon: i64) -> (r: bool)
        requires
            i64::MIN <= a.re - b.re <= i64::MAX,
            i64::MIN <= a.im - b.im <= i64::MAX,
        ensures
            r <==> (epsilon > 0 && dist_sq(a, b) < (epsilon as int) * (epsilon as int)),
    {
        if epsilon <= 0 {
            return false;
        }
        let m: u64 = a.sub(b).mag();
        proof {
            let e = epsilon as int;
            let mi = m as int;
            if mi < e {
                assert((mi + 1) * (mi + 1) <= e * e) by (nonlinear_arith)
                    requires
                        0 <= mi,
                        mi + 1 <= e,
                ;
            } else {
                assert(e * e <= mi * mi) by (nonlinear_arith)
                    requires
                        0 <= e <= mi,
                ;
            }
        }
        m < (epsilon as u64)
    }
}

impl PartialEq for Complex {
    /// Approximate equality: squared distance strictly below the
    /// square of `EQ_EPS`.
    fn eq(&self, other: &Self) -> (r: bool) {
        let dre: i128 = (self.re as i128) - (other.re as i128);
        let dim: i128 = (self.im as i128) - (other.im as i128);
        let e: i128 = EQ_EPS as i128;
        if dre >= e || dre <= -e || dim >= e || dim <= -e {
            proof {
                assert(dist_sq(*self, *other) >= (e as int) * (e as int)) by (nonlinear_arith)
                    requires
                        e == EQ_EPS as int,
                        dre == self.re - other.re,
                        dim == self.im - other.im,
                        dre >= e || dre <= -e || dim >= e || dim <= -e,
                ;
            }
            false
        } else {
            proof {
                assert(-e * e <= dre * dre <= e * e && -e * e <= dim * dim <= e * e)
                    by (nonlinear_arith)
                    requires
                        0 < e,
                        -e < dre < e,
                        -e < dim < e,
                ;
            }
            dre * dre + dim * dim < e * e
        }
    }
}

impl vstd::std_specs::cmp::PartialEqSpecImpl for Complex {
    open spec fn obeys_eq_spec() -> bool {
        true
    }

    open spec fn eq_spec(&self, other: &Complex) -> bool {
        dist_sq(*self, *other) < (EQ_EPS as int) * (EQ_EPS as int)
    }
}

} // verus!
