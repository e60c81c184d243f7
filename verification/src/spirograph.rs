//! The spirograph core: rotating arms and their sum.
//!
//! A [`Spinner`] is one rotating arm; a [`Spirograph`] owns exactly
//! three of them (main circle, inner circle, pen) and samples their
//! vector sum as a function of time.  The ghost type [`Arm`] is the
//! mathematical state of one arm, over unbounded integers, and every
//! contract speaks of sequences of arms.

use vstd::prelude::*;
use vstd::pervasive::VecAdditionalExecFns;
use crate::fixed::{
    SCALE, PI_FX, TWO_PI_FX, AMP_LIMIT, fx_mul, fx_down_exec, lemma_fx_down_bound,
    lemma_i64_product_bounds,
};
use crate::trig::{cos_fx, sin_fx, cos_sin};
use crate::complex::Complex;

verus! {

/// The mathematical state of one rotating arm.
pub ghost struct Arm {
    pub phase: int,
    pub frequency: int,
    pub amplitude: int,
}

/// The arm's angle at time `t`: `frequency * t + phase` on raw
/// values.
pub open spec fn arm_angle(a: Arm, t: int) -> int {
    fx_mul(a.frequency, t) + a.phase
}

/// Real part of the arm's sample: amplitude times the cosine of its
/// angle.
pub open spec fn arm_re(a: Arm, t: int) -> int {
    fx_mul(a.amplitude, cos_fx(arm_angle(a, t)))
}

/// Imaginary part of the arm's sample: amplitude times the sine of
/// its angle.
pub open spec fn arm_im(a: Arm, t: int) -> int {
    fx_mul(a.amplitude, sin_fx(arm_angle(a, t)))
}

/// Real part of the sum of the first `n` arms' samples.
pub open spec fn curve_re(arms: Seq<Arm>, t: int, n: int) -> int
    decreases n,
{
    if n <= 0 {
        0
    } else {
        curve_re(arms, t, n - 1) + arm_re(arms[n - 1], t)
    }
}

/// Imaginary part of the sum of the first `n` arms' samples.
pub open spec fn curve_im(arms: Seq<Arm>, t: int, n: int) -> int
    decreases n,
{
    if n <= 0 {
        0
    } else {
        curve_im(arms, t, n - 1) + arm_im(arms[n - 1], t)
    }
}

/// The arm with its phase shifted by `d`.
pub open spec fn shift_phase(a: Arm, d: int) -> Arm {
    Arm { phase: a.phase + d, frequency: a.frequency, amplitude: a.amplitude }
}

/// The arm with its amplitude shifted by `d`.
pub open spec fn shift_amplitude(a: Arm, d: int) -> Arm {
    Arm { phase: a.phase, frequency: a.frequency, amplitude: a.amplitude + d }
}

/// Every arm's phase shifted by `d`.
pub open spec fn shift_phases(arms: Seq<Arm>, d: int) -> Seq<Arm> {
    arms.map_values(|a: Arm| shift_phase(a, d))
}

/// Every arm's amplitude shifted by `d`.
pub open spec fn shift_amplitudes(arms: Seq<Arm>, d: int) -> Seq<Arm> {
    arms.map_values(|a: Arm| shift_amplitude(a, d))
}

/// Exactly three arms, each with an amplitude the sampler can scale
/// without overflow.
pub open spec fn wf_arms(arms: Seq<Arm>) -> bool {
    &&& arms.len() == 3
    &&& forall|i: int|
        0 <= i < arms.len() ==> -AMP_LIMIT <= (#[trigger] arms[i]).amplitude <= AMP_LIMIT
}

/// Phase offsets add: shifting all phases by `a` and then by `b`
/// yields the same arms, and hence the same curve, as one shift by
/// `a + b`.
pub proof fn lemma_offset_phase_additive(arms: Seq<Arm>, a: int, b: int, t: int, n: int)
    ensures
        shift_phases(shift_phases(arms, a), b) == shift_phases(arms, a + b),
        curve_re(shift_phases(shift_phases(arms, a), b), t, n) == curve_re(
            shift_phases(arms, a + b),
            t,
            n,
        ),
        curve_im(shift_phases(shift_phases(arms, a), b), t, n) == curve_im(
            shift_phases(arms, a + b),
            t,
            n,
        ),
{
    assert(shift_phases(shift_phases(arms, a), b) =~= shift_phases(arms, a + b));
}

/// Phase wraps through the periodicity of the exponential: shifting
/// every phase by a full turn leaves the whole curve unchanged.
pub proof fn lemma_full_turn_phase(arms: Seq<Arm>, t: int, n: int)
    requires
        n <= arms.len(),
    ensures
        curve_re(shift_phases(arms, TWO_PI_FX as int), t, n) == curve_re(arms, t, n),
        curve_im(shift_phases(arms, TWO_PI_FX as int), t, n) == curve_im(arms, t, n),
    decreases n,
{
    if n > 0 {
        lemma_full_turn_phase(arms, t, n - 1);
        if 0 <= n - 1 < arms.len() {
            let a = arms[n - 1];
            crate::trig::lemma_full_turn(arm_angle(a, t));
            assert(shift_phases(arms, TWO_PI_FX as int)[n - 1] == shift_phase(
                a,
                TWO_PI_FX as int,
            ));
            assert(arm_angle(shift_phase(a, TWO_PI_FX as int), t) == arm_angle(a, t)
                + TWO_PI_FX);
        }
    }
}

/// Amplitude offsets add, in the same sense.
pub proof fn lemma_offset_amplitude_additive(arms: Seq<Arm>, a: int, b: int, t: int, n: int)
    ensures
        shift_amplitudes(shift_amplitudes(arms, a), b) == shift_amplitudes(arms, a + b),
        curve_re(shift_amplitudes(shift_amplitudes(arms, a), b), t, n) == curve_re(
            shift_amplitudes(arms, a + b),
            t,
            n,
        ),
        curve_im(shift_amplitudes(shift_amplitudes(arms, a), b), t, n) == curve_im(
            shift_amplitudes(arms, a + b),
            t,
            n,
        ),
{
    assert(shift_amplitudes(shift_amplitudes(arms, a), b) =~= shift_amplitudes(arms, a + b));
}

/// One rotating arm: `amplitude * exp_i(frequency * t + phase)`,
/// all raw fixed-point scalars.
#[derive(Clone, Copy, Debug)]
pub struct Spinner {
    pub phase: i64,
    pub frequency: i64,
    pub amplitude: i64,
}

impl View for Spinner {
    type V = Arm;

    open spec fn view(&self) -> Arm {
        Arm {
            phase: self.phase as int,
            frequency: self.frequency as int,
            amplitude: self.amplitude as int,
        }
    }
}

impl Spinner {
    /// The arm's sample at time `t`.
    pub fn sample(&self, t: i64) -> (r: Complex)
        requires
            -AMP_LIMIT <= self.amplitude <= AMP_LIMIT,
        ensures
            r.re == arm_re(self@, t as int),
            r.im == arm_im(self@, t as int),
            -2 * AMP_LIMIT <= r.re <= 2 * AMP_LIMIT,
            -2 * AMP_LIMIT <= r.im <= 2 * AMP_LIMIT,
    {
        proof {
            lemma_i64_product_bounds(self.frequency as int, t as int);
            lemma_fx_down_bound(
                (self.frequency as int) * (t as int),
                0x40000000000000000000000000000000,
            );
        }
        let ft: i128 = (self.frequency as i128) * (t as i128);
        let ang: i128 = fx_down_exec(ft) + (self.phase as i128);
        let cs: (i64, i64) = cos_sin(ang);
        proof {
            lemma_i64_product_bounds(self.amplitude as int, cs.0 as int);
            lemma_i64_product_bounds(self.amplitude as int, cs.1 as int);
            assert(-((AMP_LIMIT as int) * (2 * (SCALE as int))) <= (self.amplitude as int) * (
            cs.0 as int) <= (AMP_LIMIT as int) * (2 * (SCALE as int))) by (nonlinear_arith)
                requires
                    -(AMP_LIMIT as int) <= self.amplitude as int <= AMP_LIMIT as int,
                    -(2 * (SCALE as int)) <= cs.0 as int <= 2 * (SCALE as int),
            ;
            assert(-((AMP_LIMIT as int) * (2 * (SCALE as int))) <= (self.amplitude as int) * (
            cs.1 as int) <= (AMP_LIMIT as int) * (2 * (SCALE as int))) by (nonlinear_arith)
                requires
                    -(AMP_LIMIT as int) <= self.amplitude as int <= AMP_LIMIT as int,
                    -(2 * (SCALE as int)) <= cs.1 as int <= 2 * (SCALE as int),
            ;
            lemma_fx_down_bound(
                (self.amplitude as int) * (cs.0 as int),
                (AMP_LIMIT as int) * (2 * (SCALE as int)),
            );
            lemma_fx_down_bound(
                (self.amplitude as int) * (cs.1 as int),
                (AMP_LIMIT as int) * (2 * (SCALE as int)),
            );
            vstd::arithmetic::div_mod::lemma_div_by_multiple(
                2 * (AMP_LIMIT as int),
                SCALE as int,
            );
        }
        let re: i128 = fx_down_exec((self.amplitude as i128) * (cs.0 as i128));
        let im: i128 = fx_down_exec((self.amplitude as i128) * (cs.1 as i128));
        Complex { re: re as i64, im: im as i64 }
    }
}

/// An ordered collection of three rotating arms whose samples are
/// summed: main circle, inner circle, pen.
pub struct Spirograph {
    spinners: Vec<Spinner>,
}

impl View for Spirograph {
    type V = Seq<Arm>;

    closed spec fn view(&self) -> Seq<Arm> {
        self.spinners@.map_values(|s: Spinner| s@)
    }
}

impl Spirograph {
    /// Well-formed: the three arms are present with amplitudes in
    /// sampling range.
    pub open spec fn wf(&self) -> bool {
        wf_arms(self@)
    }

    /// Builds the classical epicycloid arm set from the four ratios:
    /// a unit main circle, an opposed inner circle of relative radius
    /// `inner_circle_ratio`, and a pen at `pen_ratio` of the inner
    /// radius spinning `pen_frequency_ratio` times as fast the other
    /// way.
    pub fn new(
        inner_circle_ratio: i64,
        pen_ratio: i64,
        frequency: i64,
        pen_frequency_ratio: i64,
    ) -> (r: Spirograph)
        requires
            -AMP_LIMIT <= inner_circle_ratio <= AMP_LIMIT,
            -AMP_LIMIT <= fx_mul(inner_circle_ratio as int, pen_ratio as int) <= AMP_LIMIT,
            -(i64::MAX as int) <= fx_mul(pen_frequency_ratio as int, frequency as int)
                <= i64::MAX as int,
        ensures
            r.wf(),
            r@.len() == 3,
            r@[0] == (Arm { phase: 0, frequency: frequency as int, amplitude: SCALE as int }),
            r@[1] == (Arm {
                phase: PI_FX as int,
                frequency: frequency as int,
                amplitude: inner_circle_ratio as int,
            }),
            r@[2] == (Arm {
                phase: 0,
                frequency: -fx_mul(pen_frequency_ratio as int, frequency as int),
                amplitude: fx_mul(inner_circle_ratio as int, pen_ratio as int),
            }),
    {
        let main = Spinner { frequency, amplitude: SCALE, phase: 0 };
        let inner = Spinner { frequency, amplitude: inner_circle_ratio, phase: PI_FX };
        proof {
            lemma_i64_product_bounds(pen_frequency_ratio as int, frequency as int);
            lemma_i64_product_bounds(inner_circle_ratio as int, pen_ratio as int);
        }
        let pf: i128 = fx_down_exec((pen_frequency_ratio as i128) * (frequency as i128));
        let pa: i128 = fx_down_exec((inner_circle_ratio as i128) * (pen_ratio as i128));
        let pen = Spinner { frequency: (-pf) as i64, amplitude: pa as i64, phase: 0 };
        let mut spinners: Vec<Spinner> = Vec::new();
        spinners.push(main);
        spinners.push(inner);
        spinners.push(pen);
        let r = Spirograph { spinners };
        proof {
            assert(r@.len() == 3);
        }
        r
    }

    /// Adds `offset` to every arm's phase, in place.
    pub fn offset_phase(&mut self, offset: i64)
        requires
            forall|j: int|
                0 <= j < old(self)@.len() ==> i64::MIN <= (#[trigger] old(self)@[j]).phase
                    + offset <= i64::MAX,
        ensures
            final(self)@ == shift_phases(old(self)@, offset as int),
    {
        let n: usize = self.spinners.len();
        let mut i: usize = 0;
        while i < n
            invariant
                i <= n,
                n == self.spinners@.len(),
                self.spinners@.len() == old(self).spinners@.len(),
                forall|j: int|
                    0 <= j < old(self)@.len() ==> i64::MIN <= (#[trigger] old(self)@[j]).phase
                        + offset <= i64::MAX,
                forall|j: int|
                    0 <= j < i ==> #[trigger] self.spinners@[j] == (Spinner {
                        phase: (old(self).spinners@[j].phase + offset) as i64,
                        frequency: old(self).spinners@[j].frequency,
                        amplitude: old(self).spinners@[j].amplitude,
                    }),
                forall|j: int| i <= j < n ==> #[trigger] self.spinners@[j] == old(
                    self,
                ).spinners@[j],
            decreases n - i,
        {
            let s: Spinner = self.spinners[i];
            proof {
                assert(old(self)@[i as int] == old(self).spinners@[i as int]@);
            }
            let updated = Spinner {
                phase: s.phase + offset,
                frequency: s.frequency,
                amplitude: s.amplitude,
            };
            self.spinners.set(i, updated);
            i += 1;
        }
        proof {
            assert(self@ =~= shift_phases(old(self)@, offset as int));
        }
    }

    /// Adds `offset` to every arm's amplitude, in place.  An
    /// amplitude may cross zero or go negative; that is a valid
    /// state.
    pub fn offset_amplitude(&mut self, offset: i64)
        requires
            forall|j: int|
                0 <= j < old(self)@.len() ==> i64::MIN <= (#[trigger] old(self)@[j]).amplitude
                    + offset <= i64::MAX,
        ensures
            final(self)@ == shift_amplitudes(old(self)@, offset as int),
    {
        let n: usize = self.spinners.len();
        let mut i: usize = 0;
        while i < n
            invariant
                i <= n,
                n == self.spinners@.len(),
                self.spinners@.len() == old(self).spinners@.len(),
                forall|j: int|
                    0 <= j < old(self)@.len() ==> i64::MIN <= (#[trigger] old(self)@[j]).amplitude
                        + offset <= i64::MAX,
                forall|j: int|
                    0 <= j < i ==> #[trigger] self.spinners@[j] == (Spinner {
                        phase: old(self).spinners@[j].phase,
                        frequency: old(self).spinners@[j].frequency,
                        amplitude: (old(self).spinners@[j].amplitude + offset) as i64,
                    }),
                forall|j: int| i <= j < n ==> #[trigger] self.spinners@[j] == old(
                    self,
                ).spinners@[j],
            decreases n - i,
        {
            let s: Spinner = self.spinners[i];
            proof {
                assert(old(self)@[i as int] == old(self).spinners@[i as int]@);
            }
            let updated = Spinner {
                phase: s.phase,
                frequency: s.frequency,
                amplitude: s.amplitude + offset,
            };
            self.spinners.set(i, updated);
            i += 1;
        }
        proof {
            assert(self@ =~= shift_amplitudes(old(self)@, offset as int));
        }
    }

    /// The curve's point at time `t`: the sum of the three arms'
    /// samples.  Pure: the result is a function of the arm state and
    /// `t` alone.
    pub fn sample(&self, t: i64) -> (r: Complex)
        requires
            self.wf(),
        ensures
            r.re == curve_re(self@, t as int, self@.len() as int),
            r.im == curve_im(self@, t as int, self@.len() as int),
    {
        let n: usize = self.spinners.len();
        let mut sum = Complex::new(0, 0);
        let mut i: usize = 0;
        while i < n
            invariant
                self.wf(),
                i <= n,
                n == self.spinners@.len(),
                sum.re == curve_re(self@, t as int, i as int),
                sum.im == curve_im(self@, t as int, i as int),
                -2_000_000_000_000_000_000 * (i as int) <= sum.re as int
                    <= 2_000_000_000_000_000_000 * (i as int),
                -2_000_000_000_000_000_000 * (i as int) <= sum.im as int
                    <= 2_000_000_000_000_000_000 * (i as int),
            decreases n - i,
        {
            proof {
                assert(self@.len() == self.spinners@.len());
                assert(self@[i as int] == self.spinners@[i as int]@);
            }
            let s: Complex = self.spinners[i].sample(t);
            sum = sum.add(s);
            i += 1;
        }
        sum
    }

    /// The running partial sums of the arms' samples at time `t`, in
    /// arm order: origin, main, main + inner, main + inner + pen.
    /// The first entry is the origin and the last equals
    /// `self.sample(t)`.
    pub fn debug_sample(&self, t: i64) -> (r: Vec<Complex>)
        requires
            self.wf(),
        ensures
            r@.len() == self@.len() + 1,
            forall|k: int|
                0 <= k <= self@.len() ==> (#[trigger] r@[k]).re == curve_re(self@, t as int, k)
                    && r@[k].im == curve_im(self@, t as int, k),
            r@[0].re == 0 && r@[0].im == 0,
            r@[self@.len() as int].re == curve_re(self@, t as int, self@.len() as int),
            r@[self@.len() as int].im == curve_im(self@, t as int, self@.len() as int),
    {
        let n: usize = self.spinners.len();
        let mut samples: Vec<Complex> = Vec::new();
        let mut sum = Complex::new(0, 0);
        samples.push(sum);
        let mut i: usize = 0;
        while i < n
            invariant
                self.wf(),
                i <= n,
                n == self.spinners@.len(),
                samples@.len() == i + 1,
                sum.re == curve_re(self@, t as int, i as int),
                sum.im == curve_im(self@, t as int, i as int),
                -2_000_000_000_000_000_000 * (i as int) <= sum.re as int
                    <= 2_000_000_000_000_000_000 * (i as int),
                -2_000_000_000_000_000_000 * (i as int) <= sum.im as int
                    <= 2_000_000_000_000_000_000 * (i as int),
                forall|k: int|
                    0 <= k <= i ==> (#[trigger] samples@[k]).re == curve_re(self@, t as int, k)
                        && samples@[k].im == curve_im(self@, t as int, k),
            decreases n - i,
        {
            proof {
                assert(self@.len() == self.spinners@.len());
                assert(self@[i as int] == self.spinners@[i as int]@);
            }
            let s: Complex = self.spinners[i].sample(t);
            sum = sum.add(s);
            samples.push(sum);
            i += 1;
        }
        samples
    }
}

} // verus!
