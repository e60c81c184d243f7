use spiro::complex::Complex;
use spiro::fixed::SCALE;
use spiro::spirograph::Spirograph;
use spiro::family::SpirographFamily;

/// Converts a floating-point value to the crate's raw fixed-point
/// scale, rounding to the nearest unit.
fn fx(x: f64) -> i64 {
    (x * SCALE as f64).round() as i64
}

const TAU: f64 = 2.0 * std::f64::consts::PI;

#[test]
fn basic() {
    // pen at the center of the spinning disc
    let spiro = Spirograph::new(fx(0.5), fx(0.0), fx(TAU), fx(0.0));
    assert_eq!(spiro.sample(fx(0.0)), Complex { re: fx(0.5), im: fx(0.0) });
    assert_eq!(spiro.sample(fx(0.25)), Complex { re: fx(0.0), im: fx(0.5) });
    assert_eq!(spiro.sample(fx(0.5)), Complex { re: fx(-0.5), im: fx(0.0) });
    assert_eq!(spiro.sample(fx(0.75)), Complex { re: fx(0.0), im: fx(-0.5) });
}

#[test]
fn sampling_is_pure() {
    let spiro = Spirograph::new(fx(0.37), fx(0.81), fx(TAU), fx(3.0));
    let t: i64 = fx(0.613);
    let a = spiro.sample(t);
    let b = spiro.sample(t);
    assert_eq!(a.re, b.re);
    assert_eq!(a.im, b.im);
}

#[test]
fn debug_sample_partial_sums() {
    let spiro = Spirograph::new(fx(0.4), fx(0.6), fx(TAU), fx(2.0));
    let t: i64 = fx(0.35);
    let stages = spiro.debug_sample(t);
    assert_eq!(stages.len(), 4);
    assert_eq!(stages[0].re, 0);
    assert_eq!(stages[0].im, 0);
    let full = spiro.sample(t);
    assert_eq!(stages[3].re, full.re);
    assert_eq!(stages[3].im, full.im);
}

#[test]
fn phase_offsets_add() {
    let mut one = Spirograph::new(fx(0.5), fx(0.3), fx(TAU), fx(2.0));
    let mut two = Spirograph::new(fx(0.5), fx(0.3), fx(TAU), fx(2.0));
    let a: i64 = fx(0.005);
    let b: i64 = fx(-0.12);
    one.offset_phase(a);
    one.offset_phase(b);
    two.offset_phase(a + b);
    for &t in &[fx(0.0), fx(0.2), fx(-1.5), fx(7.25)] {
        let p = one.sample(t);
        let q = two.sample(t);
        assert_eq!(p.re, q.re);
        assert_eq!(p.im, q.im);
    }
}

#[test]
fn amplitude_offsets_add() {
    let mut one = Spirograph::new(fx(0.5), fx(0.3), fx(TAU), fx(2.0));
    let mut two = Spirograph::new(fx(0.5), fx(0.3), fx(TAU), fx(2.0));
    let a: i64 = fx(-0.001);
    let b: i64 = fx(0.045);
    one.offset_amplitude(a);
    one.offset_amplitude(b);
    two.offset_amplitude(a + b);
    for &t in &[fx(0.0), fx(0.2), fx(-1.5), fx(7.25)] {
        let p = one.sample(t);
        let q = two.sample(t);
        assert_eq!(p.re, q.re);
        assert_eq!(p.im, q.im);
    }
}

#[test]
fn amplitude_may_cross_zero() {
    let mut spiro = Spirograph::new(fx(0.5), fx(0.0), fx(TAU), fx(0.0));
    spiro.offset_amplitude(fx(-2.0));
    // all three amplitudes are now negative; sampling still works
    let p = spiro.sample(fx(0.125));
    let q = spiro.sample(fx(0.125));
    assert_eq!(p.re, q.re);
    assert_eq!(p.im, q.im);
}

#[test]
fn family_sample_length() {
    let n: u32 = 4;
    let family = SpirographFamily::new(16, 7u32, |i: u32| {
        let a = i % n;
        let b = i / n;
        let inner_ratio = fx((n as f64 - 0.1).recip() * a as f64 + 0.1);
        let pen_ratio = fx((n as f64 - 0.1).recip() * b as f64 + 0.1);
        Spirograph::new(inner_ratio, pen_ratio, fx(TAU), fx(2.0))
    });
    assert_eq!(family.color, 7u32);
    for &t in &[fx(0.0), fx(0.33), fx(-2.0)] {
        assert_eq!(family.sample(t).len(), 16);
    }
}

#[test]
fn family_offset_keeps_length_and_members() {
    let mut family = SpirographFamily::new(3, 0u8, |i: u32| {
        Spirograph::new(fx(0.2 + 0.1 * i as f64), fx(0.5), fx(TAU), fx(3.0))
    });
    let mut lone = Spirograph::new(fx(0.3), fx(0.5), fx(TAU), fx(3.0));
    family.offset(fx(0.01), fx(-0.002));
    lone.offset_phase(fx(0.01));
    lone.offset_amplitude(fx(-0.002));
    let t: i64 = fx(0.77);
    let points = family.sample(t);
    assert_eq!(points.len(), 3);
    // member 1 was built exactly like the lone generator and got the
    // same offsets, so it must sample identically
    let expected = lone.sample(t);
    assert_eq!(points[1].re, expected.re);
    assert_eq!(points[1].im, expected.im);
    family.offset(fx(-0.5), fx(0.25));
    assert_eq!(family.sample(t).len(), 3);
}

#[test]
fn full_turn_phase_offset_is_identity() {
    let mut one = Spirograph::new(fx(0.5), fx(0.3), fx(TAU), fx(2.0));
    let two = Spirograph::new(fx(0.5), fx(0.3), fx(TAU), fx(2.0));
    one.offset_phase(spiro::fixed::TWO_PI_FX);
    let t: i64 = fx(0.4);
    let p = one.sample(t);
    let q = two.sample(t);
    assert_eq!(p.re, q.re);
    assert_eq!(p.im, q.im);
}
