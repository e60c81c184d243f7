use spiro::complex::Complex;
use spiro::fixed::SCALE;

/// Converts a floating-point value to the crate's raw fixed-point
/// scale, rounding to the nearest unit.
fn fx(x: f64) -> i64 {
    (x * SCALE as f64).round() as i64
}

#[test]
fn multiplication() {
    let a = Complex::new(fx(1.0), fx(4.0));
    let b = Complex::new(fx(5.0), fx(1.0));
    assert_eq!(a.mul(b), Complex::new(fx(1.0), fx(21.0)));
}

#[test]
fn euler() {
    let e_to_the_pi_i = Complex::exp_i(fx(std::f64::consts::PI));
    assert_eq!(e_to_the_pi_i, Complex { re: fx(-1.0), im: fx(0.0) });
}

#[test]
fn multiplication_exact() {
    let a = Complex::new(fx(1.0), fx(4.0));
    let b = Complex::new(fx(5.0), fx(1.0));
    let c = a.mul(b);
    assert_eq!(c.re, fx(1.0));
    assert_eq!(c.im, fx(21.0));
}

#[test]
fn unit_exponential_zero_exact() {
    let z = Complex::exp_i(0);
    assert_eq!(z.re, SCALE);
    assert_eq!(z.im, 0);
}

#[test]
fn unit_exponential_pi_close() {
    let p = Complex::exp_i(fx(std::f64::consts::PI));
    // within 1e-9 of (-1, 0)
    assert!(Complex::approx_eq(p, Complex::new(-SCALE, 0), 1_000));
}

#[test]
fn unit_exponential_matches_trig() {
    for &theta in &[0.3f64, 1.0, 1.5, 2.5, 3.9, 5.5, -0.7, -2.5, 20.0, 123.456, -1000.0] {
        let e = Complex::exp_i(fx(theta));
        let expected = Complex::new(fx(theta.cos()), fx(theta.sin()));
        // within 2e-9, covering the rounding of the inputs
        assert!(
            Complex::approx_eq(e, expected, 2_000),
            "angle {} gave ({}, {})",
            theta,
            e.re,
            e.im
        );
    }
}

#[test]
fn addition_and_subtraction() {
    let a = Complex::new(fx(1.25), fx(-0.5));
    let b = Complex::new(fx(0.75), fx(2.0));
    let s = a.add(b);
    assert_eq!(s.re, fx(2.0));
    assert_eq!(s.im, fx(1.5));
    let d = a.sub(b);
    assert_eq!(d.re, fx(0.5));
    assert_eq!(d.im, fx(-2.5));
}

#[test]
fn scaling() {
    let v = Complex::new(fx(1.5), fx(-0.5));
    let r = Complex::scale(fx(2.0), v);
    assert_eq!(r.re, fx(3.0));
    assert_eq!(r.im, fx(-1.0));
}

#[test]
fn magnitude() {
    let v = Complex::new(fx(3.0), fx(4.0));
    assert_eq!(v.mag(), fx(5.0) as u64);
    assert_eq!(Complex::new(0, 0).mag(), 0);
}

#[test]
fn approximate_equality() {
    let o = Complex::new(0, 0);
    // approx_eq with a chosen threshold
    assert!(Complex::approx_eq(o, Complex::new(fx(0.0000005), 0), fx(0.000001)));
    assert!(!Complex::approx_eq(o, Complex::new(fx(0.000002), 0), fx(0.000001)));
    assert!(!Complex::approx_eq(o, o, 0));
    // the PartialEq threshold is one millionth
    assert!(o == Complex::new(500_000, 0));
    assert!(o != Complex::new(2_000_000, 0));
}
