use foc::park_clarke::{inverse_clarke, TwoPhaseReferenceFrame};
use foc::pwm::{Modulation, Sinusoidal, SpaceVector, Square, Trapezoidal};
use foc::ONE;

fn fixed(v: f64) -> i32 {
    (v * ONE as f64).round() as i32
}

fn at_angle(degrees: f64) -> TwoPhaseReferenceFrame {
    let a = degrees.to_radians();
    TwoPhaseReferenceFrame { alpha: fixed(a.cos()), beta: fixed(a.sin()) }
}

fn sign(v: i32) -> i32 {
    if v > 0 {
        ONE
    } else if v < 0 {
        -ONE
    } else {
        0
    }
}

#[test]
fn space_vector_one_value_per_sector() {
    assert_eq!(SpaceVector::modulate(at_angle(0.0)), [56755, -56755, -56755]);
    assert_eq!(SpaceVector::modulate(at_angle(30.0)), [65536, 0, -65536]);
    assert_eq!(SpaceVector::modulate(at_angle(60.0)), [56754, 56756, -56756]);
    assert_eq!(SpaceVector::modulate(at_angle(90.0)), [0, 65536, -65536]);
    assert_eq!(SpaceVector::modulate(at_angle(150.0)), [-65536, 65536, 0]);
    assert_eq!(SpaceVector::modulate(at_angle(200.0)), [-64540, 19710, 64540]);
    assert_eq!(SpaceVector::modulate(at_angle(270.0)), [0, -65536, 65536]);
    assert_eq!(SpaceVector::modulate(at_angle(330.0)), [65536, -65536, 0]);
}

#[test]
fn space_vector_dense_sweep_stays_bounded() {
    for step in 0..3600 {
        let v = at_angle(step as f64 / 10.0);
        let sv = SpaceVector::modulate(v);
        let sin = Sinusoidal::modulate(v);
        let sin_peak = sin.iter().map(|s| s.abs()).max().unwrap() as f64;
        for t in sv {
            // 2 / sqrt(3) times the sinusoidal peak, plus rounding
            assert!((t.abs() as f64) <= sin_peak * 1.1548 + 3.0, "step {}", step);
        }
    }
}

#[test]
fn space_vector_zero_input() {
    assert_eq!(SpaceVector::modulate(TwoPhaseReferenceFrame { alpha: 0, beta: 0 }), [0, 0, 0]);
}

#[test]
fn sinusoidal_is_inverse_clarke() {
    let v = TwoPhaseReferenceFrame { alpha: ONE, beta: 0 };
    assert_eq!(Sinusoidal::modulate(v), [65536, -32768, -32768]);
    let w = TwoPhaseReferenceFrame { alpha: -12345, beta: 54321 };
    let r = inverse_clarke(w);
    assert_eq!(Sinusoidal::modulate(w), [r.a, r.b, r.c]);
}

#[test]
fn square_and_trapezoidal_follow_the_sign() {
    for step in 0..360 {
        let v = at_angle(step as f64);
        let r = inverse_clarke(v);
        let expected = [sign(r.a), sign(r.b), sign(r.c)];
        assert_eq!(Square::modulate(v), expected);
        assert_eq!(Trapezoidal::modulate(v), expected);
    }
}

#[test]
fn square_maps_exact_zero_to_zero() {
    let v = TwoPhaseReferenceFrame { alpha: 0, beta: ONE };
    assert_eq!(Square::modulate(v), [0, ONE, -ONE]);
    assert_eq!(Trapezoidal::modulate(v), [0, ONE, -ONE]);
    assert_eq!(Square::modulate(TwoPhaseReferenceFrame { alpha: 0, beta: 0 }), [0, 0, 0]);
}

#[test]
fn compare_value_ends() {
    // alpha = -1 gives phase A exactly -1, phases B and C 1/2
    let low = TwoPhaseReferenceFrame { alpha: -ONE, beta: 0 };
    let high = TwoPhaseReferenceFrame { alpha: ONE, beta: 0 };
    for &max in &[0u16, 1, 4095, 65535] {
        assert_eq!(Sinusoidal::as_compare_value(low, max)[0], 0);
        assert_eq!(Sinusoidal::as_compare_value(high, max)[0], max);
        assert_eq!(Square::as_compare_value(low, max)[0], 0);
        assert_eq!(Square::as_compare_value(high, max)[0], max);
    }
}

#[test]
fn compare_value_midpoints_and_clamping() {
    let v = TwoPhaseReferenceFrame { alpha: 0, beta: 0 };
    assert_eq!(Sinusoidal::as_compare_value(v, 4095), [2048, 2048, 2048]);
    assert_eq!(Sinusoidal::as_compare_value(v, 65535), [32768, 32768, 32768]);
    assert_eq!(Sinusoidal::as_compare_value(v, 0), [0, 0, 0]);
    let half = TwoPhaseReferenceFrame { alpha: ONE / 2, beta: 0 };
    assert_eq!(Sinusoidal::as_compare_value(half, 4095)[0], 3072);
    let below = TwoPhaseReferenceFrame { alpha: -2 * ONE, beta: 0 };
    assert_eq!(Sinusoidal::as_compare_value(below, 100)[0], 0);
    let above = TwoPhaseReferenceFrame { alpha: 3 * ONE, beta: 0 };
    assert_eq!(Sinusoidal::as_compare_value(above, 100)[0], 100);
}

#[test]
fn space_vector_is_odd() {
    let v = TwoPhaseReferenceFrame { alpha: -1, beta: 2 };
    let w = TwoPhaseReferenceFrame { alpha: 1, beta: -2 };
    assert_eq!(SpaceVector::modulate(v), [-2, 2, -2]);
    assert_eq!(SpaceVector::modulate(w), [2, -2, 2]);
    for step in 0..3600 {
        let v = at_angle(step as f64 / 10.0);
        let w = TwoPhaseReferenceFrame { alpha: -v.alpha, beta: -v.beta };
        let r = SpaceVector::modulate(v);
        assert_eq!(SpaceVector::modulate(w), [-r[0], -r[1], -r[2]], "step {}", step);
    }
    for alpha in -40..40 {
        for beta in -40..40 {
            let r = SpaceVector::modulate(TwoPhaseReferenceFrame { alpha, beta });
            let n = SpaceVector::modulate(TwoPhaseReferenceFrame { alpha: -alpha, beta: -beta });
            assert_eq!(n, [-r[0], -r[1], -r[2]], "({}, {})", alpha, beta);
        }
    }
}
