use foc::park_clarke::{
    clarke, inverse_clarke, inverse_park, park, RotatingReferenceFrame, ThreePhaseBalancedReferenceFrame,
    TwoPhaseReferenceFrame,
};
use foc::{ONE, TRIG_ONE};

fn fixed(v: f64) -> i32 {
    (v * ONE as f64).round() as i32
}

fn trig(v: f64) -> i32 {
    (v * TRIG_ONE as f64).round() as i32
}

fn to_units(v: i32) -> f64 {
    v as f64 / ONE as f64
}

fn clarke_round_trip(a: f64, b: f64) {
    let input = ThreePhaseBalancedReferenceFrame { a: fixed(a), b: fixed(b) };
    let two_phase = clarke(input);
    let result = inverse_clarke(two_phase);

    assert!((to_units(result.a) - to_units(input.a)).abs() < 0.0001);
    assert!((to_units(result.b) - to_units(input.b)).abs() < 0.0001);
}

#[test]
fn clarke_round_trip_zero() {
    clarke_round_trip(0., 0.);
}

#[test]
fn clarke_round_trip_two_inputs() {
    clarke_round_trip(0., 1.);
    clarke_round_trip(1., 0.);
    clarke_round_trip(-0.5, -0.5);
    clarke_round_trip(-0.1, -0.2);
    clarke_round_trip(13., 21.);
}

#[test]
fn park_round_trip() {
    let angle: f64 = 0.82;
    let (sin_angle, cos_angle) = (trig(angle.sin()), trig(angle.cos()));

    let input = TwoPhaseReferenceFrame { alpha: fixed(2.0), beta: fixed(3.0) };
    let moving_reference = park(cos_angle, sin_angle, input);
    let result = inverse_park(cos_angle, sin_angle, moving_reference);

    assert!((to_units(result.alpha) - to_units(input.alpha)).abs() < 0.0001);
    assert!((to_units(result.beta) - to_units(input.beta)).abs() < 0.0001);
}

#[test]
fn clarke_exact_values() {
    let r = clarke(ThreePhaseBalancedReferenceFrame { a: ONE, b: 2 * ONE });
    assert_eq!(r.alpha, 65536);
    // (1 + 2 * 2) / sqrt(3) = 2.8867513...
    assert_eq!(r.beta, 189186);
}

#[test]
fn inverse_clarke_exact_values() {
    let r = inverse_clarke(TwoPhaseReferenceFrame { alpha: ONE, beta: 2 * ONE });
    assert_eq!(r.a, 65536);
    // (-1 + 2 sqrt(3)) / 2 = 1.2320508...
    assert_eq!(r.b, 80743);
    // (-1 - 2 sqrt(3)) / 2 = -2.2320508...
    assert_eq!(r.c, -146279);
}

#[test]
fn clarke_round_trip_large_values_exact() {
    let r = inverse_clarke(clarke(ThreePhaseBalancedReferenceFrame { a: 13 * ONE, b: 21 * ONE }));
    assert_eq!(r.a, 13 * ONE);
    assert_eq!(r.b, 21 * ONE - 1);
}

#[test]
fn inverse_clarke_is_balanced() {
    let smallest = inverse_clarke(TwoPhaseReferenceFrame { alpha: 1, beta: 0 });
    assert_eq!((smallest.a, smallest.b, smallest.c), (1, 0, -1));
    for &(alpha, beta) in &[(0, 0), (1, 0), (ONE, 0), (ONE, 2 * ONE), (-12345, 67891), (1000 * ONE, -700 * ONE), (7, -3)] {
        let r = inverse_clarke(TwoPhaseReferenceFrame { alpha, beta });
        let sum = r.a as i64 + r.b as i64 + r.c as i64;
        assert_eq!(sum, 0, "({}, {})", alpha, beta);
    }
}

#[test]
fn park_exact_values() {
    let angle: f64 = 0.82;
    let (sin_angle, cos_angle) = (trig(angle.sin()), trig(angle.cos()));
    assert_eq!((cos_angle, sin_angle), (732529443, 785061857));
    let r = park(cos_angle, sin_angle, TwoPhaseReferenceFrame { alpha: 2 * ONE, beta: 3 * ONE });
    assert_eq!((r.d, r.q), (233169, 38297));
    let back = inverse_park(cos_angle, sin_angle, r);
    assert_eq!((back.alpha, back.beta), (131072, 196607));
}

#[test]
fn park_at_zero_angle_is_identity() {
    let input = TwoPhaseReferenceFrame { alpha: 5 * ONE, beta: -3 * ONE };
    let r = park(TRIG_ONE, 0, input);
    assert_eq!((r.d, r.q), (5 * ONE, -3 * ONE));
    let back = inverse_park(TRIG_ONE, 0, RotatingReferenceFrame { d: r.d, q: r.q });
    assert_eq!((back.alpha, back.beta), (5 * ONE, -3 * ONE));
}

#[test]
fn park_quarter_turn_swaps_axes() {
    let r = park(0, TRIG_ONE, TwoPhaseReferenceFrame { alpha: ONE, beta: 2 * ONE });
    assert_eq!((r.d, r.q), (2 * ONE, -ONE));
}

#[test]
fn park_round_trip_over_a_turn() {
    for step in 0..720 {
        let angle = step as f64 * std::f64::consts::PI / 360.0;
        let (c, s) = (trig(angle.cos()), trig(angle.sin()));
        let input = TwoPhaseReferenceFrame { alpha: fixed(-7.25), beta: fixed(11.5) };
        let back = inverse_park(c, s, park(c, s, input));
        assert!((back.alpha - input.alpha).abs() <= 3, "step {}", step);
        assert!((back.beta - input.beta).abs() <= 3, "step {}", step);
    }
}
