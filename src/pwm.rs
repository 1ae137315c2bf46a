//! Strategies that turn a value of the two-phase stationary reference frame
//! into three per-phase signals for PWM generation, and the mapping of those
//! signals onto timer compare values.
use vstd::prelude::*;

use crate::park_clarke::{
    inverse_clarke, inverse_clarke_defined, inverse_clarke_spec, lemma_inverse_clarke_c_close, sqrt3_mul,
    sqrt3_times, TwoPhaseReferenceFrame,
};
use crate::{abs, fits_i32, lemma_mul_bounded, lemma_tdiv, tdiv, ONE, SQRT_3, TRIG_ONE};

verus! {

/// The sign of `v`: 1, -1, or 0 at exactly zero.
pub open spec fn sign(v: int) -> int {
    if v > 0 {
        1
    } else if v < 0 {
        -1
    } else {
        0
    }
}

/// All three values fit an `i32`.
pub open spec fn fits_i32_3(t: (int, int, int)) -> bool {
    fits_i32(t.0) && fits_i32(t.1) && fits_i32(t.2)
}

/// The array holds the three values, in order.
pub open spec fn holds(r: [i32; 3], t: (int, int, int)) -> bool {
    r[0] == t.0 && r[1] == t.1 && r[2] == t.2
}

/// The timer compare value for a signal `v` (where `ONE` stands for 1.0):
/// `(v + 1) * (max + 1) / 2`, truncated and clamped to `[0, max]`.
pub open spec fn compare_value(v: int, max: int) -> int {
    let raw = tdiv((v + ONE) * (max + 1), 2 * ONE);
    if raw < 0 {
        0
    } else if raw > max {
        max
    } else {
        raw
    }
}

/// Maps one signal onto `[0, max]`.
fn to_compare(v: i32, max: u16) -> (r: u16)
    ensures
        r == compare_value(v as int, max as int),
{
    let shifted: i64 = v as i64 + ONE as i64;
    proof {
        crate::lemma_mul_bounded(shifted as int, max as int + 1, 0x1_0000_0000, 0x1_0000);
    }
    let raw: i64 = (shifted * (max as i64 + 1)) / (2 * ONE as i64);
    if raw < 0 {
        0
    } else if raw > max as i64 {
        max
    } else {
        raw as u16
    }
}

/// Turns a value of the two-phase stationary reference frame into a signal
/// for each of the three channels, nominally between -`ONE` and `ONE`.
pub trait Modulation {
    /// The three signals that `modulate` gives for `value`.
    spec fn spec_modulate(value: TwoPhaseReferenceFrame) -> (int, int, int);

    /// The three signals for `value` fit an `i32`.
    spec fn modulate_defined(value: TwoPhaseReferenceFrame) -> bool;

    /// Generates the signal of each channel.
    fn modulate(value: TwoPhaseReferenceFrame) -> (r: [i32; 3])
        requires
            Self::modulate_defined(value),
        ensures
            holds(r, Self::spec_modulate(value)),
    ;

    /// Modulates the value and maps each signal onto a compare value between
    /// 0 and `max` inclusive.
    fn as_compare_value(value: TwoPhaseReferenceFrame, max: u16) -> (r: [u16; 3])
        requires
            Self::modulate_defined(value),
        ensures
            r[0] == compare_value(Self::spec_modulate(value).0, max as int),
            r[1] == compare_value(Self::spec_modulate(value).1, max as int),
            r[2] == compare_value(Self::spec_modulate(value).2, max as int),
    {
        let m = Self::modulate(value);
        [to_compare(m[0], max), to_compare(m[1], max), to_compare(m[2], max)]
    }
}

/// One of the six sectors of the space-vector hexagon.
#[derive(Clone, Copy, Debug)]
pub enum Sector {
    First,
    Second,
    Third,
    Fourth,
    Fifth,
    Sixth,
}

/// The sector given by the signs of the auxiliary axes (zero counts as
/// positive).
pub open spec fn sector_of(x: int, y: int, z: int) -> Sector {
    match (x >= 0, y >= 0, z >= 0) {
        (true, true, false) => Sector::First,
        (_, true, true) => Sector::Second,
        (true, false, true) => Sector::Third,
        (false, false, true) => Sector::Fourth,
        (_, false, false) => Sector::Fifth,
        (false, true, false) => Sector::Sixth,
    }
}

/// The auxiliary axes of space-vector modulation: `x = beta`,
/// `y = (beta + sqrt(3) alpha) / 2`, and `z = x - y`, which is
/// `(beta - sqrt(3) alpha) / 2` within one unit. So `x = y + z` exactly.
pub open spec fn space_vector_axes(v: TwoPhaseReferenceFrame) -> (int, int, int) {
    let sa = sqrt3_times(v.alpha as int);
    let y = tdiv(v.beta + sa, 2);
    (v.beta as int, y, v.beta - y)
}

/// The space-vector signals for the axes `x`, `y`, `z`, by pairs of sectors.
pub open spec fn space_vector_outputs(x: int, y: int, z: int) -> (int, int, int) {
    match sector_of(x, y, z) {
        Sector::First | Sector::Fourth => (x - z, x + z, -x + z),
        Sector::Second | Sector::Fifth => (y - z, y + z, -y - z),
        Sector::Third | Sector::Sixth => (y - x, -y + x, -y - x),
    }
}

/// The space-vector signals for `v`.
pub open spec fn space_vector_spec(v: TwoPhaseReferenceFrame) -> (int, int, int) {
    let (x, y, z) = space_vector_axes(v);
    space_vector_outputs(x, y, z)
}

/// Space-vector modulation: more efficient than sinusoidal modulation, with
/// a better current ripple than the other methods, at the price of a more
/// complex computation.
pub struct SpaceVector;

/// The sector of the axes `x`, `y`, `z`.
fn sector(x: i64, y: i64, z: i64) -> (s: Sector)
    ensures
        s == sector_of(x as int, y as int, z as int),
{
    match (x >= 0, y >= 0, z >= 0) {
        (true, true, false) => Sector::First,
        (_, true, true) => Sector::Second,
        (true, false, true) => Sector::Third,
        (false, false, true) => Sector::Fourth,
        (_, false, false) => Sector::Fifth,
        (false, true, false) => Sector::Sixth,
    }
}

impl Modulation for SpaceVector {
    open spec fn spec_modulate(value: TwoPhaseReferenceFrame) -> (int, int, int) {
        space_vector_spec(value)
    }

    open spec fn modulate_defined(value: TwoPhaseReferenceFrame) -> bool {
        fits_i32_3(space_vector_spec(value))
    }

    fn modulate(value: TwoPhaseReferenceFrame) -> (r: [i32; 3]) {
        let sqrt_3_alpha: i64 = sqrt3_mul(value.alpha);
        let beta: i64 = value.beta as i64;
        let x: i64 = beta;
        let y: i64 = (beta + sqrt_3_alpha) / 2;
        let z: i64 = x - y;
        let (ta, tb, tc): (i64, i64, i64) = match sector(x, y, z) {
            Sector::First | Sector::Fourth => (x - z, x + z, -x + z),
            Sector::Second | Sector::Fifth => (y - z, y + z, -y - z),
            Sector::Third | Sector::Sixth => (y - x, -y + x, -y - x),
        };
        [ta as i32, tb as i32, tc as i32]
    }
}

/// Sinusoidal modulation: very simple and fast, but less efficient than
/// space-vector modulation, as it uses the bus voltage less well.
pub struct Sinusoidal;

impl Modulation for Sinusoidal {
    open spec fn spec_modulate(value: TwoPhaseReferenceFrame) -> (int, int, int) {
        inverse_clarke_spec(value)
    }

    open spec fn modulate_defined(value: TwoPhaseReferenceFrame) -> bool {
        inverse_clarke_defined(value)
    }

    fn modulate(value: TwoPhaseReferenceFrame) -> (r: [i32; 3]) {
        let voltages = inverse_clarke(value);
        [voltages.a, voltages.b, voltages.c]
    }
}

/// `ONE` times the sign of `v`.
fn signal_sign(v: i64) -> (r: i32)
    ensures
        r == ONE * sign(v as int),
{
    if v > 0 {
        ONE
    } else if v < 0 {
        -ONE
    } else {
        0
    }
}

/// Trapezoidal modulation. A channel whose signal is 0 is expected to be
/// disabled (set to high impedance) by the caller.
pub struct Trapezoidal;

impl Modulation for Trapezoidal {
    open spec fn spec_modulate(value: TwoPhaseReferenceFrame) -> (int, int, int) {
        let (a, b, c) = inverse_clarke_spec(value);
        (ONE * sign(2 * a), ONE * sign(2 * b), ONE * sign(2 * c))
    }

    open spec fn modulate_defined(value: TwoPhaseReferenceFrame) -> bool {
        inverse_clarke_defined(value)
    }

    fn modulate(value: TwoPhaseReferenceFrame) -> (r: [i32; 3]) {
        let voltages = inverse_clarke(value);
        [
            signal_sign(voltages.a as i64 * 2),
            signal_sign(voltages.b as i64 * 2),
            signal_sign(voltages.c as i64 * 2),
        ]
    }
}

/// Square-wave modulation.
pub struct Square;

impl Modulation for Square {
    open spec fn spec_modulate(value: TwoPhaseReferenceFrame) -> (int, int, int) {
        let (a, b, c) = inverse_clarke_spec(value);
        (ONE * sign(a), ONE * sign(b), ONE * sign(c))
    }

    open spec fn modulate_defined(value: TwoPhaseReferenceFrame) -> bool {
        inverse_clarke_defined(value)
    }

    fn modulate(value: TwoPhaseReferenceFrame) -> (r: [i32; 3]) {
        let voltages = inverse_clarke(value);
        [signal_sign(voltages.a as i64), signal_sign(voltages.b as i64), signal_sign(voltages.c as i64)]
    }
}

/// The largest magnitude among three values.
pub open spec fn max_abs3(t: (int, int, int)) -> int {
    let (a, b, c) = (abs(t.0), abs(t.1), abs(t.2));
    if a >= b && a >= c {
        a
    } else if b >= c {
        b
    } else {
        c
    }
}

/// The auxiliary axes of space-vector modulation obey `x = y + z`, the third
/// axis stays within one unit of `(beta - sqrt(3) alpha) / 2`, and in each
/// sector no signal exceeds the largest axis magnitude. (`sector_of` gives a sector for each of
/// the eight sign patterns, so no input falls outside the six sectors.)
pub proof fn lemma_space_vector_axes(v: TwoPhaseReferenceFrame)
    ensures
        ({
            let (x, y, z) = space_vector_axes(v);
            &&& x == y + z
            &&& -1 <= z - tdiv(v.beta - sqrt3_times(v.alpha as int), 2) <= 1
            &&& abs(space_vector_spec(v).0) <= max_abs3((x, y, z))
            &&& abs(space_vector_spec(v).1) <= max_abs3((x, y, z))
            &&& abs(space_vector_spec(v).2) <= max_abs3((x, y, z))
        }),
{
    let sa = sqrt3_times(v.alpha as int);
    lemma_tdiv(v.beta + sa, 2);
    lemma_tdiv(v.beta - sa, 2);
}

/// Square and trapezoidal modulation both give, for each phase, `ONE` times
/// the sign of the inverse Clarke transform (0 where that phase is exactly 0).
pub proof fn lemma_sign_consistency(v: TwoPhaseReferenceFrame)
    ensures
        Square::spec_modulate(v) == (
            ONE * sign(inverse_clarke_spec(v).0),
            ONE * sign(inverse_clarke_spec(v).1),
            ONE * sign(inverse_clarke_spec(v).2),
        ),
        Trapezoidal::spec_modulate(v) == Square::spec_modulate(v),
{
}

/// A signal of exactly -1 maps to compare value 0, and one of exactly +1 to
/// `max`.
pub proof fn lemma_compare_value_ends(max: u16)
    ensures
        compare_value(-ONE, max as int) == 0,
        compare_value(ONE as int, max as int) == max,
{
    let n = 2 * ONE * (max + 1);
    vstd::arithmetic::div_mod::lemma_div_multiples_vanish(max + 1, 2 * ONE);
    assert(tdiv(n, 2 * ONE) == max + 1);
}

/// The identity behind the comparison of an auxiliary axis with the
/// line-to-line difference of the sinusoidal phases it stands for.
proof fn lemma_axis_identity(
    one: int,
    s: int,
    alpha: int,
    beta: int,
    sa: int,
    t: int,
    y: int,
    c: int,
    r1: int,
    r2: int,
    e1: int,
    e2: int,
)
    requires
        s * alpha == one * sa + r1,
        beta + sa == 2 * y + e1,
        s * beta == one * t + r2,
        -alpha - t == 2 * c + e2,
    ensures
        2 * one * s * y - 2 * one * one * (alpha - c) == (s * s - 3 * one * one) * alpha + one * r2
            - s * r1 - one * s * e1 - one * one * e2,
{
    assert(one * s * (2 * y) == one * s * beta + one * s * sa - one * s * e1) by (nonlinear_arith)
        requires
            beta + sa == 2 * y + e1,
    ;
    assert(one * s * beta == one * one * t + one * r2) by (nonlinear_arith)
        requires
            s * beta == one * t + r2,
    ;
    assert(one * s * sa == s * s * alpha - s * r1) by (nonlinear_arith)
        requires
            s * alpha == one * sa + r1,
    ;
    assert(one * one * (2 * alpha - 2 * c) == one * one * (3 * alpha + t + e2)) by (nonlinear_arith)
        requires
            -alpha - t == 2 * c + e2,
    ;
    assert(2 * one * s * y == one * s * (2 * y)) by (nonlinear_arith);
    assert(2 * one * one * (alpha - c) == one * one * (2 * alpha - 2 * c)) by (nonlinear_arith);
    assert(one * one * (3 * alpha + t + e2) == 3 * one * one * alpha + one * one * t + one * one * e2)
        by (nonlinear_arith);
    assert((s * s - 3 * one * one) * alpha == s * s * alpha - 3 * one * one * alpha) by (nonlinear_arith);
}

/// `sqrt(3) * y` stays within a few units of `alpha - c`, where `y` is the
/// second auxiliary axis and `c` is `(-alpha - sqrt(3) beta) / 2`, truncated.
proof fn lemma_axis_bound(alpha: int, beta: int)
    requires
        -0x8000_0000 <= alpha <= 0x8000_0000,
        -0x8000_0000 <= beta <= 0x8000_0000,
    ensures
        SQRT_3 * abs(tdiv(beta + sqrt3_times(alpha), 2)) <= TRIG_ONE * (abs(
            alpha - tdiv(-alpha - sqrt3_times(beta), 2),
        ) + 5),
{
    let one = TRIG_ONE as int;
    let s = SQRT_3 as int;
    let sa = sqrt3_times(alpha);
    let t = sqrt3_times(beta);
    let y = tdiv(beta + sa, 2);
    let c = tdiv(-alpha - t, 2);
    lemma_tdiv(s * alpha, one);
    lemma_tdiv(s * beta, one);
    lemma_tdiv(beta + sa, 2);
    lemma_tdiv(-alpha - t, 2);
    let r1 = s * alpha - one * sa;
    let r2 = s * beta - one * t;
    let e1 = beta + sa - 2 * y;
    let e2 = -alpha - t - 2 * c;
    lemma_axis_identity(one, s, alpha, beta, sa, t, y, c, r1, r2, e1, e2);
    lemma_mul_bounded(s * s - 3 * one * one, alpha, 1412236479, 0x8000_0000);
    lemma_mul_bounded(s, r1, s, one);
    lemma_mul_bounded(one, r2, one, one);
    lemma_mul_bounded(one * s, e1, one * s, 1);
    lemma_mul_bounded(one * one, e2, one * one, 1);
    let lhs = 2 * one * s * y;
    let d = alpha - c;
    assert(s * abs(y) <= one * (abs(d) + 5)) by (nonlinear_arith)
        requires
            one == 0x4000_0000,
            s == 1859775393,
            lhs == 2 * one * s * y,
            -9 * (one * one) <= lhs - 2 * one * one * d <= 9 * (one * one),
    ;
}

/// `sqrt(3) * v` negates with `v`.
proof fn lemma_sqrt3_times_odd(v: int)
    ensures
        sqrt3_times(-v) == -sqrt3_times(v),
{
    assert(SQRT_3 * (-v) == -(SQRT_3 * v)) by (nonlinear_arith);
}

/// `sqrt(3) * x` stays within a few units of `b - c`, where `x` is the first
/// auxiliary axis and `b`, `c` are the second and third sinusoidal phases.
proof fn lemma_first_axis_bound(v: TwoPhaseReferenceFrame)
    ensures
        SQRT_3 * abs(v.beta as int) <= TRIG_ONE * (abs(inverse_clarke_spec(v).1 - inverse_clarke_spec(v).2) + 2),
{
    let alpha = v.alpha as int;
    let t = sqrt3_times(v.beta as int);
    lemma_tdiv(SQRT_3 * v.beta, TRIG_ONE as int);
    lemma_tdiv(-alpha + t, 2);
    lemma_tdiv(-alpha - t, 2);
}

/// Combines the bounds on the three axes with the bound of each signal by the
/// largest axis.
proof fn lemma_combine_axis_bounds(x: int, y: int, z: int, a: int, b: int, c: int, sv: (int, int, int))
    requires
        SQRT_3 * abs(x) <= TRIG_ONE * (abs(b - c) + 7),
        SQRT_3 * abs(y) <= TRIG_ONE * (abs(a - c) + 7),
        SQRT_3 * abs(z) <= TRIG_ONE * (abs(b - a) + 7),
        abs(sv.0) <= max_abs3((x, y, z)),
        abs(sv.1) <= max_abs3((x, y, z)),
        abs(sv.2) <= max_abs3((x, y, z)),
    ensures
        SQRT_3 * abs(sv.0) <= TRIG_ONE * (2 * max_abs3((a, b, c)) + 7),
        SQRT_3 * abs(sv.1) <= TRIG_ONE * (2 * max_abs3((a, b, c)) + 7),
        SQRT_3 * abs(sv.2) <= TRIG_ONE * (2 * max_abs3((a, b, c)) + 7),
{
    let m = max_abs3((a, b, c));
    assert(abs(b - c) <= 2 * m && abs(a - c) <= 2 * m && abs(b - a) <= 2 * m);
    let k = max_abs3((x, y, z));
    assert(SQRT_3 * k <= TRIG_ONE * (2 * m + 7));
}

/// No space-vector signal exceeds 2 / sqrt(3) times the largest sinusoidal
/// signal for the same input by more than a few units: `sqrt(3) |t| <= 2 m + 7`.
pub proof fn lemma_space_vector_within_sinusoidal(v: TwoPhaseReferenceFrame)
    ensures
        ({
            let m = max_abs3(inverse_clarke_spec(v));
            let sv = space_vector_spec(v);
            &&& SQRT_3 * abs(sv.0) <= TRIG_ONE * (2 * m + 7)
            &&& SQRT_3 * abs(sv.1) <= TRIG_ONE * (2 * m + 7)
            &&& SQRT_3 * abs(sv.2) <= TRIG_ONE * (2 * m + 7)
        }),
{
    let alpha = v.alpha as int;
    let beta = v.beta as int;
    let t = sqrt3_times(beta);
    let (x, y, z) = space_vector_axes(v);
    let (a, b, c) = inverse_clarke_spec(v);
    lemma_space_vector_axes(v);
    lemma_first_axis_bound(v);
    lemma_axis_bound(alpha, beta);
    lemma_axis_bound(-alpha, beta);
    lemma_sqrt3_times_odd(alpha);
    lemma_inverse_clarke_c_close(alpha, beta);
    assert(tdiv(alpha - t, 2) == -tdiv(-alpha + t, 2));
    assert(tdiv(beta - sqrt3_times(alpha), 2) == tdiv(beta + sqrt3_times(-alpha), 2));
    lemma_combine_axis_bounds(x, y, z, a, b, c, space_vector_spec(v));
}

/// Space-vector modulation is odd: negating the input negates every signal
/// (sector `k` maps to sector `k + 3`, and at a tie between two sectors both
/// formulas agree).
pub proof fn lemma_space_vector_odd(v: TwoPhaseReferenceFrame)
    requires
        v.alpha > i32::MIN,
        v.beta > i32::MIN,
    ensures
        ({
            let w = TwoPhaseReferenceFrame { alpha: (-v.alpha) as i32, beta: (-v.beta) as i32 };
            let sv = space_vector_spec(v);
            space_vector_spec(w) == (-sv.0, -sv.1, -sv.2)
        }),
{
    let w = TwoPhaseReferenceFrame { alpha: (-v.alpha) as i32, beta: (-v.beta) as i32 };
    let sa = sqrt3_times(v.alpha as int);
    lemma_sqrt3_times_odd(v.alpha as int);
    assert(tdiv(w.beta + sqrt3_times(w.alpha as int), 2) == -tdiv(v.beta + sa, 2));
}

} // verus!
