//! Park and Clarke transforms, with their inverses.
use vstd::prelude::*;

use crate::{abs, fits_i32, lemma_mul_bounded, lemma_tdiv, mul_q30, tdiv, FRAC_1_SQRT_3, SQRT_3, TRIG_ONE};

verus! {

/// A value in a reference frame that turns with the electrical angle of the
/// motor. The two axes are orthogonal.
#[derive(Clone, Copy, Debug)]
pub struct RotatingReferenceFrame {
    /// Direct axis component, aligned with the rotor flux
    pub d: i32,
    /// Quadrature axis component, perpendicular to the rotor flux
    pub q: i32,
}

/// A value in a stationary reference frame. The two axes are orthogonal.
#[derive(Clone, Copy, Debug)]
pub struct TwoPhaseReferenceFrame {
    /// Alpha component, aligned with phase A
    pub alpha: i32,
    /// Beta component, perpendicular to alpha
    pub beta: i32,
}

/// A three-phase value in a stationary reference frame. The three values do
/// not necessarily sum to 0.
#[derive(Clone, Copy, Debug)]
pub struct ThreePhaseReferenceFrame {
    /// Phase A component
    pub a: i32,
    /// Phase B component
    pub b: i32,
    /// Phase C component
    pub c: i32,
}

/// A three-phase value in a stationary reference frame whose three values sum
/// to 0, so that the third one is not given.
#[derive(Clone, Copy, Debug)]
pub struct ThreePhaseBalancedReferenceFrame {
    /// Phase A component
    pub a: i32,
    /// Phase B component
    pub b: i32,
}

/// Beta of the Clarke transform: `(a + 2b) / sqrt(3)`.
pub open spec fn clarke_beta(a: int, b: int) -> int {
    mul_q30(FRAC_1_SQRT_3 as int, a + 2 * b)
}

/// `sqrt(3) * beta`, as the inverse Clarke transform computes it.
pub open spec fn sqrt3_times(beta: int) -> int {
    mul_q30(SQRT_3 as int, beta)
}

/// Phase B of the inverse Clarke transform: `(-alpha + sqrt(3) beta) / 2`.
pub open spec fn inverse_clarke_b(alpha: int, beta: int) -> int {
    tdiv(-alpha + sqrt3_times(beta), 2)
}

/// Phase C of the inverse Clarke transform: `-(a + b)`, so that the three
/// phases balance exactly. It lies within one unit of `(-alpha - sqrt(3) beta) / 2`.
pub open spec fn inverse_clarke_c(alpha: int, beta: int) -> int {
    -alpha - inverse_clarke_b(alpha, beta)
}

/// The three phases that the inverse Clarke transform gives for `v`.
pub open spec fn inverse_clarke_spec(v: TwoPhaseReferenceFrame) -> (int, int, int) {
    (
        v.alpha as int,
        inverse_clarke_b(v.alpha as int, v.beta as int),
        inverse_clarke_c(v.alpha as int, v.beta as int),
    )
}

/// The result of the Clarke transform fits the output type.
pub open spec fn clarke_defined(x: ThreePhaseBalancedReferenceFrame) -> bool {
    fits_i32(clarke_beta(x.a as int, x.b as int))
}

/// The result of the inverse Clarke transform fits the output type.
pub open spec fn inverse_clarke_defined(v: TwoPhaseReferenceFrame) -> bool {
    &&& fits_i32(inverse_clarke_b(v.alpha as int, v.beta as int))
    &&& fits_i32(inverse_clarke_c(v.alpha as int, v.beta as int))
}

/// `c * x + s * y` for a sine or cosine `c`, `s` with 30 fractional bits.
pub open spec fn rotate(c: int, x: int, s: int, y: int) -> int {
    tdiv(c * x + s * y, TRIG_ONE as int)
}

/// The result of the Park transform fits the output type.
pub open spec fn park_defined(cos_angle: int, sin_angle: int, v: TwoPhaseReferenceFrame) -> bool {
    &&& fits_i32(rotate(cos_angle, v.alpha as int, sin_angle, v.beta as int))
    &&& fits_i32(rotate(cos_angle, v.beta as int, -sin_angle, v.alpha as int))
}

/// The result of the inverse Park transform fits the output type.
pub open spec fn inverse_park_defined(cos_angle: int, sin_angle: int, v: RotatingReferenceFrame) -> bool {
    &&& fits_i32(rotate(cos_angle, v.d as int, -sin_angle, v.q as int))
    &&& fits_i32(rotate(sin_angle, v.d as int, cos_angle, v.q as int))
}

/// Clarke transform of a balanced three-phase value:
/// `alpha = a`, `beta = (a + 2b) / sqrt(3)`.
pub fn clarke(inputs: ThreePhaseBalancedReferenceFrame) -> (r: TwoPhaseReferenceFrame)
    requires
        clarke_defined(inputs),
    ensures
        r.alpha == inputs.a,
        r.beta == clarke_beta(inputs.a as int, inputs.b as int),
{
    let sum: i64 = inputs.a as i64 + 2 * (inputs.b as i64);
    proof {
        lemma_mul_bounded(FRAC_1_SQRT_3 as int, sum as int, 0x4000_0000, 0x1_8000_0000);
    }
    let beta: i64 = (FRAC_1_SQRT_3 * sum) / (TRIG_ONE as i64);
    TwoPhaseReferenceFrame { alpha: inputs.a, beta: beta as i32 }
}

/// `sqrt(3) * beta`, truncated.
pub(crate) fn sqrt3_mul(beta: i32) -> (r: i64)
    ensures
        r == sqrt3_times(beta as int),
        -0x1_0000_0000 < r < 0x1_0000_0000,
{
    proof {
        lemma_mul_bounded(SQRT_3 as int, beta as int, 0x8000_0000, 0x8000_0000);
        lemma_tdiv(SQRT_3 * beta, TRIG_ONE as int);
    }
    (SQRT_3 * (beta as i64)) / (TRIG_ONE as i64)
}

/// Inverse Clarke transform: `a = alpha`, `b = (-alpha + sqrt(3) beta) / 2`,
/// `c = -(a + b)`, which is `(-alpha - sqrt(3) beta) / 2` within one unit.
/// The three phases always sum to 0.
pub fn inverse_clarke(inputs: TwoPhaseReferenceFrame) -> (r: ThreePhaseReferenceFrame)
    requires
        inverse_clarke_defined(inputs),
    ensures
        r.a == inputs.alpha,
        r.b == inverse_clarke_b(inputs.alpha as int, inputs.beta as int),
        r.c == inverse_clarke_c(inputs.alpha as int, inputs.beta as int),
        r.a + r.b + r.c == 0,
{
    let t: i64 = sqrt3_mul(inputs.beta);
    let alpha: i64 = inputs.alpha as i64;
    let b: i64 = (-alpha + t) / 2;
    let c: i64 = -alpha - b;
    ThreePhaseReferenceFrame { a: inputs.alpha, b: b as i32, c: c as i32 }
}

/// `c * x + s * y` with 30 fractional bits on `c` and `s`, truncated.
fn rotate_exec(c: i32, x: i32, s: i64, y: i32) -> (r: i64)
    requires
        -0x8000_0000 <= s <= 0x8000_0000,
        fits_i32(rotate(c as int, x as int, s as int, y as int)),
    ensures
        r == rotate(c as int, x as int, s as int, y as int),
{
    proof {
        lemma_mul_bounded(c as int, x as int, 0x8000_0000, 0x8000_0000);
        lemma_mul_bounded(s as int, y as int, 0x8000_0000, 0x8000_0000);
    }
    let sum: i128 = ((c as i64) * (x as i64)) as i128 + (s * (y as i64)) as i128;
    (sum / (TRIG_ONE as i128)) as i64
}

/// Park transform, given the cosine and sine of the electrical angle (30
/// fractional bits): `d = cos alpha + sin beta`, `q = cos beta - sin alpha`.
pub fn park(cos_angle: i32, sin_angle: i32, inputs: TwoPhaseReferenceFrame) -> (r: RotatingReferenceFrame)
    requires
        park_defined(cos_angle as int, sin_angle as int, inputs),
    ensures
        r.d == rotate(cos_angle as int, inputs.alpha as int, sin_angle as int, inputs.beta as int),
        r.q == rotate(cos_angle as int, inputs.beta as int, -sin_angle, inputs.alpha as int),
{
    let d: i64 = rotate_exec(cos_angle, inputs.alpha, sin_angle as i64, inputs.beta);
    let q: i64 = rotate_exec(cos_angle, inputs.beta, -(sin_angle as i64), inputs.alpha);
    RotatingReferenceFrame { d: d as i32, q: q as i32 }
}

/// Inverse Park transform, given the cosine and sine of the electrical angle
/// (30 fractional bits): `alpha = cos d - sin q`, `beta = sin d + cos q`.
pub fn inverse_park(cos_angle: i32, sin_angle: i32, inputs: RotatingReferenceFrame) -> (r: TwoPhaseReferenceFrame)
    requires
        inverse_park_defined(cos_angle as int, sin_angle as int, inputs),
    ensures
        r.alpha == rotate(cos_angle as int, inputs.d as int, -sin_angle, inputs.q as int),
        r.beta == rotate(sin_angle as int, inputs.d as int, cos_angle as int, inputs.q as int),
{
    let alpha: i64 = rotate_exec(cos_angle, inputs.d, -(sin_angle as i64), inputs.q);
    let beta: i64 = rotate_exec(sin_angle, inputs.d, cos_angle as i64, inputs.q);
    TwoPhaseReferenceFrame { alpha: alpha as i32, beta: beta as i32 }
}

/// The inverse Clarke transform keeps a balance: its three phases sum to 0.
pub proof fn lemma_inverse_clarke_balanced(v: TwoPhaseReferenceFrame)
    ensures
        inverse_clarke_spec(v).0 + inverse_clarke_spec(v).1 + inverse_clarke_spec(v).2 == 0,
{
}

/// Phase C of the inverse Clarke transform lies within one unit of
/// `(-alpha - sqrt(3) beta) / 2`.
pub proof fn lemma_inverse_clarke_c_close(alpha: int, beta: int)
    ensures
        -1 <= inverse_clarke_c(alpha, beta) - tdiv(-alpha - sqrt3_times(beta), 2) <= 1,
{
    let t = sqrt3_times(beta);
    lemma_tdiv(-alpha + t, 2);
    lemma_tdiv(-alpha - t, 2);
}

/// Scaling `u` by `k` and then by `s`, each followed by a division by `one`
/// with remainders `r1` and `r2`, gives `t`.
proof fn lemma_two_scalings(one: int, k: int, s: int, u: int, beta: int, t: int, r1: int, r2: int)
    requires
        r1 == k * u - one * beta,
        r2 == s * beta - one * t,
    ensures
        one * one * (t - u) == (s * k - one * one) * u - s * r1 - one * r2,
{
    assert(s * r1 == s * k * u - s * one * beta) by (nonlinear_arith)
        requires
            r1 == k * u - one * beta,
    ;
    assert(one * r2 == one * s * beta - one * one * t) by (nonlinear_arith)
        requires
            r2 == s * beta - one * t,
    ;
    assert(s * one * beta == one * s * beta) by (nonlinear_arith);
    assert((s * k - one * one) * u == s * k * u - one * one * u) by (nonlinear_arith);
    assert(one * one * (t - u) == one * one * t - one * one * u) by (nonlinear_arith);
}

/// The Clarke transform followed by its inverse gives phase A back exactly
/// and phase B within 3 units of the last place (3 / 65536).
pub proof fn lemma_clarke_round_trip(a: i32, b: i32)
    ensures
        inverse_clarke_spec(
            TwoPhaseReferenceFrame { alpha: a, beta: clarke_beta(a as int, b as int) as i32 },
        ).0 == a,
        -3 <= inverse_clarke_b(a as int, clarke_beta(a as int, b as int)) - b <= 3,
{
    let k = FRAC_1_SQRT_3 as int;
    let s = SQRT_3 as int;
    let one = TRIG_ONE as int;
    let u = a + 2 * b;
    let beta = clarke_beta(a as int, b as int);
    let t = sqrt3_times(beta);
    lemma_tdiv(k * u, one);
    lemma_tdiv(s * beta, one);
    let r1 = k * u - one * beta;
    let r2 = s * beta - one * t;
    lemma_two_scalings(one, k, s, u, beta, t, r1, r2);
    lemma_mul_bounded(s * k - one * one, u, 470745493, 0x1_8000_0000);
    lemma_mul_bounded(s, r1, s, one);
    lemma_mul_bounded(one, r2, one, one);
    let e = t - u;
    assert(-6 < e < 6) by (nonlinear_arith)
        requires
            one == 0x4000_0000,
            -6 * (one * one) < one * one * e < 6 * (one * one),
    ;
    lemma_tdiv(t - a, 2);
}

/// The identity behind the Park round trip: rotating by `(c, s)` and back,
/// with remainders `r1`, `r2` on the way there and `r3` on the way back.
proof fn lemma_rotation_there_and_back(
    one: int,
    c: int,
    s: int,
    x: int,
    y: int,
    d: int,
    q: int,
    x2: int,
    r1: int,
    r2: int,
    r3: int,
)
    requires
        one * d == c * x + s * y - r1,
        one * q == c * y - s * x - r2,
        one * x2 == c * d - s * q - r3,
    ensures
        one * one * (x2 - x) == (c * c + s * s - one * one) * x - c * r1 + s * r2 - one * r3,
{
    assert(one * (one * x2) == c * (one * d) - s * (one * q) - one * r3) by (nonlinear_arith)
        requires
            one * x2 == c * d - s * q - r3,
    ;
    assert(c * (one * d) == c * c * x + c * s * y - c * r1) by (nonlinear_arith)
        requires
            one * d == c * x + s * y - r1,
    ;
    assert(s * (one * q) == s * c * y - s * s * x - s * r2) by (nonlinear_arith)
        requires
            one * q == c * y - s * x - r2,
    ;
    assert(one * (one * x2) == one * one * x2) by (nonlinear_arith);
    assert(c * s * y == s * c * y) by (nonlinear_arith);
    assert((c * c + s * s - one * one) * x == c * c * x + s * s * x - one * one * x) by (nonlinear_arith);
    assert(one * one * (x2 - x) == one * one * x2 - one * one * x) by (nonlinear_arith);
}

/// Bounds the error of a rotation there and back by the error of the pair.
proof fn lemma_round_trip_error(one: int, c: int, s: int, x: int, x2: int, r1: int, r2: int, r3: int)
    requires
        one == TRIG_ONE,
        -one <= c <= one,
        -one <= s <= one,
        -one < r1 < one,
        -one < r2 < one,
        -one < r3 < one,
        one * one * (x2 - x) == (c * c + s * s - one * one) * x - c * r1 + s * r2 - one * r3,
    ensures
        one * one * abs(x2 - x) < abs((c * c + s * s - one * one) * x) + 3 * one * one,
{
    lemma_mul_bounded(c, r1, one, one);
    lemma_mul_bounded(s, r2, one, one);
    lemma_mul_bounded(one, r3, one, one);
    if x2 < x {
        assert(one * one * abs(x2 - x) == -(one * one * (x2 - x))) by (nonlinear_arith)
            requires
                x2 < x,
        ;
    } else {
        assert(one * one * abs(x2 - x) == one * one * (x2 - x)) by (nonlinear_arith)
            requires
                x2 >= x,
        ;
    }
}

/// The Park transform followed by its inverse, with the same cosine `c` and
/// sine `s`, gives each component back within 3 units of the last place,
/// plus an error proportional to how far `c * c + s * s` is from 1.
pub proof fn lemma_park_round_trip(c: i32, s: i32, v: TwoPhaseReferenceFrame)
    requires
        -TRIG_ONE <= c <= TRIG_ONE,
        -TRIG_ONE <= s <= TRIG_ONE,
    ensures
        ({
            let one = TRIG_ONE as int;
            let unit_error = c * c + s * s - one * one;
            let d = rotate(c as int, v.alpha as int, s as int, v.beta as int);
            let q = rotate(c as int, v.beta as int, -s, v.alpha as int);
            let alpha = rotate(c as int, d, -s, q);
            let beta = rotate(s as int, d, c as int, q);
            &&& one * one * abs(alpha - v.alpha) < abs(unit_error * v.alpha) + 3 * one * one
            &&& one * one * abs(beta - v.beta) < abs(unit_error * v.beta) + 3 * one * one
        }),
{
    let one = TRIG_ONE as int;
    let (c, s, x, y) = (c as int, s as int, v.alpha as int, v.beta as int);
    let d = rotate(c, x, s, y);
    let q = rotate(c, y, -s, x);
    let x2 = rotate(c, d, -s, q);
    let y2 = rotate(s, d, c, q);
    lemma_tdiv(c * x + s * y, one);
    lemma_tdiv(c * y + (-s) * x, one);
    lemma_tdiv(c * d + (-s) * q, one);
    lemma_tdiv(s * d + c * q, one);
    assert((-s) * x == -(s * x) && (-s) * y == -(s * y) && (-s) * q == -(s * q) && (-s) * d == -(
        s * d
    )) by (nonlinear_arith);
    let r1 = c * x + s * y - one * d;
    let r2 = c * y - s * x - one * q;
    let r3 = c * d - s * q - one * x2;
    let r4 = s * d + c * q - one * y2;
    lemma_rotation_there_and_back(one, c, s, x, y, d, q, x2, r1, r2, r3);
    lemma_round_trip_error(one, c, s, x, x2, r1, r2, r3);
    // the beta component is the same rotation with the axes exchanged
    lemma_rotation_there_and_back(one, c, -s, y, x, q, d, y2, r2, r1, r4);
    assert(c * c + (-s) * (-s) == c * c + s * s) by (nonlinear_arith);
    lemma_round_trip_error(one, c, -s, y, y2, r2, r1, r4);
}

} // verus!
