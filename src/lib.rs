//! Fixed-point field-oriented-control math: Clarke and Park transforms,
//! PWM modulation strategies and PI/PID controllers.
//!
//! Signals are `i32` values with 16 fractional bits (`ONE` is 1.0). The sine
//! and cosine of the electrical angle, and the irrational constants, carry
//! 30 fractional bits (`TRIG_ONE` is 1.0). Every division truncates toward
//! zero, which the specifications express with `tdiv`.
use vstd::prelude::*;

pub mod park_clarke;
pub mod pid;
pub mod pwm;

verus! {

/// The signal value 1.0 (16 fractional bits).
pub const ONE: i32 = 65536;

/// The value 1.0 for a sine or cosine (30 fractional bits).
pub const TRIG_ONE: i32 = 1073741824;

/// 1 / sqrt(3), with 30 fractional bits.
pub const FRAC_1_SQRT_3: i64 = 619925131;

/// sqrt(3), with 30 fractional bits.
pub const SQRT_3: i64 = 1859775393;

/// Integer division rounding toward zero, as `/` does on Rust's signed integers.
pub open spec fn tdiv(n: int, d: int) -> int {
    if n >= 0 {
        n / d
    } else {
        -((-n) / d)
    }
}

/// `v` is representable as an `i32`.
pub open spec fn fits_i32(v: int) -> bool {
    i32::MIN <= v <= i32::MAX
}

/// The magnitude of `v`.
pub open spec fn abs(v: int) -> int {
    if v < 0 {
        -v
    } else {
        v
    }
}

/// `v` times a constant with 30 fractional bits, truncated.
pub open spec fn mul_q30(k: int, v: int) -> int {
    tdiv(k * v, TRIG_ONE as int)
}

/// The remainder of a truncating division is smaller than the divisor and
/// has the sign of the dividend.
pub proof fn lemma_tdiv(n: int, d: int)
    requires
        d > 0,
    ensures
        n >= 0 ==> 0 <= n - d * tdiv(n, d) < d,
        n < 0 ==> -d < n - d * tdiv(n, d) <= 0,
        n >= 0 ==> tdiv(n, d) >= 0,
        n <= 0 ==> tdiv(n, d) <= 0,
{
    if n >= 0 {
        vstd::arithmetic::div_mod::lemma_fundamental_div_mod(n, d);
        vstd::arithmetic::div_mod::lemma_div_pos_is_pos(n, d);
        vstd::arithmetic::div_mod::lemma_mod_pos_bound(n, d);
    } else {
        vstd::arithmetic::div_mod::lemma_fundamental_div_mod(-n, d);
        vstd::arithmetic::div_mod::lemma_div_pos_is_pos(-n, d);
        vstd::arithmetic::div_mod::lemma_mod_pos_bound(-n, d);
        let q = (-n) / d;
        assert(d * tdiv(n, d) == -(d * q)) by (nonlinear_arith)
            requires
                tdiv(n, d) == -q,
        ;
    }
}

/// A product of two bounded factors is bounded by the product of the bounds.
pub proof fn lemma_mul_bounded(x: int, y: int, bx: int, by_: int)
    requires
        -bx <= x <= bx,
        -by_ <= y <= by_,
    ensures
        -(bx * by_) <= x * y <= bx * by_,
{
    assert(-(bx * by_) <= x * y <= bx * by_) by (nonlinear_arith)
        requires
            -bx <= x <= bx,
            -by_ <= y <= by_,
    ;
}

} // verus!
