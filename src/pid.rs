//! Fixed-point PI and PID controllers.
//!
//! Gains, setpoints, measurements and the time step all carry 16 fractional
//! bits (`ONE` is 1.0).
use vstd::prelude::*;

use crate::{fits_i32, tdiv, ONE};

verus! {

/// `k * v` for a gain `k`, truncated.
pub open spec fn gain(k: int, v: int) -> int {
    tdiv(k * v, ONE as int)
}

/// The accumulating part of a controller.
pub struct IntegralComponent {
    /// Integral gain
    pub k_i: i32,
    /// Sum of `k_i * error * dt` over the updates so far
    pub integral: i32,
}

impl IntegralComponent {
    /// The sum after an update with `error` over the time step `dt`.
    pub open spec fn next(self, error: int, dt: int) -> int {
        self.integral + tdiv(self.k_i * error * dt, ONE as int * ONE as int)
    }

    /// Adds `k_i * error * dt` to the sum and returns the new sum.
    pub fn update(&mut self, error: i64, dt: i32) -> (r: i32)
        requires
            -0x1_0000_0000 <= error <= 0x1_0000_0000,
            fits_i32(old(self).next(error as int, dt as int)),
        ensures
            final(self).k_i == old(self).k_i,
            final(self).integral == old(self).next(error as int, dt as int),
            r == final(self).integral,
    {
        proof {
            crate::lemma_mul_bounded(self.k_i as int, error as int, 0x8000_0000, 0x1_0000_0000);
            crate::lemma_mul_bounded(
                self.k_i * error,
                dt as int,
                0x80_0000_0000_0000_0000,
                0x8000_0000,
            );
        }
        let step: i128 = (self.k_i as i128) * (error as i128) * (dt as i128) / (ONE as i128 * ONE as i128);
        self.integral = (self.integral as i128 + step) as i32;
        self.integral
    }
}

/// The derivative-on-measurement part of a controller.
pub struct DerivativeComponent {
    /// Derivative gain
    pub k_d: i32,
    /// The measurement of the previous update, if there was one
    pub last_measurement: Option<i32>,
}

impl DerivativeComponent {
    /// The derivative term of an update with `measurement` over the time
    /// step `dt`: `k_d * (measurement - last) / dt`, and 0 without a previous
    /// measurement.
    pub open spec fn term(self, measurement: int, dt: int) -> int {
        match self.last_measurement {
            Some(last) => gain(self.k_d as int, tdiv((measurement - last) * ONE, dt)),
            None => 0,
        }
    }

    /// Returns the derivative term and records `measurement`.
    pub fn update(&mut self, measurement: i32, dt: i32) -> (r: i128)
        requires
            dt > 0,
        ensures
            final(self).k_d == old(self).k_d,
            final(self).last_measurement == Some(measurement),
            r == old(self).term(measurement as int, dt as int),
    {
        let derivative: i64 = match self.last_measurement {
            Some(last) => {
                proof {
                    crate::lemma_mul_bounded(measurement - last, ONE as int, 0x1_0000_0000, 0x1_0000);
                }
                let delta: i64 = (measurement as i64 - last as i64) * (ONE as i64);
                proof {
                    crate::lemma_tdiv(delta as int, dt as int);
                    assert(-0x1_0000_0000_0000 <= tdiv(delta as int, dt as int) <= 0x1_0000_0000_0000)
                        by (nonlinear_arith)
                        requires
                            dt >= 1,
                            -0x1_0000_0000_0000 <= delta <= 0x1_0000_0000_0000,
                            delta >= 0 ==> 0 <= delta - dt * tdiv(delta as int, dt as int) < dt,
                            delta < 0 ==> -dt < delta - dt * tdiv(delta as int, dt as int) <= 0,
                            delta >= 0 ==> tdiv(delta as int, dt as int) >= 0,
                            delta <= 0 ==> tdiv(delta as int, dt as int) <= 0,
                    ;
                }
                delta / (dt as i64)
            },
            None => 0,
        };
        let had_last = self.last_measurement.is_some();
        self.last_measurement = Some(measurement);
        if had_last {
            proof {
                crate::lemma_mul_bounded(self.k_d as int, derivative as int, 0x8000_0000, 0x1_0000_0000_0000);
            }
            (self.k_d as i128) * (derivative as i128) / (ONE as i128)
        } else {
            0
        }
    }
}

/// A fixed-point PI controller.
pub struct PIController {
    /// Proportional gain
    pub k_p: i32,
    /// Integral part
    pub integral: IntegralComponent,
}

impl PIController {
    /// The output of an update: `k_p * error` plus the new integral sum.
    pub open spec fn output(self, setpoint: int, measurement: int, dt: int) -> int {
        gain(self.k_p as int, setpoint - measurement) + self.integral.next(setpoint - measurement, dt)
    }

    /// The update with these arguments keeps the integral sum and the output
    /// within `i32`.
    pub open spec fn update_defined(self, setpoint: int, measurement: int, dt: int) -> bool {
        &&& fits_i32(self.integral.next(setpoint - measurement, dt))
        &&& fits_i32(self.output(setpoint, measurement, dt))
    }

    /// Creates a PI controller with the given gains and an empty integral.
    pub fn new(k_p: i32, k_i: i32) -> (r: Self)
        ensures
            r.k_p == k_p,
            r.integral.k_i == k_i,
            r.integral.integral == 0,
    {
        PIController { k_p, integral: IntegralComponent { k_i, integral: 0 } }
    }

    /// Updates the controller, returning the new output value.
    pub fn update(&mut self, setpoint: i32, measurement: i32, dt: i32) -> (r: i32)
        requires
            old(self).update_defined(setpoint as int, measurement as int, dt as int),
        ensures
            final(self).k_p == old(self).k_p,
            final(self).integral.k_i == old(self).integral.k_i,
            final(self).integral.integral == old(self).integral.next(
                setpoint - measurement,
                dt as int,
            ),
            r == old(self).output(setpoint as int, measurement as int, dt as int),
    {
        let error: i64 = setpoint as i64 - measurement as i64;
        proof {
            crate::lemma_mul_bounded(self.k_p as int, error as int, 0x8000_0000, 0x1_0000_0000);
        }
        let p: i128 = (self.k_p as i128) * (error as i128) / (ONE as i128);
        let i: i32 = self.integral.update(error, dt);
        (p + i as i128) as i32
    }
}

/// A fixed-point PID controller. The derivative acts on the measurement, so
/// that a change of setpoint gives no derivative kick.
pub struct PIDController {
    /// Proportional gain
    pub k_p: i32,
    /// Integral part
    pub integral: IntegralComponent,
    /// Derivative part
    pub derivative: DerivativeComponent,
}

impl PIDController {
    /// A controller with the given gains, as `new` makes it.
    pub open spec fn fresh(k_p: i32, k_i: i32, k_d: i32) -> PIDController {
        PIDController {
            k_p,
            integral: IntegralComponent { k_i, integral: 0 },
            derivative: DerivativeComponent { k_d, last_measurement: None },
        }
    }

    /// The output of an update: `k_p * error`, plus the new integral sum,
    /// plus the derivative term.
    pub open spec fn output(self, setpoint: int, measurement: int, dt: int) -> int {
        gain(self.k_p as int, setpoint - measurement) + self.integral.next(setpoint - measurement, dt)
            + self.derivative.term(measurement, dt)
    }

    /// The time step is positive, and the update keeps the integral sum and
    /// the output within `i32`.
    pub open spec fn update_defined(self, setpoint: int, measurement: int, dt: int) -> bool {
        &&& dt > 0
        &&& fits_i32(self.integral.next(setpoint - measurement, dt))
        &&& fits_i32(self.output(setpoint, measurement, dt))
    }

    /// Creates a PID controller with the given gains, an empty integral and
    /// no previous measurement.
    pub fn new(k_p: i32, k_i: i32, k_d: i32) -> (r: Self)
        ensures
            r == Self::fresh(k_p, k_i, k_d),
    {
        PIDController {
            k_p,
            integral: IntegralComponent { k_i, integral: 0 },
            derivative: DerivativeComponent { k_d, last_measurement: None },
        }
    }

    /// Updates the controller, returning the new output value.
    pub fn update(&mut self, setpoint: i32, measurement: i32, dt: i32) -> (r: i32)
        requires
            old(self).update_defined(setpoint as int, measurement as int, dt as int),
        ensures
            final(self).k_p == old(self).k_p,
            final(self).integral.k_i == old(self).integral.k_i,
            final(self).integral.integral == old(self).integral.next(
                setpoint - measurement,
                dt as int,
            ),
            final(self).derivative.k_d == old(self).derivative.k_d,
            final(self).derivative.last_measurement == Some(measurement),
            r == old(self).output(setpoint as int, measurement as int, dt as int),
    {
        let error: i64 = setpoint as i64 - measurement as i64;
        proof {
            crate::lemma_mul_bounded(self.k_p as int, error as int, 0x8000_0000, 0x1_0000_0000);
        }
        let p: i128 = (self.k_p as i128) * (error as i128) / (ONE as i128);
        let i: i32 = self.integral.update(error, dt);
        let d: i128 = self.derivative.update(measurement, dt);
        (p + i as i128 + d) as i32
    }
}

/// The first update of a new controller has no derivative term, whatever
/// the measurement: its output is the proportional and integral parts alone.
pub proof fn lemma_first_update_no_derivative(
    k_p: i32,
    k_i: i32,
    k_d: i32,
    setpoint: i32,
    measurement: i32,
    dt: i32,
)
    requires
        dt > 0,
    ensures
        PIDController::fresh(k_p, k_i, k_d).derivative.term(measurement as int, dt as int) == 0,
        PIDController::fresh(k_p, k_i, k_d).output(setpoint as int, measurement as int, dt as int)
            == gain(k_p as int, setpoint - measurement) + tdiv(
            k_i * (setpoint - measurement) * dt,
            ONE as int * ONE as int,
        ),
{
}

} // verus!
