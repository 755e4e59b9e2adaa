//! Bistable double-well marble: one Euler-Maruyama Langevin step in
//! `V(x) = (x^2 - 1)^2`, sign-of-well readout, polarisation as the
//! invariance.
use vstd::prelude::*;

use crate::float64::{one_bits, Float64};

verus! {

/// Bit pattern of `-1.0`.
pub open spec fn minus_one_bits() -> u64 {
    0xbff0_0000_0000_0000u64
}

/// State: the marble's position; the wells sit at `+1` and `-1`.
#[derive(Debug, Clone, Copy, PartialEq, Eq)]
pub struct Marble {
    /// Position along the well axis.
    pub x: Float64,
}

/// Perturbation family: one Langevin step with noise intensity `theta`
/// uniform on `[0, theta_max]`.
#[derive(Debug, Clone, Copy, PartialEq, Eq)]
pub struct Langevin {
    /// Euler-Maruyama step size.
    pub dt: Float64,
    /// Upper bound of the uniform intensity.
    pub theta_max: Float64,
}

impl Langevin {
    /// Null parameter: no noise.
    pub fn null(&self) -> (theta: Float64)
        ensures
            theta.bits == 0,
    {
        Float64::zero()
    }
}

/// Forward model: `F(s) = 1` when the marble sits in the right-hand
/// well (`x >= 0`), `-1` otherwise.
#[derive(Debug, Clone, Copy, PartialEq, Eq)]
pub struct WellOccupancy;

impl WellOccupancy {
    /// The occupied well: `1.0` for `x >= 0.0`, `-1.0` otherwise (NaN
    /// included).
    pub fn eval(&self, s: &Marble) -> (y: Float64)
        ensures
            s.x.spec_ge_zero() ==> y.bits == one_bits(),
            !s.x.spec_ge_zero() ==> y.bits == minus_one_bits(),
    {
        if s.x.ge_zero() {
            Float64::one()
        } else {
            Float64::from_bits(0xbff0_0000_0000_0000)
        }
    }

    /// Declared Lipschitz constant: none, the sign is not Lipschitz
    /// across `x = 0`.
    pub fn lipschitz(&self) -> (l: Option<Float64>)
        ensures
            l is None,
    {
        None
    }
}

/// Invariance functional: the empirical mean of the readout, which lies
/// in `[-1, 1]`.
#[derive(Debug, Clone, Copy, PartialEq, Eq)]
pub struct Polarisation;

impl Polarisation {
    /// Declared `W_1`-Lipschitz constant: the mean is 1-Lipschitz on
    /// `{-1, 1}`.
    pub fn lipschitz_w1(&self) -> (l: Option<Float64>)
        ensures
            l == Some(Float64 { bits: one_bits() }),
    {
        Some(Float64::one())
    }

    /// Tag identifying this functional.
    pub fn name(&self) -> (s: &'static str)
        ensures
            s@ == "polarisation"@,
    {
        "polarisation"
    }
}

} // verus!
