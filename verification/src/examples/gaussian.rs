//! Gaussian shift in `R^d`: `S' = s + sigma * N(0, I)`, identity
//! forward model, negative empirical dispersion as the invariance.
use vstd::prelude::*;

use crate::float64::{one_bits, Float64};

verus! {

/// Perturbation family `S' = s + sigma * N(0, I)` with `sigma` uniform
/// on `[0, sigma_max]`.
#[derive(Debug, Clone, Copy, PartialEq, Eq)]
pub struct GaussianShift {
    /// Upper bound of the uniform intensity.
    pub sigma_max: Float64,
    /// Ambient dimension of `S = R^d`.
    pub d: usize,
}

impl GaussianShift {
    /// Null parameter: `sigma = 0`.
    pub fn null(&self) -> (theta: Float64)
        ensures
            theta.bits == 0,
    {
        Float64::zero()
    }
}

/// Forward model: the identity `F(s) = s`.
#[derive(Debug, Clone, Copy, PartialEq, Eq)]
pub struct Identity {
    /// Ambient dimension.
    pub d: usize,
}

impl Identity {
    /// `F(s) = s`.
    pub fn eval(&self, s: &Vec<Float64>) -> (y: Vec<Float64>)
        ensures
            y@ == s@,
    {
        s.clone()
    }

    /// Declared Lipschitz constant: the identity is 1-Lipschitz.
    pub fn lipschitz(&self) -> (l: Option<Float64>)
        ensures
            l == Some(Float64 { bits: one_bits() }),
    {
        Some(Float64::one())
    }
}

/// Invariance functional: negative empirical variance summed over
/// coordinates.
#[derive(Debug, Clone, Copy, PartialEq, Eq)]
pub struct NegDispersion;

impl NegDispersion {
    /// Declared `W_1`-Lipschitz constant: none, since the empirical
    /// variance is not globally `W_1`-Lipschitz on unbounded `R^d`.
    pub fn lipschitz_w1(&self) -> (l: Option<Float64>)
        ensures
            l is None,
    {
        None
    }

    /// Tag identifying this functional.
    pub fn name(&self) -> (s: &'static str)
        ensures
            s@ == "negative_dispersion"@,
    {
        "negative_dispersion"
    }
}

} // verus!
