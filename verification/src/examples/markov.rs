//! Finite-state Markov chain: uniform mixing of a label, indicator
//! readout, tail survival as the invariance.
use vstd::prelude::*;

use crate::float64::{one_bits, Float64};

verus! {

/// Discrete state: a label in `0..k`.
#[derive(Debug, Clone, Copy, PartialEq, Eq, Structural)]
pub struct Label {
    /// Index into the state alphabet.
    pub i: u32,
}

/// Perturbation family: with probability `theta` replace the label by a
/// uniform draw on `0..k`, otherwise keep it.
#[derive(Debug, Clone, Copy, PartialEq, Eq)]
pub struct UniformMixing {
    /// Alphabet size.
    pub k: u32,
    /// Upper bound of the uniform intensity.
    pub theta_max: Float64,
}

impl UniformMixing {
    /// Null parameter: never mix.
    pub fn null(&self) -> (theta: Float64)
        ensures
            theta.bits == 0,
    {
        Float64::zero()
    }
}

/// Forward model: the indicator of the privileged label.
#[derive(Debug, Clone, Copy, PartialEq, Eq, Structural)]
pub struct BaseIndicator {
    /// Label whose survival is measured.
    pub base_label: u32,
}

impl BaseIndicator {
    /// `1.0` when the label is the base label, `0.0` otherwise.
    pub fn eval(&self, s: &Label) -> (y: Float64)
        ensures
            s.i == self.base_label ==> y.bits == one_bits(),
            s.i != self.base_label ==> y.bits == 0,
    {
        if s.i == self.base_label {
            Float64::one()
        } else {
            Float64::zero()
        }
    }

    /// Declared Lipschitz constant: `1` under `d_O(a, b) = |a - b|`.
    pub fn lipschitz(&self) -> (l: Option<Float64>)
        ensures
            l == Some(Float64 { bits: one_bits() }),
    {
        Some(Float64::one())
    }
}

/// Invariance functional: the empirical survival probability, in
/// `[0, 1]`.
#[derive(Debug, Clone, Copy, PartialEq, Eq)]
pub struct Survival;

impl Survival {
    /// Declared `W_1`-Lipschitz constant: the mean is 1-Lipschitz on
    /// `{0, 1}`.
    pub fn lipschitz_w1(&self) -> (l: Option<Float64>)
        ensures
            l == Some(Float64 { bits: one_bits() }),
    {
        Some(Float64::one())
    }

    /// Tag identifying this functional.
    pub fn name(&self) -> (s: &'static str)
        ensures
            s@ == "tail_survival"@,
    {
        "tail_survival"
    }
}

} // verus!
