//! Error codes of the C-ABI surface.
use vstd::prelude::*;

use crate::Error;

verus! {

/// Error codes returned through the `out_err` out-parameter.
#[derive(Debug, Clone, Copy, PartialEq, Eq, Structural)]
pub enum PkErr {
    /// Success.
    Success,
    /// The config could not be read or is not one the engine honours.
    InvalidConfig,
    /// The null parameters disagree.
    NullParameterMismatch,
    /// The sample-complexity floor was not met.
    SampleFloor,
    /// The ensemble was empty.
    EmptyEnsemble,
    /// A panic was caught at the boundary.
    Panic,
}

impl PkErr {
    /// The integer written through `out_err`: the variants in order from
    /// zero.
    pub fn code(self) -> (c: i32)
        ensures
            self == PkErr::Success ==> c == 0,
            self == PkErr::InvalidConfig ==> c == 1,
            self == PkErr::NullParameterMismatch ==> c == 2,
            self == PkErr::SampleFloor ==> c == 3,
            self == PkErr::EmptyEnsemble ==> c == 4,
            self == PkErr::Panic ==> c == 5,
    {
        match self {
            PkErr::Success => 0,
            PkErr::InvalidConfig => 1,
            PkErr::NullParameterMismatch => 2,
            PkErr::SampleFloor => 3,
            PkErr::EmptyEnsemble => 4,
            PkErr::Panic => 5,
        }
    }

    /// The code a failed run reports: the three contract violations a
    /// caller can act on have codes of their own, every other error is
    /// an invalid config.
    pub fn from_error(e: &Error) -> (c: PkErr)
        ensures
            e is NullParameterMismatch ==> c == PkErr::NullParameterMismatch,
            e is SampleFloor ==> c == PkErr::SampleFloor,
            e is EmptyEnsemble ==> c == PkErr::EmptyEnsemble,
            !(e is NullParameterMismatch || e is SampleFloor || e is EmptyEnsemble) ==> c
                == PkErr::InvalidConfig,
    {
        match e {
            Error::NullParameterMismatch { .. } => PkErr::NullParameterMismatch,
            Error::SampleFloor { .. } => PkErr::SampleFloor,
            Error::EmptyEnsemble => PkErr::EmptyEnsemble,
            _ => PkErr::InvalidConfig,
        }
    }
}

} // verus!
