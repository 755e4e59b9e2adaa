//! Verified core of the perturbation-kernel reference implementation:
//! the deterministic reduction tree, the per-index seed derivation, the
//! configuration and family contracts the engine enforces before it
//! draws, the report assembly, and the device work planning.
pub mod abi;
pub mod config;
pub mod engine;
pub mod examples;
pub mod family;
pub mod float64;
pub mod gpu;
pub mod reduce;
pub mod report;
pub mod text;

use float64::Float64;
use vstd::prelude::*;

verus! {

/// Schema version this implementation advertises.
pub const SCHEMA_VERSION: &'static str = "1.0.0";

/// Errors returned by the engine, the families and the C-ABI surface.
#[derive(Debug)]
pub enum Error {
    /// The configured reduction policy is not one the engine honours;
    /// callers surface it as a configuration decode error.
    UnsupportedReduction {
        /// The configured `order`.
        order: String,
        /// The configured `leaf_order`.
        leaf_order: String,
    },
    /// `schema_version` major component differs from this crate's.
    SchemaVersion {
        /// Version provided by the caller.
        got: String,
        /// Major component this crate accepts.
        want_major: u64,
    },
    /// The configured null parameter differs from the perturbation's.
    NullParameterMismatch {
        /// Serialised value from the config.
        config: String,
        /// Serialised value from the perturbation.
        perturbation: String,
    },
    /// `n` was zero.
    EmptyEnsemble,
    /// The sample-complexity floor was not met for an accuracy claim.
    SampleFloor {
        /// Target additive error.
        epsilon: Float64,
        /// Target failure probability.
        eta: Float64,
        /// Minimum `N`.
        floor: u64,
        /// Actual `n` supplied.
        n: u64,
    },
    /// The requested backend cannot evaluate this run.
    UnsupportedBackend {
        /// The backend tag that was refused.
        backend: &'static str,
        /// Why, and what to use instead.
        reason: String,
    },
    /// A compute device could not be used.
    Gpu(String),
    /// A built-in family's hyperparameters are out of domain.
    InvalidFamily(String),
}

} // verus!
