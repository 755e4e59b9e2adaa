//! The report: the estimate, its provenance, and the optional error
//! bound and stability modulus.
use vstd::prelude::*;

use crate::config::{Config, Reduction};
use crate::engine::{report_plan, BoundInputs};
use crate::float64::Float64;
use crate::SCHEMA_VERSION;

verus! {

/// Constants that fix the bound.
#[derive(Debug, Clone, Copy, PartialEq, Eq)]
pub struct BoundConstants {
    /// `Lambda`.
    pub lambda: Option<Float64>,
    /// Observation diameter `D`.
    pub d: Option<Float64>,
    /// Observation dimension.
    pub obs_dim: Option<u32>,
}

/// Non-asymptotic error bound block: `available` is `true` exactly when
/// `Lambda`, `D` and `obs_dim` were all supplied and the bound computed.
#[derive(Debug, Clone, PartialEq, Eq)]
pub struct ErrorBound {
    /// `true` iff the bound was derived.
    pub available: bool,
    /// Achieved `epsilon`; `0.0` when unavailable.
    pub epsilon: Float64,
    /// Failure probability used in the bound.
    pub eta: Float64,
    /// Free-text basis tag.
    pub basis: String,
    /// Mirror of the input constants.
    pub constants: BoundConstants,
}

/// Top-level report object.
#[derive(Debug, Clone, PartialEq, Eq)]
pub struct Report {
    /// Schema version.
    pub schema_version: String,
    /// The scalar invariance value.
    pub value: Float64,
    /// Tag identifying which functional produced `value`.
    pub functional: String,
    /// Sample size actually used.
    pub n_effective: u64,
    /// Provenance: RNG seed.
    pub seed: u64,
    /// Provenance: reduction policy.
    pub reduction: Reduction,
    /// Error bound block.
    pub error_bound: ErrorBound,
    /// Stability modulus `Lambda * L`, when both are declared.
    pub stability_modulus: Option<Float64>,
}

impl Report {
    /// A report with the value and provenance only: no bound (basis
    /// `"none"`, zero `epsilon` and `eta`, no constants) and no stability
    /// modulus.
    pub fn raw(value: Float64, functional: &str, n: u64, seed: u64, reduction: Reduction) -> (r:
        Self)
        ensures
            r.schema_version@ == SCHEMA_VERSION@,
            r.value == value,
            r.functional@ == functional@,
            r.n_effective == n,
            r.seed == seed,
            r.reduction == reduction,
            !r.error_bound.available,
            r.error_bound.epsilon.bits == 0,
            r.error_bound.eta.bits == 0,
            r.error_bound.basis@ == "none"@,
            r.error_bound.constants == (BoundConstants { lambda: None, d: None, obs_dim: None }),
            r.stability_modulus is None,
    {
        Report {
            schema_version: String::from_str(SCHEMA_VERSION),
            value,
            functional: String::from_str(functional),
            n_effective: n,
            seed,
            reduction,
            error_bound: ErrorBound {
                available: false,
                epsilon: Float64::zero(),
                eta: Float64::zero(),
                basis: String::from_str("none"),
                constants: BoundConstants { lambda: None, d: None, obs_dim: None },
            },
            stability_modulus: None,
        }
    }
}

/// Stitch the provenance, the error bound and the stability modulus onto
/// a bare report. The provenance is the config's; the bound is available
/// exactly when `Lambda`, `D` and `obs_dim` were all supplied, with the
/// `epsilon` that `bound_epsilon` gives for those inputs and `n`, and is
/// the unavailable block (basis `"none"`, zero `epsilon` and `eta`, no
/// constants) otherwise; the modulus is what `product` gives for `Lambda`
/// and `L` when both were declared, and absent otherwise. The value and
/// the functional tag are kept.
pub fn finish_report<B: Fn(BoundInputs, u64) -> Float64, M: Fn(Float64, Float64) -> Float64>(
    report: Report,
    cfg: &Config,
    forward_l: Option<Float64>,
    bound_epsilon: &B,
    product: &M,
) -> (r: Report)
    requires
        forall|b: BoundInputs, n: u64| bound_epsilon.requires((b, n)),
        forall|x: Float64, y: Float64| product.requires((x, y)),
    ensures
        r.schema_version@ == SCHEMA_VERSION@,
        r.value == report.value,
        r.functional == report.functional,
        r.n_effective == cfg.n,
        r.seed == cfg.seed,
        r.reduction == cfg.reduction,
        !(cfg.lipschitz.invariance_lambda is Some && cfg.accuracy is Some) ==> {
            &&& !r.error_bound.available
            &&& r.error_bound.epsilon.bits == 0
            &&& r.error_bound.eta.bits == 0
            &&& r.error_bound.basis@ == "none"@
            &&& r.error_bound.constants == (BoundConstants { lambda: None, d: None, obs_dim: None })
        },
        (cfg.lipschitz.invariance_lambda is Some && cfg.accuracy is Some) ==> {
            let b = BoundInputs {
                lambda: cfg.lipschitz.invariance_lambda.unwrap(),
                d: cfg.accuracy.unwrap().observation_diameter,
                obs_dim: cfg.accuracy.unwrap().obs_dim,
                eta: cfg.accuracy.unwrap().eta,
            };
            &&& r.error_bound.available
            &&& bound_epsilon.ensures((b, cfg.n), r.error_bound.epsilon)
            &&& r.error_bound.eta == b.eta
            &&& r.error_bound.basis@ == "mcdiarmid+fournier_guillin"@
            &&& r.error_bound.constants == (BoundConstants {
                lambda: Some(b.lambda),
                d: Some(b.d),
                obs_dim: Some(b.obs_dim),
            })
        },
        (cfg.lipschitz.invariance_lambda is Some && forward_l is Some) ==> (r.stability_modulus
            matches Some(m) && product.ensures(
            (cfg.lipschitz.invariance_lambda.unwrap(), forward_l.unwrap()),
            m,
        )),
        !(cfg.lipschitz.invariance_lambda is Some && forward_l is Some) ==> r.stability_modulus
            is None,
{
    let plan = report_plan(cfg, forward_l);
    let mut r = report;
    r.schema_version = String::from_str(SCHEMA_VERSION);
    r.n_effective = plan.n_effective;
    r.seed = plan.seed;
    r.reduction = Reduction {
        order: cfg.reduction.order.clone(),
        leaf_order: cfg.reduction.leaf_order.clone(),
    };
    match plan.bound {
        None => {
            r.error_bound = ErrorBound {
                available: false,
                epsilon: Float64::zero(),
                eta: Float64::zero(),
                basis: String::from_str("none"),
                constants: BoundConstants { lambda: None, d: None, obs_dim: None },
            };
        },
        Some(b) => {
        let epsilon = bound_epsilon(b, plan.n_effective);
        r.error_bound = ErrorBound {
            available: true,
            epsilon,
            eta: b.eta,
            basis: String::from_str("mcdiarmid+fournier_guillin"),
            constants: BoundConstants { lambda: Some(b.lambda), d: Some(b.d), obs_dim: Some(b.obs_dim) },
        };
        },
    }
    r.stability_modulus = match plan.stability {
        Some((lambda, l)) => Some(product(lambda, l)),
        None => None,
    };
    r
}

} // verus!
