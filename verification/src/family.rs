//! The built-in perturbation families as data: which family, its
//! hyperparameters, and the contract a run of one must meet.
use vstd::prelude::*;

use crate::config::{validate_reduction, Config};
use crate::engine::{engine_first_failure, failed_check, spec_floor_refuses, Check};
use crate::float64::{one_bits, Float64};
use crate::Error;

verus! {

/// One of the built-in worked examples, fully specified. Their null
/// parameter is `0.0`: at zero intensity the state is returned
/// unchanged.
#[derive(Debug, Clone, PartialEq, Eq)]
pub enum Family {
    /// Gaussian shift in `R^d` with negative empirical dispersion as the
    /// invariance.
    Gaussian {
        /// Base state; its length fixes `d`.
        base: Vec<Float64>,
        /// Upper end of the uniform intensity.
        sigma_max: Float64,
    },
    /// Bistable double-well marble with polarisation as the invariance.
    Bistable {
        /// Initial position.
        x0: Float64,
        /// Euler-Maruyama step size.
        dt: Float64,
        /// Upper end of the uniform intensity.
        theta_max: Float64,
    },
    /// Finite-state Markov chain with tail survival as the invariance.
    Markov {
        /// Alphabet size.
        k: u32,
        /// Starting label.
        start: u32,
        /// Label whose survival is measured.
        base_label: u32,
        /// Upper end of the uniform intensity.
        theta_max: Float64,
    },
}

impl Family {
    /// The reason the hyperparameters are out of domain, in the order
    /// they are checked, or `None` when they are all in domain.
    pub open spec fn spec_violation(&self) -> Option<Seq<char>> {
        match self {
            Family::Gaussian { base, sigma_max } => {
                if base@.len() == 0 {
                    Some("gaussian: base state must have at least one coordinate"@)
                } else if !(forall|i: int| 0 <= i < base@.len() ==> (#[trigger] base@[i]).spec_is_finite()) {
                    Some("gaussian: base state must be finite"@)
                } else if !(sigma_max.spec_is_finite() && sigma_max.spec_ge_zero()) {
                    Some("gaussian: sigma_max must be finite and >= 0"@)
                } else {
                    None
                }
            },
            Family::Bistable { x0, dt, theta_max } => {
                if !x0.spec_is_finite() {
                    Some("bistable: x0 must be finite"@)
                } else if !(dt.spec_is_finite() && dt.spec_gt_zero()) {
                    Some("bistable: dt must be finite and > 0"@)
                } else if !(theta_max.spec_is_finite() && theta_max.spec_ge_zero()) {
                    Some("bistable: theta_max must be finite and >= 0"@)
                } else {
                    None
                }
            },
            Family::Markov { k, start, base_label, theta_max } => {
                if *k == 0 {
                    Some("markov: alphabet size k must be >= 1"@)
                } else if *start >= *k {
                    Some("markov: start must be < k"@)
                } else if *base_label >= *k {
                    Some("markov: base_label must be < k"@)
                } else if !(theta_max.spec_is_finite() && theta_max.spec_ge_zero()
                    && theta_max.spec_le_one()) {
                    Some("markov: theta_max must lie in [0, 1]"@)
                } else {
                    None
                }
            },
        }
    }

    /// Stable tag for this family.
    pub fn name(&self) -> (s: &'static str)
        ensures
            self is Gaussian ==> s@ == "gaussian"@,
            self is Bistable ==> s@ == "bistable"@,
            self is Markov ==> s@ == "markov"@,
    {
        match self {
            Family::Gaussian { .. } => "gaussian",
            Family::Bistable { .. } => "bistable",
            Family::Markov { .. } => "markov",
        }
    }

    /// Name of the invariance functional this family is paired with.
    pub fn functional(&self) -> (s: &'static str)
        ensures
            self is Gaussian ==> s@ == "negative_dispersion"@,
            self is Bistable ==> s@ == "polarisation"@,
            self is Markov ==> s@ == "tail_survival"@,
    {
        match self {
            Family::Gaussian { .. } => "negative_dispersion",
            Family::Bistable { .. } => "polarisation",
            Family::Markov { .. } => "tail_survival",
        }
    }

    /// Null parameter `theta_0`: zero for every built-in family.
    pub fn null_parameter(&self) -> (theta: Float64)
        ensures
            theta.bits == 0,
    {
        Float64::zero()
    }

    /// Observation dimension: `d` for the Gaussian family, `1` for the
    /// two scalar families.
    pub fn obs_dim(&self) -> (d: usize)
        ensures
            self matches Family::Gaussian { base, .. } ==> d == base@.len(),
            !(self is Gaussian) ==> d == 1,
    {
        match self {
            Family::Gaussian { base, .. } => base.len(),
            _ => 1,
        }
    }

    /// Validate the hyperparameters: a non-empty finite base state and
    /// a finite non-negative intensity bound for the Gaussian family; a
    /// finite start, a finite positive step and a finite non-negative
    /// intensity bound for the bistable one; a non-empty alphabet
    /// holding both labels and a mixing bound in `[0, 1]` for Markov.
    #[verifier::loop_isolation(false)]
    pub fn validate(&self) -> (r: Result<(), Error>)
        ensures
            r is Ok <==> self.spec_violation() is None,
            r matches Err(e) ==> (e matches Error::InvalidFamily(m) && m@
                == self.spec_violation().unwrap()),
            self matches Family::Markov { k, start, base_label, theta_max } ==> (r is Ok <==> (*k
                >= 1 && *start < *k && *base_label < *k && (theta_max.bits <= 0x3ff0_0000_0000_0000u64
                || theta_max.bits == 0x8000_0000_0000_0000u64))),
            self matches Family::Bistable { x0, dt, theta_max } ==> (r is Ok <==> (x0.bits
                & 0x7ff0_0000_0000_0000u64 != 0x7ff0_0000_0000_0000u64 && 0 < dt.bits
                < 0x7ff0_0000_0000_0000u64 && (theta_max.bits < 0x7ff0_0000_0000_0000u64
                || theta_max.bits == 0x8000_0000_0000_0000u64))),
    {
        proof {
            match self {
                Family::Gaussian { base, sigma_max } => {},
                Family::Bistable { x0, dt, theta_max } => law_bistable_domain(*x0, *dt, *theta_max),
                Family::Markov { k, start, base_label, theta_max } => law_markov_domain(
                    *k,
                    *start,
                    *base_label,
                    *theta_max,
                ),
            }
        }
        match self {
            Family::Gaussian { base, sigma_max } => {
                if base.len() == 0 {
                    return Err(
                        Error::InvalidFamily(
                            String::from_str(
                                "gaussian: base state must have at least one coordinate",
                            ),
                        ),
                    );
                }
                let mut i: usize = 0;
                while i < base.len()
                    invariant
                        i <= base@.len(),
                        forall|j: int| 0 <= j < i ==> (#[trigger] base@[j]).spec_is_finite(),
                    decreases base@.len() - i,
                {
                    if !base[i].is_finite() {
                        assert(!base@[i as int].spec_is_finite());
                        return Err(
                            Error::InvalidFamily(
                                String::from_str("gaussian: base state must be finite"),
                            ),
                        );
                    }
                    i += 1;
                }
                if !(sigma_max.is_finite() && sigma_max.ge_zero()) {
                    return Err(
                        Error::InvalidFamily(
                            String::from_str("gaussian: sigma_max must be finite and >= 0"),
                        ),
                    );
                }
            },
            Family::Bistable { x0, dt, theta_max } => {
                if !x0.is_finite() {
                    return Err(
                        Error::InvalidFamily(String::from_str("bistable: x0 must be finite")),
                    );
                }
                if !(dt.is_finite() && dt.gt_zero()) {
                    return Err(
                        Error::InvalidFamily(
                            String::from_str("bistable: dt must be finite and > 0"),
                        ),
                    );
                }
                if !(theta_max.is_finite() && theta_max.ge_zero()) {
                    return Err(
                        Error::InvalidFamily(
                            String::from_str("bistable: theta_max must be finite and >= 0"),
                        ),
                    );
                }
            },
            Family::Markov { k, start, base_label, theta_max } => {
                if *k == 0 {
                    return Err(
                        Error::InvalidFamily(
                            String::from_str("markov: alphabet size k must be >= 1"),
                        ),
                    );
                }
                if *start >= *k {
                    return Err(
                        Error::InvalidFamily(String::from_str("markov: start must be < k")),
                    );
                }
                if *base_label >= *k {
                    return Err(
                        Error::InvalidFamily(String::from_str("markov: base_label must be < k")),
                    );
                }
                if !(theta_max.is_finite() && theta_max.ge_zero() && theta_max.le_one()) {
                    return Err(
                        Error::InvalidFamily(
                            String::from_str("markov: theta_max must lie in [0, 1]"),
                        ),
                    );
                }
            },
        }
        Ok(())
    }

    /// Declared `W_1`-Lipschitz constant of this family's invariance:
    /// none for the dispersion, `1` for the two means over `{-1, 1}` and
    /// `{0, 1}`.
    pub fn lipschitz_w1(&self) -> (l: Option<Float64>)
        ensures
            self is Gaussian ==> l is None,
            !(self is Gaussian) ==> l == Some(Float64 { bits: one_bits() }),
    {
        match self {
            Family::Gaussian { .. } => None,
            _ => Some(Float64::one()),
        }
    }

    /// Declared Lipschitz constant `L` of this family's forward model:
    /// `1` for the identity and the indicator, none for the sign readout.
    pub fn forward_lipschitz(&self) -> (l: Option<Float64>)
        ensures
            self is Bistable ==> l is None,
            !(self is Bistable) ==> l == Some(Float64 { bits: one_bits() }),
    {
        match self {
            Family::Bistable { .. } => None,
            _ => Some(Float64::one()),
        }
    }

    /// The first check a family run fails, in its order: hyperparameters,
    /// version, non-empty ensemble, null parameter, floor, reduction
    /// policy, then the backend.
    pub open spec fn first_failure(&self, cfg: &Config, null_agrees: bool, floor: Option<u64>) -> Option<
        Check,
    > {
        if self.spec_violation() is Some {
            Some(Check::Hyperparameters)
        } else if !cfg.spec_version_ok() {
            Some(Check::SchemaVersion)
        } else if cfg.n == 0 {
            Some(Check::NonEmpty)
        } else if !null_agrees {
            Some(Check::NullParameter)
        } else if spec_floor_refuses(cfg, floor) {
            Some(Check::SampleFloor)
        } else if !cfg.reduction.spec_supported() {
            Some(Check::Reduction)
        } else if cfg.backend.spec_is_device() {
            Some(Check::Backend)
        } else {
            None
        }
    }

    /// The reason given when a device backend is requested from a build
    /// with no device support.
    pub open spec fn device_unavailable_reason() -> Seq<char> {
        "crate was built without the `gpu` feature"@
    }

    /// The checks a family run makes, in order, before it evaluates: the
    /// hyperparameters, the schema major version, a non-empty ensemble,
    /// the null-parameter cross-check, the sample-complexity floor and the
    /// reduction policy; then a host backend, on which the run is
    /// evaluated.
    ///
    /// `null_mismatch` and `floor` are as for `engine::check_run`. This
    /// library carries no compute-device backend, so a device backend is
    /// refused once the other checks pass.
    pub fn check_run(
        &self,
        cfg: &Config,
        null_mismatch: Option<(String, String)>,
        floor: Option<u64>,
    ) -> (r: Result<(), Error>)
        ensures
            self.spec_violation() is Some ==> (r matches Err(Error::InvalidFamily(m)) && m@
                == self.spec_violation().unwrap()),
            self.spec_violation() is None && !cfg.spec_version_ok() ==> (r matches Err(
                Error::SchemaVersion { got, want_major },
            ) && got@ == cfg.schema_version@),
            self.spec_violation() is None && cfg.spec_version_ok() && cfg.n == 0 ==> r matches Err(
                Error::EmptyEnsemble,
            ),
            self.spec_violation() is None && cfg.spec_version_ok() && cfg.n > 0 && null_mismatch
                is Some ==> (r matches Err(Error::NullParameterMismatch { config, perturbation })
                && config@ == null_mismatch.unwrap().0@ && perturbation@
                == null_mismatch.unwrap().1@),
            self.spec_violation() is None && cfg.spec_version_ok() && cfg.n > 0 && null_mismatch
                is None && spec_floor_refuses(cfg, floor) ==> r == Err::<(), Error>(
                Error::SampleFloor {
                    epsilon: cfg.accuracy.unwrap().epsilon,
                    eta: cfg.accuracy.unwrap().eta,
                    floor: floor.unwrap(),
                    n: cfg.n,
                },
            ),
            self.spec_violation() is None && cfg.spec_version_ok() && cfg.n > 0 && null_mismatch
                is None && !spec_floor_refuses(cfg, floor) && !cfg.reduction.spec_supported() ==> (r
                matches Err(Error::UnsupportedReduction { order, leaf_order }) && order@
                == cfg.reduction.order@ && leaf_order@ == cfg.reduction.leaf_order@),
            self.spec_violation() is None && cfg.spec_version_ok() && cfg.n > 0 && null_mismatch
                is None && !spec_floor_refuses(cfg, floor) && cfg.reduction.spec_supported()
                && cfg.backend.spec_is_device() ==> (r
                matches Err(Error::UnsupportedBackend { backend, reason }) && backend@ == "gpu"@
                && reason@ == Self::device_unavailable_reason()),
            r is Ok <==> self.first_failure(cfg, null_mismatch is None, floor) is None,
            r matches Err(e) ==> Some(failed_check(e)) == self.first_failure(
                cfg,
                null_mismatch is None,
                floor,
            ),
            r is Ok && floor is Some && cfg.accuracy is Some ==> cfg.n >= floor.unwrap(),
            self.spec_violation() is None && cfg.spec_version_ok() && cfg.n > 0 && null_mismatch
                is None && floor is Some && cfg.accuracy is Some && cfg.n < floor.unwrap() ==> (r
                matches Err(Error::SampleFloor { floor: got_floor, n: got_n, .. }) && got_floor
                == floor.unwrap() && got_n == cfg.n),
    {
        proof {
            law_family_floor_refuses_exactly_below_it(self, cfg, floor);
        }
        self.validate()?;
        cfg.validate_version()?;
        if cfg.n == 0 {
            return Err(Error::EmptyEnsemble);
        }
        if let Some((config, perturbation)) = null_mismatch {
            return Err(Error::NullParameterMismatch { config, perturbation });
        }
        if let Some(fl) = floor {
            if cfg.n < fl {
                if let Some(acc) = cfg.accuracy {
                    return Err(
                        Error::SampleFloor { epsilon: acc.epsilon, eta: acc.eta, floor: fl, n: cfg.n },
                    );
                }
            }
        }
        validate_reduction(&cfg.reduction)?;
        if cfg.backend.is_device() {
            return Err(
                Error::UnsupportedBackend {
                    backend: "gpu",
                    reason: String::from_str("crate was built without the `gpu` feature"),
                },
            );
        }
        Ok(())
    }
}



/// The bit patterns of the numbers in `[0, 1]`: `+0.0` up to `1.0`
/// (patterns with the sign bit clear order as their values), and `-0.0`.
proof fn lemma_unit_interval_bits(t: Float64)
    ensures
        (t.spec_is_finite() && t.spec_ge_zero() && t.spec_le_one()) <==> (t.bits
            <= 0x3ff0_0000_0000_0000u64 || t.bits == 0x8000_0000_0000_0000u64),
{
    let b = t.bits;
    assert(((b >> 52u64) & 0x7ffu64 != 0x7ffu64 && !((b >> 52u64) & 0x7ffu64 == 0x7ffu64 && b
        & 0xf_ffff_ffff_ffffu64 != 0) && (!(b >= 0x8000_0000_0000_0000u64) || b
        == 0x8000_0000_0000_0000u64) && !((b >> 52u64) & 0x7ffu64 == 0x7ffu64 && b
        & 0xf_ffff_ffff_ffffu64 != 0) && (b >= 0x8000_0000_0000_0000u64 || b
        <= 0x3ff0_0000_0000_0000u64)) <==> (b <= 0x3ff0_0000_0000_0000u64 || b
        == 0x8000_0000_0000_0000u64)) by (bit_vector);
}

/// The bit patterns of the finite numbers `>= 0`: `+0.0` up to the
/// largest finite pattern, and `-0.0`.
proof fn lemma_finite_non_negative_bits(t: Float64)
    ensures
        (t.spec_is_finite() && t.spec_ge_zero()) <==> (t.bits < 0x7ff0_0000_0000_0000u64 || t.bits
            == 0x8000_0000_0000_0000u64),
{
    let b = t.bits;
    assert(((b >> 52u64) & 0x7ffu64 != 0x7ffu64 && !((b >> 52u64) & 0x7ffu64 == 0x7ffu64 && b
        & 0xf_ffff_ffff_ffffu64 != 0) && (!(b >= 0x8000_0000_0000_0000u64) || b
        == 0x8000_0000_0000_0000u64)) <==> (b < 0x7ff0_0000_0000_0000u64 || b
        == 0x8000_0000_0000_0000u64)) by (bit_vector);
}

/// The bit patterns of the finite numbers `> 0`: from the smallest
/// subnormal up to the largest finite pattern, sign bit clear.
proof fn lemma_finite_positive_bits(t: Float64)
    ensures
        (t.spec_is_finite() && t.spec_gt_zero()) <==> (0 < t.bits < 0x7ff0_0000_0000_0000u64),
{
    let b = t.bits;
    assert(((b >> 52u64) & 0x7ffu64 != 0x7ffu64 && !((b >> 52u64) & 0x7ffu64 == 0x7ffu64 && b
        & 0xf_ffff_ffff_ffffu64 != 0) && !(b >= 0x8000_0000_0000_0000u64) && b != 0) <==> (0 < b
        && b < 0x7ff0_0000_0000_0000u64)) by (bit_vector);
}

/// The bit patterns of the finite numbers: exponent field not all ones.
proof fn lemma_finite_bits(t: Float64)
    ensures
        t.spec_is_finite() <==> (t.bits & 0x7ff0_0000_0000_0000u64 != 0x7ff0_0000_0000_0000u64),
{
    let b = t.bits;
    assert(((b >> 52u64) & 0x7ffu64 != 0x7ffu64) <==> (b & 0x7ff0_0000_0000_0000u64
        != 0x7ff0_0000_0000_0000u64)) by (bit_vector);
}

/// A Markov family is in domain exactly when the alphabet is non-empty,
/// both labels lie in it, and the mixing bound is a number in `[0, 1]`:
/// its pattern is `+0.0` up to `1.0`, or `-0.0`. A negative, NaN,
/// infinite or larger bound is refused.
pub proof fn law_markov_domain(k: u32, start: u32, base_label: u32, theta_max: Float64)
    ensures
        (Family::Markov { k, start, base_label, theta_max }).spec_violation() is None <==> (k >= 1
            && start < k && base_label < k && (theta_max.bits <= 0x3ff0_0000_0000_0000u64
            || theta_max.bits == 0x8000_0000_0000_0000u64)),
{
    lemma_unit_interval_bits(theta_max);
}

/// A bistable family is in domain exactly when the start is finite, the
/// step is a finite number `> 0` (its pattern lies strictly between
/// `+0.0` and `+inf`), and the intensity bound is a finite number `>= 0`.
/// A zero, negative, NaN or infinite step is refused.
pub proof fn law_bistable_domain(x0: Float64, dt: Float64, theta_max: Float64)
    ensures
        (Family::Bistable { x0, dt, theta_max }).spec_violation() is None <==> (x0.bits
            & 0x7ff0_0000_0000_0000u64 != 0x7ff0_0000_0000_0000u64 && 0 < dt.bits
            < 0x7ff0_0000_0000_0000u64 && (theta_max.bits < 0x7ff0_0000_0000_0000u64
            || theta_max.bits == 0x8000_0000_0000_0000u64)),
{
    lemma_finite_bits(x0);
    lemma_finite_positive_bits(dt);
    lemma_finite_non_negative_bits(theta_max);
}

/// A Gaussian family is in domain exactly when the base state is
/// non-empty with every coordinate finite, and the intensity bound is a
/// finite number `>= 0`.
pub proof fn law_gaussian_domain(base: Vec<Float64>, sigma_max: Float64)
    ensures
        (Family::Gaussian { base, sigma_max }).spec_violation() is None <==> (base@.len() > 0
            && (forall|i: int|
            0 <= i < base@.len() ==> #[trigger] (base@[i].bits & 0x7ff0_0000_0000_0000u64)
                != 0x7ff0_0000_0000_0000u64) && (sigma_max.bits < 0x7ff0_0000_0000_0000u64
            || sigma_max.bits == 0x8000_0000_0000_0000u64)),
{
    lemma_finite_non_negative_bits(sigma_max);
    assert forall|i: int| 0 <= i < base@.len() implies (#[trigger] base@[i]).spec_is_finite() <==> (
    base@[i].bits & 0x7ff0_0000_0000_0000u64) != 0x7ff0_0000_0000_0000u64 by {
        lemma_finite_bits(base@[i]);
    }
}

/// A family run's floor refuses exactly the runs below it: for in-domain
/// hyperparameters, once the version, non-empty and null-parameter checks
/// pass, the run fails the floor check exactly when an accuracy claim is
/// present, its floor `fl` is known, and `n < fl`.
pub proof fn law_family_floor_refuses_exactly_below_it(fam: &Family, cfg: &Config, floor: Option<u64>)
    ensures
        fam.spec_violation() is None && cfg.spec_version_ok() && cfg.n > 0 ==> ((fam.first_failure(
            cfg,
            true,
            floor,
        ) == Some(Check::SampleFloor)) <==> (floor is Some && cfg.accuracy is Some && cfg.n
            < floor.unwrap())),
{
    crate::engine::law_floor_refuses_exactly_below_it(cfg, floor);
}

/// A family run and the generic runner enforce the same configuration
/// contract: for in-domain hyperparameters and a host backend, both fail
/// the same check first, or both admit the run.
pub proof fn law_family_and_engine_enforce_the_same_contract(
    fam: &Family,
    cfg: &Config,
    null_agrees: bool,
    floor: Option<u64>,
)
    requires
        fam.spec_violation() is None,
        !cfg.backend.spec_is_device(),
    ensures
        fam.first_failure(cfg, null_agrees, floor) == engine_first_failure(cfg, null_agrees, floor),
{
}

} // verus!
