//! Backend tags, version handling, reduction policy and accuracy claims.

use perturbation_kernel::config::{
    accuracy_claim, major, validate_reduction, Accuracy, Backend, ClaimError, Config, Reduction,
};
use perturbation_kernel::float64::Float64;
use perturbation_kernel::{Error, SCHEMA_VERSION};

fn f(x: f64) -> Float64 {
    Float64::from_bits(x.to_bits())
}

const ALL: [Backend; 5] = [
    Backend::Auto,
    Backend::Scalar,
    Backend::Simd,
    Backend::Gpu,
    Backend::GpuF32,
];

#[test]
fn backend_tags_round_trip() {
    for b in ALL {
        assert_eq!(Backend::parse(b.as_str()), Some(b));
        assert_eq!(Backend::parse(&b.as_str().to_uppercase()), Some(b));
    }
    assert_eq!(Backend::Auto.as_str(), "auto");
    assert_eq!(Backend::Scalar.as_str(), "scalar");
    assert_eq!(Backend::Simd.as_str(), "simd");
    assert_eq!(Backend::Gpu.as_str(), "gpu");
    assert_eq!(Backend::GpuF32.as_str(), "gpu_f32");
    assert_eq!(Backend::parse("Gpu_F32"), Some(Backend::GpuF32));
    assert_eq!(Backend::parse("cuda"), None);
    assert_eq!(Backend::parse(""), None);
    assert_eq!(Backend::parse("auto "), None);
}

#[test]
fn backend_predicates() {
    for b in ALL {
        assert_eq!(b.is_auto(), b == Backend::Auto);
        assert_eq!(b.is_device(), b == Backend::Gpu || b == Backend::GpuF32);
    }
}

#[test]
fn major_reads_the_first_field() {
    assert_eq!(major(SCHEMA_VERSION), 1);
    assert_eq!(major("1.0.0"), 1);
    assert_eq!(major("2.0.0"), 2);
    assert_eq!(major("17"), 17);
    assert_eq!(major("+3.1"), 3);
    assert_eq!(major("0012.4"), 12);
    assert_eq!(major("18446744073709551615.0"), u64::MAX);
    assert_eq!(major("18446744073709551616.0"), 0);
    assert_eq!(major("99999999999999999999999"), 0);
    assert_eq!(major(""), 0);
    assert_eq!(major(".1"), 0);
    assert_eq!(major("+"), 0);
    assert_eq!(major("++1"), 0);
    assert_eq!(major("-1.0"), 0);
    assert_eq!(major("v1.0"), 0);
    assert_eq!(major("1a.0"), 0);
    assert_eq!(major("\u{0661}.0"), 0);
}

#[test]
fn s10_major_version_checked() {
    let mut cfg = Config::default();
    assert!(cfg.validate_version().is_ok());
    cfg.schema_version = "1.9.3".into();
    assert!(cfg.validate_version().is_ok());
    cfg.schema_version = "2.0.0".into();
    match cfg.validate_version() {
        Err(Error::SchemaVersion { got, want_major }) => {
            assert_eq!(got, "2.0.0");
            assert_eq!(want_major, 1);
        }
        other => panic!("expected SchemaVersion, got {other:?}"),
    }
}

#[test]
fn reduction_policies() {
    let r = Reduction::default();
    assert_eq!(r.order, "tree");
    assert_eq!(r.leaf_order, "index");
    assert!(validate_reduction(&r).is_ok());
    let seq = Reduction {
        order: "sequential".into(),
        leaf_order: "index".into(),
    };
    assert!(validate_reduction(&seq).is_ok());
    for (order, leaf) in [("tree", "value"), ("pairwise", "index"), ("Tree", "index")] {
        let bad = Reduction {
            order: order.into(),
            leaf_order: leaf.into(),
        };
        match validate_reduction(&bad) {
            Err(Error::UnsupportedReduction { order: o, leaf_order: l }) => {
                assert_eq!(o, order);
                assert_eq!(l, leaf);
            }
            other => panic!("expected UnsupportedReduction, got {other:?}"),
        }
    }
}

#[test]
fn default_config_and_with_backend() {
    let c = Config::default();
    assert_eq!(c.schema_version, "1.0.0");
    assert_eq!(c.n, 1024);
    assert_eq!(c.seed, 0);
    assert!(c.accuracy.is_none());
    assert!(c.lipschitz.forward_l.is_none());
    assert!(c.lipschitz.invariance_lambda.is_none());
    assert_eq!(c.backend, Backend::Auto);
    let d = c.with_backend(Backend::Simd);
    assert_eq!(d.backend, Backend::Simd);
    assert_eq!(d.n, 1024);
}

#[test]
fn floor_inputs_need_both_claim_and_lambda() {
    let acc = Accuracy {
        epsilon: f(0.1),
        eta: f(0.1),
        observation_diameter: f(1.0),
        obs_dim: 1,
    };
    let mut c = Config::default();
    assert!(c.floor_inputs().is_none());
    c.accuracy = Some(acc);
    assert!(c.floor_inputs().is_none());
    c.lipschitz.invariance_lambda = Some(f(2.0));
    assert_eq!(c.floor_inputs(), Some((f(2.0), acc)));
}

#[test]
fn accuracy_claims_are_all_or_nothing() {
    assert_eq!(accuracy_claim(None, None, None, None), Ok(None));
    assert_eq!(
        accuracy_claim(Some(f(0.1)), None, None, None),
        Err(ClaimError::Incomplete)
    );
    assert_eq!(
        accuracy_claim(None, Some(f(0.1)), Some(f(1.0)), Some(1)),
        Err(ClaimError::Incomplete)
    );
    assert_eq!(
        accuracy_claim(Some(f(0.0)), Some(f(0.1)), Some(f(1.0)), Some(1)),
        Err(ClaimError::EpsilonNotPositive)
    );
    assert_eq!(
        accuracy_claim(Some(f(f64::NAN)), Some(f(0.1)), Some(f(1.0)), Some(1)),
        Err(ClaimError::EpsilonNotPositive)
    );
    assert_eq!(
        accuracy_claim(Some(f(0.1)), Some(f(1.0)), Some(f(1.0)), Some(1)),
        Err(ClaimError::EtaOutOfRange)
    );
    assert_eq!(
        accuracy_claim(Some(f(0.1)), Some(f(-0.0)), Some(f(1.0)), Some(1)),
        Err(ClaimError::EtaOutOfRange)
    );
    assert_eq!(
        accuracy_claim(Some(f(0.1)), Some(f(0.05)), Some(f(2.0)), Some(3)),
        Ok(Some(Accuracy {
            epsilon: f(0.1),
            eta: f(0.05),
            observation_diameter: f(2.0),
            obs_dim: 3,
        }))
    );
    assert_eq!(ClaimError::EpsilonNotPositive.message(), "epsilon must be > 0");
    assert_eq!(ClaimError::EtaOutOfRange.message(), "eta must lie in (0, 1)");
    assert_eq!(
        ClaimError::Incomplete.message(),
        "an accuracy claim needs all of epsilon, eta, observation_diameter and obs_dim"
    );
}
