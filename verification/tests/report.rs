//! Bare reports and their enrichment.

use perturbation_kernel::config::{Accuracy, Config, Lipschitz, Reduction};
use perturbation_kernel::engine::BoundInputs;
use perturbation_kernel::float64::Float64;
use perturbation_kernel::report::{finish_report, BoundConstants, Report};

fn f(x: f64) -> Float64 {
    Float64::from_bits(x.to_bits())
}

fn val(x: Float64) -> f64 {
    f64::from_bits(x.to_bits())
}

fn eps(b: BoundInputs, n: u64) -> Float64 {
    f(val(b.lambda) * val(b.d) / n as f64)
}

fn product(x: Float64, y: Float64) -> Float64 {
    f(val(x) * val(y))
}

#[test]
fn raw_reports_carry_no_bound() {
    let r = Report::raw(f(0.75), "tail_survival", 64, 3, Reduction::default());
    assert_eq!(r.schema_version, "1.0.0");
    assert_eq!(val(r.value), 0.75);
    assert_eq!(r.functional, "tail_survival");
    assert_eq!((r.n_effective, r.seed), (64, 3));
    assert!(!r.error_bound.available);
    assert_eq!(r.error_bound.basis, "none");
    assert_eq!(val(r.error_bound.epsilon), 0.0);
    assert_eq!(val(r.error_bound.eta), 0.0);
    assert_eq!(
        r.error_bound.constants,
        BoundConstants { lambda: None, d: None, obs_dim: None }
    );
    assert!(r.stability_modulus.is_none());
}

#[test]
fn finished_reports_carry_the_config_provenance_and_bounds() {
    let bare = Report::raw(f(0.5), "polarisation", 0, 0, Reduction::default());
    let mut cfg = Config {
        n: 400,
        seed: 77,
        ..Config::default()
    };
    let r = finish_report(bare.clone(), &cfg, Some(f(1.0)), &eps, &product);
    assert_eq!((r.n_effective, r.seed), (400, 77));
    assert_eq!(val(r.value), 0.5);
    assert_eq!(r.functional, "polarisation");
    assert!(!r.error_bound.available);
    assert!(r.stability_modulus.is_none());

    cfg.lipschitz = Lipschitz {
        forward_l: None,
        invariance_lambda: Some(f(2.0)),
    };
    cfg.accuracy = Some(Accuracy {
        epsilon: f(0.1),
        eta: f(0.05),
        observation_diameter: f(4.0),
        obs_dim: 2,
    });
    let r = finish_report(bare, &cfg, Some(f(3.0)), &eps, &product);
    assert!(r.error_bound.available);
    assert_eq!(val(r.error_bound.epsilon), 2.0 * 4.0 / 400.0);
    assert_eq!(val(r.error_bound.eta), 0.05);
    assert_eq!(r.error_bound.basis, "mcdiarmid+fournier_guillin");
    assert_eq!(
        r.error_bound.constants,
        BoundConstants {
            lambda: Some(f(2.0)),
            d: Some(f(4.0)),
            obs_dim: Some(2)
        }
    );
    assert_eq!(r.stability_modulus.map(val), Some(6.0));
}

#[test]
fn a_bound_block_not_computed_here_is_reset_to_unavailable() {
    let mut bare = Report::raw(f(0.5), "polarisation", 1, 0, Reduction::default());
    bare.error_bound.available = true;
    bare.error_bound.epsilon = f(0.3);
    bare.error_bound.eta = f(0.1);
    bare.error_bound.basis = "custom".into();
    bare.stability_modulus = Some(f(9.0));
    let mut cfg = Config::default();
    cfg.n = 10;
    let r = finish_report(bare, &cfg, Some(f(1.0)), &eps, &product);
    assert!(!r.error_bound.available);
    assert_eq!(val(r.error_bound.epsilon), 0.0);
    assert_eq!(val(r.error_bound.eta), 0.0);
    assert_eq!(r.error_bound.basis, "none");
    assert_eq!(
        r.error_bound.constants,
        BoundConstants {
            lambda: None,
            d: None,
            obs_dim: None
        }
    );
    assert!(r.stability_modulus.is_none());
}
