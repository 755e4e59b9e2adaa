//! The ensemble loop, the report enrichment plan and the resolution of
//! the declared constants.

use perturbation_kernel::config::{Accuracy, Config, Lipschitz};
use perturbation_kernel::config::Backend;
use perturbation_kernel::engine::{
    draw_ensemble, fork_rng, report_plan, resolve_forward_l, run_ordered,
};
use perturbation_kernel::Error;
use std::cell::Cell;
use perturbation_kernel::float64::Float64;
use perturbation_kernel::reduce;
use rand::Rng as _;
use rand_chacha::ChaCha20Rng;

fn f(x: f64) -> Float64 {
    Float64::from_bits(x.to_bits())
}

#[test]
fn the_ensemble_is_in_index_order_on_per_index_substreams() {
    let first_word = |mut rng: ChaCha20Rng| -> u64 { rng.gen() };
    let ys = draw_ensemble(42, 9, &first_word);
    assert_eq!(ys.len(), 9);
    for (i, y) in ys.iter().enumerate() {
        let mut rng = fork_rng(42, i as u64);
        let want: u64 = rng.gen();
        assert_eq!(*y, want);
    }
    assert!(draw_ensemble(42, 0, &first_word).is_empty());
    // A prefix of a larger ensemble is the smaller ensemble.
    let more = draw_ensemble(42, 20, &first_word);
    assert_eq!(&more[..9], &ys[..]);
}

#[test]
fn report_plan_availability() {
    let acc = Accuracy {
        epsilon: f(0.1),
        eta: f(0.05),
        observation_diameter: f(2.0),
        obs_dim: 3,
    };
    let mut cfg = Config {
        n: 500,
        seed: 9,
        ..Config::default()
    };
    let p = report_plan(&cfg, Some(f(1.0)));
    assert_eq!((p.n_effective, p.seed), (500, 9));
    assert!(p.bound.is_none());
    assert!(p.stability.is_none());

    cfg.lipschitz = Lipschitz {
        forward_l: None,
        invariance_lambda: Some(f(0.5)),
    };
    let p = report_plan(&cfg, Some(f(1.0)));
    assert!(p.bound.is_none());
    assert_eq!(p.stability, Some((f(0.5), f(1.0))));
    assert!(report_plan(&cfg, None).stability.is_none());

    cfg.accuracy = Some(acc);
    let b = report_plan(&cfg, None).bound.unwrap();
    assert_eq!((b.lambda, b.d, b.obs_dim, b.eta), (f(0.5), f(2.0), 3, f(0.05)));
}

#[test]
fn configured_l_overrides_the_declared_one() {
    assert_eq!(resolve_forward_l(Some(f(2.0)), Some(f(1.0))), Some(f(2.0)));
    assert_eq!(resolve_forward_l(None, Some(f(1.0))), Some(f(1.0)));
    assert_eq!(resolve_forward_l(Some(f(2.0)), None), Some(f(2.0)));
    assert_eq!(resolve_forward_l(None, None), None);
}

#[test]
fn exact_sums_are_order_free() {
    let xs: Vec<u64> = (0..777u64).map(|i| i * i % 101).collect();
    let mut ys = xs.clone();
    ys.reverse();
    ys.rotate_left(7);
    let add = |a: u64, b: u64| a + b;
    assert_eq!(reduce::tree_sum(&xs, 0, &add), reduce::tree_sum(&ys, 0, &add));
    let max = |a: u64, b: u64| a.max(b);
    assert_eq!(reduce::tree_sum(&xs, 0, &max), 100);
}

#[test]
fn a_run_consults_the_null_parameter_only_after_the_first_checks() {
    let calls = Cell::new(0u32);
    let null_check = || {
        calls.set(calls.get() + 1);
        None
    };
    let draw = |seed: u64, n: u64| -> Vec<u64> { (0..n).map(|i| seed + i).collect() };
    let measure = |ys: Vec<u64>| -> u64 { ys.iter().sum() };

    let mut cfg = Config { n: 0, seed: 5, ..Config::default() };
    assert!(matches!(
        run_ordered(&cfg, None, &null_check, &draw, &measure),
        Err(Error::EmptyEnsemble)
    ));
    cfg.n = 4;
    cfg.schema_version = "2.0.0".into();
    assert!(matches!(
        run_ordered(&cfg, None, &null_check, &draw, &measure),
        Err(Error::SchemaVersion { .. })
    ));
    cfg.schema_version = "1.0.0".into();
    cfg.backend = Backend::Gpu;
    assert!(matches!(
        run_ordered(&cfg, None, &null_check, &draw, &measure),
        Err(Error::UnsupportedBackend { .. })
    ));
    assert_eq!(calls.get(), 0);

    cfg.backend = Backend::Auto;
    assert_eq!(run_ordered(&cfg, None, &null_check, &draw, &measure).unwrap(), 5 + 6 + 7 + 8);
    assert_eq!(calls.get(), 1);
}

#[test]
fn a_run_checks_null_floor_and_policy_in_that_order_before_drawing() {
    let drawn = Cell::new(false);
    let draw = |_: u64, n: u64| -> Vec<u64> {
        drawn.set(true);
        vec![1; n as usize]
    };
    let measure = |ys: Vec<u64>| -> usize { ys.len() };
    let mismatch = || Some(("0.0".to_string(), "0.5".to_string()));
    let agree = || None;

    let mut cfg = Config { n: 8, ..Config::default() };
    cfg.accuracy = Some(Accuracy {
        epsilon: f(0.1),
        eta: f(0.05),
        observation_diameter: f(1.0),
        obs_dim: 1,
    });
    cfg.reduction.order = "random".into();
    match run_ordered(&cfg, Some(100), &mismatch, &draw, &measure) {
        Err(Error::NullParameterMismatch { config, perturbation }) => {
            assert_eq!((config.as_str(), perturbation.as_str()), ("0.0", "0.5"));
        }
        other => panic!("unexpected {other:?}"),
    }
    assert!(matches!(
        run_ordered(&cfg, Some(100), &agree, &draw, &measure),
        Err(Error::SampleFloor { floor: 100, n: 8, .. })
    ));
    assert!(matches!(
        run_ordered(&cfg, Some(8), &agree, &draw, &measure),
        Err(Error::UnsupportedReduction { .. })
    ));
    assert!(!drawn.get());
    cfg.reduction.order = "tree".into();
    assert_eq!(run_ordered(&cfg, Some(8), &agree, &draw, &measure).unwrap(), 8);
    assert!(drawn.get());
}
