//! The exactly-specified parts of the worked examples.

use perturbation_kernel::examples::{bistable, gaussian, markov};
use perturbation_kernel::float64::Float64;

fn f(x: f64) -> Float64 {
    Float64::from_bits(x.to_bits())
}

fn val(x: Float64) -> f64 {
    f64::from_bits(x.to_bits())
}

#[test]
fn readouts() {
    let r = markov::BaseIndicator { base_label: 2 };
    assert_eq!(val(r.eval(&markov::Label { i: 2 })), 1.0);
    assert_eq!(val(r.eval(&markov::Label { i: 0 })), 0.0);
    let w = bistable::WellOccupancy;
    assert_eq!(val(w.eval(&bistable::Marble { x: f(0.9) })), 1.0);
    assert_eq!(val(w.eval(&bistable::Marble { x: f(0.0) })), 1.0);
    assert_eq!(val(w.eval(&bistable::Marble { x: f(-0.0) })), 1.0);
    assert_eq!(val(w.eval(&bistable::Marble { x: f(-0.3) })), -1.0);
    assert_eq!(val(w.eval(&bistable::Marble { x: f(f64::NAN) })), -1.0);
    let id = gaussian::Identity { d: 2 };
    let s = vec![f(1.5), f(-2.0)];
    assert_eq!(id.eval(&s), s);
}

#[test]
fn declared_constants_and_tags() {
    assert_eq!(gaussian::Identity { d: 1 }.lipschitz(), Some(f(1.0)));
    assert_eq!(gaussian::NegDispersion.lipschitz_w1(), None);
    assert_eq!(gaussian::NegDispersion.name(), "negative_dispersion");
    assert_eq!(bistable::WellOccupancy.lipschitz(), None);
    assert_eq!(bistable::Polarisation.lipschitz_w1(), Some(f(1.0)));
    assert_eq!(bistable::Polarisation.name(), "polarisation");
    assert_eq!(markov::BaseIndicator { base_label: 0 }.lipschitz(), Some(f(1.0)));
    assert_eq!(markov::Survival.lipschitz_w1(), Some(f(1.0)));
    assert_eq!(markov::Survival.name(), "tail_survival");
    assert_eq!(
        gaussian::GaussianShift { sigma_max: f(0.3), d: 2 }.null(),
        Float64::zero()
    );
    assert_eq!(
        bistable::Langevin { dt: f(0.01), theta_max: f(0.5) }.null(),
        Float64::zero()
    );
    assert_eq!(
        markov::UniformMixing { k: 5, theta_max: f(0.3) }.null(),
        Float64::zero()
    );
}
