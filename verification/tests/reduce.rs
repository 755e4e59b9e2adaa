//! Reduction equivalence: the in-place reduction, the fresh-level
//! reference and every vector path produce the same bits.

use perturbation_kernel::config::Backend;
use perturbation_kernel::reduce::{self, reference, SimdPath};

/// Deterministic spread-magnitude data. Mixing exponents is what makes
/// a reassociated sum diverge, so the fixtures deliberately do it.
fn data(n: usize, seed: u64) -> Vec<f64> {
    let mut z = seed | 1;
    (0..n)
        .map(|i| {
            z ^= z << 13;
            z ^= z >> 7;
            z ^= z << 17;
            let mantissa = (z >> 11) as f64 * (1.0 / (1u64 << 53) as f64) - 0.5;
            mantissa * 2f64.powi((i % 41) as i32 - 20)
        })
        .collect()
}

fn bits(x: f64) -> u64 {
    x.to_bits()
}

fn plus(a: f64, b: f64) -> f64 {
    a + b
}

fn times(a: f64, b: f64) -> f64 {
    a * b
}

fn sq_dev(x: f64, m: f64) -> f64 {
    (x - m) * (x - m)
}

fn per_count(total: f64, n: usize) -> f64 {
    total / n as f64
}

fn tree_sum(xs: &[f64]) -> f64 {
    reduce::tree_sum(xs, 0.0, &plus)
}

fn mean(xs: &[f64]) -> f64 {
    reduce::mean(xs, 0.0, &plus, &per_count)
}

fn sum_sq_dev(xs: &[f64], m: f64) -> f64 {
    reduce::sum_sq_dev(xs, m, 0.0, &sq_dev, &plus)
}

fn dot(a: &[f64], b: &[f64]) -> f64 {
    reduce::dot(a, b, 0.0, &times, &plus)
}

#[test]
fn tree_sum_matches_v1_reference_on_every_small_length() {
    for n in 0..=4_096usize {
        let xs = data(n, 0xA5A5_1234);
        let want = reference::tree_sum(&xs, 0.0, &plus);
        let got = tree_sum(&xs);
        assert_eq!(
            bits(want),
            bits(got),
            "tree_sum diverged from the reference reduction at n = {n}"
        );
    }
}

#[test]
fn sum_sq_dev_matches_v1_reference_on_every_small_length() {
    for n in 0..=4_096usize {
        let xs = data(n, 0x1357_9BDF);
        let m = if xs.is_empty() { 0.0 } else { mean(&xs) };
        assert_eq!(
            bits(reference::sum_sq_dev(&xs, m, 0.0, &sq_dev, &plus)),
            bits(sum_sq_dev(&xs, m)),
            "sum_sq_dev diverged from the reference reduction at n = {n}"
        );
    }
}

#[test]
fn dot_matches_v1_reference_on_every_small_length() {
    for n in 0..=2_048usize {
        let a = data(n, 0x2468_ACE0);
        let b = data(n, 0xFDB9_7531);
        assert_eq!(
            bits(reference::dot(&a, &b, 0.0, &times, &plus)),
            bits(dot(&a, &b)),
            "dot diverged from the reference reduction at n = {n}"
        );
    }
}

#[test]
fn all_vector_paths_agree_bit_for_bit() {
    let paths = reference::available_paths();
    println!("vector paths under test: {paths:?}");

    for n in [
        0usize, 1, 2, 3, 5, 7, 8, 9, 15, 16, 17, 63, 64, 65, 1_000, 4_097, 65_537,
    ] {
        let xs = data(n, 0xDEAD_BEEF);
        let m = mean(&xs);
        let ys = data(n, 0x0BAD_F00D);

        let sums: Vec<u64> = paths
            .iter()
            .map(|p| bits(reference::tree_sum_on(*p, &xs, 0.0, &plus)))
            .collect();
        assert!(
            sums.windows(2).all(|w| w[0] == w[1]),
            "tree_sum disagreed across {paths:?} at n = {n}: {sums:x?}"
        );

        let devs: Vec<u64> = paths
            .iter()
            .map(|p| bits(reference::sum_sq_dev_on(*p, &xs, m, 0.0, &sq_dev, &plus)))
            .collect();
        assert!(
            devs.windows(2).all(|w| w[0] == w[1]),
            "sum_sq_dev disagreed across {paths:?} at n = {n}: {devs:x?}"
        );

        let dots: Vec<u64> = paths
            .iter()
            .map(|p| bits(reference::dot_on(*p, &xs, &ys, 0.0, &times, &plus)))
            .collect();
        assert!(
            dots.windows(2).all(|w| w[0] == w[1]),
            "dot disagreed across {paths:?} at n = {n}: {dots:x?}"
        );
    }
}

#[test]
fn non_finite_inputs_propagate_identically() {
    for n in [2usize, 3, 8, 9, 33] {
        for pos in [0usize, 1, n - 1] {
            for special in [f64::INFINITY, f64::NEG_INFINITY, f64::NAN] {
                let mut xs = data(n, 0x5EED);
                xs[pos] = special;
                let want = reference::tree_sum(&xs, 0.0, &plus);
                let got = tree_sum(&xs);
                assert_eq!(
                    want.is_nan(),
                    got.is_nan(),
                    "NaN-ness diverged at n = {n}, pos = {pos}"
                );
                if !want.is_nan() {
                    assert_eq!(bits(want), bits(got), "diverged at n = {n}, pos = {pos}");
                }
            }
        }
    }
}

#[test]
fn empty_and_singleton_are_defined() {
    assert_eq!(bits(tree_sum(&[])), bits(0.0));
    assert_eq!(bits(mean(&[])), bits(0.0));
    assert_eq!(bits(sum_sq_dev(&[], 3.0)), bits(0.0));
    assert_eq!(bits(dot(&[], &[])), bits(0.0));

    assert_eq!(bits(tree_sum(&[7.5])), bits(7.5));
    assert_eq!(bits(mean(&[7.5])), bits(7.5));
    assert_eq!(bits(sum_sq_dev(&[7.5], 5.5)), bits(4.0));
}

#[test]
fn scratch_reuse_does_not_change_the_answer() {
    let mut scratch = Vec::new();
    for n in [1usize, 2, 17, 100, 1_023] {
        let xs = data(n, 0xC0FFEE);
        let fresh = tree_sum(&xs);
        let reused = reduce::tree_sum_into(&xs, &mut scratch, 0.0, &plus);
        assert_eq!(bits(fresh), bits(reused), "scratch reuse changed n = {n}");
    }
}

#[test]
fn the_tree_has_the_documented_shape() {
    // [a b c d e] -> [a+b c+d e] -> [a+b+c+d e] -> [a+b+c+d+e], checked
    // with a combining operation that records the grouping.
    let leaves: Vec<u64> = vec![1, 2, 3, 4, 5];
    let encode = |a: u64, b: u64| a * 100 + b;
    let r = reduce::tree_sum(&leaves, 0, &encode);
    assert_eq!(r, ((1 * 100 + 2) * 100 + (3 * 100 + 4)) * 100 + 5);
}

#[test]
fn associative_counts_equal_the_sequential_sum() {
    // Zeros and ones: the tree total is the plain count.
    let xs: Vec<u64> = (0..1_001u64).map(|i| (i * 7 % 3 == 0) as u64).collect();
    let want: u64 = xs.iter().sum();
    let add = |a: u64, b: u64| a + b;
    assert_eq!(reduce::tree_sum(&xs, 0, &add), want);
    assert_eq!(reference::tree_sum(&xs, 0, &add), want);
}

#[test]
fn mean_and_dot_formulas() {
    assert_eq!(bits(mean(&[1.0, 2.0, 3.0, 6.0])), bits(3.0));
    assert_eq!(bits(dot(&[1.0, 2.0, 3.0], &[4.0, 5.0, 6.0])), bits(32.0));
    assert_eq!(bits(sum_sq_dev(&[1.0, 3.0], 2.0)), bits(2.0));
    let mut scratch = vec![9.0; 3];
    assert_eq!(
        bits(reduce::mean_into(&[2.0, 4.0], &mut scratch, 0.0, &plus, &per_count)),
        bits(3.0)
    );
    assert_eq!(
        bits(reduce::sum_sq_dev_into(&[2.0, 4.0, 9.0], 4.0, &mut scratch, 0.0, &sq_dev, &plus)),
        bits(29.0)
    );
}

#[test]
fn the_active_path_is_the_portable_loop() {
    assert_eq!(reduce::active_backend(), SimdPath::Scalar);
    assert_eq!(SimdPath::Scalar.as_str(), "scalar");
    assert_eq!(SimdPath::Neon.as_str(), "neon");
    assert_eq!(SimdPath::Avx2.as_str(), "avx2");
    assert_eq!(reference::available_paths(), vec![SimdPath::Scalar]);
    assert_eq!(
        reference::lane_shapes(),
        vec![SimdPath::Scalar, SimdPath::Neon, SimdPath::Avx2]
    );
    assert_eq!(reduce::path_for(Backend::Scalar), SimdPath::Scalar);
    assert_eq!(reduce::path_for(Backend::Auto), reduce::active_backend());
}

#[test]
fn every_lane_shape_matches_the_reference_on_every_short_length() {
    for n in 0usize..=70 {
        let xs = data(n, 0x5EED_0000 + n as u64);
        let ys = data(n, 0x5EED_1000 + n as u64);
        let m = 0.25;
        let want_sum = bits(reference::tree_sum(&xs, 0.0, &plus));
        let want_dev = bits(reference::sum_sq_dev(&xs, m, 0.0, &sq_dev, &plus));
        let want_dot = bits(reference::dot(&xs, &ys, 0.0, &times, &plus));
        for p in reference::lane_shapes() {
            assert_eq!(bits(reference::tree_sum_on(p, &xs, 0.0, &plus)), want_sum, "{p:?} n = {n}");
            assert_eq!(
                bits(reference::sum_sq_dev_on(p, &xs, m, 0.0, &sq_dev, &plus)),
                want_dev,
                "{p:?} n = {n}"
            );
            assert_eq!(
                bits(reference::dot_on(p, &xs, &ys, 0.0, &times, &plus)),
                want_dot,
                "{p:?} n = {n}"
            );
        }
    }
}

#[test]
fn the_lane_shapes_keep_the_pairing_on_a_non_commutative_operation() {
    // `a * P + b` is neither commutative nor associative: a swapped pair,
    // or a regrouping across the lanes, would change the result.
    let xs: Vec<u64> = (0..23).collect();
    let cat = |a: u64, b: u64| a.wrapping_mul(1_000_003).wrapping_add(b);
    let want = reference::tree_sum(&xs, 0, &cat);
    for p in reference::lane_shapes() {
        assert_eq!(reference::tree_sum_on(p, &xs, 0, &cat), want, "{p:?}");
    }
}
