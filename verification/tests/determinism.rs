//! Per-index substreams: every draw's generator is a function of
//! `(seed, i)` alone.

use perturbation_kernel::engine::{fork_key, fork_rng, mix64};
use rand::Rng as _;

#[test]
fn d2_per_index_substreams_distinct() {
    let seed = 0xCAFEBABE;
    let mut a = fork_rng(seed, 0);
    let mut b = fork_rng(seed, 1);
    let xa: u64 = a.gen();
    let xb: u64 = b.gen();
    assert_ne!(xa, xb);
}

#[test]
fn d2_per_index_substream_reproducible() {
    let seed = 0xCAFEBABE;
    let mut a1 = fork_rng(seed, 17);
    let mut a2 = fork_rng(seed, 17);
    let xa1: u64 = a1.gen();
    let xa2: u64 = a2.gen();
    assert_eq!(xa1, xa2);
}

#[test]
fn fork_rng_is_keyed_by_fork_key() {
    for (seed, i) in [(0u64, 0u64), (0xCAFEBABE, 17), (u64::MAX, 3)] {
        let rng = fork_rng(seed, i);
        assert_eq!(rng.get_seed().to_vec(), fork_key(seed, i));
        assert_eq!(rng.get_word_pos(), 0);
        assert_eq!(rng.get_stream(), 0);
    }
}

#[test]
fn fork_key_layout() {
    let seed = 0x0102_0304_0506_0708u64;
    let i = 0x1112_1314_1516_1718u64;
    let key = fork_key(seed, i);
    assert_eq!(key.len(), 32);
    assert_eq!(&key[0..8], &mix64(seed, i).to_le_bytes());
    assert_eq!(&key[8..16], &seed.to_le_bytes());
    assert_eq!(&key[16..24], &i.to_le_bytes());
    assert_eq!(&key[24..32], &[0u8; 8]);
}

#[test]
fn mix64_is_the_splitmix_finaliser() {
    // SplitMix64 of state 0x9E3779B97F4A7C15 (seed 0, index 1).
    let mut z: u64 = 0x9E37_79B9_7F4A_7C15;
    z = (z ^ (z >> 30)).wrapping_mul(0xBF58_476D_1CE4_E5B9);
    z = (z ^ (z >> 27)).wrapping_mul(0x94D0_49BB_1331_11EB);
    z ^= z >> 31;
    assert_eq!(mix64(0, 1), z);
    assert_eq!(mix64(0, 0), 0);
    assert_eq!(mix64(0, 1), 0xE220_A839_7B1D_CDAF);
}

#[test]
fn distinct_pairs_give_distinct_keys() {
    let mut keys = Vec::new();
    for seed in [0u64, 1, 0xCAFEBABE] {
        for i in 0..64u64 {
            keys.push(fork_key(seed, i));
        }
    }
    let n = keys.len();
    keys.sort();
    keys.dedup();
    assert_eq!(keys.len(), n);
}
