//! The checks the estimator runner enforces before it draws, and the
//! per-index substream derivation that makes every draw a function of
//! `(seed, i)` alone.
use vstd::bytes::{spec_u64_to_le_bytes, u64_to_le_bytes};
use vstd::prelude::*;

use rand_chacha::ChaCha20Rng;

use crate::config::{Backend, Config};
use crate::float64::Float64;
use crate::Error;

verus! {

/// `rand_chacha`'s ChaCha20 generator, carried opaquely.
#[verifier::external_type_specification]
#[verifier::external_body]
pub struct ExChaCha20Rng(rand_chacha::ChaCha20Rng);

/// The ChaCha20 generator keyed by the 32-byte `key`, at the start of
/// stream zero: what `ChaCha20Rng::from_seed` builds from that key.
pub uninterp spec fn chacha20_keyed(key: Seq<u8>) -> ChaCha20Rng;

/// `rand_core::SeedableRng::from_seed` for `ChaCha20Rng`. The generator
/// depends on the key alone, and is named by it; nothing is stated of
/// the keystream it then produces.
#[verifier::external_body]
fn chacha20_from_key(key: &Vec<u8>) -> (rng: ChaCha20Rng)
    requires
        key@.len() == 32,
    ensures
        rng == chacha20_keyed(key@),
{
    let mut seed = [0u8; 32];
    seed.copy_from_slice(key.as_slice());
    <ChaCha20Rng as rand::SeedableRng>::from_seed(seed)
}

/// Ensemble size at or above which the draw loop is spread across a
/// thread pool. It changes when the work happens, never what it
/// computes.
pub const PARALLEL_MIN: u64 = 4096;

/// The SplitMix64 finaliser of the pair `(seed, i)`.
pub open spec fn spec_mix64(seed: u64, i: u64) -> u64 {
    let z0 = seed.wrapping_add(i.wrapping_mul(0x9E37_79B9_7F4A_7C15u64));
    let z1 = (z0 ^ (z0 >> 30u64)).wrapping_mul(0xBF58_476D_1CE4_E5B9u64);
    let z2 = (z1 ^ (z1 >> 27u64)).wrapping_mul(0x94D0_49BB_1331_11EBu64);
    z2 ^ (z2 >> 31u64)
}

/// The state the finaliser mixes is the seed advanced by `i` golden-ratio
/// increments: mixing `(seed, i)` is mixing the single state
/// `seed + i * 0x9E3779B97F4A7C15` (wrapping) at index zero. So two pairs
/// whose states coincide mix to the same value, and the index enters
/// only through that sum.
pub proof fn law_mix64_state(seed: u64, i: u64)
    ensures
        spec_mix64(seed, i) == spec_mix64(seed.wrapping_add(i.wrapping_mul(0x9E37_79B9_7F4A_7C15u64)), 0),
        forall|seed2: u64, i2: u64|
            seed.wrapping_add(i.wrapping_mul(0x9E37_79B9_7F4A_7C15u64)) == #[trigger] seed2.wrapping_add(
                i2.wrapping_mul(0x9E37_79B9_7F4A_7C15u64),
            ) ==> spec_mix64(seed, i) == spec_mix64(seed2, i2),
{
    let w = seed.wrapping_add(i.wrapping_mul(0x9E37_79B9_7F4A_7C15u64));
    assert(0u64.wrapping_mul(0x9E37_79B9_7F4A_7C15u64) == 0u64);
    assert(w.wrapping_add(0u64) == w);
}

/// The finaliser agrees with the published SplitMix64 generator: started
/// from state `0`, its first output (state `0x9E3779B97F4A7C15`) is
/// `0xE220A8397B1DCDAF`; and the pair `(1, 1)` mixes state
/// `0x9E3779B97F4A7C16` to `0x910A2DEC89025CC1`.
pub proof fn law_mix64_matches_splitmix64_outputs()
    ensures
        spec_mix64(0, 1) == 0xE220_A839_7B1D_CDAFu64,
        spec_mix64(1, 1) == 0x910A_2DEC_8902_5CC1u64,
{
    assert(0u64.wrapping_add(1u64.wrapping_mul(0x9E37_79B9_7F4A_7C15u64)) == 0x9e37_79b9_7f4a_7c15u64);
    assert(0x9e37_79b9_7f4a_7c15u64 ^ (0x9e37_79b9_7f4a_7c15u64 >> 30u64) == 0x9e37_79bb_0797_9af0u64) by (bit_vector);
    assert(0x9e37_79bb_0797_9af0u64.wrapping_mul(0xBF58_476D_1CE4_E5B9u64) == 0x6f68_261b_57e7_a770u64);
    assert(0x6f68_261b_57e7_a770u64 ^ (0x6f68_261b_57e7_a770u64 >> 27u64) == 0x6f68_2616_bae3_641au64) by (bit_vector);
    assert(0x6f68_2616_bae3_641au64.wrapping_mul(0x94D0_49BB_1331_11EBu64) == 0xe220_a838_bf5c_9ddeu64);
    assert(0xe220_a838_bf5c_9ddeu64 ^ (0xe220_a838_bf5c_9ddeu64 >> 31u64) == 0xe220_a839_7b1d_cdafu64) by (bit_vector);

    assert(1u64.wrapping_add(1u64.wrapping_mul(0x9E37_79B9_7F4A_7C15u64)) == 0x9e37_79b9_7f4a_7c16u64);
    assert(0x9e37_79b9_7f4a_7c16u64 ^ (0x9e37_79b9_7f4a_7c16u64 >> 30u64) == 0x9e37_79bb_0797_9af3u64) by (bit_vector);
    assert(0x9e37_79bb_0797_9af3u64.wrapping_mul(0xBF58_476D_1CE4_E5B9u64) == 0xad70_fc62_ae96_589bu64);
    assert(0xad70_fc62_ae96_589bu64 ^ (0xad70_fc62_ae96_589bu64 >> 27u64) == 0xad70_fc77_0089_d4ceu64) by (bit_vector);
    assert(0xad70_fc77_0089_d4ceu64.wrapping_mul(0x94D0_49BB_1331_11EBu64) == 0x910a_2ded_ab16_071au64);
    assert(0x910a_2ded_ab16_071au64 ^ (0x910a_2ded_ab16_071au64 >> 31u64) == 0x910a_2dec_8902_5cc1u64) by (bit_vector);
}

/// The 32-byte key of draw `i`: the mixed value, the seed and the index,
/// each little-endian, then eight zero bytes.
pub open spec fn spec_fork_key(seed: u64, i: u64) -> Seq<u8> {
    spec_u64_to_le_bytes(spec_mix64(seed, i)) + spec_u64_to_le_bytes(seed) + spec_u64_to_le_bytes(
        i,
    ) + Seq::new(8, |j: int| 0u8)
}

/// The SplitMix64 finaliser of `(seed, i)`.
pub fn mix64(seed: u64, i: u64) -> (z: u64)
    ensures
        z == spec_mix64(seed, i),
        z == spec_mix64(seed.wrapping_add(i.wrapping_mul(0x9E37_79B9_7F4A_7C15u64)), 0),
{
    proof {
        law_mix64_state(seed, i);
    }
    let z0 = seed.wrapping_add(i.wrapping_mul(0x9E37_79B9_7F4A_7C15u64));
    let z1 = (z0 ^ (z0 >> 30u64)).wrapping_mul(0xBF58_476D_1CE4_E5B9u64);
    let z2 = (z1 ^ (z1 >> 27u64)).wrapping_mul(0x94D0_49BB_1331_11EBu64);
    z2 ^ (z2 >> 31u64)
}

/// The key that seeds draw `i`'s substream.
pub fn fork_key(seed: u64, i: u64) -> (key: Vec<u8>)
    ensures
        key@ == spec_fork_key(seed, i),
        key@.len() == 32,
{
    let z = mix64(seed, i);
    let mut key = u64_to_le_bytes(z);
    let mut s = u64_to_le_bytes(seed);
    key.append(&mut s);
    let mut t = u64_to_le_bytes(i);
    key.append(&mut t);
    let mut j: usize = 0;
    while j < 8
        invariant
            j <= 8,
            key@ == spec_u64_to_le_bytes(z) + spec_u64_to_le_bytes(seed) + spec_u64_to_le_bytes(i)
                + Seq::new(j as nat, |k: int| 0u8),
            spec_u64_to_le_bytes(z).len() == 8,
            spec_u64_to_le_bytes(seed).len() == 8,
            spec_u64_to_le_bytes(i).len() == 8,
        decreases 8 - j,
    {
        key.push(0u8);
        j += 1;
        assert(key@ =~= spec_u64_to_le_bytes(z) + spec_u64_to_le_bytes(seed) + spec_u64_to_le_bytes(
            i,
        ) + Seq::new(j as nat, |k: int| 0u8));
    }
    key
}

/// Per-index RNG fork: a fresh ChaCha20 keyed by `fork_key(seed, i)`.
/// Drawing from one substream never advances another.
pub fn fork_rng(seed: u64, i: u64) -> (rng: ChaCha20Rng)
    ensures
        rng == chacha20_keyed(spec_fork_key(seed, i)),
{
    let key = fork_key(seed, i);
    chacha20_from_key(&key)
}

/// Distinct `(seed, i)` pairs key distinct substreams: the key carries
/// both the seed and the index verbatim.
pub proof fn law_fork_keys_distinct(seed1: u64, i1: u64, seed2: u64, i2: u64)
    requires
        seed1 != seed2 || i1 != i2,
    ensures
        spec_fork_key(seed1, i1) != spec_fork_key(seed2, i2),
{
    vstd::bytes::lemma_auto_spec_u64_to_from_le_bytes();
    let k1 = spec_fork_key(seed1, i1);
    let k2 = spec_fork_key(seed2, i2);
    if k1 == k2 {
        assert(k1.subrange(8, 16) =~= spec_u64_to_le_bytes(seed1));
        assert(k2.subrange(8, 16) =~= spec_u64_to_le_bytes(seed2));
        assert(k1.subrange(16, 24) =~= spec_u64_to_le_bytes(i1));
        assert(k2.subrange(16, 24) =~= spec_u64_to_le_bytes(i2));
    }
}

/// The draw loop for `cfg` runs on the thread pool.
pub open spec fn spec_draws_threaded(n: u64, backend: Backend) -> bool {
    n >= PARALLEL_MIN && backend != Backend::Scalar
}

/// `true` when the draw loop of `n` draws under `backend` uses the
/// thread pool: large enough to amortise it, and not the reference
/// scalar path.
pub fn draws_threaded(n: u64, backend: Backend) -> (b: bool)
    ensures
        b == spec_draws_threaded(n, backend),
{
    n >= PARALLEL_MIN && backend != Backend::Scalar
}

/// The sample-complexity floor refuses the run: an accuracy claim is
/// present, its floor is known, and `n` is below it.
pub open spec fn spec_floor_refuses(cfg: &Config, floor: Option<u64>) -> bool {
    floor is Some && cfg.accuracy is Some && cfg.n < floor.unwrap()
}

/// The floor refuses exactly the runs below it: once the checks made
/// before it pass (version, non-empty ensemble, host backend, agreeing
/// null parameters), a run fails the floor check exactly when an accuracy
/// claim is present, its floor `fl` is known, and `n < fl`. At or above
/// the floor, or with no claim or no floor, the floor check never fails.
pub proof fn law_floor_refuses_exactly_below_it(cfg: &Config, floor: Option<u64>)
    ensures
        cfg.spec_version_ok() && cfg.n > 0 && !cfg.backend.spec_is_device() ==> ((
        engine_first_failure(cfg, true, floor) == Some(Check::SampleFloor)) <==> (floor is Some
            && cfg.accuracy is Some && cfg.n < floor.unwrap())),
        spec_floor_refuses(cfg, floor) <==> (floor is Some && cfg.accuracy is Some && cfg.n
            < floor.unwrap()),
{
}

/// The checks a run is subject to before it draws.
#[derive(Debug, Clone, Copy, PartialEq, Eq, Structural)]
pub enum Check {
    /// The family's hyperparameters are in domain.
    Hyperparameters,
    /// The schema major version matches.
    SchemaVersion,
    /// The ensemble is non-empty.
    NonEmpty,
    /// The backend can evaluate the run.
    Backend,
    /// The configured null parameter agrees with the perturbation's.
    NullParameter,
    /// `n` meets the sample-complexity floor of an accuracy claim.
    SampleFloor,
    /// The reduction policy is one the engine honours.
    Reduction,
}

/// The check an error reports as failed.
pub open spec fn failed_check(e: Error) -> Check {
    match e {
        Error::InvalidFamily(_) => Check::Hyperparameters,
        Error::SchemaVersion { .. } => Check::SchemaVersion,
        Error::EmptyEnsemble => Check::NonEmpty,
        Error::UnsupportedBackend { .. } => Check::Backend,
        Error::Gpu(_) => Check::Backend,
        Error::NullParameterMismatch { .. } => Check::NullParameter,
        Error::SampleFloor { .. } => Check::SampleFloor,
        Error::UnsupportedReduction { .. } => Check::Reduction,
    }
}

/// The first check the generic runner fails, in its order: version,
/// non-empty ensemble, host backend, null parameter, floor, reduction.
pub open spec fn engine_first_failure(cfg: &Config, null_agrees: bool, floor: Option<u64>) -> Option<
    Check,
> {
    if !cfg.spec_version_ok() {
        Some(Check::SchemaVersion)
    } else if cfg.n == 0 {
        Some(Check::NonEmpty)
    } else if cfg.backend.spec_is_device() {
        Some(Check::Backend)
    } else if !null_agrees {
        Some(Check::NullParameter)
    } else if spec_floor_refuses(cfg, floor) {
        Some(Check::SampleFloor)
    } else if !cfg.reduction.spec_supported() {
        Some(Check::Reduction)
    } else {
        None
    }
}

/// The reason given when the generic runner is asked for a device.
pub open spec fn device_refusal_reason() -> Seq<char> {
    "a device cannot invoke user Rust trait impls; use family::Family for GPU execution"@
}

/// The checks the generic estimator runner makes, in order, before it
/// draws: the schema major version, a non-empty ensemble, a host
/// backend, the null-parameter cross-check, the sample-complexity floor
/// and the reduction policy.
///
/// `null_mismatch` is the outcome of comparing the configured null
/// parameter with the perturbation's (`None` when they agree; otherwise
/// the two serialised values). `floor` is the sample-complexity floor
/// for the configured accuracy claim and declared `Lambda`, when both
/// are present.
pub fn check_run(
    cfg: &Config,
    null_mismatch: Option<(String, String)>,
    floor: Option<u64>,
) -> (r: Result<(), Error>)
    ensures
        !cfg.spec_version_ok() ==> (r matches Err(Error::SchemaVersion { got, want_major }) && got@
            == cfg.schema_version@),
        cfg.spec_version_ok() && cfg.n == 0 ==> r matches Err(Error::EmptyEnsemble),
        cfg.spec_version_ok() && cfg.n > 0 && cfg.backend.spec_is_device() ==> (r matches Err(
            Error::UnsupportedBackend { backend, reason },
        ) && backend@ == "gpu"@ && reason@ == device_refusal_reason()),
        cfg.spec_version_ok() && cfg.n > 0 && !cfg.backend.spec_is_device() && null_mismatch
            is Some ==> (r matches Err(Error::NullParameterMismatch { config, perturbation })
            && config@ == null_mismatch.unwrap().0@ && perturbation@
            == null_mismatch.unwrap().1@),
        cfg.spec_version_ok() && cfg.n > 0 && !cfg.backend.spec_is_device() && null_mismatch
            is None && spec_floor_refuses(cfg, floor) ==> r == Err::<(), Error>(
            Error::SampleFloor {
                epsilon: cfg.accuracy.unwrap().epsilon,
                eta: cfg.accuracy.unwrap().eta,
                floor: floor.unwrap(),
                n: cfg.n,
            },
        ),
        cfg.spec_version_ok() && cfg.n > 0 && !cfg.backend.spec_is_device() && null_mismatch
            is None && !spec_floor_refuses(cfg, floor) && !cfg.reduction.spec_supported() ==> (r
            matches Err(Error::UnsupportedReduction { order, leaf_order }) && order@
            == cfg.reduction.order@ && leaf_order@ == cfg.reduction.leaf_order@),
        r is Ok <==> engine_first_failure(cfg, null_mismatch is None, floor) is None,
        r matches Err(e) ==> Some(failed_check(e)) == engine_first_failure(
            cfg,
            null_mismatch is None,
            floor,
        ),
        r is Ok && floor is Some && cfg.accuracy is Some ==> cfg.n >= floor.unwrap(),
        cfg.spec_version_ok() && cfg.n > 0 && !cfg.backend.spec_is_device() && null_mismatch
            is None && floor is Some && cfg.accuracy is Some && cfg.n < floor.unwrap() ==> (r matches Err(
            Error::SampleFloor { floor: got_floor, n: got_n, .. },
        ) && got_floor == floor.unwrap() && got_n == cfg.n),
{
    proof {
        law_floor_refuses_exactly_below_it(cfg, floor);
    }
    cfg.validate_version()?;
    if cfg.n == 0 {
        return Err(Error::EmptyEnsemble);
    }
    if cfg.backend.is_device() {
        return Err(
            Error::UnsupportedBackend {
                backend: "gpu",
                reason: String::from_str(
                    "a device cannot invoke user Rust trait impls; use family::Family for GPU execution",
                ),
            },
        );
    }
    if let Some((config, perturbation)) = null_mismatch {
        return Err(Error::NullParameterMismatch { config, perturbation });
    }
    if let Some(fl) = floor {
        if cfg.n < fl {
            if let Some(acc) = cfg.accuracy {
                return Err(
                    Error::SampleFloor { epsilon: acc.epsilon, eta: acc.eta, floor: fl, n: cfg.n },
                );
            }
        }
    }
    crate::config::validate_reduction(&cfg.reduction)
}


/// What a run yields once the checks made before the null-parameter
/// cross-check have passed and the cross-check came out `null_mismatch`:
/// the first of the remaining checks (null parameter, floor, reduction
/// policy) that fails, else `measure` of an ensemble that `draw` produced
/// for `(seed, n)`.
pub open spec fn run_outcome<O, R, A: Fn(u64, u64) -> Vec<O>, M: Fn(Vec<O>) -> R>(
    cfg: &Config,
    null_mismatch: Option<(String, String)>,
    floor: Option<u64>,
    draw: &A,
    measure: &M,
    r: Result<R, Error>,
) -> bool {
    &&& null_mismatch matches Some(p) ==> (r matches Err(
        Error::NullParameterMismatch { config, perturbation },
    ) && config@ == p.0@ && perturbation@ == p.1@)
    &&& (null_mismatch is None && spec_floor_refuses(cfg, floor)) ==> r == Err::<R, Error>(
        Error::SampleFloor {
            epsilon: cfg.accuracy.unwrap().epsilon,
            eta: cfg.accuracy.unwrap().eta,
            floor: floor.unwrap(),
            n: cfg.n,
        },
    )
    &&& (null_mismatch is None && !spec_floor_refuses(cfg, floor)
        && !cfg.reduction.spec_supported()) ==> (r matches Err(
        Error::UnsupportedReduction { order, leaf_order },
    ) && order@ == cfg.reduction.order@ && leaf_order@ == cfg.reduction.leaf_order@)
    &&& (null_mismatch is None && !spec_floor_refuses(cfg, floor)
        && cfg.reduction.spec_supported()) ==> exists|ys: Vec<O>|
        #[trigger] draw.ensures((cfg.seed, cfg.n), ys) && r is Ok && measure.ensures(
            (ys,),
            r->Ok_0,
        )
}

/// A run of the generic estimator, in its order: the schema major
/// version, a non-empty ensemble and a host backend are checked first;
/// only then is the null parameter cross-checked (`null_check` is called
/// once, and gives `None` when the configured and the perturbation's null
/// parameters agree, else the two serialised values); then the floor and
/// the reduction policy are checked; then the ensemble is drawn for the
/// configured seed and size, and measured.
pub fn run_ordered<O, R, N, A, M>(
    cfg: &Config,
    floor: Option<u64>,
    null_check: &N,
    draw: &A,
    measure: &M,
) -> (r: Result<R, Error>) where
    N: Fn() -> Option<(String, String)>,
    A: Fn(u64, u64) -> Vec<O>,
    M: Fn(Vec<O>) -> R,

    requires
        null_check.requires(()),
        draw.requires((cfg.seed, cfg.n)),
        forall|ys: Vec<O>| measure.requires((ys,)),
    ensures
        !cfg.spec_version_ok() ==> (r matches Err(Error::SchemaVersion { got, want_major }) && got@
            == cfg.schema_version@),
        cfg.spec_version_ok() && cfg.n == 0 ==> r matches Err(Error::EmptyEnsemble),
        cfg.spec_version_ok() && cfg.n > 0 && cfg.backend.spec_is_device() ==> (r matches Err(
            Error::UnsupportedBackend { backend, reason },
        ) && backend@ == "gpu"@ && reason@ == device_refusal_reason()),
        cfg.spec_version_ok() && cfg.n > 0 && !cfg.backend.spec_is_device() ==> exists|
            nm: Option<(String, String)>,
        |
            #[trigger] null_check.ensures((), nm) && run_outcome(cfg, nm, floor, draw, measure, r),
        r is Ok && floor is Some && cfg.accuracy is Some ==> cfg.n >= floor.unwrap(),
{
    if let Err(e) = cfg.validate_version() {
        return Err(e);
    }
    if cfg.n == 0 {
        return Err(Error::EmptyEnsemble);
    }
    if cfg.backend.is_device() {
        return Err(
            Error::UnsupportedBackend {
                backend: "gpu",
                reason: String::from_str(
                    "a device cannot invoke user Rust trait impls; use family::Family for GPU execution",
                ),
            },
        );
    }
    let null_mismatch = null_check();
    if let Err(e) = check_run(cfg, null_mismatch, floor) {
        return Err(e);
    }
    let ys = draw(cfg.seed, cfg.n);
    let v = measure(ys);
    Ok(v)
}

/// The ensemble `Y_i` for `i in 0..n`, in index order: draw `i` is
/// handed a fresh generator on its own substream `fork_rng(seed, i)`,
/// so each element is a function of `(seed, i)` and the draw alone.
pub fn draw_ensemble<O, D: Fn(ChaCha20Rng) -> O>(seed: u64, n: u64, draw: &D) -> (ys: Vec<O>)
    requires
        n <= usize::MAX,
        forall|rng: ChaCha20Rng| draw.requires((rng,)),
    ensures
        ys@.len() == n,
        forall|i: int|
            0 <= i < n ==> draw.ensures(
                (chacha20_keyed(spec_fork_key(seed, i as u64)),),
                #[trigger] ys@[i],
            ),
{
    let mut ys: Vec<O> = Vec::new();
    let mut i: u64 = 0;
    while i < n
        invariant
            i <= n,
            n <= usize::MAX,
            ys@.len() == i,
            forall|rng: ChaCha20Rng| draw.requires((rng,)),
            forall|j: int|
                0 <= j < i ==> draw.ensures(
                    (chacha20_keyed(spec_fork_key(seed, j as u64)),),
                    #[trigger] ys@[j],
                ),
        decreases n - i,
    {
        let rng = fork_rng(seed, i);
        let y = draw(rng);
        ys.push(y);
        i += 1;
    }
    ys
}

/// The declared Lipschitz constant `L` in force: the configured one,
/// else the forward model's own declaration.
pub fn resolve_forward_l(configured: Option<Float64>, declared: Option<Float64>) -> (l: Option<
    Float64,
>)
    ensures
        l == (if configured is Some {
            configured
        } else {
            declared
        }),
{
    match configured {
        Some(x) => Some(x),
        None => declared,
    }
}

/// The constants a non-asymptotic error bound is computed from.
#[derive(Debug, Clone, Copy, PartialEq, Eq)]
pub struct BoundInputs {
    /// `Lambda`, the invariance functional's `W_1`-Lipschitz constant.
    pub lambda: Float64,
    /// Observation diameter `D`.
    pub d: Float64,
    /// Observation dimension.
    pub obs_dim: u32,
    /// Failure probability `eta`.
    pub eta: Float64,
}

/// What a finished report carries besides its value: the provenance and
/// which derived quantities are available, with their inputs.
#[derive(Debug, Clone, Copy, PartialEq, Eq)]
pub struct ReportPlan {
    /// Sample size used.
    pub n_effective: u64,
    /// Seed the run was keyed by.
    pub seed: u64,
    /// Inputs of the error bound, when one is available.
    pub bound: Option<BoundInputs>,
    /// `(Lambda, L)` of the stability modulus `Lambda * L`, when both are
    /// declared.
    pub stability: Option<(Float64, Float64)>,
}

/// Plan the enrichment of a bare report: an error bound is available
/// exactly when `Lambda`, `D` and `obs_dim` were all supplied, and a
/// stability modulus exactly when `Lambda` and `L` were.
pub fn report_plan(cfg: &Config, forward_l: Option<Float64>) -> (p: ReportPlan)
    ensures
        p.n_effective == cfg.n,
        p.seed == cfg.seed,
        p.bound is Some <==> (cfg.lipschitz.invariance_lambda is Some && cfg.accuracy is Some),
        p.bound matches Some(b) ==> (b.lambda == cfg.lipschitz.invariance_lambda.unwrap() && b.d
            == cfg.accuracy.unwrap().observation_diameter && b.obs_dim
            == cfg.accuracy.unwrap().obs_dim && b.eta == cfg.accuracy.unwrap().eta),
        p.stability is Some <==> (cfg.lipschitz.invariance_lambda is Some && forward_l is Some),
        p.stability matches Some(st) ==> (st.0 == cfg.lipschitz.invariance_lambda.unwrap() && st.1
            == forward_l.unwrap()),
{
    let bound = match (cfg.lipschitz.invariance_lambda, cfg.accuracy) {
        (Some(lambda), Some(acc)) => Some(
            BoundInputs { lambda, d: acc.observation_diameter, obs_dim: acc.obs_dim, eta: acc.eta },
        ),
        _ => None,
    };
    let stability = match (cfg.lipschitz.invariance_lambda, forward_l) {
        (Some(lambda), Some(l)) => Some((lambda, l)),
        _ => None,
    };
    ReportPlan { n_effective: cfg.n, seed: cfg.seed, bound, stability }
}

} // verus!
