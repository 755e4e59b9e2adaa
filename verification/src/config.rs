//! Configuration: execution backend, reduction policy, schema version
//! handling, declared constants and the accuracy claim.
use vstd::prelude::*;
use vstd::string::StrSliceExecFns;

use crate::float64::Float64;
use crate::text::{ascii_lowercase, eq_ignore_ascii_case_to, str_eq};
use crate::{Error, SCHEMA_VERSION};

verus! {

/// Execution backend selector.
///
/// It selects how the estimator is evaluated, never what it evaluates:
/// the host backends agree bit for bit.
#[derive(Debug, Clone, Copy, PartialEq, Eq, Structural)]
pub enum Backend {
    /// The fastest host path available.
    Auto,
    /// The portable scalar path, the reference.
    Scalar,
    /// The vectorised host path.
    Simd,
    /// A compute device, bit-identically to the host.
    Gpu,
    /// A compute device in single precision.
    GpuF32,
}

/// The lowercase wire tag of each backend.
pub open spec fn backend_tag(b: Backend) -> Seq<char> {
    match b {
        Backend::Auto => "auto"@,
        Backend::Scalar => "scalar"@,
        Backend::Simd => "simd"@,
        Backend::Gpu => "gpu"@,
        Backend::GpuF32 => "gpu_f32"@,
    }
}

/// The backend whose wire tag is `s`, if any.
pub open spec fn backend_named(s: Seq<char>) -> Option<Backend> {
    if s == "auto"@ {
        Some(Backend::Auto)
    } else if s == "scalar"@ {
        Some(Backend::Scalar)
    } else if s == "simd"@ {
        Some(Backend::Simd)
    } else if s == "gpu"@ {
        Some(Backend::Gpu)
    } else if s == "gpu_f32"@ {
        Some(Backend::GpuF32)
    } else {
        None
    }
}

impl Backend {
    /// The backend dispatches to a compute device.
    pub open spec fn spec_is_device(self) -> bool {
        self == Backend::Gpu || self == Backend::GpuF32
    }

    /// `true` for `Backend::Auto`, the default, which the wire form omits.
    pub fn is_auto(&self) -> (b: bool)
        ensures
            b == (*self == Backend::Auto),
    {
        matches!(self, Backend::Auto)
    }

    /// Lowercase tag matching the serialised form.
    pub fn as_str(self) -> (s: &'static str)
        ensures
            s@ == backend_tag(self),
    {
        match self {
            Backend::Auto => "auto",
            Backend::Scalar => "scalar",
            Backend::Simd => "simd",
            Backend::Gpu => "gpu",
            Backend::GpuF32 => "gpu_f32",
        }
    }

    /// `true` for backends that dispatch to a compute device.
    pub fn is_device(self) -> (b: bool)
        ensures
            b == self.spec_is_device(),
    {
        matches!(self, Backend::Gpu | Backend::GpuF32)
    }

    /// The backend named by `name`, compared after ASCII lowercasing;
    /// `None` when it names none.
    pub fn parse(name: &str) -> (r: Option<Backend>)
        ensures
            r == backend_named(ascii_lowercase(name@)),
    {
        if eq_ignore_ascii_case_to(name, "auto") {
            Some(Backend::Auto)
        } else if eq_ignore_ascii_case_to(name, "scalar") {
            Some(Backend::Scalar)
        } else if eq_ignore_ascii_case_to(name, "simd") {
            Some(Backend::Simd)
        } else if eq_ignore_ascii_case_to(name, "gpu") {
            Some(Backend::Gpu)
        } else if eq_ignore_ascii_case_to(name, "gpu_f32") {
            Some(Backend::GpuF32)
        } else {
            None
        }
    }
}

/// Every backend's wire tag reads back as that backend, so the tags
/// are distinct and already lowercase.
pub proof fn law_backend_tag_round_trip(b: Backend)
    ensures
        backend_named(ascii_lowercase(backend_tag(b))) == Some(b),
{
    reveal_strlit("auto");
    reveal_strlit("scalar");
    reveal_strlit("simd");
    reveal_strlit("gpu");
    reveal_strlit("gpu_f32");
    assert(ascii_lowercase(backend_tag(b)) =~= backend_tag(b));
    match b {
        Backend::Auto => {},
        Backend::Scalar => {
            assert("scalar"@ != "auto"@);
        },
        Backend::Simd => {
            assert("simd"@[1] != "auto"@[1]);
            assert("simd"@ != "scalar"@);
        },
        Backend::Gpu => {
            assert("gpu"@ != "auto"@);
            assert("gpu"@ != "scalar"@);
            assert("gpu"@ != "simd"@);
        },
        Backend::GpuF32 => {
            assert("gpu_f32"@ != "auto"@);
            assert("gpu_f32"@ != "scalar"@);
            assert("gpu_f32"@ != "simd"@);
            assert("gpu_f32"@ != "gpu"@);
        },
    }
}

/// Reduction policy: the tree order and the leaf order.
#[derive(Debug, Clone, PartialEq, Eq)]
pub struct Reduction {
    /// `"tree"` or `"sequential"`.
    pub order: String,
    /// `"index"`.
    pub leaf_order: String,
}

impl Default for Reduction {
    /// Tree order over index-ordered leaves.
    fn default() -> (r: Self)
        ensures
            r.order@ == "tree"@,
            r.leaf_order@ == "index"@,
    {
        Reduction { order: String::from_str("tree"), leaf_order: String::from_str("index") }
    }
}

impl Reduction {
    /// The engine honours this policy: tree or sequential order, over
    /// index-ordered leaves.
    pub open spec fn spec_supported(&self) -> bool {
        (self.order@ == "tree"@ || self.order@ == "sequential"@) && self.leaf_order@ == "index"@
    }
}

/// Accept the supported reduction policies and refuse the rest.
pub fn validate_reduction(r: &Reduction) -> (res: Result<(), Error>)
    ensures
        res is Ok <==> r.spec_supported(),
        res matches Err(e) ==> (e matches Error::UnsupportedReduction { order, leaf_order } && order@
            == r.order@ && leaf_order@ == r.leaf_order@),
{
    let order = r.order.as_str();
    let leaf = r.leaf_order.as_str();
    if (str_eq(order, "tree") || str_eq(order, "sequential")) && str_eq(leaf, "index") {
        Ok(())
    } else {
        Err(Error::UnsupportedReduction { order: r.order.clone(), leaf_order: r.leaf_order.clone() })
    }
}

/// Position of the first `.` at or after `i`, or the length when none.
pub open spec fn field_end(s: Seq<char>, i: int) -> int
    decreases s.len() - i,
{
    if i < 0 || i >= s.len() || s[i] == '.' {
        i
    } else {
        field_end(s, i + 1)
    }
}

/// The characters before the first `.`.
pub open spec fn first_field(s: Seq<char>) -> Seq<char> {
    s.take(field_end(s, 0))
}

/// An ASCII decimal digit.
pub open spec fn is_digit(c: char) -> bool {
    '0' <= c && c <= '9'
}

/// Value of a string of decimal digits.
pub open spec fn digits_value(s: Seq<char>) -> nat
    decreases s.len(),
{
    if s.len() == 0 {
        0
    } else {
        digits_value(s.drop_last()) * 10 + ((s.last() as u32) - ('0' as u32)) as nat
    }
}

/// `s` without one leading `+`.
pub open spec fn strip_plus(s: Seq<char>) -> Seq<char> {
    if s.len() > 0 && s[0] == '+' {
        s.drop_first()
    } else {
        s
    }
}

/// Every character is an ASCII decimal digit.
pub open spec fn all_digits(d: Seq<char>) -> bool {
    forall|i: int| 0 <= i < d.len() ==> is_digit(#[trigger] d[i])
}

/// `u64::from_str`: one optional leading `+`, then at least one ASCII
/// digit and nothing else, with a value that fits in 64 bits.
pub open spec fn parse_u64(s: Seq<char>) -> Option<u64> {
    let d = strip_plus(s);
    if d.len() > 0 && all_digits(d) && digits_value(d) <= u64::MAX {
        Some(digits_value(d) as u64)
    } else {
        None
    }
}

/// The SemVer major component: the field before the first `.` read as
/// a `u64`, or `0` when it does not read as one.
pub open spec fn major_spec(v: Seq<char>) -> u64 {
    match parse_u64(first_field(v)) {
        Some(x) => x,
        None => 0,
    }
}

proof fn lemma_digits_prefix_le(d: Seq<char>, j: int)
    requires
        0 <= j <= d.len(),
        forall|i: int| 0 <= i < d.len() ==> is_digit(#[trigger] d[i]),
    ensures
        digits_value(d.take(j)) <= digits_value(d),
    decreases d.len(),
{
    if j < d.len() {
        let t = d.drop_last();
        assert forall|i: int| 0 <= i < t.len() implies is_digit(#[trigger] t[i]) by {
            assert(t[i] == d[i]);
        }
        lemma_digits_prefix_le(t, j);
        assert(t.take(j) =~= d.take(j));
    } else {
        assert(d.take(j) =~= d);
    }
}

/// Extract the SemVer major component of a version string.
pub fn major(v: &str) -> (r: u64)
    ensures
        r == major_spec(v@),
{
    let n = v.unicode_len();
    let mut e: usize = 0;
    while e < n && v.get_char(e) != '.'
        invariant
            n == v@.len(),
            e <= n,
            field_end(v@, e as int) == field_end(v@, 0),
        decreases n - e,
    {
        e += 1;
    }
    let ghost s = v@;
    let ghost field = first_field(s);
    assert(field_end(s, 0) == e);
    assert(field =~= s.take(e as int));
    let mut start: usize = 0;
    if e > 0 && v.get_char(0) == '+' {
        start = 1;
    }
    let ghost d = strip_plus(field);
    assert(d =~= s.subrange(start as int, e as int));
    if start == e {
        return 0;
    }
    let mut acc: u64 = 0;
    let mut i: usize = start;
    while i < e
        invariant
            n == s.len(),
            s == v@,
            start <= i <= e <= n,
            d =~= s.subrange(start as int, e as int),
            field == first_field(s),
            d == strip_plus(field),
            forall|j: int| start <= j < i ==> is_digit(#[trigger] s[j]),
            acc == digits_value(s.subrange(start as int, i as int)),
        decreases e - i,
    {
        let c = v.get_char(i);
        if !('0' <= c && c <= '9') {
            assert(!is_digit(d[i - start]));
            assert(!all_digits(d));
            return 0;
        }
        let digit: u64 = (c as u32 - '0' as u32) as u64;
        let ghost next = s.subrange(start as int, i + 1);
        assert(next.drop_last() =~= s.subrange(start as int, i as int));
        assert(digits_value(next) == acc * 10 + digit);
        let widened = acc.checked_mul(10);
        if widened.is_none() {
            proof {
                if all_digits(d) {
                    lemma_digits_prefix_le(d, i + 1 - start);
                    assert(d.take(i + 1 - start) =~= next);
                }
                assert(parse_u64(field) is None);
            }
            return 0;
        }
        let summed = widened.unwrap().checked_add(digit);
        if summed.is_none() {
            proof {
                if all_digits(d) {
                    lemma_digits_prefix_le(d, i + 1 - start);
                    assert(d.take(i + 1 - start) =~= next);
                }
                assert(parse_u64(field) is None);
            }
            return 0;
        }
        acc = summed.unwrap();
        i += 1;
    }
    assert(s.subrange(start as int, e as int) =~= d);
    acc
}

/// Declared Lipschitz constants.
#[derive(Debug, Clone, Copy, PartialEq, Eq)]
pub struct Lipschitz {
    /// `L` for the forward model.
    pub forward_l: Option<Float64>,
    /// `Lambda` for the invariance functional.
    pub invariance_lambda: Option<Float64>,
}

/// An accuracy target `(epsilon, eta)` with the constants of the bound.
#[derive(Debug, Clone, Copy, PartialEq, Eq)]
pub struct Accuracy {
    /// Target additive error `epsilon > 0`.
    pub epsilon: Float64,
    /// Target failure probability `eta` in `(0, 1)`.
    pub eta: Float64,
    /// Observation diameter `D`.
    pub observation_diameter: Float64,
    /// Observation dimension `d_obs`.
    pub obs_dim: u32,
}

/// Why an accuracy claim was refused.
#[derive(Debug, Clone, Copy, PartialEq, Eq, Structural)]
pub enum ClaimError {
    /// Only some of the four parts were given.
    Incomplete,
    /// `epsilon` is not strictly positive.
    EpsilonNotPositive,
    /// `eta` is not strictly between zero and one.
    EtaOutOfRange,
}

impl ClaimError {
    /// The message a caller reports.
    pub fn message(self) -> (s: &'static str)
        ensures
            self == ClaimError::Incomplete ==> s@
                == "an accuracy claim needs all of epsilon, eta, observation_diameter and obs_dim"@,
            self == ClaimError::EpsilonNotPositive ==> s@ == "epsilon must be > 0"@,
            self == ClaimError::EtaOutOfRange ==> s@ == "eta must lie in (0, 1)"@,
    {
        match self {
            ClaimError::Incomplete => "an accuracy claim needs all of epsilon, eta, observation_diameter and obs_dim",
            ClaimError::EpsilonNotPositive => "epsilon must be > 0",
            ClaimError::EtaOutOfRange => "eta must lie in (0, 1)",
        }
    }
}

/// Assemble an accuracy claim from its optional parts: all absent is no
/// claim, all present is a claim once `epsilon > 0` and `0 < eta < 1`,
/// and anything in between is refused, since a partial claim would
/// silently disable the sample-complexity floor.
pub fn accuracy_claim(
    epsilon: Option<Float64>,
    eta: Option<Float64>,
    observation_diameter: Option<Float64>,
    obs_dim: Option<u32>,
) -> (r: Result<Option<Accuracy>, ClaimError>)
    ensures
        (epsilon is None && eta is None && observation_diameter is None && obs_dim is None) ==> r
            == Ok::<Option<Accuracy>, ClaimError>(None),
        (epsilon is Some && eta is Some && observation_diameter is Some && obs_dim is Some) ==> {
            &&& !epsilon.unwrap().spec_gt_zero() ==> r == Err::<Option<Accuracy>, ClaimError>(
                ClaimError::EpsilonNotPositive,
            )
            &&& epsilon.unwrap().spec_gt_zero() && !(eta.unwrap().spec_gt_zero()
                && eta.unwrap().spec_lt_one()) ==> r == Err::<Option<Accuracy>, ClaimError>(
                ClaimError::EtaOutOfRange,
            )
            &&& epsilon.unwrap().spec_gt_zero() && eta.unwrap().spec_gt_zero()
                && eta.unwrap().spec_lt_one() ==> r == Ok::<Option<Accuracy>, ClaimError>(
                Some(
                    Accuracy {
                        epsilon: epsilon.unwrap(),
                        eta: eta.unwrap(),
                        observation_diameter: observation_diameter.unwrap(),
                        obs_dim: obs_dim.unwrap(),
                    },
                ),
            )
        },
        !(epsilon is None && eta is None && observation_diameter is None && obs_dim is None) && !(
        epsilon is Some && eta is Some && observation_diameter is Some && obs_dim is Some) ==> r
            == Err::<Option<Accuracy>, ClaimError>(ClaimError::Incomplete),
{
    match (epsilon, eta, observation_diameter, obs_dim) {
        (None, None, None, None) => Ok(None),
        (Some(epsilon), Some(eta), Some(d), Some(obs_dim)) => {
            if !epsilon.gt_zero() {
                return Err(ClaimError::EpsilonNotPositive);
            }
            if !(eta.gt_zero() && eta.lt_one()) {
                return Err(ClaimError::EtaOutOfRange);
            }
            Ok(Some(Accuracy { epsilon, eta, observation_diameter: d, obs_dim }))
        },
        _ => Err(ClaimError::Incomplete),
    }
}

/// The run configuration the engine reads: `(N, seed)`, the reduction
/// policy, the declared constants, the optional accuracy claim and the
/// backend.
#[derive(Debug, Clone)]
pub struct Config {
    /// Schema version of this payload.
    pub schema_version: String,
    /// Sample size `N`.
    pub n: u64,
    /// 64-bit RNG seed.
    pub seed: u64,
    /// Reduction policy.
    pub reduction: Reduction,
    /// Declared Lipschitz constants.
    pub lipschitz: Lipschitz,
    /// Optional accuracy target.
    pub accuracy: Option<Accuracy>,
    /// Execution backend.
    pub backend: Backend,
}

impl Default for Config {
    /// `n = 1024`, seed `0`, tree/index reduction, no declared
    /// constants, no accuracy claim, automatic backend.
    fn default() -> (c: Self)
        ensures
            c.schema_version@ == SCHEMA_VERSION@,
            c.n == 1024,
            c.seed == 0,
            c.reduction.order@ == "tree"@,
            c.reduction.leaf_order@ == "index"@,
            c.lipschitz.forward_l is None,
            c.lipschitz.invariance_lambda is None,
            c.accuracy is None,
            c.backend == Backend::Auto,
    {
        Config {
            schema_version: String::from_str(SCHEMA_VERSION),
            n: 1024,
            seed: 0,
            reduction: Reduction::default(),
            lipschitz: Lipschitz { forward_l: None, invariance_lambda: None },
            accuracy: None,
            backend: Backend::Auto,
        }
    }
}

impl Config {
    /// The payload's major version is the one this crate implements.
    pub open spec fn spec_version_ok(&self) -> bool {
        major_spec(self.schema_version@) == major_spec(SCHEMA_VERSION@)
    }

    /// Reject configs with a different major `schema_version`.
    pub fn validate_version(&self) -> (r: Result<(), Error>)
        ensures
            r is Ok <==> self.spec_version_ok(),
            r matches Err(e) ==> (e matches Error::SchemaVersion { got, want_major } && got@
                == self.schema_version@ && want_major == major_spec(SCHEMA_VERSION@)),
    {
        let want_major = major(SCHEMA_VERSION);
        let got_major = major(self.schema_version.as_str());
        if got_major != want_major {
            return Err(Error::SchemaVersion { got: self.schema_version.clone(), want_major });
        }
        Ok(())
    }

    /// `self` with the execution backend replaced.
    pub fn with_backend(self, backend: Backend) -> (c: Self)
        ensures
            c == (Config { backend, ..self }),
    {
        let mut c = self;
        c.backend = backend;
        c
    }

    /// The inputs of the sample-complexity floor: the accuracy claim and
    /// the declared `Lambda`, when both are present.
    pub fn floor_inputs(&self) -> (r: Option<(Float64, Accuracy)>)
        ensures
            r == (match (self.lipschitz.invariance_lambda, self.accuracy) {
                (Some(l), Some(a)) => Some((l, a)),
                _ => None::<(Float64, Accuracy)>,
            }),
    {
        match (self.lipschitz.invariance_lambda, self.accuracy) {
            (Some(l), Some(a)) => Some((l, a)),
            _ => None,
        }
    }
}

} // verus!
