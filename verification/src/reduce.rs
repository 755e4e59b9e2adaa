use vstd::prelude::*;

use crate::config::Backend;

pub mod reference;

verus! {

/// One level of the fixed-shape pairwise reduction.
pub open spec fn level<T>(s: Seq<T>, f: spec_fn(T, T) -> T) -> Seq<T> {
    Seq::new(
        (s.len() / 2 + s.len() % 2) as nat,
        |k: int| if 2 * k + 1 < s.len() { f(s[2 * k], s[2 * k + 1]) } else { s[s.len() - 1] },
    )
}

/// Reduce a non-empty sequence level by level down to one value.
pub open spec fn tree_reduce<T>(s: Seq<T>, f: spec_fn(T, T) -> T) -> T
    decreases s.len(),
{
    if s.len() <= 1 {
        s[0]
    } else {
        tree_reduce(level(s, f), f)
    }
}

/// `f` describes every result the executable operation `op` can return.
pub open spec fn computes<T, F: Fn(T, T) -> T>(op: F, f: spec_fn(T, T) -> T) -> bool {
    forall|a: T, b: T, r: T| #[trigger] op.ensures((a, b), r) ==> r == f(a, b)
}

/// Outputs `0..k` of the level under construction are in place in `cur`,
/// and every position from `k` on still holds its value in `orig`.
spec fn level_prefix_done<T, F: Fn(T, T) -> T>(cur: Seq<T>, orig: Seq<T>, k: int, combine: F) -> bool {
    &&& cur.len() == orig.len()
    &&& forall|j: int| k <= j < orig.len() ==> cur[j] == orig[j]
    &&& forall|j: int|
        0 <= j < k ==> combine.ensures((orig[2 * j], orig[2 * j + 1]), #[trigger] cur[j])
}

/// Finish one level of `buf[..len]` from output `k` on: the remaining
/// pairs one at a time, then an odd tail element carried up unchanged.
/// Returns the new length.
fn finish_level<T: Copy, F: Fn(T, T) -> T>(
    buf: &mut Vec<T>,
    len: usize,
    k: usize,
    Ghost(orig): Ghost<Seq<T>>,
    combine: &F,
) -> (new_len: usize)
    requires
        2 <= len <= orig.len(),
        k <= len / 2,
        level_prefix_done(old(buf)@, orig, k as int, *combine),
        forall|a: T, b: T| combine.requires((a, b)),
    ensures
        final(buf).len() == orig.len(),
        new_len == len / 2 + len % 2,
        forall|f: spec_fn(T, T) -> T|
            computes(*combine, f) ==> final(buf)@.take(new_len as int) == level(
                orig.take(len as int),
                f,
            ),
{
    let half = len / 2;
    let mut k = k;
    while k < half
        invariant
            half == len / 2,
            2 <= len <= orig.len(),
            k <= half,
            forall|a: T, b: T| combine.requires((a, b)),
            level_prefix_done(buf@, orig, k as int, *combine),
        decreases half - k,
    {
        let a = buf[2 * k];
        let b = buf[2 * k + 1];
        let r = combine(a, b);
        buf.set(k, r);
        k += 1;
    }
    let new_len = if len % 2 == 1 {
        let last = buf[len - 1];
        buf.set(half, last);
        half + 1
    } else {
        half
    };
    assert forall|f: spec_fn(T, T) -> T| computes(*combine, f) implies buf@.take(new_len as int)
        == level(orig.take(len as int), f) by {
        assert forall|j: int| 0 <= j < new_len implies buf@.take(new_len as int)[j] == level(
            orig.take(len as int),
            f,
        )[j] by {
            if j < half {
                assert(combine.ensures((orig[2 * j], orig[2 * j + 1]), buf@[j]));
            }
        }
        assert(buf@.take(new_len as int) =~= level(orig.take(len as int), f));
    }
    new_len
}

/// One level of `buf[..len]` on the portable scalar path: one output per
/// step.
fn collapse<T: Copy, F: Fn(T, T) -> T>(buf: &mut Vec<T>, len: usize, combine: &F) -> (new_len: usize)
    requires
        2 <= len <= old(buf).len(),
        forall|a: T, b: T| combine.requires((a, b)),
    ensures
        final(buf).len() == old(buf).len(),
        new_len == len / 2 + len % 2,
        forall|f: spec_fn(T, T) -> T|
            computes(*combine, f) ==> final(buf)@.take(new_len as int) == level(
                old(buf)@.take(len as int),
                f,
            ),
{
    let ghost orig = buf@;
    finish_level(buf, len, 0, Ghost(orig), combine)
}

/// One level of `buf[..len]` in the shape of the 2-lane AArch64 path:
/// each step loads two registers of two inputs, adds each register's
/// pair, and stores the two outputs at `k` and `k + 1`. The store never
/// reaches an input not yet read, since `k + 1 < 2k + 4`. The leftover
/// outputs go one at a time.
fn collapse_neon<T: Copy, F: Fn(T, T) -> T>(buf: &mut Vec<T>, len: usize, combine: &F) -> (new_len:
    usize)
    requires
        2 <= len <= old(buf).len(),
        forall|a: T, b: T| combine.requires((a, b)),
    ensures
        final(buf).len() == old(buf).len(),
        new_len == len / 2 + len % 2,
        forall|f: spec_fn(T, T) -> T|
            computes(*combine, f) ==> final(buf)@.take(new_len as int) == level(
                old(buf)@.take(len as int),
                f,
            ),
{
    let half = len / 2;
    let ghost orig = buf@;
    let mut k: usize = 0;
    while k + 2 <= half
        invariant
            half == len / 2,
            2 <= len <= orig.len(),
            k <= half,
            forall|a: T, b: T| combine.requires((a, b)),
            level_prefix_done(buf@, orig, k as int, *combine),
        decreases half - k,
    {
        let ghost before = buf@;
        let v0 = (buf[2 * k], buf[2 * k + 1]);
        let v1 = (buf[2 * k + 2], buf[2 * k + 3]);
        let lo = combine(v0.0, v0.1);
        let hi = combine(v1.0, v1.1);
        buf.set(k, lo);
        buf.set(k + 1, hi);
        assert(combine.ensures((orig[2 * k], orig[2 * k + 1]), buf@[k as int]));
        assert(combine.ensures((orig[2 * (k + 1)], orig[2 * (k + 1) + 1]), buf@[k + 1]));
        k += 2;
    }
    finish_level(buf, len, k, Ghost(orig), combine)
}

/// One level of `buf[..len]` in the shape of the 4-lane x86-64 path:
/// each step loads two registers of four inputs; the horizontal add pairs
/// adjacent lanes but interleaves the two registers across their halves,
/// giving outputs `(k, k + 2, k + 1, k + 3)`, which the lane permutation
/// `(0, 2, 1, 3)` puts back in index order before the store. The store
/// never reaches an input not yet read, since `k + 3 < 2k + 8`. The
/// leftover outputs go one at a time.
fn collapse_avx2<T: Copy, F: Fn(T, T) -> T>(buf: &mut Vec<T>, len: usize, combine: &F) -> (new_len:
    usize)
    requires
        2 <= len <= old(buf).len(),
        forall|a: T, b: T| combine.requires((a, b)),
    ensures
        final(buf).len() == old(buf).len(),
        new_len == len / 2 + len % 2,
        forall|f: spec_fn(T, T) -> T|
            computes(*combine, f) ==> final(buf)@.take(new_len as int) == level(
                old(buf)@.take(len as int),
                f,
            ),
{
    let half = len / 2;
    let ghost orig = buf@;
    let mut k: usize = 0;
    while k + 4 <= half
        invariant
            half == len / 2,
            2 <= len <= orig.len(),
            k <= half,
            forall|a: T, b: T| combine.requires((a, b)),
            level_prefix_done(buf@, orig, k as int, *combine),
        decreases half - k,
    {
        let a = (buf[2 * k], buf[2 * k + 1], buf[2 * k + 2], buf[2 * k + 3]);
        let b = (buf[2 * k + 4], buf[2 * k + 5], buf[2 * k + 6], buf[2 * k + 7]);
        let h = (combine(a.0, a.1), combine(b.0, b.1), combine(a.2, a.3), combine(b.2, b.3));
        let out = (h.0, h.2, h.1, h.3);
        buf.set(k, out.0);
        buf.set(k + 1, out.1);
        buf.set(k + 2, out.2);
        buf.set(k + 3, out.3);
        assert(combine.ensures((orig[2 * k], orig[2 * k + 1]), buf@[k as int]));
        assert(combine.ensures((orig[2 * (k + 1)], orig[2 * (k + 1) + 1]), buf@[k + 1]));
        assert(combine.ensures((orig[2 * (k + 2)], orig[2 * (k + 2) + 1]), buf@[k + 2]));
        assert(combine.ensures((orig[2 * (k + 3)], orig[2 * (k + 3) + 1]), buf@[k + 3]));
        k += 4;
    }
    finish_level(buf, len, k, Ghost(orig), combine)
}

/// One level of `buf[..len]` on the given vector path.
fn collapse_on<T: Copy, F: Fn(T, T) -> T>(
    path: SimdPath,
    buf: &mut Vec<T>,
    len: usize,
    combine: &F,
) -> (new_len: usize)
    requires
        2 <= len <= old(buf).len(),
        forall|a: T, b: T| combine.requires((a, b)),
    ensures
        final(buf).len() == old(buf).len(),
        new_len == len / 2 + len % 2,
        forall|f: spec_fn(T, T) -> T|
            computes(*combine, f) ==> final(buf)@.take(new_len as int) == level(
                old(buf)@.take(len as int),
                f,
            ),
{
    match path {
        SimdPath::Scalar => collapse(buf, len, combine),
        SimdPath::Neon => collapse_neon(buf, len, combine),
        SimdPath::Avx2 => collapse_avx2(buf, len, combine),
    }
}


/// Value of the reduction: `zero` for an empty sequence, the tree
/// reduction otherwise.
pub open spec fn tree_value<T>(s: Seq<T>, zero: T, f: spec_fn(T, T) -> T) -> T {
    if s.len() == 0 {
        zero
    } else {
        tree_reduce(s, f)
    }
}

/// Every element of `s` replaced by `g(x, m)`.
pub open spec fn map_with<T>(s: Seq<T>, m: T, g: spec_fn(T, T) -> T) -> Seq<T> {
    Seq::new(s.len(), |i: int| g(s[i], m))
}

/// Element-wise `h(a[i], b[i])` over the common length of `a` and `b`.
pub open spec fn zip_with<T>(a: Seq<T>, b: Seq<T>, h: spec_fn(T, T) -> T) -> Seq<T> {
    Seq::new(a.len(), |i: int| h(a[i], b[i]))
}

/// Collapse `buf[..len]` level by level, consuming it as scratch.
fn reduce_in_place<T: Copy, F: Fn(T, T) -> T>(
    path: SimdPath,
    buf: &mut Vec<T>,
    zero: T,
    combine: &F,
) -> (r: T)
    requires
        forall|a: T, b: T| combine.requires((a, b)),
    ensures
        final(buf).len() == old(buf).len(),
        forall|f: spec_fn(T, T) -> T|
            computes(*combine, f) ==> r == tree_value(old(buf)@, zero, f),
{
    let mut len = buf.len();
    if len == 0 {
        return zero;
    }
    let ghost orig = buf@;
    assert(orig.take(len as int) =~= orig);
    while len > 1
        invariant
            1 <= len <= buf.len(),
            buf.len() == orig.len(),
            orig.len() >= 1,
            forall|a: T, b: T| combine.requires((a, b)),
            forall|f: spec_fn(T, T) -> T|
                computes(*combine, f) ==> tree_reduce(buf@.take(len as int), f) == tree_reduce(
                    orig,
                    f,
                ),
        decreases len,
    {
        let ghost before = buf@;
        let ghost old_len = len;
        len = collapse_on(path, buf, len, combine);
        assert forall|f: spec_fn(T, T) -> T| computes(*combine, f) implies tree_reduce(
            buf@.take(len as int),
            f,
        ) == tree_reduce(orig, f) by {
            assert(buf@.take(len as int) == level(before.take(old_len as int), f));
        }
    }
    assert forall|f: spec_fn(T, T) -> T| computes(*combine, f) implies buf@[0] == tree_value(
        orig,
        zero,
        f,
    ) by {
        assert(buf@.take(1)[0] == buf@[0]);
    }
    buf[0]
}

/// Which vector path the reductions are taking.
///
/// Every path computes each tree output as one application of the
/// combining operation to one fixed pair, so the path never changes a
/// value; it is provenance only.
#[derive(Debug, Clone, Copy, PartialEq, Eq, Structural)]
pub enum SimdPath {
    /// Portable scalar loop.
    Scalar,
    /// AArch64 Advanced SIMD, 2 lanes.
    Neon,
    /// x86-64 AVX2, 4 lanes.
    Avx2,
}

impl SimdPath {
    /// Human-readable tag used in report provenance.
    pub fn as_str(self) -> (s: &'static str)
        ensures
            self == SimdPath::Scalar ==> s@ == "scalar"@,
            self == SimdPath::Neon ==> s@ == "neon"@,
            self == SimdPath::Avx2 ==> s@ == "avx2"@,
    {
        match self {
            SimdPath::Scalar => "scalar",
            SimdPath::Neon => "neon",
            SimdPath::Avx2 => "avx2",
        }
    }
}

/// The vector path this library's reductions take when none is chosen.
///
/// Every path is written here as a portable loop in its lane shape, with
/// no architecture intrinsics and no CPU feature probe, so the path taken
/// by default is `SimdPath::Scalar`; the 2- and 4-lane shapes run when
/// chosen explicitly.
pub fn active_backend() -> (p: SimdPath)
    ensures
        p == SimdPath::Scalar,
{
    SimdPath::Scalar
}

/// Resolve a configured `Backend` to the vector path to use.
pub fn path_for(backend: Backend) -> (p: SimdPath)
    ensures
        backend == Backend::Scalar ==> p == SimdPath::Scalar,
        backend != Backend::Scalar ==> p == active_backend_spec(),
{
    match backend {
        Backend::Scalar => SimdPath::Scalar,
        Backend::Simd | Backend::Auto | Backend::Gpu | Backend::GpuF32 => active_backend(),
    }
}

/// The path `active_backend` reports.
pub open spec fn active_backend_spec() -> SimdPath {
    SimdPath::Scalar
}

/// Deterministic pairwise reduction of `xs` under `combine`, starting
/// from the fixed tree shape: one level writes `buf[k] = combine(buf[2k],
/// buf[2k+1])` and carries an odd tail element up unchanged.
///
/// `zero` is returned for an empty slice. Allocates one scratch buffer;
/// use `tree_sum_into` to reuse one.
pub fn tree_sum<T: Copy, F: Fn(T, T) -> T>(xs: &[T], zero: T, combine: &F) -> (r: T)
    requires
        forall|a: T, b: T| combine.requires((a, b)),
    ensures
        forall|f: spec_fn(T, T) -> T|
            computes(*combine, f) ==> r == tree_value(xs@, zero, f),
{
    let mut scratch: Vec<T> = Vec::new();
    tree_sum_into(xs, &mut scratch, zero, combine)
}

/// `tree_sum` reusing a caller-owned scratch buffer, which is
/// overwritten and never read.
pub fn tree_sum_into<T: Copy, F: Fn(T, T) -> T>(
    xs: &[T],
    scratch: &mut Vec<T>,
    zero: T,
    combine: &F,
) -> (r: T)
    requires
        forall|a: T, b: T| combine.requires((a, b)),
    ensures
        forall|f: spec_fn(T, T) -> T|
            computes(*combine, f) ==> r == tree_value(xs@, zero, f),
        xs.len() <= 1 ==> final(scratch)@ == old(scratch)@,
        xs.len() > 1 ==> final(scratch).len() == xs.len(),
{
    if xs.len() == 0 {
        return zero;
    }
    if xs.len() == 1 {
        return xs[0];
    }
    scratch.clear();
    copy_into(xs, scratch);
    reduce_in_place(path_for(Backend::Auto), scratch, zero, combine)
}

/// Append every element of `xs` to the (empty) `out`.
fn copy_into<T: Copy>(xs: &[T], out: &mut Vec<T>)
    requires
        old(out).len() == 0,
    ensures
        final(out)@ == xs@,
{
    let mut i: usize = 0;
    while i < xs.len()
        invariant
            i <= xs.len(),
            out@ == xs@.take(i as int),
        decreases xs.len() - i,
    {
        out.push(xs[i]);
        i += 1;
        assert(out@ =~= xs@.take(i as int));
    }
    assert(xs@.take(xs.len() as int) =~= xs@);
}


/// `q` describes every result the executable operation `op` can return.
pub open spec fn computes_scale<T, D: Fn(T, usize) -> T>(op: D, q: spec_fn(T, usize) -> T) -> bool {
    forall|a: T, n: usize, r: T| #[trigger] op.ensures((a, n), r) ==> r == q(a, n)
}

/// Deterministic mean: `zero` for an empty slice, otherwise the tree
/// sum handed to `per_count` together with the number of elements.
pub fn mean<T: Copy, F: Fn(T, T) -> T, D: Fn(T, usize) -> T>(
    xs: &[T],
    zero: T,
    combine: &F,
    per_count: &D,
) -> (r: T)
    requires
        forall|a: T, b: T| combine.requires((a, b)),
        forall|a: T, n: usize| per_count.requires((a, n)),
    ensures
        xs.len() == 0 ==> r == zero,
        forall|f: spec_fn(T, T) -> T, q: spec_fn(T, usize) -> T|
            computes(*combine, f) && computes_scale(*per_count, q) && xs.len() > 0 ==> r == q(
                tree_value(xs@, zero, f),
                xs.len(),
            ),
{
    let mut scratch: Vec<T> = Vec::new();
    mean_into(xs, &mut scratch, zero, combine, per_count)
}

/// `mean` reusing a caller-owned scratch buffer.
pub fn mean_into<T: Copy, F: Fn(T, T) -> T, D: Fn(T, usize) -> T>(
    xs: &[T],
    scratch: &mut Vec<T>,
    zero: T,
    combine: &F,
    per_count: &D,
) -> (r: T)
    requires
        forall|a: T, b: T| combine.requires((a, b)),
        forall|a: T, n: usize| per_count.requires((a, n)),
    ensures
        xs.len() == 0 ==> r == zero,
        forall|f: spec_fn(T, T) -> T, q: spec_fn(T, usize) -> T|
            computes(*combine, f) && computes_scale(*per_count, q) && xs.len() > 0 ==> r == q(
                tree_value(xs@, zero, f),
                xs.len(),
            ),
        xs.len() <= 1 ==> final(scratch)@ == old(scratch)@,
        xs.len() > 1 ==> final(scratch).len() == xs.len(),
{
    if xs.len() == 0 {
        return zero;
    }
    let total = tree_sum_into(xs, scratch, zero, combine);
    per_count(total, xs.len())
}

/// The first level of a reduction whose leaves are formed on the fly:
/// the leaves `leaf(i)` for `i < n` are combined in pairs as they are
/// formed and appended to the empty `out`, and an odd tail leaf is
/// carried up; the leaves themselves are never stored. The steps take the
/// shape of `path`: one output at a time, two (AArch64: two registers of
/// two lanes, each register's pair added), or four (x86-64: the
/// horizontal add interleaves the two registers, outputs `(k, k + 2,
/// k + 1, k + 3)`, and the lane permutation `(0, 2, 1, 3)` restores index
/// order before they are appended); leftover outputs go one at a time.
/// Returns the leaves the level was built from.
fn first_level_on<T: Copy, E: Fn(usize) -> T, F: Fn(T, T) -> T>(
    path: SimdPath,
    n: usize,
    leaf: &E,
    combine: &F,
    out: &mut Vec<T>,
) -> (leaves: Ghost<Seq<T>>)
    requires
        n >= 2,
        old(out).len() == 0,
        forall|i: usize| i < n ==> leaf.requires((i,)),
        forall|a: T, b: T| combine.requires((a, b)),
    ensures
        leaves@.len() == n,
        final(out).len() == n / 2 + n % 2,
        forall|i: int| 0 <= i < n ==> leaf.ensures((i as usize,), #[trigger] leaves@[i]),
        forall|f: spec_fn(T, T) -> T| computes(*combine, f) ==> final(out)@ == level(leaves@, f),
{
    let half = n / 2;
    let ghost mut ls: Seq<T> = Seq::empty();
    let mut k: usize = 0;
    match path {
        SimdPath::Scalar => {},
        SimdPath::Neon => {
            while k + 2 <= half
                invariant
                    half == n / 2,
                    k <= half,
                    out.len() == k,
                    ls.len() == 2 * k,
                    forall|i: usize| i < n ==> leaf.requires((i,)),
                    forall|a: T, b: T| combine.requires((a, b)),
                    forall|i: int| 0 <= i < 2 * k ==> leaf.ensures((i as usize,), #[trigger] ls[i]),
                    forall|j: int|
                        0 <= j < k ==> combine.ensures((ls[2 * j], ls[2 * j + 1]), #[trigger] out@[j]),
                decreases half - k,
            {
                let v0 = (leaf(2 * k), leaf(2 * k + 1));
                let v1 = (leaf(2 * k + 2), leaf(2 * k + 3));
                let lo = combine(v0.0, v0.1);
                let hi = combine(v1.0, v1.1);
                out.push(lo);
                out.push(hi);
                proof {
                    ls = ls.push(v0.0).push(v0.1).push(v1.0).push(v1.1);
                    assert(combine.ensures((ls[2 * k], ls[2 * k + 1]), out@[k as int]));
                    assert(combine.ensures((ls[2 * (k + 1)], ls[2 * (k + 1) + 1]), out@[k + 1]));
                }
                k += 2;
            }
        },
        SimdPath::Avx2 => {
            while k + 4 <= half
                invariant
                    half == n / 2,
                    k <= half,
                    out.len() == k,
                    ls.len() == 2 * k,
                    forall|i: usize| i < n ==> leaf.requires((i,)),
                    forall|a: T, b: T| combine.requires((a, b)),
                    forall|i: int| 0 <= i < 2 * k ==> leaf.ensures((i as usize,), #[trigger] ls[i]),
                    forall|j: int|
                        0 <= j < k ==> combine.ensures((ls[2 * j], ls[2 * j + 1]), #[trigger] out@[j]),
                decreases half - k,
            {
                let a = (leaf(2 * k), leaf(2 * k + 1), leaf(2 * k + 2), leaf(2 * k + 3));
                let b = (leaf(2 * k + 4), leaf(2 * k + 5), leaf(2 * k + 6), leaf(2 * k + 7));
                let h = (combine(a.0, a.1), combine(b.0, b.1), combine(a.2, a.3), combine(b.2, b.3));
                let perm = (h.0, h.2, h.1, h.3);
                out.push(perm.0);
                out.push(perm.1);
                out.push(perm.2);
                out.push(perm.3);
                proof {
                    ls = ls.push(a.0).push(a.1).push(a.2).push(a.3).push(b.0).push(b.1).push(b.2).push(
                        b.3,
                    );
                    assert(combine.ensures((ls[2 * k], ls[2 * k + 1]), out@[k as int]));
                    assert(combine.ensures((ls[2 * (k + 1)], ls[2 * (k + 1) + 1]), out@[k + 1]));
                    assert(combine.ensures((ls[2 * (k + 2)], ls[2 * (k + 2) + 1]), out@[k + 2]));
                    assert(combine.ensures((ls[2 * (k + 3)], ls[2 * (k + 3) + 1]), out@[k + 3]));
                }
                k += 4;
            }
        },
    }
    while k < half
        invariant
            half == n / 2,
            k <= half,
            out.len() == k,
            ls.len() == 2 * k,
            forall|i: usize| i < n ==> leaf.requires((i,)),
            forall|a: T, b: T| combine.requires((a, b)),
            forall|i: int| 0 <= i < 2 * k ==> leaf.ensures((i as usize,), #[trigger] ls[i]),
            forall|j: int|
                0 <= j < k ==> combine.ensures((ls[2 * j], ls[2 * j + 1]), #[trigger] out@[j]),
        decreases half - k,
    {
        let x = leaf(2 * k);
        let y = leaf(2 * k + 1);
        let v = combine(x, y);
        out.push(v);
        proof {
            ls = ls.push(x).push(y);
            assert(combine.ensures((ls[2 * k], ls[2 * k + 1]), out@[k as int]));
        }
        k += 1;
    }
    if n % 2 == 1 {
        let d = leaf(n - 1);
        out.push(d);
        proof {
            ls = ls.push(d);
        }
    }
    assert forall|f: spec_fn(T, T) -> T| computes(*combine, f) implies out@ == level(ls, f) by {
        assert forall|j: int| 0 <= j < out@.len() implies out@[j] == level(ls, f)[j] by {
            if j < half {
                assert(combine.ensures((ls[2 * j], ls[2 * j + 1]), out@[j]));
            }
        }
        assert(out@ =~= level(ls, f));
    }
    Ghost(ls)
}

/// Deterministic sum of `sq_dev(x, m)` over `xs`, under the same tree
/// shape: the squared deviations of a pair are formed inside the first
/// level, so the intermediate sequence of squares is never stored.
pub fn sum_sq_dev<T: Copy, G: Fn(T, T) -> T, F: Fn(T, T) -> T>(
    xs: &[T],
    m: T,
    zero: T,
    sq_dev: &G,
    combine: &F,
) -> (r: T)
    requires
        forall|a: T, b: T| combine.requires((a, b)),
        forall|x: T, c: T| sq_dev.requires((x, c)),
    ensures
        forall|f: spec_fn(T, T) -> T, g: spec_fn(T, T) -> T|
            computes(*combine, f) && computes(*sq_dev, g) ==> r == tree_value(
                map_with(xs@, m, g),
                zero,
                f,
            ),
{
    let mut scratch: Vec<T> = Vec::new();
    sum_sq_dev_into(xs, m, &mut scratch, zero, sq_dev, combine)
}

/// `sum_sq_dev` reusing a caller-owned scratch buffer.
pub fn sum_sq_dev_into<T: Copy, G: Fn(T, T) -> T, F: Fn(T, T) -> T>(
    xs: &[T],
    m: T,
    scratch: &mut Vec<T>,
    zero: T,
    sq_dev: &G,
    combine: &F,
) -> (r: T)
    requires
        forall|a: T, b: T| combine.requires((a, b)),
        forall|x: T, c: T| sq_dev.requires((x, c)),
    ensures
        forall|f: spec_fn(T, T) -> T, g: spec_fn(T, T) -> T|
            computes(*combine, f) && computes(*sq_dev, g) ==> r == tree_value(
                map_with(xs@, m, g),
                zero,
                f,
            ),
        xs.len() <= 1 ==> final(scratch)@ == old(scratch)@,
        xs.len() > 1 ==> final(scratch).len() == xs.len() / 2 + xs.len() % 2,
{
    sum_sq_dev_on(path_for(Backend::Auto), xs, m, scratch, zero, sq_dev, combine)
}

/// `sum_sq_dev_into` on an explicitly chosen vector path.
pub(crate) fn sum_sq_dev_on<T: Copy, G: Fn(T, T) -> T, F: Fn(T, T) -> T>(
    path: SimdPath,
    xs: &[T],
    m: T,
    scratch: &mut Vec<T>,
    zero: T,
    sq_dev: &G,
    combine: &F,
) -> (r: T)
    requires
        forall|a: T, b: T| combine.requires((a, b)),
        forall|x: T, c: T| sq_dev.requires((x, c)),
    ensures
        forall|f: spec_fn(T, T) -> T, g: spec_fn(T, T) -> T|
            computes(*combine, f) && computes(*sq_dev, g) ==> r == tree_value(
                map_with(xs@, m, g),
                zero,
                f,
            ),
        xs.len() <= 1 ==> final(scratch)@ == old(scratch)@,
        xs.len() > 1 ==> final(scratch).len() == xs.len() / 2 + xs.len() % 2,
{
    let n = xs.len();
    if n == 0 {
        proof {
            assert forall|f: spec_fn(T, T) -> T, g: spec_fn(T, T) -> T|
                computes(*combine, f) && computes(*sq_dev, g) implies zero == tree_value(
                map_with(xs@, m, g),
                zero,
                f,
            ) by {}
        }
        return zero;
    }
    if n == 1 {
        let d = sq_dev(xs[0], m);
        proof {
            assert forall|f: spec_fn(T, T) -> T, g: spec_fn(T, T) -> T|
                computes(*combine, f) && computes(*sq_dev, g) implies d == tree_value(
                map_with(xs@, m, g),
                zero,
                f,
            ) by {
                assert(sq_dev.ensures((xs@[0], m), d));
            }
        }
        return d;
    }
    scratch.clear();
    let sq = |i: usize| -> (d: T)
        requires
            i < xs.len(),
        ensures
            sq_dev.ensures((xs@[i as int], m), d),
        { sq_dev(xs[i], m) };
    let leaves = first_level_on(path, n, &sq, combine, scratch);
    let ghost sqs = leaves@;
    let r = reduce_in_place(path, scratch, zero, combine);
    proof {
        assert forall|f: spec_fn(T, T) -> T, g: spec_fn(T, T) -> T|
            computes(*combine, f) && computes(*sq_dev, g) implies r == tree_value(
            map_with(xs@, m, g),
            zero,
            f,
        ) by {
            let mapped = map_with(xs@, m, g);
            assert forall|i: int| 0 <= i < n implies sqs[i] == mapped[i] by {
                assert(sq.ensures((i as usize,), sqs[i]));
                assert(sq_dev.ensures((xs@[i], m), sqs[i]));
            }
            assert(sqs =~= mapped);
        }
    }
    r
}

/// Deterministic inner product under the same tree shape: the products
/// of a pair are formed inside the first level.
pub fn dot<T: Copy, H: Fn(T, T) -> T, F: Fn(T, T) -> T>(
    a: &[T],
    b: &[T],
    zero: T,
    times: &H,
    combine: &F,
) -> (r: T)
    requires
        a.len() == b.len(),
        forall|x: T, y: T| combine.requires((x, y)),
        forall|x: T, y: T| times.requires((x, y)),
    ensures
        forall|f: spec_fn(T, T) -> T, h: spec_fn(T, T) -> T|
            computes(*combine, f) && computes(*times, h) ==> r == tree_value(
                zip_with(a@, b@, h),
                zero,
                f,
            ),
{
    dot_on(path_for(Backend::Auto), a, b, zero, times, combine)
}

/// `dot` on an explicitly chosen vector path.
pub(crate) fn dot_on<T: Copy, H: Fn(T, T) -> T, F: Fn(T, T) -> T>(
    path: SimdPath,
    a: &[T],
    b: &[T],
    zero: T,
    times: &H,
    combine: &F,
) -> (r: T)
    requires
        a.len() == b.len(),
        forall|x: T, y: T| combine.requires((x, y)),
        forall|x: T, y: T| times.requires((x, y)),
    ensures
        forall|f: spec_fn(T, T) -> T, h: spec_fn(T, T) -> T|
            computes(*combine, f) && computes(*times, h) ==> r == tree_value(
                zip_with(a@, b@, h),
                zero,
                f,
            ),
{
    let n = a.len();
    if n == 0 {
        return zero;
    }
    if n == 1 {
        let p = times(a[0], b[0]);
        proof {
            assert forall|f: spec_fn(T, T) -> T, h: spec_fn(T, T) -> T|
                computes(*combine, f) && computes(*times, h) implies p == tree_value(
                zip_with(a@, b@, h),
                zero,
                f,
            ) by {
                assert(times.ensures((a@[0], b@[0]), p));
            }
        }
        return p;
    }
    let mut scratch: Vec<T> = Vec::new();
    let prod = |i: usize| -> (p: T)
        requires
            i < a.len(),
            i < b.len(),
        ensures
            times.ensures((a@[i as int], b@[i as int]), p),
        { times(a[i], b[i]) };
    let leaves = first_level_on(path, n, &prod, combine, &mut scratch);
    let ghost prods = leaves@;
    let r = reduce_in_place(path, &mut scratch, zero, combine);
    proof {
        assert forall|f: spec_fn(T, T) -> T, h: spec_fn(T, T) -> T|
            computes(*combine, f) && computes(*times, h) implies r == tree_value(
            zip_with(a@, b@, h),
            zero,
            f,
        ) by {
            let zipped = zip_with(a@, b@, h);
            assert forall|i: int| 0 <= i < n implies prods[i] == zipped[i] by {
                assert(prod.ensures((i as usize,), prods[i]));
                assert(times.ensures((a@[i], b@[i]), prods[i]));
            }
            assert(prods =~= zipped);
        }
    }
    r
}


/// `f` is associative.
pub open spec fn associative<T>(f: spec_fn(T, T) -> T) -> bool {
    forall|a: T, b: T, c: T| #[trigger] f(f(a, b), c) == f(a, #[trigger] f(b, c))
}

/// Left-to-right sequential combination of a non-empty sequence.
pub open spec fn fold_sequential<T>(s: Seq<T>, f: spec_fn(T, T) -> T) -> T
    decreases s.len(),
{
    if s.len() <= 1 {
        s[0]
    } else {
        f(fold_sequential(s.drop_last(), f), s.last())
    }
}

proof fn lemma_level_preserves_fold<T>(s: Seq<T>, f: spec_fn(T, T) -> T)
    requires
        s.len() >= 2,
        associative(f),
    ensures
        fold_sequential(level(s, f), f) == fold_sequential(s, f),
    decreases s.len(),
{
    let n = s.len();
    let lv = level(s, f);
    if n == 2 {
        assert(lv.len() == 1);
        assert(s.drop_last().len() == 1);
        assert(fold_sequential(s.drop_last(), f) == s[0]);
        assert(fold_sequential(lv, f) == lv[0]);
    } else if n % 2 == 1 {
        let t = s.drop_last();
        lemma_level_preserves_fold(t, f);
        assert(lv.drop_last() =~= level(t, f));
        assert(lv.last() == s.last());
        assert(fold_sequential(lv, f) == f(fold_sequential(lv.drop_last(), f), lv.last()));
    } else {
        let t = s.take(n - 2);
        lemma_level_preserves_fold(t, f);
        let a = s[n - 2];
        let b = s[n - 1];
        assert(lv.drop_last() =~= level(t, f));
        assert(lv.last() == f(a, b));
        assert(fold_sequential(lv, f) == f(fold_sequential(lv.drop_last(), f), lv.last()));
        let u = s.drop_last();
        assert(u.drop_last() =~= t);
        assert(u.last() == a);
        assert(fold_sequential(u, f) == f(fold_sequential(u.drop_last(), f), u.last()));
        assert(fold_sequential(s, f) == f(fold_sequential(u, f), b));
        assert(f(f(fold_sequential(t, f), a), b) == f(fold_sequential(t, f), f(a, b)));
    }
}

proof fn lemma_tree_reduce_is_fold<T>(s: Seq<T>, f: spec_fn(T, T) -> T)
    requires
        s.len() >= 1,
        associative(f),
    ensures
        tree_reduce(s, f) == fold_sequential(s, f),
    decreases s.len(),
{
    if s.len() >= 2 {
        lemma_tree_reduce_is_fold(level(s, f), f);
        lemma_level_preserves_fold(s, f);
    }
}

/// For an associative combining operation the tree shape is invisible:
/// the reduction equals the plain left-to-right combination. This is
/// why an integer count (a sum of zeros and ones) comes out the same
/// whichever grouping produced it.
pub proof fn law_tree_value_of_associative_is_sequential<T>(
    s: Seq<T>,
    zero: T,
    f: spec_fn(T, T) -> T,
)
    requires
        s.len() >= 1,
        associative(f),
    ensures
        tree_value(s, zero, f) == fold_sequential(s, f),
{
    lemma_tree_reduce_is_fold(s, f);
}


/// `f` is commutative.
pub open spec fn commutative<T>(f: spec_fn(T, T) -> T) -> bool {
    forall|a: T, b: T| #[trigger] f(a, b) == f(b, a)
}

proof fn lemma_fold_extract<T>(s: Seq<T>, j: int, f: spec_fn(T, T) -> T)
    requires
        s.len() >= 2,
        0 <= j < s.len(),
        associative(f),
        commutative(f),
    ensures
        fold_sequential(s, f) == f(fold_sequential(s.remove(j), f), s[j]),
    decreases s.len(),
{
    let n = s.len();
    if j == n - 1 {
        assert(s.remove(j) =~= s.drop_last());
    } else if n == 2 {
        assert(s.remove(0) =~= seq![s[1]]);
        assert(s.drop_last() =~= seq![s[0]]);
        assert(fold_sequential(s.drop_last(), f) == s[0]);
        assert(fold_sequential(s.remove(0), f) == s[1]);
        assert(f(s[0], s[1]) == f(s[1], s[0]));
    } else {
        let t = s.drop_last();
        lemma_fold_extract(t, j, f);
        let a = fold_sequential(t.remove(j), f);
        let r = s.remove(j);
        assert(r.drop_last() =~= t.remove(j));
        assert(r.last() == s.last());
        assert(t[j] == s[j]);
        assert(fold_sequential(r, f) == f(fold_sequential(r.drop_last(), f), r.last()));
        assert(f(f(a, s[j]), s.last()) == f(a, f(s[j], s.last())));
        assert(f(s[j], s.last()) == f(s.last(), s[j]));
        assert(f(a, f(s.last(), s[j])) == f(f(a, s.last()), s[j]));
    }
}

proof fn lemma_fold_permutation<T>(s1: Seq<T>, s2: Seq<T>, f: spec_fn(T, T) -> T)
    requires
        s1.len() >= 1,
        s1.to_multiset() == s2.to_multiset(),
        associative(f),
        commutative(f),
    ensures
        s2.len() == s1.len(),
        fold_sequential(s1, f) == fold_sequential(s2, f),
    decreases s1.len(),
{
    broadcast use vstd::seq_lib::group_to_multiset_ensures;

    assert(s1.len() == s1.to_multiset().len());
    assert(s2.len() == s2.to_multiset().len());
    let x = s1.last();
    assert(s1.contains(x)) by {
        assert(s1[s1.len() - 1] == x);
    }
    assert(s1.to_multiset().count(x) > 0);
    assert(s2.to_multiset().count(x) > 0);
    assert(s2.contains(x));
    let j = choose|j: int| 0 <= j < s2.len() && s2[j] == x;
    if s1.len() == 1 {
        assert(s2[0] == x);
    } else {
        lemma_fold_extract(s2, j, f);
        assert(s1.remove(s1.len() - 1) =~= s1.drop_last());
        assert(s1.drop_last().to_multiset() == s1.to_multiset().remove(x));
        assert(s2.remove(j).to_multiset() == s2.to_multiset().remove(x));
        lemma_fold_permutation(s1.drop_last(), s2.remove(j), f);
    }
}

/// For an associative and commutative combining operation the
/// reduction is a function of the multiset of its inputs: reordering
/// the inputs never changes the value.
pub proof fn law_tree_value_is_order_free<T>(s1: Seq<T>, s2: Seq<T>, zero: T, f: spec_fn(T, T) -> T)
    requires
        s1.to_multiset() == s2.to_multiset(),
        associative(f),
        commutative(f),
    ensures
        tree_value(s1, zero, f) == tree_value(s2, zero, f),
{
    broadcast use vstd::seq_lib::group_to_multiset_ensures;

    assert(s1.len() == s1.to_multiset().len());
    assert(s2.len() == s2.to_multiset().len());
    if s1.len() >= 1 {
        lemma_fold_permutation(s1, s2, f);
        lemma_tree_reduce_is_fold(s1, f);
        lemma_tree_reduce_is_fold(s2, f);
    }
}

} // verus!
