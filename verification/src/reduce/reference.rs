//! Reference forms of the reductions: each level is built into a fresh
//! buffer, and fused first levels are spelled out as a separate map.
use vstd::prelude::*;

use super::{
    computes, dot_on as fused_dot_on, level, map_with, reduce_in_place, sum_sq_dev_on as fused_sum_sq_dev_on,
    tree_reduce, tree_value, zip_with, SimdPath,
};

verus! {

/// The level-by-level reduction that allocates a fresh level each time.
pub fn tree_sum<T: Copy, F: Fn(T, T) -> T>(xs: &[T], zero: T, combine: &F) -> (r: T)
    requires
        forall|a: T, b: T| combine.requires((a, b)),
    ensures
        forall|f: spec_fn(T, T) -> T|
            computes(*combine, f) ==> r == tree_value(xs@, zero, f),
{
    if xs.len() == 0 {
        return zero;
    }
    let mut buf: Vec<T> = Vec::new();
    let mut i: usize = 0;
    while i < xs.len()
        invariant
            i <= xs.len(),
            buf@ == xs@.take(i as int),
        decreases xs.len() - i,
    {
        buf.push(xs[i]);
        i += 1;
        assert(buf@ =~= xs@.take(i as int));
    }
    assert(xs@.take(xs.len() as int) =~= xs@);
    while buf.len() > 1
        invariant
            buf.len() >= 1,
            xs.len() >= 1,
            forall|a: T, b: T| combine.requires((a, b)),
            forall|f: spec_fn(T, T) -> T|
                computes(*combine, f) ==> tree_reduce(buf@, f) == tree_reduce(xs@, f),
        decreases buf.len(),
    {
        let n = buf.len();
        let half = n / 2;
        let mut next: Vec<T> = Vec::new();
        let mut k: usize = 0;
        while k < half
            invariant
                n == buf.len(),
                half == n / 2,
                n >= 2,
                k <= half,
                next.len() == k,
                forall|a: T, b: T| combine.requires((a, b)),
                forall|j: int|
                    0 <= j < k ==> combine.ensures((buf@[2 * j], buf@[2 * j + 1]), #[trigger] next@[j]),
            decreases half - k,
        {
            let v = combine(buf[2 * k], buf[2 * k + 1]);
            next.push(v);
            k += 1;
        }
        if n % 2 == 1 {
            next.push(buf[n - 1]);
        }
        proof {
            assert forall|f: spec_fn(T, T) -> T| computes(*combine, f) implies next@ == level(buf@, f) by {
                assert forall|j: int| 0 <= j < next.len() implies next@[j] == level(buf@, f)[j] by {
                    if j < half {
                        assert(combine.ensures((buf@[2 * j], buf@[2 * j + 1]), next@[j]));
                    }
                }
                assert(next@ =~= level(buf@, f));
            }
        }
        buf = next;
    }
    buf[0]
}

/// The centred second moment with the squares materialised first.
pub fn sum_sq_dev<T: Copy, G: Fn(T, T) -> T, F: Fn(T, T) -> T>(
    xs: &[T],
    m: T,
    zero: T,
    sq_dev: &G,
    combine: &F,
) -> (r: T)
    requires
        forall|a: T, b: T| combine.requires((a, b)),
        forall|x: T, c: T| sq_dev.requires((x, c)),
    ensures
        forall|f: spec_fn(T, T) -> T, g: spec_fn(T, T) -> T|
            computes(*combine, f) && computes(*sq_dev, g) ==> r == tree_value(
                map_with(xs@, m, g),
                zero,
                f,
            ),
{
    let mut centred: Vec<T> = Vec::new();
    let mut i: usize = 0;
    while i < xs.len()
        invariant
            i <= xs.len(),
            centred.len() == i,
            forall|x: T, c: T| sq_dev.requires((x, c)),
            forall|j: int| 0 <= j < i ==> sq_dev.ensures((xs@[j], m), #[trigger] centred@[j]),
        decreases xs.len() - i,
    {
        let d = sq_dev(xs[i], m);
        centred.push(d);
        i += 1;
    }
    let r = tree_sum(centred.as_slice(), zero, combine);
    proof {
        assert forall|f: spec_fn(T, T) -> T, g: spec_fn(T, T) -> T|
            computes(*combine, f) && computes(*sq_dev, g) implies r == tree_value(
            map_with(xs@, m, g),
            zero,
            f,
        ) by {
            assert forall|j: int| 0 <= j < xs.len() implies centred@[j] == map_with(xs@, m, g)[j] by {
                assert(sq_dev.ensures((xs@[j], m), centred@[j]));
            }
            assert(centred@ =~= map_with(xs@, m, g));
        }
    }
    r
}

/// The inner product with the products materialised first.
pub fn dot<T: Copy, H: Fn(T, T) -> T, F: Fn(T, T) -> T>(
    a: &[T],
    b: &[T],
    zero: T,
    times: &H,
    combine: &F,
) -> (r: T)
    requires
        a.len() == b.len(),
        forall|x: T, y: T| combine.requires((x, y)),
        forall|x: T, y: T| times.requires((x, y)),
    ensures
        forall|f: spec_fn(T, T) -> T, h: spec_fn(T, T) -> T|
            computes(*combine, f) && computes(*times, h) ==> r == tree_value(
                zip_with(a@, b@, h),
                zero,
                f,
            ),
{
    let mut prods: Vec<T> = Vec::new();
    let mut i: usize = 0;
    while i < a.len()
        invariant
            i <= a.len(),
            a.len() == b.len(),
            prods.len() == i,
            forall|x: T, y: T| times.requires((x, y)),
            forall|j: int| 0 <= j < i ==> times.ensures((a@[j], b@[j]), #[trigger] prods@[j]),
        decreases a.len() - i,
    {
        let p = times(a[i], b[i]);
        prods.push(p);
        i += 1;
    }
    let r = tree_sum(prods.as_slice(), zero, combine);
    proof {
        assert forall|f: spec_fn(T, T) -> T, h: spec_fn(T, T) -> T|
            computes(*combine, f) && computes(*times, h) implies r == tree_value(
            zip_with(a@, b@, h),
            zero,
            f,
        ) by {
            assert forall|j: int| 0 <= j < a.len() implies prods@[j] == zip_with(a@, b@, h)[j] by {
                assert(times.ensures((a@[j], b@[j]), prods@[j]));
            }
            assert(prods@ =~= zip_with(a@, b@, h));
        }
    }
    r
}

/// The in-place reduction on an explicitly chosen vector path. The
/// result does not depend on the path.
pub fn tree_sum_on<T: Copy, F: Fn(T, T) -> T>(path: SimdPath, xs: &[T], zero: T, combine: &F) -> (r: T)
    requires
        forall|a: T, b: T| combine.requires((a, b)),
    ensures
        forall|f: spec_fn(T, T) -> T|
            computes(*combine, f) ==> r == tree_value(xs@, zero, f),
{
    if xs.len() == 0 {
        return zero;
    }
    let mut buf: Vec<T> = Vec::new();
    let mut i: usize = 0;
    while i < xs.len()
        invariant
            i <= xs.len(),
            buf@ == xs@.take(i as int),
        decreases xs.len() - i,
    {
        buf.push(xs[i]);
        i += 1;
        assert(buf@ =~= xs@.take(i as int));
    }
    assert(xs@.take(xs.len() as int) =~= xs@);
    reduce_in_place(path, &mut buf, zero, combine)
}

/// The fused centred second moment on an explicitly chosen vector path.
pub fn sum_sq_dev_on<T: Copy, G: Fn(T, T) -> T, F: Fn(T, T) -> T>(
    path: SimdPath,
    xs: &[T],
    m: T,
    zero: T,
    sq_dev: &G,
    combine: &F,
) -> (r: T)
    requires
        forall|a: T, b: T| combine.requires((a, b)),
        forall|x: T, c: T| sq_dev.requires((x, c)),
    ensures
        forall|f: spec_fn(T, T) -> T, g: spec_fn(T, T) -> T|
            computes(*combine, f) && computes(*sq_dev, g) ==> r == tree_value(
                map_with(xs@, m, g),
                zero,
                f,
            ),
{
    let mut scratch: Vec<T> = Vec::new();
    fused_sum_sq_dev_on(path, xs, m, &mut scratch, zero, sq_dev, combine)
}

/// The fused inner product on an explicitly chosen vector path.
pub fn dot_on<T: Copy, H: Fn(T, T) -> T, F: Fn(T, T) -> T>(
    path: SimdPath,
    a: &[T],
    b: &[T],
    zero: T,
    times: &H,
    combine: &F,
) -> (r: T)
    requires
        a.len() == b.len(),
        forall|x: T, y: T| combine.requires((x, y)),
        forall|x: T, y: T| times.requires((x, y)),
    ensures
        forall|f: spec_fn(T, T) -> T, h: spec_fn(T, T) -> T|
            computes(*combine, f) && computes(*times, h) ==> r == tree_value(
                zip_with(a@, b@, h),
                zero,
                f,
            ),
{
    fused_dot_on(path, a, b, zero, times, combine)
}

/// Every vector path this build can execute: always `Scalar` first,
/// then the active path when it differs.
pub fn available_paths() -> (v: Vec<SimdPath>)
    ensures
        super::active_backend_spec() == SimdPath::Scalar ==> v@ == seq![SimdPath::Scalar],
        super::active_backend_spec() != SimdPath::Scalar ==> v@ == seq![
            SimdPath::Scalar,
            super::active_backend_spec(),
        ],
{
    let mut v: Vec<SimdPath> = Vec::new();
    v.push(SimdPath::Scalar);
    let active = super::active_backend();
    if active != SimdPath::Scalar {
        v.push(active);
    }
    v
}

/// The three lane shapes of a reduction level, scalar first. They are
/// portable loops, so each can be run on any target through the `_on`
/// forms, whichever path is active.
pub fn lane_shapes() -> (v: Vec<SimdPath>)
    ensures
        v@ == seq![SimdPath::Scalar, SimdPath::Neon, SimdPath::Avx2],
{
    let mut v: Vec<SimdPath> = Vec::new();
    v.push(SimdPath::Scalar);
    v.push(SimdPath::Neon);
    v.push(SimdPath::Avx2);
    v
}

} // verus!
