//! Device work planning: how a dispatch covers its invocations, and the
//! level-by-level schedule of the device reduction, whose ping-pong
//! between two scratch buffers keeps any invocation from reading a slot
//! another has overwritten.
use vstd::arithmetic::div_mod::lemma_fundamental_div_mod;
use vstd::prelude::*;

verus! {

/// Invocations per workgroup.
pub const WORKGROUP: u32 = 64;

/// Maximum workgroups along the x axis of a dispatch; the rest is
/// folded into the y axis.
pub const MAX_GRID_X: u32 = 32768;

/// Workgroups needed for `threads` invocations, at least one.
pub open spec fn spec_workgroups(threads: int) -> int {
    let wg = (threads + 63) / 64;
    if wg == 0 {
        1
    } else {
        wg
    }
}

/// The `(x, y)` workgroup grid of a dispatch of `threads` invocations.
pub open spec fn spec_grid(threads: int) -> (int, int) {
    let wg = spec_workgroups(threads as int);
    let x = if wg < MAX_GRID_X {
        wg
    } else {
        MAX_GRID_X as int
    };
    (x, (wg + x - 1) / x)
}

/// `true` when a compute device could be acquired. This library carries
/// no device backend, so none ever can.
pub fn available() -> (b: bool)
    ensures
        !b,
{
    false
}

/// Workgroup grid covering `threads` invocations: as many workgroups as
/// the invocations need (at least one), at most `MAX_GRID_X` along x,
/// and just enough rows along y. The shaders drop the overshoot with a
/// bounds check.
pub fn grid(threads: u32) -> (g: (u32, u32))
    ensures
        g.0 == spec_grid(threads as int).0,
        g.1 == spec_grid(threads as int).1,
        1 <= g.0 <= MAX_GRID_X,
        g.1 >= 1,
        g.0 as int * g.1 as int >= spec_workgroups(threads as int),
        (g.1 as int - 1) * g.0 < spec_workgroups(threads as int),
        g.0 as int * g.1 as int * WORKGROUP >= threads,
{
    let mut wg: u32 = threads / 64;
    if threads % 64 != 0 {
        wg = wg + 1;
    }
    if wg == 0 {
        wg = 1;
    }
    assert(wg == spec_workgroups(threads as int));
    let x: u32 = if wg < MAX_GRID_X {
        wg
    } else {
        MAX_GRID_X
    };
    let mut y: u32 = wg / x;
    if wg % x != 0 {
        y = y + 1;
    }
    proof {
        let w: int = wg as int;
        let xi: int = x as int;
        let yi: int = y as int;
        let t: int = threads as int;
        let q: int = w / xi;
        let r: int = w % xi;
        lemma_fundamental_div_mod(w, xi);
        assert(0 <= r < xi);
        assert(yi == q + (if r != 0 { 1int } else { 0int }));
        assert((w + xi - 1) / xi == yi) by {
            lemma_fundamental_div_mod(w + xi - 1, xi);
            assert(w + xi - 1 == xi * q + (r + xi - 1));
            if r == 0 {
                assert(w + xi - 1 == xi * q + (xi - 1));
                vstd::arithmetic::div_mod::lemma_fundamental_div_mod_converse(w + xi - 1, xi, q, xi - 1);
            } else {
                assert(w + xi - 1 == xi * (q + 1) + (r - 1));
                vstd::arithmetic::div_mod::lemma_fundamental_div_mod_converse(w + xi - 1, xi, q + 1, r - 1);
            }
        }
        assert(xi * yi >= w) by (nonlinear_arith)
            requires
                xi >= 1,
                w == xi * q + r,
                0 <= r < xi,
                yi == q + (if r != 0 { 1int } else { 0int }),
        ;
        assert((yi - 1) * xi < w) by (nonlinear_arith)
            requires
                xi >= 1,
                w >= 1,
                w == xi * q + r,
                0 <= r < xi,
                yi == q + (if r != 0 { 1int } else { 0int }),
        ;
        assert(xi * yi * 64 >= t) by (nonlinear_arith)
            requires
                xi * yi >= w,
                w * 64 >= t,
        ;
    }
    (x, y)
}

/// Which buffer a reduction level reads or writes.
#[derive(Debug, Clone, Copy, PartialEq, Eq, Structural)]
pub enum Slot {
    /// The ensemble itself, never written.
    Source,
    /// The first scratch buffer.
    ScratchA,
    /// The second scratch buffer.
    ScratchB,
}

/// One dispatch of the device reduction.
#[derive(Debug, Clone, Copy, PartialEq, Eq, Structural)]
pub struct ReduceLevel {
    /// Live length of every column before this level.
    pub len: u32,
    /// Live length after it: `len / 2` pairs plus an odd tail.
    pub out_len: u32,
    /// Workgroup grid along x.
    pub grid_x: u32,
    /// Workgroup grid along y.
    pub grid_y: u32,
    /// `1` centres and squares in this level, `0` plainly sums.
    pub mode: u32,
    /// Buffer this level reads.
    pub read: Slot,
    /// Buffer this level writes.
    pub write: Slot,
}

/// Live column length before level `l` of a reduction of length `n`.
pub open spec fn level_len(n: int, l: nat) -> int
    decreases l,
{
    if l == 0 {
        n
    } else {
        let p = level_len(n, (l - 1) as nat);
        p / 2 + p % 2
    }
}

/// Number of levels that reduce `len` to one value.
pub open spec fn level_count(len: int) -> nat
    decreases len,
{
    if len <= 1 {
        0
    } else {
        1 + level_count(len / 2 + len % 2)
    }
}

/// Scratch buffer written by level `l`: the two alternate.
pub open spec fn write_slot(l: int) -> Slot {
    if l % 2 == 0 {
        Slot::ScratchA
    } else {
        Slot::ScratchB
    }
}

/// Buffer read by level `l`: the ensemble first, then what the level
/// before wrote.
pub open spec fn read_slot(l: int) -> Slot {
    if l == 0 {
        Slot::Source
    } else {
        write_slot(l - 1)
    }
}

/// Buffer holding the column totals after `levels` levels.
pub open spec fn final_slot(levels: int) -> Slot {
    if levels == 0 {
        Slot::Source
    } else {
        write_slot(levels - 1)
    }
}

proof fn lemma_level_count_step(len: int)
    requires
        len > 1,
    ensures
        level_count(len) == 1 + level_count(len / 2 + len % 2),
{
}

proof fn lemma_level_count_le(len: int)
    requires
        len >= 1,
    ensures
        level_count(len) <= len,
    decreases len,
{
    if len > 1 {
        lemma_level_count_le(len / 2 + len % 2);
    }
}

proof fn lemma_levels_shrink(n: int, l: nat)
    requires
        n >= 1,
    ensures
        1 <= level_len(n, l) <= n,
    decreases l,
{
    if l > 0 {
        lemma_levels_shrink(n, (l - 1) as nat);
    }
}

/// The dispatch schedule of the device reduction of `d` columns of `n`
/// values each, `mode` applying to the first level only. Level `l`
/// reads `read_slot(l)` and writes `write_slot(l)`; after the last one
/// the totals sit in `final_slot(levels)`.
pub fn reduce_plan(n: u32, d: u32, mode: u32) -> (plan: Vec<ReduceLevel>)
    requires
        n >= 1,
        n as int * d as int <= u32::MAX,
    ensures
        plan@.len() == level_count(n as int),
        forall|l: int|
            #![trigger plan@[l]]
            0 <= l < plan@.len() ==> {
                &&& plan@[l].len == level_len(n as int, l as nat)
                &&& plan@[l].len > 1
                &&& plan@[l].out_len == level_len(n as int, (l + 1) as nat)
                &&& plan@[l].grid_x == spec_grid(plan@[l].out_len as int * d as int).0
                &&& plan@[l].grid_y == spec_grid(plan@[l].out_len as int * d as int).1
                &&& plan@[l].mode == (if l == 0 {
                    mode
                } else {
                    0
                })
                &&& plan@[l].read == read_slot(l)
                &&& plan@[l].write == write_slot(l)
            },
        level_len(n as int, level_count(n as int)) == 1,
{
    let mut plan: Vec<ReduceLevel> = Vec::new();
    let mut len: u32 = n;
    let mut level: usize = 0;
    proof {
        lemma_levels_shrink(n as int, 0);
        lemma_level_count_le(n as int);
    }
    while len > 1
        invariant
            n >= 1,
            n as int * d as int <= u32::MAX,
            plan@.len() == level,
            len == level_len(n as int, level as nat),
            1 <= len <= n,
            level + level_count(len as int) == level_count(n as int),
            level_count(n as int) <= n,
            forall|l: int|
                #![trigger plan@[l]]
                0 <= l < plan@.len() ==> {
                    &&& plan@[l].len == level_len(n as int, l as nat)
                    &&& plan@[l].len > 1
                    &&& plan@[l].out_len == level_len(n as int, (l + 1) as nat)
                    &&& plan@[l].grid_x == spec_grid(plan@[l].out_len as int * d as int).0
                    &&& plan@[l].grid_y == spec_grid(plan@[l].out_len as int * d as int).1
                    &&& plan@[l].mode == (if l == 0 {
                        mode
                    } else {
                        0
                    })
                    &&& plan@[l].read == read_slot(l)
                    &&& plan@[l].write == write_slot(l)
                },
        decreases len,
    {
        let out_len = len / 2 + (len % 2);
        proof {
            lemma_levels_shrink(n as int, (level + 1) as nat);
            lemma_level_count_step(len as int);
            assert(out_len as int * d as int <= n as int * d as int) by (nonlinear_arith)
                requires
                    out_len <= n,
            ;
        }
        let threads: u32 = out_len * d;
        let (gx, gy) = grid(threads);
        let read = if level == 0 {
            Slot::Source
        } else if (level - 1) % 2 == 0 {
            Slot::ScratchA
        } else {
            Slot::ScratchB
        };
        let write = if level % 2 == 0 {
            Slot::ScratchA
        } else {
            Slot::ScratchB
        };
        let step_mode = if level == 0 {
            mode
        } else {
            0
        };
        plan.push(
            ReduceLevel { len, out_len, grid_x: gx, grid_y: gy, mode: step_mode, read, write },
        );
        len = out_len;
        level = level + 1;
    }
    plan
}

/// No level of the reduction reads the buffer it writes, and every level
/// after the first reads exactly what the one before it wrote.
pub proof fn law_reduce_plan_ping_pongs(l: int)
    requires
        0 <= l,
    ensures
        read_slot(l) != write_slot(l),
        l > 0 ==> read_slot(l) == write_slot(l - 1),
        write_slot(l) != Slot::Source,
{
}

} // verus!
