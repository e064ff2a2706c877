//! The square dispatch grid that the agent population is laid out on.
use vstd::prelude::*;

verus! {

/// The agent count asked for when nothing else is given.
pub const APPROXIMATE_NUM_AGENTS: u32 = 600000;

/// The largest side whose square still fits in a `u32`.
pub const MAX_SIDE: u32 = 65535;

/// The largest target whose square grid still counts its agents in a `u32`.
pub const MAX_TARGET: u32 = 4294836225;

/// `side` is the ceiling of the square root of `target`: the least
/// number whose square reaches `target`.
pub open spec fn is_ceil_sqrt(target: nat, side: nat) -> bool {
    &&& side * side >= target
    &&& (side == 0 || (side - 1) * (side - 1) < target)
}

/// The side of the square grid for `target` agents and the number of agents
/// it holds: `side = ceil(sqrt(target))` and `count = side * side`, so the
/// count may exceed the target but never falls short of it.
pub fn square_grid_for(target: u32) -> (r: (u32, u32))
    requires
        target <= MAX_TARGET,
    ensures
        is_ceil_sqrt(target as nat, r.0 as nat),
        r.1 as nat == r.0 as nat * r.0 as nat,
        r.0 <= MAX_SIDE,
{
    let t: u64 = target as u64;
    let mut lo: u64 = 0;
    let mut hi: u64 = MAX_SIDE as u64;
    assert(hi * hi >= t) by (nonlinear_arith)
        requires hi == 65535, t <= 4294836225;
    while lo < hi
        invariant
            lo <= hi <= 65535,
            t == target as u64,
            t <= 4294836225,
            hi * hi >= t,
            lo == 0 || (lo - 1) * (lo - 1) < t,
        decreases hi - lo,
    {
        let mid: u64 = lo + (hi - lo) / 2;
        assert(mid * mid <= 65535 * 65535) by (nonlinear_arith)
            requires mid <= 65535;
        if mid * mid >= t {
            hi = mid;
        } else {
            lo = mid + 1;
        }
    }
    let side: u32 = hi as u32;
    assert(hi * hi <= 65535 * 65535) by (nonlinear_arith)
        requires hi <= 65535;
    let count: u32 = (hi * hi) as u32;
    (side, count)
}

} // verus!
