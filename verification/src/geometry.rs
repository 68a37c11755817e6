//! Fixed-point planar and spatial geometry: integer vectors, squared
//! distances, an exact integer square root, and the scaled division used to
//! move an entity a given step length along a direction vector.

use vstd::arithmetic::div_mod::lemma_div_is_ordered;
use vstd::arithmetic::div_mod::lemma_div_multiples_vanish;
use vstd::arithmetic::mul::lemma_mul_inequality;
use vstd::prelude::*;

verus! {

/// Largest magnitude allowed for a coordinate of a target, a tower or a
/// waypoint, in milli-units. Keeps every squared distance within `i64`.
pub const COORD_LIMIT: i64 = 800_000_000;

/// Largest magnitude allowed for a coordinate of a tower's bullet-spawn
/// offset, in milli-units.
pub const OFFSET_LIMIT: i64 = 1_000_000;

/// Largest magnitude a bullet direction coordinate can have: the difference
/// of two in-range positions, one of them shifted by a spawn offset.
pub const DIR_LIMIT: i64 = 1_601_000_000;

/// Bullet positions saturate at this magnitude so that one more step can
/// never overflow an `i64` coordinate.
pub const POS_LIMIT: i64 = 1_000_000_000_000_000_000;

/// Step lengths saturate here. Any step this long crosses the whole
/// playing field, so the saturation never changes observable behaviour.
pub const STEP_CAP: u64 = 4_000_000_000;

/// A planar point or direction on the ground plane, in milli-units.
/// The two axes are the X and Z axes of the corresponding spatial value;
/// movement along the path is planar while the Y (up) axis stays fixed.
#[derive(Clone, Copy, Debug, PartialEq, Eq, Structural)]
pub struct IVec2 {
    pub x: i64,
    pub z: i64,
}

/// A spatial point or direction, in milli-units. Y is the up axis.
#[derive(Clone, Copy, Debug, PartialEq, Eq, Structural)]
pub struct IVec3 {
    pub x: i64,
    pub y: i64,
    pub z: i64,
}

pub open spec fn coord_ok(c: i64) -> bool {
    -COORD_LIMIT <= c <= COORD_LIMIT
}

pub open spec fn vec2_ok(v: IVec2) -> bool {
    coord_ok(v.x) && coord_ok(v.z)
}

pub open spec fn vec3_ok(v: IVec3) -> bool {
    coord_ok(v.x) && coord_ok(v.y) && coord_ok(v.z)
}

/// Squared planar distance from the X/Z footprint of `p` to the waypoint `w`.
pub open spec fn planar_dist_sq(p: IVec3, w: IVec2) -> int {
    (w.x - p.x) * (w.x - p.x) + (w.z - p.z) * (w.z - p.z)
}

/// Squared spatial distance between two points.
pub open spec fn dist_sq(a: IVec3, b: IVec3) -> int {
    (b.x - a.x) * (b.x - a.x) + (b.y - a.y) * (b.y - a.y) + (b.z - a.z) * (b.z - a.z)
}

/// The floor of the square root of `n`.
pub open spec fn sqrt_floor(n: nat) -> nat
    decreases n,
{
    if n == 0 {
        0
    } else {
        let r = sqrt_floor((n - 1) as nat);
        if (r + 1) * (r + 1) <= n {
            r + 1
        } else {
            r
        }
    }
}

/// `sqrt_floor(n)` is the unique `r` with `r * r <= n < (r + 1) * (r + 1)`.
pub proof fn lemma_sqrt_floor_bounds(n: nat)
    ensures
        sqrt_floor(n) * sqrt_floor(n) <= n,
        n < (sqrt_floor(n) + 1) * (sqrt_floor(n) + 1),
    decreases n,
{
    if n == 0 {
        assert(sqrt_floor(0) == 0);
        assert((sqrt_floor(0) + 1) * (sqrt_floor(0) + 1) == 1) by (nonlinear_arith);
    } else {
        lemma_sqrt_floor_bounds((n - 1) as nat);
        let r = sqrt_floor((n - 1) as nat);
        assert(((n - 1) as nat) < (r + 1) * (r + 1));
        if (r + 1) * (r + 1) <= n {
            assert(sqrt_floor(n) == r + 1);
            assert(n <= (r + 1) * (r + 1));
            assert((r + 1) * (r + 1) < (r + 2) * (r + 2)) by (nonlinear_arith);
            assert(n < (sqrt_floor(n) + 1) * (sqrt_floor(n) + 1));
        } else {
            assert(sqrt_floor(n) == r);
        }
    }
}

pub proof fn lemma_sqrt_floor_unique(n: nat, r: nat)
    requires
        r * r <= n,
        n < (r + 1) * (r + 1),
    ensures
        r == sqrt_floor(n),
{
    lemma_sqrt_floor_bounds(n);
    let s = sqrt_floor(n);
    if r < s {
        assert((r + 1) * (r + 1) <= s * s) by (nonlinear_arith)
            requires
                r + 1 <= s,
        ;
    }
    if s < r {
        assert((s + 1) * (s + 1) <= r * r) by (nonlinear_arith)
            requires
                s + 1 <= r,
        ;
    }
}

/// Exact integer square root by binary search.
pub fn isqrt(n: u64) -> (r: u64)
    ensures
        r as nat == sqrt_floor(n as nat),
        (r as int) * (r as int) <= n as int,
        (n as int) < (r as int + 1) * (r as int + 1),
{
    let mut lo: u64 = 0;
    let mut hi: u64 = 4_294_967_296;
    assert((hi as int) * (hi as int) > n as int) by (nonlinear_arith)
        requires
            hi == 4_294_967_296,
            n <= u64::MAX,
    ;
    while hi - lo > 1
        invariant
            lo < hi <= 4_294_967_296,
            (lo as int) * (lo as int) <= n as int,
            (hi as int) * (hi as int) > n as int,
        decreases hi - lo,
    {
        let mid: u64 = lo + (hi - lo) / 2;
        assert((mid as int) * (mid as int) <= 0x1_0000_0000_0000_0000) by (nonlinear_arith)
            requires
                0 <= mid <= 4_294_967_296,
        ;
        let sq: u128 = (mid as u128) * (mid as u128);
        if sq <= n as u128 {
            lo = mid;
        } else {
            hi = mid;
        }
    }
    proof {
        lemma_sqrt_floor_unique(n as nat, lo as nat);
    }
    lo
}

/// The step actually applied in one tick: `speed` milli-units per second over
/// `dt` milliseconds, saturated at `STEP_CAP`.
pub open spec fn step_length(speed: u32, dt: u32) -> int {
    let raw = (speed * dt) / 1000;
    if raw > STEP_CAP {
        STEP_CAP as int
    } else {
        raw
    }
}

pub fn compute_step(speed: u32, dt: u32) -> (s: u64)
    ensures
        s as int == step_length(speed, dt),
        s <= STEP_CAP,
{
    assert((speed as int) * (dt as int) < 0x1_0000_0000_0000_0000) by (nonlinear_arith)
        requires
            0 <= speed < 0x1_0000_0000,
            0 <= dt < 0x1_0000_0000,
    ;
    let raw: u64 = (speed as u64) * (dt as u64) / 1000;
    if raw > STEP_CAP {
        STEP_CAP
    } else {
        raw
    }
}

/// One axis of a movement of length `step` along a direction whose component
/// on this axis is `delta` and whose total length rounds down to `norm`:
/// the exact integer `delta * step / norm`, rounded towards zero.
pub open spec fn scaled_step(delta: int, step: int, norm: int) -> int {
    if delta >= 0 {
        (delta * step) / norm
    } else {
        -(((-delta) * step) / norm)
    }
}

pub fn scaled_move(delta: i64, step: u64, norm: u64) -> (m: i64)
    requires
        1 <= norm <= 3_000_000_000,
        step <= STEP_CAP,
        -(norm as int) <= delta as int <= norm as int,
    ensures
        m as int == scaled_step(delta as int, step as int, norm as int),
        -(step as int) <= m as int <= step as int,
        delta >= 0 ==> m >= 0,
        delta < 0 ==> m <= 0,
        step <= norm && delta >= 0 ==> m <= delta,
        step <= norm && delta < 0 ==> delta <= m,
{
    let a: u64 = if delta >= 0 {
        delta as u64
    } else {
        (-delta) as u64
    };
    assert((a as int) * (step as int) <= 12_000_000_000_000_000_000) by (nonlinear_arith)
        requires
            0 <= a <= 3_000_000_000,
            0 <= step <= 4_000_000_000,
    ;
    let p: u64 = a * step;
    let m0: u64 = p / norm;
    proof {
        let ai = a as int;
        let si = step as int;
        let ni = norm as int;
        lemma_mul_inequality(ai, ni, si);
        lemma_div_is_ordered(ai * si, ni * si, ni);
        lemma_div_multiples_vanish(si, ni);
        assert(m0 <= step);
        if step <= norm {
            lemma_mul_inequality(si, ni, ai);
            assert(ai * si <= ni * ai) by (nonlinear_arith)
                requires
                    si * ai <= ni * ai,
            ;
            lemma_div_is_ordered(ai * si, ni * ai, ni);
            lemma_div_multiples_vanish(ai, ni);
            assert(m0 <= a);
        }
    }
    if delta >= 0 {
        m0 as i64
    } else {
        -(m0 as i64)
    }
}

/// An integer whose square is below `(b + 1) * (b + 1)` has magnitude at
/// most `b`.
pub proof fn lemma_abs_bound_from_sq(a: int, b: int)
    requires
        a * a < (b + 1) * (b + 1),
        b >= 0,
    ensures
        -b <= a <= b,
{
    assert(-b <= a <= b) by (nonlinear_arith)
        requires
            a * a < (b + 1) * (b + 1),
            b >= 0,
    ;
}

/// Squares are non-negative.
pub proof fn lemma_sq_nonneg(a: int)
    ensures
        a * a >= 0,
{
    assert(a * a >= 0) by (nonlinear_arith);
}

/// Saturates a coordinate at `POS_LIMIT` in either direction.
pub open spec fn clamped(c: int) -> int {
    if c > POS_LIMIT {
        POS_LIMIT as int
    } else if c < -POS_LIMIT {
        -POS_LIMIT as int
    } else {
        c
    }
}

pub fn clamp_coord(c: i64) -> (r: i64)
    ensures
        r as int == clamped(c as int),
{
    if c > POS_LIMIT {
        POS_LIMIT
    } else if c < -POS_LIMIT {
        -POS_LIMIT
    } else {
        c
    }
}

} // verus!
