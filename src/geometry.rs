use vstd::prelude::*;

verus! {

/// Micro-units per arena unit: every position and length is kept in micro-units.
pub const UNIT: i64 = 1_000_000;

/// Largest arena side, in micro-units (an arena side is at most `u32::MAX` units).
pub const ARENA_LIMIT: i64 = 4_300_000_000_000_000;

/// Bound on the magnitude of every stored coordinate, in micro-units.
pub const POS_LIMIT: i64 = 5_000_000_000_000_000;

/// Bound on each velocity component, in micro-units per millisecond.
pub const SPEED_LIMIT: i64 = 2_000_000_000_000;

/// Longest single step of time, in milliseconds.
pub const MAX_TICK_MS: i64 = 1_000_000;

/// Bound on a collision radius, in micro-units.
pub const MAX_RADIUS: i64 = 1_000_000_000_000;

/// A point or displacement in the plane, in micro-units.
#[derive(Clone, Copy, Debug, PartialEq, Eq, Structural)]
pub struct Vec2 {
    pub x: i64,
    pub y: i64,
}

impl Vec2 {
    pub fn new(x: i64, y: i64) -> (r: Vec2)
        ensures
            r.x == x,
            r.y == y,
    {
        Vec2 { x, y }
    }

    /// Both coordinates lie within `[-lim, lim]`.
    pub open spec fn within(self, lim: int) -> bool {
        -lim <= self.x <= lim && -lim <= self.y <= lim
    }
}

/// Integer division rounding toward zero, as machine division does.
pub open spec fn tdiv(a: int, b: int) -> int {
    if a >= 0 {
        a / b
    } else {
        -((-a) / b)
    }
}

/// `v` limited to `[lo, hi]`, the upper end winning when the range is empty.
pub open spec fn clamp(v: int, lo: int, hi: int) -> int {
    let m = if v < lo { lo } else { v };
    if m > hi { hi } else { m }
}

/// Squared distance between two points.
pub open spec fn dist_sq(a: Vec2, b: Vec2) -> int {
    (a.x - b.x) * (a.x - b.x) + (a.y - b.y) * (a.y - b.y)
}

/// The product of two bounded numbers is bounded by the product of the bounds.
pub proof fn lemma_mul_bound(a: int, b: int, ka: int, kb: int)
    requires
        -ka <= a <= ka,
        -kb <= b <= kb,
    ensures
        -(ka * kb) <= a * b <= ka * kb,
{
    assert(-(ka * kb) <= a * b <= ka * kb) by (nonlinear_arith)
        requires
            -ka <= a <= ka,
            -kb <= b <= kb,
    ;
}

/// The floor of the square root of `n`: the largest `r` with `r * r <= n`.
pub fn isqrt(n: u128) -> (r: u128)
    ensures
        r * r <= n,
        n < (r + 1) * (r + 1),
        r <= u64::MAX,
{
    let mut lo: u128 = 0;
    let mut hi: u128 = 0x1_0000_0000_0000_0000;
    assert(n < hi * hi) by (nonlinear_arith)
        requires
            hi == 0x1_0000_0000_0000_0000u128,
            n <= u128::MAX,
    ;
    while hi - lo > 1
        invariant
            lo < hi <= 0x1_0000_0000_0000_0000u128,
            lo * lo <= n,
            n < hi * hi,
        decreases hi - lo,
    {
        let mid = lo + (hi - lo) / 2;
        assert(mid * mid <= 0xffff_ffff_ffff_ffffu128 * 0xffff_ffff_ffff_ffffu128) by (nonlinear_arith)
            requires
                mid < 0x1_0000_0000_0000_0000u128,
        ;
        if mid * mid <= n {
            lo = mid;
        } else {
            hi = mid;
        }
    }
    lo
}

/// Dividing a number bounded by `b * k` by `b` gives a number bounded by `k`.
pub proof fn lemma_tdiv_bound(a: int, b: int, k: int)
    requires
        0 < b,
        0 <= k,
        -(b * k) <= a <= b * k,
    ensures
        -k <= tdiv(a, b) <= k,
{
    let m = if a >= 0 { a } else { -a };
    assert(0 <= m / b <= k) by (nonlinear_arith)
        requires
            0 < b,
            0 <= k,
            0 <= m <= b * k,
    ;
}

/// `r` is the floor of the square root of `n`.
pub open spec fn is_floor_sqrt(n: int, r: int) -> bool {
    0 <= r && r * r <= n < (r + 1) * (r + 1)
}

/// The floor of the square root of `n`.
pub open spec fn floor_sqrt(n: int) -> int {
    choose|r: int| is_floor_sqrt(n, r)
}

/// `isqrt`'s result is the floor of the square root, and bounds each coordinate
/// whose square it dominates.
pub proof fn lemma_floor_sqrt(n: int, r: int, x: int)
    requires
        0 <= r,
        r * r <= n < (r + 1) * (r + 1),
        x * x <= n,
    ensures
        floor_sqrt(n) == r,
        -r <= x <= r,
{
    assert(is_floor_sqrt(n, r));
    let s = floor_sqrt(n);
    assert(is_floor_sqrt(n, s));
    assert(s == r) by (nonlinear_arith)
        requires
            0 <= r,
            r * r <= n < (r + 1) * (r + 1),
            0 <= s,
            s * s <= n < (s + 1) * (s + 1),
    ;
    assert(-r <= x <= r) by (nonlinear_arith)
        requires
            0 <= r,
            n < (r + 1) * (r + 1),
            x * x <= n,
    ;
}

} // verus!
