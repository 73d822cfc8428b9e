//! Plain integer 2D vectors and the arithmetic the collision subsystem
//! needs: floor square root, truncating division, and normalization of a
//! vector to fixed-point length `UNIT`.
//!
//! World coordinates are plain integer units; direction vectors are
//! fixed-point, with `UNIT` standing for length one.

use vstd::prelude::*;

verus! {

use vstd::arithmetic::div_mod::lemma_div_by_multiple;
use vstd::arithmetic::div_mod::lemma_div_is_ordered;

/// Fixed-point scale of direction vectors: a component of `UNIT` means 1.0.
pub const UNIT: i64 = 1000;

/// World positions are clamped to `[-POS_LIMIT, POS_LIMIT]` on each axis.
pub const POS_LIMIT: i64 = 1_000_000_000;

/// Upper bound on shape dimensions (width, height, diameter).
pub const DIM_LIMIT: u32 = 1_000_000_000;

/// Upper bound on scalar speeds, in world units per second.
pub const SPEED_LIMIT: u32 = 1_000_000;

/// Bound within which `normalize` accepts its input components; wide enough
/// for any difference of in-range positions and contact points.
pub const NORM_BOUND: i64 = 1_099_511_627_776;

/// A 2D vector of plain integer components.
#[derive(Clone, Copy, PartialEq, Eq, Structural, Debug)]
pub struct Vec2 {
    pub x: i64,
    pub y: i64,
}

/// `r` is the floor of the square root of `n`.
pub open spec fn is_sqrt_floor(n: int, r: int) -> bool {
    &&& r >= 0
    &&& r * r <= n
    &&& n < (r + 1) * (r + 1)
}

/// The floor of the square root of `n` (for `n >= 0`).
pub open spec fn sqrt_floor(n: int) -> int {
    choose|r: int| is_sqrt_floor(n, r)
}

pub proof fn lemma_sqrt_floor_unique(n: int, r: int)
    requires
        is_sqrt_floor(n, r),
    ensures
        sqrt_floor(n) == r,
{
    let c = choose|q: int| is_sqrt_floor(n, q);
    assert(is_sqrt_floor(n, c));
    if c < r {
        assert((c + 1) * (c + 1) <= r * r) by (nonlinear_arith)
            requires
                0 <= c + 1 <= r,
        ;
    }
    if r < c {
        assert((r + 1) * (r + 1) <= c * c) by (nonlinear_arith)
            requires
                0 <= r + 1 <= c,
        ;
    }
}

/// Division rounding toward zero, the rounding of hardware division.
pub open spec fn div_trunc(a: int, b: int) -> int {
    if a >= 0 {
        a / b
    } else {
        -((-a) / b)
    }
}

/// Floor square root by bisection.
pub fn int_sqrt(n: u128) -> (r: u64)
    requires
        n < 0x4000_0000_0000_0000_0000_0000_0000_0000,
    ensures
        is_sqrt_floor(n as int, r as int),
{
    let mut lo: u128 = 0;
    let mut hi: u128 = if n + 1 < 0x8000_0000_0000_0000 {
        n + 1
    } else {
        0x8000_0000_0000_0000
    };
    proof {
        assert(hi * hi > n) by (nonlinear_arith)
            requires
                hi >= 1,
                hi > n || hi == 0x8000_0000_0000_0000,
                n < 0x4000_0000_0000_0000_0000_0000_0000_0000,
        ;
    }
    while lo + 1 < hi
        invariant
            0 <= lo < hi <= 0x8000_0000_0000_0000,
            lo * lo <= n,
            n < hi * hi,
        decreases hi - lo,
    {
        let mid: u128 = lo + (hi - lo) / 2;
        proof {
            assert(mid * mid < 0x1_0000_0000_0000_0000_0000_0000_0000_0000) by (nonlinear_arith)
                requires
                    0 <= mid < 0x8000_0000_0000_0000u128,
            ;
        }
        if mid * mid <= n {
            lo = mid;
        } else {
            hi = mid;
        }
    }
    proof {
        assert(lo < 0x8000_0000_0000_0000);
    }
    lo as u64
}

/// The fixed-point length of `v` (floor of the Euclidean length).
pub open spec fn norm_len(v: Vec2) -> int {
    sqrt_floor(v.x * v.x + v.y * v.y)
}

/// The direction of `v` as a fixed-point vector of length `UNIT`, rounding
/// each component toward zero; a zero vector defaults to the positive x
/// axis rather than failing.
pub open spec fn spec_normalize(v: Vec2) -> Vec2 {
    if v.x == 0 && v.y == 0 {
        Vec2 { x: UNIT, y: 0 }
    } else {
        Vec2 {
            x: div_trunc(v.x * UNIT, norm_len(v)) as i64,
            y: div_trunc(v.y * UNIT, norm_len(v)) as i64,
        }
    }
}

/// Every nonnegative integer has a floor square root, so `sqrt_floor` is
/// well defined.
pub proof fn lemma_sqrt_floor_exists(n: int)
    requires
        n >= 0,
    ensures
        is_sqrt_floor(n, sqrt_floor(n)),
    decreases n,
{
    if n == 0 {
        assert(is_sqrt_floor(0, 0));
    } else {
        lemma_sqrt_floor_exists(n - 1);
        let r = sqrt_floor(n - 1);
        if (r + 1) * (r + 1) <= n {
            assert((r + 1) + 1 >= 0);
            assert(((r + 1) + 1) * ((r + 1) + 1) > n) by (nonlinear_arith)
                requires
                    r >= 0,
                    (r + 1) * (r + 1) <= n,
                    n - 1 < (r + 1) * (r + 1),
            ;
            assert(is_sqrt_floor(n, r + 1));
        } else {
            assert(is_sqrt_floor(n, r));
        }
    }
}

pub proof fn lemma_abs_le_sqrt(a: int, n: int, r: int)
    requires
        a >= 0,
        a * a <= n,
        is_sqrt_floor(n, r),
    ensures
        a <= r,
{
    if a > r {
        assert((r + 1) * (r + 1) <= a * a) by (nonlinear_arith)
            requires
                0 <= r + 1 <= a,
        ;
    }
}

/// Scales `v` to a fixed-point vector of length `UNIT` (components rounded
/// toward zero); the zero vector is defined to give the positive x axis.
pub fn normalize(v: Vec2) -> (u: Vec2)
    requires
        -NORM_BOUND <= v.x <= NORM_BOUND,
        -NORM_BOUND <= v.y <= NORM_BOUND,
    ensures
        u == spec_normalize(v),
        -UNIT <= u.x <= UNIT,
        -UNIT <= u.y <= UNIT,
{
    if v.x == 0 && v.y == 0 {
        return Vec2 { x: UNIT, y: 0 };
    }
    let ax: u64 = if v.x >= 0 {
        v.x as u64
    } else {
        (-v.x) as u64
    };
    let ay: u64 = if v.y >= 0 {
        v.y as u64
    } else {
        (-v.y) as u64
    };
    proof {
        assert((ax as int) * (ax as int) == (v.x as int) * (v.x as int)
            && (ay as int) * (ay as int) == (v.y as int) * (v.y as int) && (ax as int) * (
        ax as int) + (ay as int) * (ay as int) < 0x4000_0000_0000_0000_0000_0000_0000_0000) by (nonlinear_arith)
            requires
                (ax as int == v.x as int || ax as int == -(v.x as int)),
                (ay as int == v.y as int || ay as int == -(v.y as int)),
                0 <= ax <= NORM_BOUND,
                0 <= ay <= NORM_BOUND,
        ;
    }
    let sq: u128 = (ax as u128) * (ax as u128) + (ay as u128) * (ay as u128);
    let len = int_sqrt(sq);
    proof {
        lemma_sqrt_floor_unique(sq as int, len as int);
        if len == 0 {
            assert(sq < 1) by (nonlinear_arith)
                requires
                    is_sqrt_floor(sq as int, len as int),
                    len == 0,
            ;
            assert(v.x * v.x + v.y * v.y >= 1) by (nonlinear_arith)
                requires
                    !(v.x == 0 && v.y == 0),
            ;
        }
        lemma_abs_le_sqrt(ax as int, sq as int, len as int);
        lemma_abs_le_sqrt(ay as int, sq as int, len as int);
    }
    let qx: u64 = ax * 1000 / len;
    let qy: u64 = ay * 1000 / len;
    proof {
        lemma_div_is_ordered((ax * 1000) as int, (len * 1000) as int, len as int);
        lemma_div_is_ordered((ay * 1000) as int, (len * 1000) as int, len as int);
        lemma_div_by_multiple(1000, len as int);
    }
    let ux: i64 = if v.x >= 0 {
        qx as i64
    } else {
        -(qx as i64)
    };
    let uy: i64 = if v.y >= 0 {
        qy as i64
    } else {
        -(qy as i64)
    };
    Vec2 { x: ux, y: uy }
}

/// A vector whose only nonzero component lies on an axis normalizes to
/// exactly `UNIT` on that axis.
pub proof fn lemma_normalize_axis(v: Vec2)
    requires
        v.y == 0,
        v.x != 0,
        -NORM_BOUND <= v.x <= NORM_BOUND,
    ensures
        spec_normalize(v) == (Vec2 {
            x: if v.x > 0 {
                UNIT
            } else {
                (-UNIT) as i64
            },
            y: 0,
        }),
{
    let a = if v.x >= 0 {
        v.x as int
    } else {
        -(v.x as int)
    };
    assert(a * a == v.x * v.x && v.x * v.x < (a + 1) * (a + 1)) by (nonlinear_arith)
        requires
            a == v.x || a == -(v.x as int),
            a >= 0,
    ;
    assert(is_sqrt_floor(v.x * v.x + v.y * v.y, a));
    lemma_sqrt_floor_unique(v.x * v.x + v.y * v.y, a);
    assert(a >= 1);
    assert((a * 1000) / a == 1000) by {
        lemma_div_by_multiple(1000, a);
    }
    if v.x > 0 {
        assert(div_trunc(v.x * UNIT, a) == 1000);
    } else {
        assert(-(v.x * UNIT) == a * 1000);
        assert(div_trunc(v.x * UNIT, a) == -1000);
    }
    assert(div_trunc(v.y * UNIT, a) == 0) by {
        assert(v.y * UNIT == 0) by (nonlinear_arith)
            requires
                v.y == 0,
        ;
    }
}

/// Same statement for the y axis.
pub proof fn lemma_normalize_axis_y(v: Vec2)
    requires
        v.x == 0,
        v.y != 0,
        -NORM_BOUND <= v.y <= NORM_BOUND,
    ensures
        spec_normalize(v) == (Vec2 {
            x: 0,
            y: if v.y > 0 {
                UNIT
            } else {
                (-UNIT) as i64
            },
        }),
{
    let a = if v.y >= 0 {
        v.y as int
    } else {
        -(v.y as int)
    };
    assert(a * a == v.y * v.y && v.y * v.y < (a + 1) * (a + 1)) by (nonlinear_arith)
        requires
            a == v.y || a == -(v.y as int),
            a >= 0,
    ;
    assert(is_sqrt_floor(v.x * v.x + v.y * v.y, a)) by {
        assert(v.x * v.x == 0) by (nonlinear_arith)
            requires
                v.x == 0,
        ;
    }
    lemma_sqrt_floor_unique(v.x * v.x + v.y * v.y, a);
    assert(a >= 1);
    assert((a * 1000) / a == 1000) by {
        lemma_div_by_multiple(1000, a);
    }
    if v.y > 0 {
        assert(div_trunc(v.y * UNIT, a) == 1000);
    } else {
        assert(-(v.y * UNIT) == a * 1000);
        assert(div_trunc(v.y * UNIT, a) == -1000);
    }
    assert(div_trunc(v.x * UNIT, a) == 0) by {
        assert(v.x * UNIT == 0) by (nonlinear_arith)
            requires
                v.x == 0,
        ;
    }
}

/// Clamping of a coordinate into the world bounds.
pub open spec fn spec_clamp(x: int) -> int {
    if x < -POS_LIMIT {
        -POS_LIMIT as int
    } else if x > POS_LIMIT {
        POS_LIMIT as int
    } else {
        x
    }
}

/// Clamps a coordinate into the world bounds.
pub fn clamp_pos(x: i64) -> (r: i64)
    ensures
        r == spec_clamp(x as int),
        -POS_LIMIT <= r <= POS_LIMIT,
{
    if x < -POS_LIMIT {
        -POS_LIMIT
    } else if x > POS_LIMIT {
        POS_LIMIT
    } else {
        x
    }
}

/// Multiplies a fixed-point unit component by a plain magnitude, rounding
/// toward zero: the `c/UNIT` fraction of `m`.
pub fn scale_by_unit(c: i64, m: i64) -> (r: i64)
    requires
        -UNIT <= c <= UNIT,
        0 <= m <= NORM_BOUND,
    ensures
        r == div_trunc(c * m, UNIT as int),
        -NORM_BOUND <= r <= NORM_BOUND,
{
    let am: u64 = m as u64;
    let ac: u64 = if c >= 0 {
        c as u64
    } else {
        (-c) as u64
    };
    proof {
        assert(ac * am <= 1000 * (NORM_BOUND as u64)) by (nonlinear_arith)
            requires
                0 <= ac <= 1000,
                0 <= am <= NORM_BOUND,
        ;
    }
    let q: u64 = ac * am / 1000;
    proof {
        if c >= 0 {
            assert((ac * am) as int == c * m);
        } else {
            assert((ac * am) as int == -(c * m)) by (nonlinear_arith)
                requires
                    ac as int == -(c as int),
                    am == m,
            ;
        }
        lemma_div_is_ordered((ac * am) as int, (1000 * (NORM_BOUND as u64)) as int, 1000);
        lemma_div_by_multiple(NORM_BOUND as int, 1000);
        assert((1000 * (NORM_BOUND as u64)) as int == (NORM_BOUND as int) * 1000);
    }
    if c >= 0 {
        q as i64
    } else {
        -(q as i64)
    }
}

/// One integration step of a coordinate's velocity: the `c/UNIT` fraction
/// of `speed` world units per second, over `delta` milliseconds, rounded
/// toward zero.
pub fn velocity_step(c: i64, speed: u32, delta: u32) -> (r: i64)
    requires
        -UNIT <= c <= UNIT,
        speed <= SPEED_LIMIT,
        delta <= 1000,
    ensures
        r == div_trunc(c * speed * delta, 1_000_000),
        -1_000_000 <= r <= 1_000_000,
{
    let ac: u64 = if c >= 0 {
        c as u64
    } else {
        (-c) as u64
    };
    proof {
        assert(ac * (speed as u64) <= 1_000_000_000 && ac * (speed as u64) * (delta as u64)
            <= 1_000_000_000_000) by (nonlinear_arith)
            requires
                0 <= ac <= 1000,
                speed <= SPEED_LIMIT,
                delta <= 1000,
                SPEED_LIMIT == 1_000_000u32,
        ;
    }
    let prod: u64 = ac * (speed as u64) * (delta as u64);
    let q: u64 = prod / 1_000_000;
    proof {
        if c >= 0 {
            assert(prod as int == c * speed * delta) by (nonlinear_arith)
                requires
                    c >= 0,
                    ac == c,
                    prod == ac * (speed as u64) * (delta as u64),
            ;
        } else {
            assert(prod as int == -(c * speed * delta)) by (nonlinear_arith)
                requires
                    c < 0,
                    ac as int == -(c as int),
                    prod == ac * (speed as u64) * (delta as u64),
            ;
        }
    }
    if c >= 0 {
        q as i64
    } else {
        -(q as i64)
    }
}

} // verus!
