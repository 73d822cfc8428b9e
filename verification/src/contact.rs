//! Narrow-phase contact geometry between axis-aligned rectangles and
//! circles: exact separation distance (negative when interpenetrating),
//! witness points on each body, and a contact normal pointing from the
//! first body toward the second.

use vstd::prelude::*;

verus! {

use crate::arena::Index;
use crate::components::HALF_DIM;
use crate::components::Shape;
use crate::geom::NORM_BOUND;
use crate::geom::POS_LIMIT;
use crate::geom::UNIT;
use crate::geom::Vec2;
use crate::geom::div_trunc;
use crate::geom::int_sqrt;
use crate::geom::is_sqrt_floor;
use crate::geom::lemma_abs_le_sqrt;
use crate::geom::lemma_sqrt_floor_exists;
use crate::geom::lemma_sqrt_floor_unique;
use crate::geom::normalize;
use crate::geom::spec_normalize;
use crate::geom::sqrt_floor;

/// Bound on the magnitude of a contact distance between in-range bodies.
pub const DIST_BOUND: i64 = 6_000_000_000;

/// Bound on the coordinates of contact witness points.
pub const PT_BOUND: i64 = 2_000_000_000;

/// Exact contact data for a pair of bodies: `dist` is the separation
/// distance, negative when the bodies interpenetrate; `point1` and `point2`
/// are witness points on the first and second body; `normal` is a
/// fixed-point unit vector pointing from the first body toward the second.
#[derive(Clone, Copy, PartialEq, Eq, Structural, Debug)]
pub struct Contact {
    pub dist: i64,
    pub point1: Vec2,
    pub point2: Vec2,
    pub normal: Vec2,
}

/// The collision event narrow phase records on the canonical first entity
/// of a touching pair, consumed by the resolution engine in the same tick.
#[derive(Clone, Copy, PartialEq, Eq, Structural, Debug)]
pub struct CollisionResData {
    pub other: Index,
    pub contact: Contact,
    pub vec_to_other: Vec2,
}

pub open spec fn iabs(a: int) -> int {
    if a >= 0 {
        a
    } else {
        -a
    }
}

/// Axis sign with the zero case defined as positive.
pub open spec fn isign(a: int) -> int {
    if a >= 0 {
        1
    } else {
        -1
    }
}

pub open spec fn clamp_to(v: int, lo: int, hi: int) -> int {
    if v < lo {
        lo
    } else if v > hi {
        hi
    } else {
        v
    }
}

/// Contact between two axis-aligned rectangles given centers and half
/// extents; face cases carry the per-axis gap, the corner case the floor
/// of the Euclidean gap.
pub open spec fn rect_rect_raw(pa: Vec2, ax: int, ay: int, pb: Vec2, bx: int, by: int) -> Contact {
    let dx = pb.x - pa.x;
    let dy = pb.y - pa.y;
    let sx = isign(dx);
    let sy = isign(dy);
    let gx = iabs(dx) - (ax + bx);
    let gy = iabs(dy) - (ay + by);
    if gy < 0 && gx >= gy {
        let cy = clamp_to(pa.y as int, pb.y - by, pb.y + by);
        Contact {
            dist: gx as i64,
            point1: Vec2 { x: (pa.x + sx * ax) as i64, y: cy as i64 },
            point2: Vec2 { x: (pb.x - sx * bx) as i64, y: cy as i64 },
            normal: Vec2 { x: (sx * UNIT) as i64, y: 0 },
        }
    } else if gx < 0 {
        let cx = clamp_to(pa.x as int, pb.x - bx, pb.x + bx);
        Contact {
            dist: gy as i64,
            point1: Vec2 { x: cx as i64, y: (pa.y + sy * ay) as i64 },
            point2: Vec2 { x: cx as i64, y: (pb.y - sy * by) as i64 },
            normal: Vec2 { x: 0, y: (sy * UNIT) as i64 },
        }
    } else {
        let p1 = Vec2 { x: (pa.x + sx * ax) as i64, y: (pa.y + sy * ay) as i64 };
        let p2 = Vec2 { x: (pb.x - sx * bx) as i64, y: (pb.y - sy * by) as i64 };
        Contact {
            dist: sqrt_floor(gx * gx + gy * gy) as i64,
            point1: p1,
            point2: p2,
            normal: spec_normalize(Vec2 { x: (p2.x - p1.x) as i64, y: (p2.y - p1.y) as i64 }),
        }
    }
}

/// Contact between two circles: Euclidean center distance (floored) minus
/// the radii.
pub open spec fn circle_circle_raw(pa: Vec2, ra: int, pb: Vec2, rb: int) -> Contact {
    let dx = pb.x - pa.x;
    let dy = pb.y - pa.y;
    let ell = sqrt_floor(dx * dx + dy * dy);
    let n = spec_normalize(Vec2 { x: dx as i64, y: dy as i64 });
    Contact {
        dist: (ell - (ra + rb)) as i64,
        point1: Vec2 {
            x: (pa.x + div_trunc(n.x * ra, UNIT as int)) as i64,
            y: (pa.y + div_trunc(n.y * ra, UNIT as int)) as i64,
        },
        point2: Vec2 {
            x: (pb.x - div_trunc(n.x * rb, UNIT as int)) as i64,
            y: (pb.y - div_trunc(n.y * rb, UNIT as int)) as i64,
        },
        normal: n,
    }
}

/// Contact between a rectangle (first body) and a circle (second body):
/// distance from the circle's center to the rectangle, minus the radius;
/// when the center lies inside the rectangle, the least per-axis escape.
pub open spec fn rect_circle_raw(pa: Vec2, ax: int, ay: int, pb: Vec2, r: int) -> Contact {
    let qx = clamp_to(pb.x as int, pa.x - ax, pa.x + ax);
    let qy = clamp_to(pb.y as int, pa.y - ay, pa.y + ay);
    if qx != pb.x || qy != pb.y {
        let ex = pb.x - qx;
        let ey = pb.y - qy;
        let ell = sqrt_floor(ex * ex + ey * ey);
        let n = spec_normalize(Vec2 { x: ex as i64, y: ey as i64 });
        Contact {
            dist: (ell - r) as i64,
            point1: Vec2 { x: qx as i64, y: qy as i64 },
            point2: Vec2 {
                x: (pb.x - div_trunc(n.x * r, UNIT as int)) as i64,
                y: (pb.y - div_trunc(n.y * r, UNIT as int)) as i64,
            },
            normal: n,
        }
    } else {
        let dx = pb.x - pa.x;
        let dy = pb.y - pa.y;
        let sx = isign(dx);
        let sy = isign(dy);
        let px = ax + r - iabs(dx);
        let py = ay + r - iabs(dy);
        if px <= py {
            Contact {
                dist: (-px) as i64,
                point1: Vec2 { x: (pa.x + sx * ax) as i64, y: pb.y },
                point2: Vec2 { x: (pb.x - sx * r) as i64, y: pb.y },
                normal: Vec2 { x: (sx * UNIT) as i64, y: 0 },
            }
        } else {
            Contact {
                dist: (-py) as i64,
                point1: Vec2 { x: pb.x, y: (pa.y + sy * ay) as i64 },
                point2: Vec2 { x: pb.x, y: (pb.y - sy * r) as i64 },
                normal: Vec2 { x: 0, y: (sy * UNIT) as i64 },
            }
        }
    }
}

/// The same contact seen from the other body.
pub open spec fn flip_contact(c: Contact) -> Contact {
    Contact {
        dist: c.dist,
        point1: c.point2,
        point2: c.point1,
        normal: Vec2 { x: (-c.normal.x) as i64, y: (-c.normal.y) as i64 },
    }
}

/// Contact data for any pair of shapes at the given centers.
pub open spec fn contact_raw(sa: Shape, pa: Vec2, sb: Shape, pb: Vec2) -> Contact {
    match (sa, sb) {
        (Shape::Rectangle { width: w1, height: h1 }, Shape::Rectangle { width: w2, height: h2 }) =>
            rect_rect_raw(pa, (w1 / 2) as int, (h1 / 2) as int, pb, (w2 / 2) as int, (h2 / 2) as int),
        (Shape::Circle { radius: r1 }, Shape::Circle { radius: r2 }) => circle_circle_raw(
            pa,
            r1 as int,
            pb,
            r2 as int,
        ),
        (Shape::Rectangle { width, height }, Shape::Circle { radius }) => rect_circle_raw(
            pa,
            (width / 2) as int,
            (height / 2) as int,
            pb,
            radius as int,
        ),
        (Shape::Circle { radius }, Shape::Rectangle { width, height }) => flip_contact(
            rect_circle_raw(pb, (width / 2) as int, (height / 2) as int, pa, radius as int),
        ),
    }
}

/// What narrow-phase contact computation returns: contact data while the
/// bodies are within `margin` of each other, nothing when farther apart.
pub open spec fn contact_of(sa: Shape, pa: Vec2, sb: Shape, pb: Vec2, margin: int) -> Option<
    Contact,
> {
    let c = contact_raw(sa, pa, sb, pb);
    if c.dist <= margin {
        Some(c)
    } else {
        None
    }
}

/// Bounds every computed contact satisfies, keeping downstream arithmetic
/// in range.
pub open spec fn contact_wf(c: Contact) -> bool {
    &&& -DIST_BOUND <= c.dist <= DIST_BOUND
    &&& -PT_BOUND <= c.point1.x <= PT_BOUND
    &&& -PT_BOUND <= c.point1.y <= PT_BOUND
    &&& -PT_BOUND <= c.point2.x <= PT_BOUND
    &&& -PT_BOUND <= c.point2.y <= PT_BOUND
    &&& -UNIT <= c.normal.x <= UNIT
    &&& -UNIT <= c.normal.y <= UNIT
}

fn eabs(a: i64) -> (r: i64)
    requires
        a > i64::MIN,
    ensures
        r as int == iabs(a as int),
{
    if a >= 0 {
        a
    } else {
        -a
    }
}

fn esign(a: i64) -> (r: i64)
    ensures
        r as int == isign(a as int),
{
    if a >= 0 {
        1
    } else {
        -1
    }
}

fn eclamp(v: i64, lo: i64, hi: i64) -> (r: i64)
    requires
        lo <= hi,
    ensures
        r as int == clamp_to(v as int, lo as int, hi as int),
        lo <= r <= hi,
{
    if v < lo {
        lo
    } else if v > hi {
        hi
    } else {
        v
    }
}

/// Floor of the Euclidean length of `(x, y)`.
fn hypot_floor(x: i64, y: i64) -> (r: i64)
    requires
        -NORM_BOUND <= x <= NORM_BOUND,
        -NORM_BOUND <= y <= NORM_BOUND,
    ensures
        r as int == sqrt_floor(x * x + y * y),
        0 <= r <= iabs(x as int) + iabs(y as int),
        is_sqrt_floor(x * x + y * y, r as int),
{
    let ax: u64 = if x >= 0 {
        x as u64
    } else {
        (-x) as u64
    };
    let ay: u64 = if y >= 0 {
        y as u64
    } else {
        (-y) as u64
    };
    proof {
        assert((ax as int) * (ax as int) == (x as int) * (x as int) && (ay as int) * (ay as int)
            == (y as int) * (y as int) && (ax as int) * (ax as int) + (ay as int) * (ay as int)
            < 0x4000_0000_0000_0000_0000_0000_0000_0000) by (nonlinear_arith)
            requires
                (ax as int == x as int || ax as int == -(x as int)),
                (ay as int == y as int || ay as int == -(y as int)),
                0 <= ax <= NORM_BOUND,
                0 <= ay <= NORM_BOUND,
        ;
    }
    let sq: u128 = (ax as u128) * (ax as u128) + (ay as u128) * (ay as u128);
    let ell = int_sqrt(sq);
    proof {
        lemma_sqrt_floor_unique(sq as int, ell as int);
        assert((2 * NORM_BOUND + 1) * (2 * NORM_BOUND + 1) > sq) by (nonlinear_arith)
            requires
                sq == (ax as int) * (ax as int) + (ay as int) * (ay as int),
                0 <= ax <= NORM_BOUND,
                0 <= ay <= NORM_BOUND,
        ;
        let a = ax as int;
        let b = ay as int;
        assert((a + b + 1) * (a + b + 1) > a * a + b * b) by (nonlinear_arith)
            requires
                a >= 0,
                b >= 0,
        ;
        if ell > a + b {
            assert((ell as int) * (ell as int) >= (a + b + 1) * (a + b + 1)) by (nonlinear_arith)
                requires
                    0 <= a + b + 1 <= ell as int,
            ;
        }
    }
    ell as i64
}

/// Exact contact between two axis-aligned rectangles.
#[verifier::rlimit(30)]
fn rect_rect(pa: Vec2, ax: i64, ay: i64, pb: Vec2, bx: i64, by: i64) -> (c: Contact)
    requires
        -POS_LIMIT <= pa.x <= POS_LIMIT,
        -POS_LIMIT <= pa.y <= POS_LIMIT,
        -POS_LIMIT <= pb.x <= POS_LIMIT,
        -POS_LIMIT <= pb.y <= POS_LIMIT,
        0 <= ax <= HALF_DIM,
        0 <= ay <= HALF_DIM,
        0 <= bx <= HALF_DIM,
        0 <= by <= HALF_DIM,
    ensures
        c == rect_rect_raw(pa, ax as int, ay as int, pb, bx as int, by as int),
        contact_wf(c),
{
    let dx = pb.x - pa.x;
    let dy = pb.y - pa.y;
    let sx = esign(dx);
    let sy = esign(dy);
    let gx = eabs(dx) - (ax + bx);
    let gy = eabs(dy) - (ay + by);
    proof {
        assert((sx as int) * (ax as int) == ax as int || (sx as int) * (ax as int) == -(ax as int))
            by (nonlinear_arith)
            requires
                sx == 1i64 || sx == -1i64,
        ;
        assert((sx as int) * (bx as int) == bx as int || (sx as int) * (bx as int) == -(bx as int))
            by (nonlinear_arith)
            requires
                sx == 1i64 || sx == -1i64,
        ;
        assert((sy as int) * (ay as int) == ay as int || (sy as int) * (ay as int) == -(ay as int))
            by (nonlinear_arith)
            requires
                sy == 1i64 || sy == -1i64,
        ;
        assert((sy as int) * (by as int) == by as int || (sy as int) * (by as int) == -(by as int))
            by (nonlinear_arith)
            requires
                sy == 1i64 || sy == -1i64,
        ;
        assert((sx as int) * (UNIT as int) == UNIT as int || (sx as int) * (UNIT as int) == -(
        UNIT as int)) by (nonlinear_arith)
            requires
                sx == 1i64 || sx == -1i64,
        ;
        assert((sy as int) * (UNIT as int) == UNIT as int || (sy as int) * (UNIT as int) == -(
        UNIT as int)) by (nonlinear_arith)
            requires
                sy == 1i64 || sy == -1i64,
        ;
    }
    if gy < 0 && gx >= gy {
        let cy = eclamp(pa.y, pb.y - by, pb.y + by);
        Contact {
            dist: gx,
            point1: Vec2 { x: pa.x + sx * ax, y: cy },
            point2: Vec2 { x: pb.x - sx * bx, y: cy },
            normal: Vec2 { x: sx * UNIT, y: 0 },
        }
    } else if gx < 0 {
        let cx = eclamp(pa.x, pb.x - bx, pb.x + bx);
        Contact {
            dist: gy,
            point1: Vec2 { x: cx, y: pa.y + sy * ay },
            point2: Vec2 { x: cx, y: pb.y - sy * by },
            normal: Vec2 { x: 0, y: sy * UNIT },
        }
    } else {
        let p1 = Vec2 { x: pa.x + sx * ax, y: pa.y + sy * ay };
        let p2 = Vec2 { x: pb.x - sx * bx, y: pb.y - sy * by };
        let d = hypot_floor(gx, gy);
        let n = normalize(Vec2 { x: p2.x - p1.x, y: p2.y - p1.y });
        proof {
            let rawc = rect_rect_raw(pa, ax as int, ay as int, pb, bx as int, by as int);
            assert(gx as int == iabs(dx as int) - (ax + bx));
            assert(d as int == rawc.dist);
        }
        Contact { dist: d, point1: p1, point2: p2, normal: n }
    }
}

/// Exact contact between two circles.
fn circle_circle(pa: Vec2, ra: i64, pb: Vec2, rb: i64) -> (c: Contact)
    requires
        -POS_LIMIT <= pa.x <= POS_LIMIT,
        -POS_LIMIT <= pa.y <= POS_LIMIT,
        -POS_LIMIT <= pb.x <= POS_LIMIT,
        -POS_LIMIT <= pb.y <= POS_LIMIT,
        0 <= ra <= HALF_DIM,
        0 <= rb <= HALF_DIM,
    ensures
        c == circle_circle_raw(pa, ra as int, pb, rb as int),
        contact_wf(c),
{
    let dx = pb.x - pa.x;
    let dy = pb.y - pa.y;
    let ell = hypot_floor(dx, dy);
    let n = normalize(Vec2 { x: dx, y: dy });
    let ox1 = crate::geom::scale_by_unit(n.x, ra);
    let oy1 = crate::geom::scale_by_unit(n.y, ra);
    let ox2 = crate::geom::scale_by_unit(n.x, rb);
    let oy2 = crate::geom::scale_by_unit(n.y, rb);
    proof {
        assert(iabs(div_trunc(n.x * ra, UNIT as int)) <= ra) by (nonlinear_arith)
            requires
                -UNIT <= n.x <= UNIT,
                0 <= ra,
                UNIT == 1000,
                div_trunc(n.x * ra, UNIT as int) == (if n.x * ra >= 0 {
                    (n.x * ra) / (UNIT as int)
                } else {
                    -((-(n.x * ra)) / (UNIT as int))
                }),
        ;
        assert(iabs(div_trunc(n.y * ra, UNIT as int)) <= ra) by (nonlinear_arith)
            requires
                -UNIT <= n.y <= UNIT,
                0 <= ra,
                UNIT == 1000,
                div_trunc(n.y * ra, UNIT as int) == (if n.y * ra >= 0 {
                    (n.y * ra) / (UNIT as int)
                } else {
                    -((-(n.y * ra)) / (UNIT as int))
                }),
        ;
        assert(iabs(div_trunc(n.x * rb, UNIT as int)) <= rb) by (nonlinear_arith)
            requires
                -UNIT <= n.x <= UNIT,
                0 <= rb,
                UNIT == 1000,
                div_trunc(n.x * rb, UNIT as int) == (if n.x * rb >= 0 {
                    (n.x * rb) / (UNIT as int)
                } else {
                    -((-(n.x * rb)) / (UNIT as int))
                }),
        ;
        assert(iabs(div_trunc(n.y * rb, UNIT as int)) <= rb) by (nonlinear_arith)
            requires
                -UNIT <= n.y <= UNIT,
                0 <= rb,
                UNIT == 1000,
                div_trunc(n.y * rb, UNIT as int) == (if n.y * rb >= 0 {
                    (n.y * rb) / (UNIT as int)
                } else {
                    -((-(n.y * rb)) / (UNIT as int))
                }),
        ;
    }
    Contact {
        dist: ell - (ra + rb),
        point1: Vec2 { x: pa.x + ox1, y: pa.y + oy1 },
        point2: Vec2 { x: pb.x - ox2, y: pb.y - oy2 },
        normal: n,
    }
}

/// Exact contact between a rectangle (first) and a circle (second).
fn rect_circle(pa: Vec2, ax: i64, ay: i64, pb: Vec2, r: i64) -> (c: Contact)
    requires
        -POS_LIMIT <= pa.x <= POS_LIMIT,
        -POS_LIMIT <= pa.y <= POS_LIMIT,
        -POS_LIMIT <= pb.x <= POS_LIMIT,
        -POS_LIMIT <= pb.y <= POS_LIMIT,
        0 <= ax <= HALF_DIM,
        0 <= ay <= HALF_DIM,
        0 <= r <= HALF_DIM,
    ensures
        c == rect_circle_raw(pa, ax as int, ay as int, pb, r as int),
        contact_wf(c),
{
    let qx = eclamp(pb.x, pa.x - ax, pa.x + ax);
    let qy = eclamp(pb.y, pa.y - ay, pa.y + ay);
    if qx != pb.x || qy != pb.y {
        let ex = pb.x - qx;
        let ey = pb.y - qy;
        let ell = hypot_floor(ex, ey);
        let n = normalize(Vec2 { x: ex, y: ey });
        let ox = crate::geom::scale_by_unit(n.x, r);
        let oy = crate::geom::scale_by_unit(n.y, r);
        proof {
            assert(iabs(div_trunc(n.x * r, UNIT as int)) <= r) by (nonlinear_arith)
                requires
                    -UNIT <= n.x <= UNIT,
                    0 <= r,
                    UNIT == 1000,
                    div_trunc(n.x * r, UNIT as int) == (if n.x * r >= 0 {
                        (n.x * r) / (UNIT as int)
                    } else {
                        -((-(n.x * r)) / (UNIT as int))
                    }),
            ;
            assert(iabs(div_trunc(n.y * r, UNIT as int)) <= r) by (nonlinear_arith)
                requires
                    -UNIT <= n.y <= UNIT,
                    0 <= r,
                    UNIT == 1000,
                    div_trunc(n.y * r, UNIT as int) == (if n.y * r >= 0 {
                        (n.y * r) / (UNIT as int)
                    } else {
                        -((-(n.y * r)) / (UNIT as int))
                    }),
            ;
        }
        Contact {
            dist: ell - r,
            point1: Vec2 { x: qx, y: qy },
            point2: Vec2 { x: pb.x - ox, y: pb.y - oy },
            normal: n,
        }
    } else {
        let dx = pb.x - pa.x;
        let dy = pb.y - pa.y;
        let sx = esign(dx);
        let sy = esign(dy);
        let px = ax + r - eabs(dx);
        let py = ay + r - eabs(dy);
        proof {
            assert((sx as int) * (r as int) == r as int || (sx as int) * (r as int) == -(r as int))
                by (nonlinear_arith)
                requires
                    sx == 1i64 || sx == -1i64,
            ;
            assert((sy as int) * (r as int) == r as int || (sy as int) * (r as int) == -(r as int))
                by (nonlinear_arith)
                requires
                    sy == 1i64 || sy == -1i64,
            ;
            assert((sy as int) * (ay as int) == ay as int || (sy as int) * (ay as int) == -(
            ay as int)) by (nonlinear_arith)
                requires
                    sy == 1i64 || sy == -1i64,
            ;
            assert((sx as int) * (ax as int) == ax as int || (sx as int) * (ax as int) == -(
            ax as int)) by (nonlinear_arith)
                requires
                    sx == 1i64 || sx == -1i64,
            ;
        }
        if px <= py {
            Contact {
                dist: -px,
                point1: Vec2 { x: pa.x + sx * ax, y: pb.y },
                point2: Vec2 { x: pb.x - sx * r, y: pb.y },
                normal: Vec2 { x: sx * UNIT, y: 0 },
            }
        } else {
            Contact {
                dist: -py,
                point1: Vec2 { x: pb.x, y: pa.y + sy * ay },
                point2: Vec2 { x: pb.x, y: pb.y - sy * r },
                normal: Vec2 { x: 0, y: sy * UNIT },
            }
        }
    }
}

/// Computes the contact between two bodies, or nothing when they are more
/// than `prediction` apart. The shape match is exhaustive over the closed
/// shape universe, so no unknown-shape case exists.
pub fn contact(sa: Shape, pa: Vec2, sb: Shape, pb: Vec2, prediction: i64) -> (r: Option<Contact>)
    requires
        sa.wf(),
        sb.wf(),
        -POS_LIMIT <= pa.x <= POS_LIMIT,
        -POS_LIMIT <= pa.y <= POS_LIMIT,
        -POS_LIMIT <= pb.x <= POS_LIMIT,
        -POS_LIMIT <= pb.y <= POS_LIMIT,
        0 <= prediction <= UNIT,
    ensures
        r == contact_of(sa, pa, sb, pb, prediction as int),
        r matches Some(c) ==> contact_wf(c) && c.dist <= prediction,
{
    let c: Contact = match (sa, sb) {
        (Shape::Rectangle { width: w1, height: h1 }, Shape::Rectangle { width: w2, height: h2 }) => {
            rect_rect(pa, (w1 / 2) as i64, (h1 / 2) as i64, pb, (w2 / 2) as i64, (h2 / 2) as i64)
        },
        (Shape::Circle { radius: r1 }, Shape::Circle { radius: r2 }) => {
            circle_circle(pa, r1 as i64, pb, r2 as i64)
        },
        (Shape::Rectangle { width, height }, Shape::Circle { radius }) => {
            rect_circle(pa, (width / 2) as i64, (height / 2) as i64, pb, radius as i64)
        },
        (Shape::Circle { radius }, Shape::Rectangle { width, height }) => {
            let inner = rect_circle(pb, (width / 2) as i64, (height / 2) as i64, pa, radius as i64);
            Contact {
                dist: inner.dist,
                point1: inner.point2,
                point2: inner.point1,
                normal: Vec2 { x: -inner.normal.x, y: -inner.normal.y },
            }
        },
    };
    if c.dist <= prediction {
        Some(c)
    } else {
        None
    }
}

/// Law: two rectangles whose spans strictly overlap on both axes are in
/// contact with strictly negative distance; two rectangles separated on
/// some axis by more than the margin are not in contact at all.
pub proof fn lemma_rect_contact_classifies(
    pa: Vec2,
    w1: u32,
    h1: u32,
    pb: Vec2,
    w2: u32,
    h2: u32,
    margin: int,
)
    requires
        margin >= 0,
        -POS_LIMIT <= pa.x <= POS_LIMIT,
        -POS_LIMIT <= pa.y <= POS_LIMIT,
        -POS_LIMIT <= pb.x <= POS_LIMIT,
        -POS_LIMIT <= pb.y <= POS_LIMIT,
    ensures
        (iabs(pb.x - pa.x) < w1 / 2 + w2 / 2 && iabs(pb.y - pa.y) < h1 / 2 + h2 / 2) ==> (contact_of(
            Shape::Rectangle { width: w1, height: h1 },
            pa,
            Shape::Rectangle { width: w2, height: h2 },
            pb,
            margin,
        ) matches Some(c) && c.dist < 0),
        (iabs(pb.x - pa.x) - (w1 / 2 + w2 / 2) > margin || iabs(pb.y - pa.y) - (h1 / 2 + h2 / 2)
            > margin) ==> contact_of(
            Shape::Rectangle { width: w1, height: h1 },
            pa,
            Shape::Rectangle { width: w2, height: h2 },
            pb,
            margin,
        ) is None,
{
    let ax = (w1 / 2) as int;
    let ay = (h1 / 2) as int;
    let bx = (w2 / 2) as int;
    let by = (h2 / 2) as int;
    let gx = iabs(pb.x - pa.x) - (ax + bx);
    let gy = iabs(pb.y - pa.y) - (ay + by);
    if gx >= 0 && gy >= 0 {
        lemma_sqrt_floor_exists(gx * gx + gy * gy);
        assert(gx * gx <= gx * gx + gy * gy && gy * gy <= gx * gx + gy * gy) by (nonlinear_arith)
            requires
                gx >= 0,
                gy >= 0,
        ;
        lemma_abs_le_sqrt(gx, gx * gx + gy * gy, sqrt_floor(gx * gx + gy * gy));
        lemma_abs_le_sqrt(gy, gx * gx + gy * gy, sqrt_floor(gx * gx + gy * gy));
        let rt = sqrt_floor(gx * gx + gy * gy);
        assert((gx + gy + 1) * (gx + gy + 1) > gx * gx + gy * gy) by (nonlinear_arith)
            requires
                gx >= 0,
                gy >= 0,
        ;
        if rt > gx + gy {
            assert(rt * rt >= (gx + gy + 1) * (gx + gy + 1)) by (nonlinear_arith)
                requires
                    0 <= gx + gy + 1 <= rt,
            ;
        }
    }
}

} // verus!
