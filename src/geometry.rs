use vstd::prelude::*;
use crate::num::{SCALE, clamp, in_limit, half, min_int, max_int, clamp_exec, min_i64, max_i64};

verus! {

/// The largest width or height of any box.
pub const SIZE_LIMIT: i64 = 1_000_000_000_000;

/// An axis-aligned box given by its centre and full extents.
#[derive(Clone, Copy, Debug, PartialEq, Eq, Structural)]
pub struct Aabb {
    pub x: i64,
    pub y: i64,
    pub width: i64,
    pub height: i64,
}

impl Aabb {
    pub open spec fn wf(self) -> bool {
        &&& in_limit(self.x)
        &&& in_limit(self.y)
        &&& 0 <= self.width <= SIZE_LIMIT
        &&& 0 <= self.height <= SIZE_LIMIT
    }
}

/// Two boxes overlap when their centres are closer than the sum of their
/// half extents on both axes (touching edges do not overlap).
pub open spec fn overlaps(a: Aabb, b: Aabb) -> bool {
    &&& a.x + half(a.width as int) > b.x - half(b.width as int)
    &&& a.x - half(a.width as int) < b.x + half(b.width as int)
    &&& a.y + half(a.height as int) > b.y - half(b.height as int)
    &&& a.y - half(a.height as int) < b.y + half(b.height as int)
}

pub fn overlaps_exec(a: &Aabb, b: &Aabb) -> (r: bool)
    requires
        a.wf(),
        b.wf(),
    ensures
        r == overlaps(*a, *b),
{
    let ha: i64 = a.width / 2;
    let hb: i64 = b.width / 2;
    let va: i64 = a.height / 2;
    let vb: i64 = b.height / 2;
    a.x + ha > b.x - hb && a.x - ha < b.x + hb && a.y + va > b.y - vb && a.y - va < b.y + vb
}

/// The side of a platform through which a mover is pushed out.
#[derive(Clone, Copy, Debug, PartialEq, Eq, Structural)]
pub enum Side {
    Left,
    Right,
    Top,
    Bottom,
}

/// How far the mover reaches past the platform's left edge.
pub open spec fn left_overlap(m: Aabb, p: Aabb) -> int {
    (m.x + half(m.width as int)) - (p.x - half(p.width as int))
}

pub open spec fn right_overlap(m: Aabb, p: Aabb) -> int {
    (p.x + half(p.width as int)) - (m.x - half(m.width as int))
}

pub open spec fn bottom_overlap(m: Aabb, p: Aabb) -> int {
    (m.y + half(m.height as int)) - (p.y - half(p.height as int))
}

pub open spec fn top_overlap(m: Aabb, p: Aabb) -> int {
    (p.y + half(p.height as int)) - (m.y - half(m.height as int))
}

/// The side of least penetration; ties go to the first of left, right, top, bottom.
pub open spec fn least_side(m: Aabb, p: Aabb) -> Side {
    let l = left_overlap(m, p);
    let r = right_overlap(m, p);
    let t = top_overlap(m, p);
    let b = bottom_overlap(m, p);
    let smallest = min_int(min_int(min_int(l, r), t), b);
    if smallest == l {
        Side::Left
    } else if smallest == r {
        Side::Right
    } else if smallest == t {
        Side::Top
    } else {
        Side::Bottom
    }
}

pub fn least_side_exec(m: &Aabb, p: &Aabb) -> (s: Side)
    requires
        m.wf(),
        p.wf(),
    ensures
        s == least_side(*m, *p),
{
    let l: i64 = (m.x + m.width / 2) - (p.x - p.width / 2);
    let r: i64 = (p.x + p.width / 2) - (m.x - m.width / 2);
    let t: i64 = (p.y + p.height / 2) - (m.y - m.height / 2);
    let b: i64 = (m.y + m.height / 2) - (p.y - p.height / 2);
    let smallest = min_i64(min_i64(min_i64(l, r), t), b);
    if smallest == l {
        Side::Left
    } else if smallest == r {
        Side::Right
    } else if smallest == t {
        Side::Top
    } else {
        Side::Bottom
    }
}

/// A moving box with its velocity and whether it stands on something.
#[derive(Clone, Copy, Debug, PartialEq, Eq, Structural)]
pub struct Body {
    pub x: i64,
    pub y: i64,
    pub width: i64,
    pub height: i64,
    pub vx: i64,
    pub vy: i64,
    pub grounded: bool,
}

impl Body {
    pub open spec fn wf(self) -> bool {
        &&& self.bounds().wf()
        &&& in_limit(self.vx)
        &&& in_limit(self.vy)
    }

    pub open spec fn bounds(self) -> Aabb {
        Aabb { x: self.x, y: self.y, width: self.width, height: self.height }
    }

    pub fn bounds_exec(&self) -> (r: Aabb)
        ensures
            r == self.bounds(),
    {
        Aabb { x: self.x, y: self.y, width: self.width, height: self.height }
    }
}

/// Pushes the body out of the platform through its side of least
/// penetration, leaving it one unit inside that edge, and stops its velocity
/// into the platform. Landing on top grounds the body.
pub open spec fn push_out(m: Body, p: Aabb) -> Body {
    let hm = half(m.width as int);
    let vm = half(m.height as int);
    let hp = half(p.width as int);
    let vp = half(p.height as int);
    match least_side(m.bounds(), p) {
        Side::Left => Body {
            vx: min_int(m.vx as int, 0) as i64,
            x: clamp(p.x - hp - hm + SCALE) as i64,
            ..m
        },
        Side::Right => Body {
            vx: max_int(m.vx as int, 0) as i64,
            x: clamp(p.x + hp + hm - SCALE) as i64,
            ..m
        },
        Side::Top => Body {
            vy: max_int(m.vy as int, 0) as i64,
            y: clamp(p.y + vp + vm - SCALE) as i64,
            grounded: true,
            ..m
        },
        Side::Bottom => Body {
            vy: min_int(m.vy as int, 0) as i64,
            y: clamp(p.y - vp - vm + SCALE) as i64,
            ..m
        },
    }
}

/// The body after meeting one platform: pushed out when they overlap,
/// unchanged otherwise.
pub open spec fn collide(m: Body, p: Aabb) -> Body {
    if overlaps(m.bounds(), p) {
        push_out(m, p)
    } else {
        m
    }
}

pub fn collide_exec(m: Body, p: &Aabb) -> (r: Body)
    requires
        m.wf(),
        p.wf(),
    ensures
        r == collide(m, *p),
        r.wf(),
        r.width == m.width,
        r.height == m.height,
{
    let mb = m.bounds_exec();
    if !overlaps_exec(&mb, p) {
        return m;
    }
    let hm: i64 = m.width / 2;
    let vm: i64 = m.height / 2;
    let hp: i64 = p.width / 2;
    let vp: i64 = p.height / 2;
    match least_side_exec(&mb, p) {
        Side::Left => Body { vx: min_i64(m.vx, 0), x: clamp_exec(p.x - hp - hm + SCALE), ..m },
        Side::Right => Body { vx: max_i64(m.vx, 0), x: clamp_exec(p.x + hp + hm - SCALE), ..m },
        Side::Top => Body {
            vy: max_i64(m.vy, 0),
            y: clamp_exec(p.y + vp + vm - SCALE),
            grounded: true,
            ..m
        },
        Side::Bottom => Body { vy: min_i64(m.vy, 0), y: clamp_exec(p.y - vp - vm + SCALE), ..m },
    }
}

/// Resting on the ground plane: a body reaching below `y = 0` is lifted so
/// that its bottom sits one unit under the ground, grounded, and stops falling.
pub open spec fn land(m: Body) -> Body {
    if m.y - half(m.height as int) < 0 {
        Body {
            grounded: true,
            vy: max_int(m.vy as int, 0) as i64,
            y: (half(m.height as int) - SCALE) as i64,
            ..m
        }
    } else {
        m
    }
}

pub fn land_exec(m: Body) -> (r: Body)
    requires
        m.wf(),
    ensures
        r == land(m),
        r.wf(),
        r.width == m.width,
        r.height == m.height,
{
    if m.y - m.height / 2 < 0 {
        Body { grounded: true, vy: max_i64(m.vy, 0), y: m.height / 2 - SCALE, ..m }
    } else {
        m
    }
}

} // verus!
