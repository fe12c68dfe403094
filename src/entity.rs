use vstd::prelude::*;
use crate::num::{SCALE, in_limit};
use crate::geometry::{Aabb, SIZE_LIMIT};
use crate::registry::Keyed;

verus! {

/// Width of the visible screen in world steps.
pub const SCREEN_WIDTH: i64 = 1440 * SCALE;

/// Height of the visible screen in world steps.
pub const SCREEN_HEIGHT: i64 = 900 * SCALE;

/// The key state sampled on one tick.
#[derive(Clone, Copy, Debug, PartialEq, Eq, Structural)]
pub struct Keys {
    pub left: bool,
    pub down: bool,
    pub right: bool,
    pub up: bool,
    pub special: bool,
    pub ability: bool,
}

impl Keys {
    pub fn idle() -> (r: Keys)
        ensures
            !r.left && !r.down && !r.right && !r.up && !r.special && !r.ability,
    {
        Keys { left: false, down: false, right: false, up: false, special: false, ability: false }
    }
}

/// What a bullet does on each tick.
#[derive(Clone, Copy, Debug, PartialEq, Eq, Structural)]
pub enum BulletKind {
    /// Flies right in a straight line and stops at the first enemy it hits.
    Straight,
    /// Flies in an arc and, on impact, damages every enemy within `splash`.
    Shell,
    /// An enemy's bullet: flies left and hurts vehicles.
    Hostile,
}

#[derive(Clone, Copy, Debug, PartialEq, Eq, Structural)]
pub struct Bullet {
    pub id: u32,
    pub kind: BulletKind,
    pub x: i64,
    pub y: i64,
    pub width: i64,
    pub height: i64,
    pub speed: i64,
    pub damage: i64,
    pub vx: i64,
    pub vy: i64,
    pub splash: i64,
    pub image: u32,
}

#[derive(Clone, Copy, Debug, PartialEq, Eq, Structural)]
pub struct Enemy {
    pub id: u32,
    pub x: i64,
    pub y: i64,
    pub width: i64,
    pub height: i64,
    pub health: i64,
    pub speed: i64,
    pub shoot_cooldown: i64,
    pub image: u32,
}

#[derive(Clone, Copy, Debug, PartialEq, Eq, Structural)]
pub struct Platform {
    pub id: u32,
    pub x: i64,
    pub y: i64,
    pub width: i64,
    pub height: i64,
    pub image: u32,
}

impl Bullet {
    pub open spec fn wf(self) -> bool {
        &&& self.bounds().wf()
        &&& 0 <= self.speed <= SIZE_LIMIT
        &&& 0 <= self.splash <= SIZE_LIMIT
        &&& in_limit(self.damage)
        &&& in_limit(self.vx)
        &&& in_limit(self.vy)
    }

    pub open spec fn bounds(self) -> Aabb {
        Aabb { x: self.x, y: self.y, width: self.width, height: self.height }
    }

    pub fn bounds_exec(&self) -> (r: Aabb)
        ensures
            r == self.bounds(),
    {
        Aabb { x: self.x, y: self.y, width: self.width, height: self.height }
    }
}

impl Enemy {
    pub open spec fn wf(self) -> bool {
        &&& self.bounds().wf()
        &&& in_limit(self.health)
        &&& 0 <= self.speed <= SIZE_LIMIT
        &&& in_limit(self.shoot_cooldown)
    }

    pub open spec fn bounds(self) -> Aabb {
        Aabb { x: self.x, y: self.y, width: self.width, height: self.height }
    }

    pub fn bounds_exec(&self) -> (r: Aabb)
        ensures
            r == self.bounds(),
    {
        Aabb { x: self.x, y: self.y, width: self.width, height: self.height }
    }
}

impl Platform {
    pub open spec fn wf(self) -> bool {
        self.bounds().wf()
    }

    pub open spec fn bounds(self) -> Aabb {
        Aabb { x: self.x, y: self.y, width: self.width, height: self.height }
    }

    pub fn bounds_exec(&self) -> (r: Aabb)
        ensures
            r == self.bounds(),
    {
        Aabb { x: self.x, y: self.y, width: self.width, height: self.height }
    }
}

impl Keyed for Bullet {
    open spec fn key(&self) -> u32 {
        self.id
    }

    fn id(&self) -> (r: u32) {
        self.id
    }
}

impl Keyed for Enemy {
    open spec fn key(&self) -> u32 {
        self.id
    }

    fn id(&self) -> (r: u32) {
        self.id
    }
}

impl Keyed for Platform {
    open spec fn key(&self) -> u32 {
        self.id
    }

    fn id(&self) -> (r: u32) {
        self.id
    }
}

/// The part of a box that lies past the left edge of the screen.
pub open spec fn gone_left(x: i64, width: i64) -> bool {
    x + width / 2 < 0
}

/// A box with no part strictly inside the screen's width: its right edge at
/// or left of `0`, or its left edge at or right of `SCREEN_WIDTH`.
pub open spec fn off_screen(x: i64, width: i64) -> bool {
    x + width / 2 <= 0 || x - width / 2 >= SCREEN_WIDTH
}

pub fn off_screen_exec(x: i64, width: i64) -> (r: bool)
    requires
        in_limit(x),
        0 <= width <= SIZE_LIMIT,
    ensures
        r == off_screen(x, width),
{
    x + width / 2 <= 0 || x - width / 2 >= SCREEN_WIDTH
}

} // verus!
