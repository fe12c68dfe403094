use vstd::prelude::*;
use crate::num::{SCALE, clamp, in_limit, damp, min_int, max_int, add_c, sub_c, damp_exec, min_i64, max_i64};
use crate::geometry::{Body, SIZE_LIMIT, collide, land, collide_exec, land_exec, overlaps};
use crate::entity::{Keys, Bullet, BulletKind, Platform};
use crate::registry::Keyed;

verus! {

/// Downward pull on a vehicle each tick.
pub const GRAVITY: i64 = SCALE;

/// How much a firing or ability timer runs down each tick.
pub const COOLDOWN_STEP: i64 = 60;

/// Timer set after a straight shot.
pub const SHOT_COOLDOWN: i64 = SCALE;

/// Timer set after a shell is fired.
pub const SHELL_COOLDOWN: i64 = 5 * SCALE;

/// Health a halted Smasher regains each tick, and the most it can regain to.
pub const SMASHER_HEAL: i64 = 12;

pub const SMASHER_MAX_HEALTH: i64 = 500 * SCALE;

/// Size and speed of every bullet.
pub const BULLET_SIZE: i64 = 10 * SCALE;

pub const BULLET_SPEED: i64 = 10 * SCALE;

/// Launch velocity, fall per tick and blast reach of a shell.
pub const SHELL_VX: i64 = 3 * SCALE;

pub const SHELL_VY: i64 = 6 * SCALE;

pub const SHELL_GRAVITY: i64 = 80;

pub const SHELL_SPLASH: i64 = 300 * SCALE;

pub const VEHICLE_WIDTH: i64 = 50 * SCALE;

pub const VEHICLE_HEIGHT: i64 = 60 * SCALE;

/// The vehicle a pilot drives; it decides the ability and the base figures.
#[derive(Clone, Copy, Debug, PartialEq, Eq, Structural)]
pub enum VehicleKind {
    /// Toggles automatic fire.
    Base,
    /// Melee only: halts to heal, and takes half damage from contact.
    Smasher,
    /// Fires an arcing explosive shell on a long timer.
    Cannoneer,
    /// Toggles automatic fire; every run adds another of its kind.
    Swarm,
    /// Toggles automatic fire; fast and high jumping.
    McQueen,
    /// Toggles between driving and standing still to generate.
    Generator,
}

pub open spec fn kind_damage(k: VehicleKind) -> i64 {
    match k {
        VehicleKind::Base => SCALE,
        VehicleKind::Smasher => 0,
        VehicleKind::Cannoneer => (100 * SCALE) as i64,
        VehicleKind::Swarm => (7 * SCALE / 10) as i64,
        VehicleKind::McQueen => (8 * SCALE / 10) as i64,
        VehicleKind::Generator => SCALE,
    }
}

/// Health when the vehicle is first chosen.
pub open spec fn kind_health(k: VehicleKind) -> i64 {
    match k {
        VehicleKind::Base => (70 * SCALE) as i64,
        VehicleKind::Smasher => (500 * SCALE) as i64,
        VehicleKind::Cannoneer => (70 * SCALE) as i64,
        VehicleKind::Swarm => (50 * SCALE) as i64,
        VehicleKind::McQueen => (65 * SCALE) as i64,
        VehicleKind::Generator => (70 * SCALE) as i64,
    }
}

/// Health at the start of every run.
pub open spec fn kind_reset_health(k: VehicleKind) -> i64 {
    match k {
        VehicleKind::Base => (100 * SCALE) as i64,
        VehicleKind::Smasher => (100 * SCALE) as i64,
        VehicleKind::Cannoneer => (70 * SCALE) as i64,
        VehicleKind::Swarm => (50 * SCALE) as i64,
        VehicleKind::McQueen => (65 * SCALE) as i64,
        VehicleKind::Generator => (70 * SCALE) as i64,
    }
}

pub open spec fn kind_speed(k: VehicleKind) -> i64 {
    match k {
        VehicleKind::Base => SCALE,
        VehicleKind::Smasher => (SCALE / 2) as i64,
        VehicleKind::Cannoneer => (SCALE / 2) as i64,
        VehicleKind::Swarm => (8 * SCALE / 10) as i64,
        VehicleKind::McQueen => (2 * SCALE) as i64,
        VehicleKind::Generator => SCALE,
    }
}

pub open spec fn kind_jump(k: VehicleKind) -> i64 {
    match k {
        VehicleKind::Base => (50 * SCALE) as i64,
        VehicleKind::Smasher => (40 * SCALE) as i64,
        VehicleKind::Cannoneer => (50 * SCALE) as i64,
        VehicleKind::Swarm => (35 * SCALE) as i64,
        VehicleKind::McQueen => (70 * SCALE) as i64,
        VehicleKind::Generator => (50 * SCALE) as i64,
    }
}

pub open spec fn kind_image(k: VehicleKind) -> u32 {
    match k {
        VehicleKind::Base => 2,
        VehicleKind::Smasher => 0,
        VehicleKind::Cannoneer => 3,
        VehicleKind::Swarm => 4,
        VehicleKind::McQueen => 5,
        VehicleKind::Generator => 1,
    }
}

impl VehicleKind {
    pub fn damage(&self) -> (r: i64)
        ensures
            r == kind_damage(*self),
    {
        match self {
            VehicleKind::Base => SCALE,
            VehicleKind::Smasher => 0,
            VehicleKind::Cannoneer => 100 * SCALE,
            VehicleKind::Swarm => 7 * SCALE / 10,
            VehicleKind::McQueen => 8 * SCALE / 10,
            VehicleKind::Generator => SCALE,
        }
    }

    pub fn health(&self) -> (r: i64)
        ensures
            r == kind_health(*self),
    {
        match self {
            VehicleKind::Smasher => 500 * SCALE,
            VehicleKind::Swarm => 50 * SCALE,
            VehicleKind::McQueen => 65 * SCALE,
            _ => 70 * SCALE,
        }
    }

    pub fn reset_health(&self) -> (r: i64)
        ensures
            r == kind_reset_health(*self),
    {
        match self {
            VehicleKind::Base => 100 * SCALE,
            VehicleKind::Smasher => 100 * SCALE,
            VehicleKind::Swarm => 50 * SCALE,
            VehicleKind::McQueen => 65 * SCALE,
            _ => 70 * SCALE,
        }
    }

    pub fn speed(&self) -> (r: i64)
        ensures
            r == kind_speed(*self),
    {
        match self {
            VehicleKind::Smasher => SCALE / 2,
            VehicleKind::Cannoneer => SCALE / 2,
            VehicleKind::Swarm => 8 * SCALE / 10,
            VehicleKind::McQueen => 2 * SCALE,
            _ => SCALE,
        }
    }

    pub fn jump(&self) -> (r: i64)
        ensures
            r == kind_jump(*self),
    {
        match self {
            VehicleKind::Smasher => 40 * SCALE,
            VehicleKind::Swarm => 35 * SCALE,
            VehicleKind::McQueen => 70 * SCALE,
            _ => 50 * SCALE,
        }
    }

    pub fn image(&self) -> (r: u32)
        ensures
            r == kind_image(*self),
    {
        match self {
            VehicleKind::Base => 2,
            VehicleKind::Smasher => 0,
            VehicleKind::Cannoneer => 3,
            VehicleKind::Swarm => 4,
            VehicleKind::McQueen => 5,
            VehicleKind::Generator => 1,
        }
    }
}

/// Everything about a vehicle that changes from tick to tick, apart from its
/// recorded inputs.
#[derive(Clone, Copy, Debug, PartialEq, Eq, Structural)]
pub struct Rig {
    pub kind: VehicleKind,
    pub body: Body,
    pub health: i64,
    pub speed: i64,
    pub jump: i64,
    pub damage: i64,
    /// Automatic fire is on (for a Generator: it stands still to generate).
    pub firing: bool,
    /// The special key was already down on the previous tick.
    pub held: bool,
    /// Time until the next shot.
    pub cooldown: i64,
    pub active: bool,
    pub image: u32,
}

impl Rig {
    pub open spec fn wf(self) -> bool {
        &&& self.body.wf()
        &&& in_limit(self.health)
        &&& 0 <= self.speed <= SIZE_LIMIT
        &&& 0 <= self.jump <= SIZE_LIMIT
        &&& in_limit(self.damage)
        &&& in_limit(self.cooldown)
    }
}

/// The rig of a freshly chosen vehicle of kind `k`.
pub open spec fn fresh_rig(k: VehicleKind) -> Rig {
    Rig {
        kind: k,
        body: Body {
            x: 0,
            y: 0,
            width: VEHICLE_WIDTH,
            height: VEHICLE_HEIGHT,
            vx: 0,
            vy: 0,
            grounded: false,
        },
        health: kind_health(k),
        speed: kind_speed(k),
        jump: kind_jump(k),
        damage: kind_damage(k),
        firing: true,
        held: false,
        cooldown: 0,
        active: true,
        image: kind_image(k),
    }
}

/// The rig at the start of a run: back at the origin, at rest, with its
/// run health, base speed and registers cleared; size, damage, jump, kind
/// and image are kept.
pub open spec fn reset_rig(r: Rig) -> Rig {
    Rig {
        body: Body { x: 0, y: 0, vx: 0, vy: 0, grounded: false, ..r.body },
        health: kind_reset_health(r.kind),
        speed: kind_speed(r.kind),
        firing: true,
        held: false,
        cooldown: 0,
        ..r
    }
}

pub fn fresh_rig_exec(k: VehicleKind) -> (r: Rig)
    ensures
        r == fresh_rig(k),
        r.wf(),
{
    Rig {
        kind: k,
        body: Body {
            x: 0,
            y: 0,
            width: VEHICLE_WIDTH,
            height: VEHICLE_HEIGHT,
            vx: 0,
            vy: 0,
            grounded: false,
        },
        health: k.health(),
        speed: k.speed(),
        jump: k.jump(),
        damage: k.damage(),
        firing: true,
        held: false,
        cooldown: 0,
        active: true,
        image: k.image(),
    }
}

pub fn reset_rig_exec(r: Rig) -> (res: Rig)
    requires
        r.wf(),
    ensures
        res == reset_rig(r),
        res.wf(),
{
    Rig {
        body: Body { x: 0, y: 0, vx: 0, vy: 0, grounded: false, ..r.body },
        health: r.kind.reset_health(),
        speed: r.kind.speed(),
        firing: true,
        held: false,
        cooldown: 0,
        ..r
    }
}

/// Movement keys: left and right push, down cancels upward motion, up jumps
/// from the ground.
pub open spec fn steer(r: Rig, k: Keys) -> Rig {
    let vx0 = if k.left { clamp(r.body.vx - r.speed) } else { r.body.vx as int };
    let vy1 = if k.down { min_int(r.body.vy as int, 0) } else { r.body.vy as int };
    let vx2 = if k.right { clamp(vx0 + r.speed) } else { vx0 };
    let vy3 = if k.up && r.body.grounded { max_int(vy1, r.jump as int) } else { vy1 };
    Rig { body: Body { vx: vx2 as i64, vy: vy3 as i64, ..r.body }, ..r }
}

/// A straight shot from the rig's position.
pub open spec fn straight_shot(r: Rig) -> Bullet {
    Bullet {
        id: 0,
        kind: BulletKind::Straight,
        x: r.body.x,
        y: r.body.y,
        width: BULLET_SIZE,
        height: BULLET_SIZE,
        speed: BULLET_SPEED,
        damage: r.damage,
        vx: 0,
        vy: 0,
        splash: 0,
        image: 0,
    }
}

/// A shell fired from the rig's position.
pub open spec fn shell_shot(r: Rig) -> Bullet {
    Bullet {
        id: 0,
        kind: BulletKind::Shell,
        x: r.body.x,
        y: r.body.y,
        width: BULLET_SIZE,
        height: BULLET_SIZE,
        speed: BULLET_SPEED,
        damage: r.damage,
        vx: SHELL_VX,
        vy: SHELL_VY,
        splash: SHELL_SPLASH,
        image: 0,
    }
}

/// The special key toggles a setting on the tick it goes down.
pub open spec fn toggled(r: Rig, k: Keys) -> Rig {
    if k.special {
        if !r.held {
            Rig { held: true, firing: !r.firing, ..r }
        } else {
            r
        }
    } else {
        Rig { held: false, ..r }
    }
}

/// The kind's ability, and the bullet it fires this tick, if any.
pub open spec fn act(r: Rig, k: Keys) -> (Rig, Option<Bullet>) {
    match r.kind {
        VehicleKind::Smasher => {
            if k.special {
                let h = if r.health < SMASHER_MAX_HEALTH { clamp(r.health + SMASHER_HEAL) } else { r.health as int };
                (Rig { speed: 0, health: h as i64, ..r }, None)
            } else {
                (Rig { speed: (SCALE / 2) as i64, ..r }, None)
            }
        },
        VehicleKind::Cannoneer => {
            if k.special {
                if !r.held {
                    if r.cooldown <= 0 {
                        (Rig { held: true, cooldown: SHELL_COOLDOWN, ..r }, Some(shell_shot(r)))
                    } else {
                        (r, None)
                    }
                } else {
                    (Rig { held: false, ..r }, None)
                }
            } else {
                (r, None)
            }
        },
        VehicleKind::Generator => {
            let t = toggled(r, k);
            if k.special && !r.held {
                (Rig { speed: if t.firing { 0 } else { SCALE }, ..t }, None)
            } else {
                (t, None)
            }
        },
        _ => {
            let t = toggled(r, k);
            if t.firing && t.cooldown <= 0 {
                (Rig { cooldown: SHOT_COOLDOWN, ..t }, Some(straight_shot(t)))
            } else {
                (t, None)
            }
        },
    }
}

/// Air resistance, gravity and the firing timer; the rig is airborne until
/// something holds it up.
pub open spec fn settle(r: Rig) -> Rig {
    Rig {
        body: Body {
            vx: damp(r.body.vx as int) as i64,
            vy: clamp(damp(r.body.vy as int) - GRAVITY) as i64,
            grounded: false,
            ..r.body
        },
        cooldown: if r.cooldown > 0 { clamp(r.cooldown - COOLDOWN_STEP) as i64 } else { r.cooldown },
        ..r
    }
}

/// The body after meeting each platform in turn.
pub open spec fn collide_all(b: Body, ps: Seq<Platform>) -> Body
    decreases ps.len(),
{
    if ps.len() == 0 {
        b
    } else {
        collide_all(collide(b, ps[0].bounds()), ps.skip(1))
    }
}

/// Moving by the velocity.
pub open spec fn travel(b: Body) -> Body {
    Body { x: clamp(b.x + b.vx) as i64, y: clamp(b.y + b.vy) as i64, ..b }
}

/// One tick of a rig on the frame `k` among the platforms `ps`: the new rig
/// and the bullet it fires, if any (its id is given when it is added).
pub open spec fn driven(r: Rig, k: Keys, ps: Seq<Platform>) -> (Rig, Option<Bullet>) {
    let (a, shot) = act(steer(r, k), k);
    let s = settle(a);
    let b = travel(land(collide_all(s.body, ps)));
    (Rig { body: b, ..s }, shot)
}

pub open spec fn all_wf_platforms(ps: Seq<Platform>) -> bool {
    forall|i: int| 0 <= i < ps.len() ==> #[trigger] ps[i].wf()
}

fn steer_exec(r: Rig, k: Keys) -> (res: Rig)
    requires
        r.wf(),
    ensures
        res == steer(r, k),
        res.wf(),
{
    let mut vx = r.body.vx;
    let mut vy = r.body.vy;
    if k.left {
        vx = sub_c(vx, r.speed);
    }
    if k.down {
        vy = min_i64(vy, 0);
    }
    if k.right {
        vx = add_c(vx, r.speed);
    }
    if k.up && r.body.grounded {
        vy = max_i64(vy, r.jump);
    }
    Rig { body: Body { vx: vx, vy: vy, ..r.body }, ..r }
}

fn toggled_exec(r: Rig, k: Keys) -> (res: Rig)
    ensures
        res == toggled(r, k),
{
    if k.special {
        if !r.held {
            Rig { held: true, firing: !r.firing, ..r }
        } else {
            r
        }
    } else {
        Rig { held: false, ..r }
    }
}

fn act_exec(r: Rig, k: Keys) -> (res: (Rig, Option<Bullet>))
    requires
        r.wf(),
    ensures
        res == act(r, k),
        res.0.wf(),
        res.1 matches Some(b) ==> b.wf(),
{
    match r.kind {
        VehicleKind::Smasher => {
            if k.special {
                let h = if r.health < SMASHER_MAX_HEALTH { add_c(r.health, SMASHER_HEAL) } else { r.health };
                (Rig { speed: 0, health: h, ..r }, None)
            } else {
                (Rig { speed: SCALE / 2, ..r }, None)
            }
        },
        VehicleKind::Cannoneer => {
            if k.special {
                if !r.held {
                    if r.cooldown <= 0 {
                        let shot = Bullet {
                            id: 0,
                            kind: BulletKind::Shell,
                            x: r.body.x,
                            y: r.body.y,
                            width: BULLET_SIZE,
                            height: BULLET_SIZE,
                            speed: BULLET_SPEED,
                            damage: r.damage,
                            vx: SHELL_VX,
                            vy: SHELL_VY,
                            splash: SHELL_SPLASH,
                            image: 0,
                        };
                        (Rig { held: true, cooldown: SHELL_COOLDOWN, ..r }, Some(shot))
                    } else {
                        (r, None)
                    }
                } else {
                    (Rig { held: false, ..r }, None)
                }
            } else {
                (r, None)
            }
        },
        VehicleKind::Generator => {
            let t = toggled_exec(r, k);
            if k.special && !r.held {
                (Rig { speed: if t.firing { 0 } else { SCALE }, ..t }, None)
            } else {
                (t, None)
            }
        },
        _ => {
            let t = toggled_exec(r, k);
            if t.firing && t.cooldown <= 0 {
                let shot = Bullet {
                    id: 0,
                    kind: BulletKind::Straight,
                    x: t.body.x,
                    y: t.body.y,
                    width: BULLET_SIZE,
                    height: BULLET_SIZE,
                    speed: BULLET_SPEED,
                    damage: t.damage,
                    vx: 0,
                    vy: 0,
                    splash: 0,
                    image: 0,
                };
                (Rig { cooldown: SHOT_COOLDOWN, ..t }, Some(shot))
            } else {
                (t, None)
            }
        },
    }
}

fn settle_exec(r: Rig) -> (res: Rig)
    requires
        r.wf(),
    ensures
        res == settle(r),
        res.wf(),
{
    let vx = damp_exec(r.body.vx);
    let vy = sub_c(damp_exec(r.body.vy), GRAVITY);
    let cooldown = if r.cooldown > 0 { sub_c(r.cooldown, COOLDOWN_STEP) } else { r.cooldown };
    Rig { body: Body { vx: vx, vy: vy, grounded: false, ..r.body }, cooldown: cooldown, ..r }
}

/// Meets each platform in turn.
pub fn collide_all_exec(b: Body, ps: &Vec<Platform>) -> (res: Body)
    requires
        b.wf(),
        all_wf_platforms(ps@),
    ensures
        res == collide_all(b, ps@),
        res.wf(),
        res.width == b.width,
        res.height == b.height,
{
    let mut cur = b;
    let mut i: usize = 0;
    assert(ps@.subrange(0, ps@.len() as int) =~= ps@);
    while i < ps.len()
        invariant
            i <= ps@.len(),
            cur.wf(),
            cur.width == b.width,
            cur.height == b.height,
            all_wf_platforms(ps@),
            collide_all(cur, ps@.subrange(i as int, ps@.len() as int)) == collide_all(b, ps@),
        decreases ps@.len() - i,
    {
        let ghost rest = ps@.subrange(i as int, ps@.len() as int);
        assert(rest[0] == ps@[i as int]);
        assert(rest.skip(1) =~= ps@.subrange(i + 1, ps@.len() as int));
        let pb = ps[i].bounds_exec();
        assert(ps@[i as int].wf());
        cur = collide_exec(cur, &pb);
        i += 1;
    }
    assert(ps@.subrange(ps@.len() as int, ps@.len() as int).len() == 0);
    cur
}

fn travel_exec(b: Body) -> (res: Body)
    requires
        b.wf(),
    ensures
        res == travel(b),
        res.wf(),
{
    Body { x: add_c(b.x, b.vx), y: add_c(b.y, b.vy), ..b }
}

/// Drives the rig for one tick on the frame `k`.
pub fn drive(r: Rig, k: Keys, platforms: &Vec<Platform>) -> (res: (Rig, Option<Bullet>))
    requires
        r.wf(),
        all_wf_platforms(platforms@),
    ensures
        res == driven(r, k, platforms@),
        res.0.wf(),
        res.1 matches Some(b) ==> b.wf(),
{
    let (a, shot) = act_exec(steer_exec(r, k), k);
    let s = settle_exec(a);
    let b = travel_exec(land_exec(collide_all_exec(s.body, platforms)));
    (Rig { body: b, ..s }, shot)
}

/// Resolving a body that lies outside every platform's box is a no-op: its
/// position, velocity and grounding are unchanged.
pub proof fn lemma_collide_all_clear(b: Body, ps: Seq<Platform>)
    requires
        forall|i: int| 0 <= i < ps.len() ==> !overlaps(b.bounds(), #[trigger] ps[i].bounds()),
    ensures
        collide_all(b, ps) == b,
    decreases ps.len(),
{
    if ps.len() > 0 {
        assert(!overlaps(b.bounds(), ps[0].bounds()));
        assert forall|i: int| 0 <= i < ps.skip(1).len() implies !overlaps(b.bounds(), #[trigger] ps.skip(1)[i].bounds()) by {
            assert(ps.skip(1)[i] == ps[i + 1]);
        }
        lemma_collide_all_clear(b, ps.skip(1));
    }
}

} // verus!

verus! {

/// A player or clone: its rig, its recorded inputs and the playback cursor.
pub struct Vehicle {
    pub id: u32,
    pub rig: Rig,
    pub moves: Vec<Keys>,
    pub step: usize,
}

impl Keyed for Vehicle {
    open spec fn key(&self) -> u32 {
        self.id
    }

    fn id(&self) -> (r: u32) {
        self.id
    }
}

pub open spec fn idle_keys() -> Keys {
    Keys { left: false, down: false, right: false, up: false, special: false, ability: false }
}

impl Vehicle {
    /// The cursor never passes the last recorded frame.
    pub open spec fn wf(&self) -> bool {
        &&& self.rig.wf()
        &&& if self.moves@.len() == 0 {
            self.step == 0
        } else {
            self.step < self.moves@.len()
        }
    }

    /// The frame under the cursor; no key is down when nothing is recorded.
    pub open spec fn frame(&self) -> Keys {
        if self.moves@.len() == 0 {
            idle_keys()
        } else {
            self.moves@[self.step as int]
        }
    }

    /// A vehicle of kind `kind` with nothing recorded.
    pub fn new(id: u32, kind: VehicleKind) -> (v: Vehicle)
        ensures
            v.id == id,
            v.rig == fresh_rig(kind),
            v.moves@.len() == 0,
            v.step == 0,
            v.wf(),
    {
        Vehicle { id: id, rig: fresh_rig_exec(kind), moves: Vec::new(), step: 0 }
    }

    pub fn current_frame(&self) -> (k: Keys)
        requires
            self.wf(),
        ensures
            k == self.frame(),
    {
        if self.moves.len() == 0 {
            Keys::idle()
        } else {
            self.moves[self.step]
        }
    }

    /// Appends the live frame and puts the cursor on it.
    pub fn record(&mut self, k: Keys)
        requires
            old(self).wf(),
        ensures
            final(self).moves@ == old(self).moves@.push(k),
            final(self).step == old(self).moves@.len(),
            final(self).frame() == k,
            final(self).rig == old(self).rig,
            final(self).id == old(self).id,
            final(self).wf(),
    {
        self.moves.push(k);
        self.step = self.moves.len() - 1;
    }

    /// Moves the cursor on by one frame unless it is on the last one.
    pub fn advance(&mut self)
        requires
            old(self).wf(),
        ensures
            final(self).step == (if old(self).step + 1 < old(self).moves@.len() {
                old(self).step + 1
            } else {
                old(self).step as int
            }),
            final(self).moves@ == old(self).moves@,
            final(self).rig == old(self).rig,
            final(self).id == old(self).id,
            final(self).wf(),
    {
        if self.moves.len() > 0 && self.step < self.moves.len() - 1 {
            self.step = self.step + 1;
        }
    }

    /// Back to the start of a run, keeping what was recorded.
    pub fn reset(&mut self)
        requires
            old(self).wf(),
        ensures
            final(self).rig == reset_rig(old(self).rig),
            final(self).step == 0,
            final(self).moves == old(self).moves,
            final(self).id == old(self).id,
            final(self).wf(),
    {
        self.rig = reset_rig_exec(self.rig);
        self.step = 0;
    }

    /// A clone of this vehicle: the same id and recorded inputs, its rig reset
    /// and its cursor rewound.
    pub fn make_clone(&self) -> (c: Vehicle)
        requires
            self.wf(),
        ensures
            c.id == self.id,
            c.rig == reset_rig(self.rig),
            c.moves@ == self.moves@,
            c.step == 0,
            c.wf(),
    {
        let moves = self.moves.clone();
        assert(moves@ =~= self.moves@);
        Vehicle { id: self.id, rig: reset_rig_exec(self.rig), moves: moves, step: 0 }
    }

    /// The same vehicle, recorded inputs included.
    pub fn duplicate(&self) -> (c: Vehicle)
        ensures
            c.id == self.id,
            c.rig == self.rig,
            c.moves@ == self.moves@,
            c.step == self.step,
    {
        let moves = self.moves.clone();
        assert(moves@ =~= self.moves@);
        Vehicle { id: self.id, rig: self.rig, moves: moves, step: self.step }
    }

    /// Ready for a new run as the live player: reset, with nothing recorded.
    pub fn begin_run(&mut self)
        requires
            old(self).wf(),
        ensures
            final(self).rig == reset_rig(old(self).rig),
            final(self).step == 0,
            final(self).moves@.len() == 0,
            final(self).id == old(self).id,
            final(self).wf(),
    {
        self.rig = reset_rig_exec(self.rig);
        self.moves = Vec::new();
        self.step = 0;
    }
}

} // verus!
