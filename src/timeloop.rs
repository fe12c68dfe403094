use vstd::prelude::*;
use crate::num::{SCALE, LIMIT};
use crate::entity::{Enemy, Platform, SCREEN_WIDTH};

verus! {

/// Height of every platform.
pub const PLATFORM_HEIGHT: i64 = 50 * SCALE;

/// Size, health and speed of a fresh enemy.
pub const ENEMY_SIZE: i64 = 150 * SCALE;

pub const ENEMY_HEALTH: i64 = 5 * SCALE;

pub const ENEMY_SPEED: i64 = SCALE;

/// Ranges, in whole units, of the random figures that shape new content:
/// platform sprite in `0..3`, platform height above ground in `0..900`,
/// platform width in `200..400`, enemy distance past the screen edge in
/// `50..200`, enemy height in `0..900`.
pub const PLATFORM_IMAGES: u32 = 3;

pub const SPAWN_HEIGHT: u32 = 900;

pub const PLATFORM_MIN_WIDTH: u32 = 200;

pub const PLATFORM_MAX_WIDTH: u32 = 400;

pub const ENEMY_MIN_LEAD: u32 = 50;

pub const ENEMY_MAX_LEAD: u32 = 200;

/// The random figures one tick may use to create a platform and an enemy.
#[derive(Clone, Copy, Debug, PartialEq, Eq, Structural)]
pub struct Draws {
    pub platform_image: u32,
    pub platform_y: u32,
    pub platform_width: u32,
    pub enemy_lead: u32,
    pub enemy_y: u32,
}

impl Draws {
    pub open spec fn wf(self) -> bool {
        &&& self.platform_image < PLATFORM_IMAGES
        &&& self.platform_y < SPAWN_HEIGHT
        &&& PLATFORM_MIN_WIDTH <= self.platform_width < PLATFORM_MAX_WIDTH
        &&& ENEMY_MIN_LEAD <= self.enemy_lead < ENEMY_MAX_LEAD
        &&& self.enemy_y < SPAWN_HEIGHT
    }
}

/// A new platform just past the right edge of the screen.
pub open spec fn fresh_platform(d: Draws) -> Platform {
    Platform {
        id: 0,
        x: (SCREEN_WIDTH + (d.platform_width * SCALE) / 2) as i64,
        y: (d.platform_y * SCALE) as i64,
        width: (d.platform_width * SCALE) as i64,
        height: PLATFORM_HEIGHT,
        image: d.platform_image,
    }
}

/// A new enemy some way past the right edge of the screen.
pub open spec fn fresh_enemy(d: Draws) -> Enemy {
    Enemy {
        id: 0,
        x: (SCREEN_WIDTH + d.enemy_lead * SCALE) as i64,
        y: (d.enemy_y * SCALE) as i64,
        width: ENEMY_SIZE,
        height: ENEMY_SIZE,
        health: ENEMY_HEALTH,
        speed: ENEMY_SPEED,
        shoot_cooldown: 0,
        image: 0,
    }
}

pub fn fresh_platform_exec(d: &Draws) -> (p: Platform)
    requires
        d.wf(),
    ensures
        p == fresh_platform(*d),
        p.wf(),
{
    let w: i64 = d.platform_width as i64 * SCALE;
    Platform {
        id: 0,
        x: SCREEN_WIDTH + w / 2,
        y: d.platform_y as i64 * SCALE,
        width: w,
        height: PLATFORM_HEIGHT,
        image: d.platform_image,
    }
}

pub fn fresh_enemy_exec(d: &Draws) -> (e: Enemy)
    requires
        d.wf(),
    ensures
        e == fresh_enemy(*d),
        e.wf(),
{
    Enemy {
        id: 0,
        x: SCREEN_WIDTH + d.enemy_lead as i64 * SCALE,
        y: d.enemy_y as i64 * SCALE,
        width: ENEMY_SIZE,
        height: ENEMY_SIZE,
        health: ENEMY_HEALTH,
        speed: ENEMY_SPEED,
        shoot_cooldown: 0,
        image: 0,
    }
}

/// The content generated on one run, in order, and how far that run got.
/// Templates are stored with id `0`: an id is given when one enters the world.
pub struct TimeLoopRecord {
    pub max_camera: i64,
    pub enemies: Vec<Enemy>,
    pub platforms: Vec<Platform>,
    /// The camera stands exactly where the recorded run ended.
    pub playing: bool,
}

pub open spec fn all_wf_enemies(s: Seq<Enemy>) -> bool {
    forall|i: int| 0 <= i < s.len() ==> #[trigger] s[i].wf()
}

pub open spec fn all_wf_platform_seq(s: Seq<Platform>) -> bool {
    forall|i: int| 0 <= i < s.len() ==> #[trigger] s[i].wf()
}

impl TimeLoopRecord {
    pub open spec fn wf(&self) -> bool {
        &&& 0 <= self.max_camera <= LIMIT
        &&& all_wf_enemies(self.enemies@)
        &&& all_wf_platform_seq(self.platforms@)
    }

    pub fn new() -> (r: TimeLoopRecord)
        ensures
            r.max_camera == 0,
            r.enemies@.len() == 0,
            r.platforms@.len() == 0,
            !r.playing,
            r.wf(),
    {
        TimeLoopRecord { max_camera: 0, enemies: Vec::new(), platforms: Vec::new(), playing: false }
    }

    /// A copy with the same content.
    pub fn duplicate(&self) -> (r: TimeLoopRecord)
        ensures
            r.max_camera == self.max_camera,
            r.enemies@ == self.enemies@,
            r.platforms@ == self.platforms@,
            r.playing == self.playing,
    {
        let enemies = self.enemies.clone();
        let platforms = self.platforms.clone();
        assert(enemies@ =~= self.enemies@);
        assert(platforms@ =~= self.platforms@);
        TimeLoopRecord {
            max_camera: self.max_camera,
            enemies: enemies,
            platforms: platforms,
            playing: self.playing,
        }
    }
}

/// The camera is past everything the previous run saw: content is new.
pub open spec fn is_live(camera: i64, reading: &TimeLoopRecord) -> bool {
    camera > reading.max_camera
}

/// The next platform template. Past the recorded distance it is fresh and
/// recorded; within it the oldest recorded one is replayed, or, once the
/// record is used up, a fresh one is made and recorded.
pub fn next_platform(
    reading: &mut TimeLoopRecord,
    storage: &mut TimeLoopRecord,
    camera: i64,
    d: &Draws,
) -> (p: Platform)
    requires
        old(reading).wf(),
        old(storage).wf(),
        d.wf(),
    ensures
        p.wf(),
        final(reading).wf(),
        final(storage).wf(),
        final(reading).max_camera == old(reading).max_camera,
        final(storage).max_camera == old(storage).max_camera,
        final(reading).enemies@ == old(reading).enemies@,
        final(storage).enemies@ == old(storage).enemies@,
        final(reading).playing == old(reading).playing,
        final(storage).playing == old(storage).playing,
        if !is_live(camera, old(reading)) && old(reading).platforms@.len() > 0 {
            &&& p == old(reading).platforms@[0]
            &&& final(reading).platforms@ == old(reading).platforms@.skip(1)
            &&& final(storage).platforms@ == old(storage).platforms@
        } else {
            &&& p == fresh_platform(*d)
            &&& final(reading).platforms@ == old(reading).platforms@
            &&& final(storage).platforms@ == old(storage).platforms@.push(p)
        },
{
    if camera <= reading.max_camera && reading.platforms.len() > 0 {
        let p = reading.platforms.remove(0);
        assert(reading.platforms@ =~= old(reading).platforms@.skip(1));
        assert(old(reading).platforms@[0].wf());
        p
    } else {
        let p = fresh_platform_exec(d);
        storage.platforms.push(p);
        p
    }
}

/// The next enemy template, chosen as for platforms.
pub fn next_enemy(reading: &mut TimeLoopRecord, storage: &mut TimeLoopRecord, camera: i64, d: &Draws) -> (e: Enemy)
    requires
        old(reading).wf(),
        old(storage).wf(),
        d.wf(),
    ensures
        e.wf(),
        final(reading).wf(),
        final(storage).wf(),
        final(reading).max_camera == old(reading).max_camera,
        final(storage).max_camera == old(storage).max_camera,
        final(reading).platforms@ == old(reading).platforms@,
        final(storage).platforms@ == old(storage).platforms@,
        final(reading).playing == old(reading).playing,
        final(storage).playing == old(storage).playing,
        if !is_live(camera, old(reading)) && old(reading).enemies@.len() > 0 {
            &&& e == old(reading).enemies@[0]
            &&& final(reading).enemies@ == old(reading).enemies@.skip(1)
            &&& final(storage).enemies@ == old(storage).enemies@
        } else {
            &&& e == fresh_enemy(*d)
            &&& final(reading).enemies@ == old(reading).enemies@
            &&& final(storage).enemies@ == old(storage).enemies@.push(e)
        },
{
    if camera <= reading.max_camera && reading.enemies.len() > 0 {
        let e = reading.enemies.remove(0);
        assert(reading.enemies@ =~= old(reading).enemies@.skip(1));
        assert(old(reading).enemies@[0].wf());
        e
    } else {
        let e = fresh_enemy_exec(d);
        storage.enemies.push(e);
        e
    }
}

} // verus!
