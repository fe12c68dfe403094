use vstd::prelude::*;
use crate::num::{LIMIT, in_limit};
use crate::entity::{Keys, Bullet, Enemy, Platform};
use crate::registry::{Registry, Keyed, is_smallest_free, smallest_free};
use crate::vehicle::{Vehicle, VehicleKind, Rig, driven, drive, all_wf_platforms};
use crate::timeloop::{TimeLoopRecord, all_wf_enemies};

verus! {

pub open spec fn all_wf_vehicles(s: Seq<Vehicle>) -> bool {
    forall|i: int| 0 <= i < s.len() ==> #[trigger] s[i].wf()
}

pub open spec fn all_wf_bullets(s: Seq<Bullet>) -> bool {
    forall|i: int| 0 <= i < s.len() ==> #[trigger] s[i].wf()
}

/// The cursor after one tick of replay: on by one unless on the last frame.
pub open spec fn next_step(v: Vehicle) -> usize {
    if v.step + 1 < v.moves@.len() {
        (v.step + 1) as usize
    } else {
        v.step
    }
}

/// A clone's rig and cursor after one tick among the platforms `ps`: an
/// active clone drives on the frame under its cursor; a dead one stays put.
pub open spec fn clone_after(o: Vehicle, ps: Seq<Platform>) -> (Rig, usize) {
    if o.rig.active {
        (driven(o.rig, o.frame(), ps).0, next_step(o))
    } else {
        (o.rig, o.step)
    }
}

/// The bullets after a vehicle's shot, if any, joins them under the smallest
/// free id (a full collection takes no more).
pub open spec fn with_shot(bs: Seq<Bullet>, shot: Option<Bullet>) -> Seq<Bullet> {
    match shot {
        Some(b) => if bs.len() < u32::MAX {
            bs.push(Bullet { id: smallest_free(bs), ..b })
        } else {
            bs
        },
        None => bs,
    }
}

/// The player's bullets after each clone of `cs` in play has had its turn
/// among the platforms `ps`, in order.
pub open spec fn clone_shots(bs: Seq<Bullet>, cs: Seq<Vehicle>, ps: Seq<Platform>) -> Seq<Bullet>
    decreases cs.len(),
{
    if cs.len() == 0 {
        bs
    } else {
        let prev = clone_shots(bs, cs.drop_last(), ps);
        let c = cs.last();
        if c.rig.active {
            with_shot(prev, driven(c.rig, c.frame(), ps).1)
        } else {
            prev
        }
    }
}

/// `b` starts with every entry of `a`, in order.
pub open spec fn extends<T>(a: Seq<T>, b: Seq<T>) -> bool {
    &&& a.len() <= b.len()
    &&& forall|j: int| 0 <= j < a.len() ==> b[j] == a[j]
}

/// Everything that decides what content the world generates: the camera,
/// the two generator timers and the time-loop records' contents.
pub struct GenState {
    pub camera: i64,
    pub enemy_cooldown: i64,
    pub platform_cooldown: i64,
    pub reading_max: i64,
    pub reading_enemies: Seq<Enemy>,
    pub reading_platforms: Seq<Platform>,
    pub storage_enemies: Seq<Enemy>,
    pub storage_platforms: Seq<Platform>,
}

/// The whole simulation: the live player, its clones, everything they meet,
/// the camera and the two time-loop records.
pub struct World {
    pub player: Vehicle,
    pub clones: Registry<Vehicle>,
    pub player_bullets: Registry<Bullet>,
    pub enemy_bullets: Registry<Bullet>,
    pub enemies: Registry<Enemy>,
    pub platforms: Registry<Platform>,
    pub in_run: bool,
    /// The keys down at the moment.
    pub pressed_keys: Keys,
    pub platform_cooldown: i64,
    pub enemy_cooldown: i64,
    /// How far the camera has scrolled since the run began, in whole units.
    pub camera_distance: i64,
    /// The record written on this run.
    pub storage: TimeLoopRecord,
    /// The record of earlier runs, replayed on this one.
    pub reading: TimeLoopRecord,
}

impl World {
    pub open spec fn wf(&self) -> bool {
        &&& self.player.wf()
        &&& self.clones.wf()
        &&& all_wf_vehicles(self.clones.items@)
        &&& self.player_bullets.wf()
        &&& all_wf_bullets(self.player_bullets.items@)
        &&& self.enemy_bullets.wf()
        &&& all_wf_bullets(self.enemy_bullets.items@)
        &&& self.enemies.wf()
        &&& all_wf_enemies(self.enemies.items@)
        &&& self.platforms.wf()
        &&& all_wf_platforms(self.platforms.items@)
        &&& in_limit(self.platform_cooldown)
        &&& in_limit(self.enemy_cooldown)
        &&& 0 <= self.camera_distance <= LIMIT
        &&& self.storage.wf()
        &&& self.reading.wf()
    }

    /// A world at the start of the first run, with a fresh Base vehicle.
    pub fn new() -> (w: World)
        ensures
            w.wf(),
            w.in_run,
            w.camera_distance == 0,
            w.clones.items@.len() == 0,
            w.enemies.items@.len() == 0,
            w.platforms.items@.len() == 0,
            w.player_bullets.items@.len() == 0,
            w.enemy_bullets.items@.len() == 0,
            w.player.id == 0,
            w.player.rig == crate::vehicle::fresh_rig(VehicleKind::Base),
            w.player.moves@.len() == 0,
            w.player.step == 0,
            w.pressed_keys == crate::vehicle::idle_keys(),
            w.platform_cooldown == 0,
            w.enemy_cooldown == 0,
            w.storage.max_camera == 0 && w.storage.enemies@.len() == 0 && w.storage.platforms@.len() == 0,
            w.reading.max_camera == 0 && w.reading.enemies@.len() == 0 && w.reading.platforms@.len() == 0,
            !w.storage.playing && !w.reading.playing,
    {
        World {
            player: Vehicle::new(0, VehicleKind::Base),
            clones: Registry::new(),
            player_bullets: Registry::new(),
            enemy_bullets: Registry::new(),
            enemies: Registry::new(),
            platforms: Registry::new(),
            in_run: true,
            pressed_keys: Keys::idle(),
            platform_cooldown: 0,
            enemy_cooldown: 0,
            camera_distance: 0,
            storage: TimeLoopRecord::new(),
            reading: TimeLoopRecord::new(),
        }
    }

    pub open spec fn gen_state(&self) -> GenState {
        GenState {
            camera: self.camera_distance,
            enemy_cooldown: self.enemy_cooldown,
            platform_cooldown: self.platform_cooldown,
            reading_max: self.reading.max_camera,
            reading_enemies: self.reading.enemies@,
            reading_platforms: self.reading.platforms@,
            storage_enemies: self.storage.enemies@,
            storage_platforms: self.storage.platforms@,
        }
    }

    /// The scalar state and the records are the same in both worlds.
    pub open spec fn same_scene(&self, o: &World) -> bool {
        &&& self.in_run == o.in_run
        &&& self.pressed_keys == o.pressed_keys
        &&& self.platform_cooldown == o.platform_cooldown
        &&& self.enemy_cooldown == o.enemy_cooldown
        &&& self.camera_distance == o.camera_distance
        &&& self.storage == o.storage
        &&& self.reading == o.reading
    }

    /// Adds a bullet fired by a vehicle under the smallest free id; a full
    /// collection takes no more.
    pub fn spawn_player_bullet(&mut self, b: Bullet) -> (r: Option<u32>)
        requires
            old(self).wf(),
            b.wf(),
        ensures
            final(self).wf(),
            final(self).player_bullets.items@ == with_shot(old(self).player_bullets.items@, Some(b)),
            r matches Some(k) ==> is_smallest_free(old(self).player_bullets.items@, k) && k == smallest_free(old(self).player_bullets.items@)
                && final(self).player_bullets.items@ == old(self).player_bullets.items@.push(Bullet { id: k, ..b }),
            r is None <==> old(self).player_bullets.items@.len() >= u32::MAX,
            r is None ==> final(self).player_bullets.items@ == old(self).player_bullets.items@,
            final(self).player == old(self).player,
            final(self).clones == old(self).clones,
            final(self).enemy_bullets == old(self).enemy_bullets,
            final(self).enemies == old(self).enemies,
            final(self).platforms == old(self).platforms,
            final(self).same_scene(old(self)),
    {
        if self.player_bullets.len() >= u32::MAX as usize {
            return None;
        }
        let k = self.player_bullets.next_id();
        let nb = Bullet { id: k, ..b };
        self.player_bullets.add(nb);
        assert(all_wf_bullets(self.player_bullets.items@)) by {
            assert(self.player_bullets.items@ == old(self).player_bullets.items@.push(nb));
        }
        Some(k)
    }

    /// One tick of the clone at position `i`: an active clone drives on its
    /// recorded frame, and its shot joins the player's bullets.
    pub fn update_clone(&mut self, i: usize)
        requires
            old(self).wf(),
            i < old(self).clones.items@.len(),
        ensures
            final(self).wf(),
            final(self).clones.items@.len() == old(self).clones.items@.len(),
            forall|j: int| 0 <= j < old(self).clones.items@.len() && j != i ==> #[trigger] final(self).clones.items@[j] == old(self).clones.items@[j],
            ({
                let o = old(self).clones.items@[i as int];
                let n = final(self).clones.items@[i as int];
                &&& n.id == o.id
                &&& n.moves@ == o.moves@
                &&& (n.rig, n.step) == clone_after(o, old(self).platforms.items@)
                &&& final(self).player_bullets.items@ == if o.rig.active {
                    with_shot(old(self).player_bullets.items@, driven(o.rig, o.frame(), old(self).platforms.items@).1)
                } else {
                    old(self).player_bullets.items@
                }
            }),
            extends(old(self).player_bullets.items@, final(self).player_bullets.items@),
            final(self).player == old(self).player,
            final(self).enemy_bullets == old(self).enemy_bullets,
            final(self).enemies == old(self).enemies,
            final(self).platforms == old(self).platforms,
            final(self).same_scene(old(self)),
    {
        if !self.clones.items[i].rig.active {
            return;
        }
        let ghost before = self.clones.items@;
        let mut c = self.clones.items.remove(i);
        assert(c == before[i as int]);
        assert(c.wf());
        let frame = c.current_frame();
        let (rig, shot) = drive(c.rig, frame, &self.platforms.items);
        c.rig = rig;
        c.advance();
        self.clones.items.insert(i, c);
        assert(self.clones.items@ =~= before.update(i as int, c));
        assert forall|a: int, b: int|
            0 <= a < self.clones.items@.len() && 0 <= b < self.clones.items@.len() && a != b implies #[trigger] self.clones.items@[a].key()
            != #[trigger] self.clones.items@[b].key() by {
            assert(self.clones.items@[a].key() == before[a].key());
            assert(self.clones.items@[b].key() == before[b].key());
        }
        assert(all_wf_vehicles(self.clones.items@)) by {
            assert forall|j: int| 0 <= j < self.clones.items@.len() implies #[trigger] self.clones.items@[j].wf() by {
                if j != i {
                    assert(self.clones.items@[j] == before[j]);
                }
            }
        }
        match shot {
            Some(b) => {
                self.spawn_player_bullet(b);
            },
            None => {},
        }
    }

    /// One tick of the live player: the keys down now are recorded and then
    /// driven on, and its shot joins the player's bullets.
    pub fn update_player(&mut self)
        requires
            old(self).wf(),
        ensures
            final(self).wf(),
            final(self).player.rig == driven(old(self).player.rig, old(self).pressed_keys, old(self).platforms.items@).0,
            final(self).player.moves@ == old(self).player.moves@.push(old(self).pressed_keys),
            final(self).player.step == old(self).player.moves@.len(),
            final(self).player.id == old(self).player.id,
            final(self).player_bullets.items@ == with_shot(
                old(self).player_bullets.items@,
                driven(old(self).player.rig, old(self).pressed_keys, old(self).platforms.items@).1,
            ),
            extends(old(self).player_bullets.items@, final(self).player_bullets.items@),
            final(self).clones == old(self).clones,
            final(self).enemy_bullets == old(self).enemy_bullets,
            final(self).enemies == old(self).enemies,
            final(self).platforms == old(self).platforms,
            final(self).same_scene(old(self)),
    {
        let k = self.pressed_keys;
        self.player.record(k);
        let frame = self.player.current_frame();
        let (rig, shot) = drive(self.player.rig, frame, &self.platforms.items);
        self.player.rig = rig;
        match shot {
            Some(b) => {
                self.spawn_player_bullet(b);
            },
            None => {},
        }
    }

    /// Every clone in list order, then the live player.
    pub fn update_players(&mut self)
        requires
            old(self).wf(),
        ensures
            final(self).wf(),
            final(self).player.rig == driven(old(self).player.rig, old(self).pressed_keys, old(self).platforms.items@).0,
            final(self).player.moves@ == old(self).player.moves@.push(old(self).pressed_keys),
            final(self).player.id == old(self).player.id,
            final(self).clones.items@.len() == old(self).clones.items@.len(),
            forall|j: int| 0 <= j < old(self).clones.items@.len() ==> ({
                let o = #[trigger] old(self).clones.items@[j];
                let n = final(self).clones.items@[j];
                &&& n.id == o.id
                &&& n.moves@ == o.moves@
                &&& (n.rig, n.step) == clone_after(o, old(self).platforms.items@)
            }),
            final(self).player_bullets.items@ == with_shot(
                clone_shots(old(self).player_bullets.items@, old(self).clones.items@, old(self).platforms.items@),
                driven(old(self).player.rig, old(self).pressed_keys, old(self).platforms.items@).1,
            ),
            extends(old(self).player_bullets.items@, final(self).player_bullets.items@),
            final(self).enemy_bullets == old(self).enemy_bullets,
            final(self).enemies == old(self).enemies,
            final(self).platforms == old(self).platforms,
            final(self).same_scene(old(self)),
    {
        let ghost start = *self;
        assert(start.clones.items@.take(0) =~= Seq::<Vehicle>::empty());
        let n = self.clones.len();
        let mut i: usize = 0;
        while i < n
            invariant
                self.wf(),
                n == start.clones.items@.len(),
                i <= n,
                self.clones.items@.len() == n,
                forall|j: int| 0 <= j < i ==> ({
                    let o = #[trigger] start.clones.items@[j];
                    let c = self.clones.items@[j];
                    &&& c.id == o.id
                    &&& c.moves@ == o.moves@
                    &&& (c.rig, c.step) == clone_after(o, start.platforms.items@)
                }),
                forall|j: int| i <= j < n ==> #[trigger] self.clones.items@[j] == start.clones.items@[j],
                extends(start.player_bullets.items@, self.player_bullets.items@),
                self.player_bullets.items@ == clone_shots(
                    start.player_bullets.items@,
                    start.clones.items@.take(i as int),
                    start.platforms.items@,
                ),
                self.player == start.player,
                self.enemy_bullets == start.enemy_bullets,
                self.enemies == start.enemies,
                self.platforms == start.platforms,
                self.same_scene(&start),
            decreases n - i,
        {
            let ghost mid = *self;
            proof {
                let t = start.clones.items@.take(i + 1);
                assert(t.drop_last() =~= start.clones.items@.take(i as int));
                assert(t.last() == start.clones.items@[i as int]);
            }
            self.update_clone(i);
            assert forall|j: int| 0 <= j < i + 1 implies ({
                let o = #[trigger] start.clones.items@[j];
                let c = self.clones.items@[j];
                &&& c.id == o.id
                &&& c.moves@ == o.moves@
                &&& (c.rig, c.step) == clone_after(o, start.platforms.items@)
            }) by {
                if j < i {
                    assert(self.clones.items@[j] == mid.clones.items@[j]);
                }
            }
            i += 1;
        }
        assert(start.clones.items@.take(n as int) =~= start.clones.items@);
        self.update_player();
    }
}

} // verus!
