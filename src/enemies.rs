use vstd::prelude::*;
use crate::num::{SCALE, clamp, sub_c};
use crate::geometry::{Aabb, overlaps, overlaps_exec};
use crate::entity::{Bullet, BulletKind, Enemy};
use crate::registry::{Keyed, is_smallest_free, smallest_free};
use crate::vehicle::{Rig, Vehicle, VehicleKind, BULLET_SIZE, BULLET_SPEED};
use crate::timeloop::{Draws, TimeLoopRecord, next_enemy, fresh_enemy, is_live};
use crate::combat::{hurt, touches, same_targets, lemma_same_targets, lemma_filter_push, CONTACT_DAMAGE, SMASHER_CONTACT_DAMAGE};
use crate::world::{World, GenState, all_wf_bullets, extends};

verus! {

/// Time between an enemy's shots, and how much of it runs down each tick.
pub const ENEMY_RELOAD: i64 = SCALE;

pub const ENEMY_RELOAD_STEP: i64 = 12;

/// How much the generators' timers run down each tick.
pub const SPAWN_STEP: i64 = 12;

/// The enemy after moving left by its speed.
pub open spec fn march(e: Enemy) -> Enemy {
    Enemy { x: clamp(e.x - e.speed) as i64, ..e }
}

/// Whether the enemy shoots this tick, and its timer afterwards.
pub open spec fn shoots(e: Enemy) -> bool {
    e.shoot_cooldown <= 0
}

pub open spec fn reload(e: Enemy) -> Enemy {
    Enemy {
        shoot_cooldown: if shoots(e) { ENEMY_RELOAD } else { clamp(e.shoot_cooldown - ENEMY_RELOAD_STEP) as i64 },
        ..e
    }
}

/// The bullet an enemy fires from where it stands.
pub open spec fn hostile_shot(e: Enemy, id: u32) -> Bullet {
    Bullet {
        id: id,
        kind: BulletKind::Hostile,
        x: e.x,
        y: e.y,
        width: BULLET_SIZE,
        height: BULLET_SIZE,
        speed: BULLET_SPEED,
        damage: SCALE,
        vx: 0,
        vy: 0,
        splash: 0,
        image: 0,
    }
}

/// The player after touching the box `a`: contact costs ten units of
/// health, five for a Smasher.
pub open spec fn bump(r: Rig, a: Aabb) -> Rig {
    if overlaps(a, r.body.bounds()) {
        Rig {
            health: clamp(r.health - (if r.kind == VehicleKind::Smasher { SMASHER_CONTACT_DAMAGE } else { CONTACT_DAMAGE })) as i64,
            ..r
        }
    } else {
        r
    }
}

/// An enemy, after moving, leaves the world: it is past the left edge, has no
/// health left, or touches the player or a clone in play.
pub open spec fn enemy_gone(e: Enemy, player: Aabb, cs: Seq<Vehicle>) -> bool {
    ||| e.x + e.width / 2 <= 0
    ||| e.health <= 0
    ||| overlaps(e.bounds(), player)
    ||| exists|j: int| 0 <= j < cs.len() && touches(#[trigger] cs[j], e.bounds())
}

/// Time between enemy spawns at camera distance `camera`: spawns come
/// faster the further the run goes.
pub open spec fn enemy_delay(camera: i64) -> i64 {
    (4000 * SCALE / (camera + 1000)) as i64
}

/// The enemy template the generator takes next: the oldest recorded one
/// while the camera is within the recorded distance and one is left, a
/// fresh one otherwise.
pub open spec fn enemy_template(reading: &TimeLoopRecord, camera: i64, d: Draws) -> Enemy {
    if !is_live(camera, reading) && reading.enemies@.len() > 0 {
        reading.enemies@[0]
    } else {
        fresh_enemy(d)
    }
}

/// The generator state after the enemy generator's part of a tick.
pub open spec fn enemy_gen(g: GenState, d: Draws) -> GenState {
    if g.enemy_cooldown <= 0 {
        let replay = g.camera <= g.reading_max && g.reading_enemies.len() > 0;
        GenState {
            enemy_cooldown: clamp(enemy_delay(g.camera) - SPAWN_STEP) as i64,
            reading_enemies: if replay { g.reading_enemies.skip(1) } else { g.reading_enemies },
            storage_enemies: if replay { g.storage_enemies } else { g.storage_enemies.push(fresh_enemy(d)) },
            ..g
        }
    } else {
        GenState { enemy_cooldown: clamp(g.enemy_cooldown - SPAWN_STEP) as i64, ..g }
    }
}

/// The enemy bullets after the enemy `e` (already moved) has had its turn:
/// when its timer has run out, its shot joins them under the smallest free id.
pub open spec fn shot_from(bs: Seq<Bullet>, e: Enemy) -> Seq<Bullet> {
    if shoots(e) && bs.len() < u32::MAX {
        bs.push(hostile_shot(e, smallest_free(bs)))
    } else {
        bs
    }
}

/// The enemy bullets after each of the moved enemies `es` has had its turn.
pub open spec fn shots_fold(bs: Seq<Bullet>, es: Seq<Enemy>) -> Seq<Bullet>
    decreases es.len(),
{
    if es.len() == 0 {
        bs
    } else {
        shot_from(shots_fold(bs, es.drop_last()), es.last())
    }
}

/// The player's rig after touching each of the moved enemies `es` in turn.
pub open spec fn bump_fold(r: Rig, es: Seq<Enemy>) -> Rig
    decreases es.len(),
{
    if es.len() == 0 {
        r
    } else {
        bump(bump_fold(r, es.drop_last()), es.last().bounds())
    }
}

/// A clone's rig after touching each of the moved enemies `es` in turn.
pub open spec fn hurt_fold(r: Rig, es: Seq<Enemy>) -> Rig
    decreases es.len(),
{
    if es.len() == 0 {
        r
    } else {
        hurt(hurt_fold(r, es.drop_last()), es.last().bounds(), CONTACT_DAMAGE, SMASHER_CONTACT_DAMAGE)
    }
}

impl World {
    /// One tick of the enemy at position `i`. It moves left, hurts the
    /// player and every clone in play it touches, and shoots when its timer
    /// has run out. It leaves the world if it touched any of them, is dead,
    /// or is past the left edge. Says whether it left.
    #[verifier::rlimit(60)]
    pub fn update_enemy(&mut self, i: usize) -> (gone: bool)
        requires
            old(self).wf(),
            i < old(self).enemies.items@.len(),
        ensures
            final(self).wf(),
            ({
                let e = march(old(self).enemies.items@[i as int]);
                let hit_player = overlaps(e.bounds(), old(self).player.rig.body.bounds());
                let hit_clone = exists|j: int| 0 <= j < old(self).clones.items@.len() && touches(#[trigger] old(self).clones.items@[j], e.bounds());
                let eb = old(self).enemy_bullets.items@;
                &&& gone == (e.x + e.width / 2 <= 0 || e.health <= 0 || hit_player || hit_clone)
                &&& final(self).enemies.items@ == if gone {
                    old(self).enemies.items@.remove(i as int)
                } else {
                    old(self).enemies.items@.update(i as int, reload(e))
                }
                &&& final(self).player.rig == bump(old(self).player.rig, e.bounds())
                &&& final(self).clones.items@.len() == old(self).clones.items@.len()
                &&& forall|j: int| 0 <= j < old(self).clones.items@.len() ==> {
                    let o = #[trigger] old(self).clones.items@[j];
                    let n = final(self).clones.items@[j];
                    &&& n.id == o.id
                    &&& n.moves@ == o.moves@
                    &&& n.step == o.step
                    &&& n.rig == hurt(o.rig, e.bounds(), CONTACT_DAMAGE, SMASHER_CONTACT_DAMAGE)
                }
                &&& final(self).enemy_bullets.items@ == shot_from(eb, e)
            }),
            final(self).player.id == old(self).player.id,
            final(self).player.moves == old(self).player.moves,
            final(self).player.step == old(self).player.step,
            final(self).player_bullets == old(self).player_bullets,
            final(self).platforms == old(self).platforms,
            final(self).same_scene(old(self)),
    {
        assert(old(self).enemies.items@[i as int].wf());
        let e0 = self.enemies.items[i];
        let e = Enemy { x: sub_c(e0.x, e0.speed), ..e0 };
        let ebox = e.bounds_exec();
        let pb = self.player.rig.body.bounds_exec();
        let hit_player = overlaps_exec(&ebox, &pb);
        if hit_player {
            let dmg = if self.player.rig.kind == VehicleKind::Smasher { SMASHER_CONTACT_DAMAGE } else { CONTACT_DAMAGE };
            self.player.rig.health = sub_c(self.player.rig.health, dmg);
        }
        let hit_clone = self.hurt_clones(&ebox, CONTACT_DAMAGE, SMASHER_CONTACT_DAMAGE);
        let mut next = e;
        if e.shoot_cooldown <= 0 {
            if self.enemy_bullets.len() < u32::MAX as usize {
                let k = self.enemy_bullets.next_id();
                let shot = Bullet {
                    id: k,
                    kind: BulletKind::Hostile,
                    x: e.x,
                    y: e.y,
                    width: BULLET_SIZE,
                    height: BULLET_SIZE,
                    speed: BULLET_SPEED,
                    damage: SCALE,
                    vx: 0,
                    vy: 0,
                    splash: 0,
                    image: 0,
                };
                let ghost eb = self.enemy_bullets.items@;
                self.enemy_bullets.add(shot);
                assert(self.enemy_bullets.items@ == eb.push(shot));
                assert(all_wf_bullets(self.enemy_bullets.items@)) by {
                    assert forall|j: int| 0 <= j < self.enemy_bullets.items@.len() implies #[trigger] self.enemy_bullets.items@[j].wf() by {
                        if j < eb.len() {
                            assert(self.enemy_bullets.items@[j] == eb[j]);
                        }
                    }
                }
            }
            next = Enemy { shoot_cooldown: ENEMY_RELOAD, ..e };
        } else {
            next = Enemy { shoot_cooldown: sub_c(e.shoot_cooldown, ENEMY_RELOAD_STEP), ..e };
        }
        let gone = e.x + e.width / 2 <= 0 || e.health <= 0 || hit_player || hit_clone;
        let ghost before = self.enemies.items@;
        if gone {
            self.enemies.items.remove(i);
            assert forall|a: int, c: int|
                0 <= a < self.enemies.items@.len() && 0 <= c < self.enemies.items@.len() && a != c implies #[trigger] self.enemies.items@[a].key()
                != #[trigger] self.enemies.items@[c].key() by {
                let oa = if a < i { a } else { a + 1 };
                let oc = if c < i { c } else { c + 1 };
                assert(self.enemies.items@[a] == before[oa]);
                assert(self.enemies.items@[c] == before[oc]);
            }
            assert forall|j: int| 0 <= j < self.enemies.items@.len() implies #[trigger] self.enemies.items@[j].wf() by {
                let oj = if j < i { j } else { j + 1 };
                assert(self.enemies.items@[j] == before[oj]);
            }
        } else {
            self.enemies.items.set(i, next);
            assert forall|a: int, c: int|
                0 <= a < self.enemies.items@.len() && 0 <= c < self.enemies.items@.len() && a != c implies #[trigger] self.enemies.items@[a].key()
                != #[trigger] self.enemies.items@[c].key() by {
                assert(self.enemies.items@[a].key() == before[a].key());
                assert(self.enemies.items@[c].key() == before[c].key());
            }
            assert forall|j: int| 0 <= j < self.enemies.items@.len() implies #[trigger] self.enemies.items@[j].wf() by {
                if j != i {
                    assert(self.enemies.items@[j] == before[j]);
                }
            }
        }
        gone
    }

    /// The enemy generator: when its timer has run out, the next enemy
    /// template (replayed or fresh, see `next_enemy`) enters the world under
    /// the smallest free id and the timer restarts at `enemy_delay`; the timer
    /// then runs down by one step.
    pub fn spawn_enemy(&mut self, d: &Draws)
        requires
            old(self).wf(),
            d.wf(),
        ensures
            final(self).wf(),
            final(self).gen_state() == enemy_gen(old(self).gen_state(), *d),
            if old(self).enemy_cooldown <= 0 {
                let t = enemy_template(&old(self).reading, old(self).camera_distance, *d);
                &&& (old(self).enemies.items@.len() < u32::MAX ==> final(self).enemies.items@ == old(self).enemies.items@.push(
                    Enemy { id: smallest_free(old(self).enemies.items@), ..t },
                ))
                &&& (old(self).enemies.items@.len() >= u32::MAX ==> final(self).enemies == old(self).enemies)
                &&& final(self).enemy_cooldown == clamp(enemy_delay(old(self).camera_distance) - SPAWN_STEP)
                &&& if !is_live(old(self).camera_distance, &old(self).reading) && old(self).reading.enemies@.len() > 0 {
                    &&& final(self).reading.enemies@ == old(self).reading.enemies@.skip(1)
                    &&& final(self).storage.enemies@ == old(self).storage.enemies@
                } else {
                    &&& final(self).reading.enemies@ == old(self).reading.enemies@
                    &&& final(self).storage.enemies@ == old(self).storage.enemies@.push(t)
                }
            } else {
                &&& final(self).enemies == old(self).enemies
                &&& final(self).enemy_cooldown == clamp(old(self).enemy_cooldown - SPAWN_STEP)
                &&& final(self).reading == old(self).reading
                &&& final(self).storage == old(self).storage
            },
            final(self).reading.platforms@ == old(self).reading.platforms@,
            final(self).storage.platforms@ == old(self).storage.platforms@,
            final(self).reading.max_camera == old(self).reading.max_camera,
            final(self).storage.max_camera == old(self).storage.max_camera,
            final(self).player == old(self).player,
            final(self).clones == old(self).clones,
            final(self).player_bullets == old(self).player_bullets,
            final(self).enemy_bullets == old(self).enemy_bullets,
            final(self).platforms == old(self).platforms,
            final(self).camera_distance == old(self).camera_distance,
            final(self).platform_cooldown == old(self).platform_cooldown,
            final(self).in_run == old(self).in_run,
            final(self).pressed_keys == old(self).pressed_keys,
    {
        if self.enemy_cooldown <= 0 {
            let cam = self.camera_distance;
            let t = next_enemy(&mut self.reading, &mut self.storage, cam, d);
            if self.enemies.len() < u32::MAX as usize {
                let k = self.enemies.next_id();
                let ne = Enemy { id: k, ..t };
                let ghost es = self.enemies.items@;
                self.enemies.add(ne);
                assert(self.enemies.items@ == es.push(ne));
                assert forall|j: int| 0 <= j < self.enemies.items@.len() implies #[trigger] self.enemies.items@[j].wf() by {
                    if j < es.len() {
                        assert(self.enemies.items@[j] == es[j]);
                    }
                }
            }
            assert(0 < cam + 1000);
            let delay: i64 = 4000 * SCALE / (cam + 1000);
            assert(0 <= delay <= 4000 * SCALE) by (nonlinear_arith)
                requires
                    delay == 4000 * SCALE / (cam + 1000),
                    cam >= 0,
            ;
            self.enemy_cooldown = sub_c(delay, SPAWN_STEP);
        } else {
            self.enemy_cooldown = sub_c(self.enemy_cooldown, SPAWN_STEP);
        }
    }

    /// One tick of every enemy in list order, then the enemy generator. An
    /// enemy's fate depends only on where things are, so the enemies that
    /// stay are those that, after moving, are neither dead, past the left
    /// edge, nor touching the player or a clone in play; a new one may
    /// follow them.
    #[verifier::rlimit(60)]
    pub fn update_enemies(&mut self, d: &Draws)
        requires
            old(self).wf(),
            d.wf(),
        ensures
            final(self).wf(),
            ({
                let moved = old(self).enemies.items@.map_values(|e: Enemy| march(e));
                let kept = moved.filter(
                    |e: Enemy| !enemy_gone(e, old(self).player.rig.body.bounds(), old(self).clones.items@),
                ).map_values(|e: Enemy| reload(e));
                let t = enemy_template(&old(self).reading, old(self).camera_distance, *d);
                &&& final(self).enemies.items@ == if old(self).enemy_cooldown <= 0 && kept.len() < u32::MAX {
                    kept.push(Enemy { id: smallest_free(kept), ..t })
                } else {
                    kept
                }
                &&& extends(kept, final(self).enemies.items@)
                &&& final(self).enemies.items@.len() <= kept.len() + 1
                &&& final(self).enemy_bullets.items@ == shots_fold(old(self).enemy_bullets.items@, moved)
                &&& final(self).player.rig == bump_fold(old(self).player.rig, moved)
                &&& final(self).clones.items@.len() == old(self).clones.items@.len()
                &&& forall|k: int| 0 <= k < old(self).clones.items@.len() ==> {
                    let o = #[trigger] old(self).clones.items@[k];
                    let n = final(self).clones.items@[k];
                    &&& n.id == o.id
                    &&& n.moves@ == o.moves@
                    &&& n.step == o.step
                    &&& n.rig == hurt_fold(o.rig, moved)
                }
            }),
            extends(old(self).enemy_bullets.items@, final(self).enemy_bullets.items@),
            final(self).player.rig.body == old(self).player.rig.body,
            final(self).player.id == old(self).player.id,
            final(self).player.moves == old(self).player.moves,
            final(self).player.step == old(self).player.step,
            same_targets(old(self).clones.items@, final(self).clones.items@),
            final(self).gen_state() == enemy_gen(old(self).gen_state(), *d),
            final(self).player_bullets == old(self).player_bullets,
            final(self).platforms == old(self).platforms,
            final(self).camera_distance == old(self).camera_distance,
            final(self).platform_cooldown == old(self).platform_cooldown,
            final(self).in_run == old(self).in_run,
            final(self).pressed_keys == old(self).pressed_keys,
            final(self).reading.platforms@ == old(self).reading.platforms@,
            final(self).storage.platforms@ == old(self).storage.platforms@,
            final(self).reading.max_camera == old(self).reading.max_camera,
            final(self).storage.max_camera == old(self).storage.max_camera,
    {
        let ghost o = *self;
        let ghost es = o.enemies.items@;
        let ghost keep = |e: Enemy| !enemy_gone(e, o.player.rig.body.bounds(), o.clones.items@);
        let ghost mut j: int = 0;
        let mut i: usize = 0;
        assert(es.take(0).map_values(|e: Enemy| march(e)).filter(keep) =~= Seq::<Enemy>::empty()) by {
            reveal(Seq::filter);
        }
        assert(es.take(0).map_values(|e: Enemy| march(e)).filter(keep).map_values(|e: Enemy| reload(e)) =~= Seq::<Enemy>::empty());
        assert(es.skip(0) =~= es);
        assert(es.take(0).map_values(|e: Enemy| march(e)) =~= Seq::<Enemy>::empty());
        while i < self.enemies.items.len()
            invariant
                self.wf(),
                0 <= j <= es.len(),
                keep == (|e: Enemy| !enemy_gone(e, o.player.rig.body.bounds(), o.clones.items@)),
                i == es.take(j).map_values(|e: Enemy| march(e)).filter(keep).len(),
                self.enemies.items@ == es.take(j).map_values(|e: Enemy| march(e)).filter(keep).map_values(|e: Enemy| reload(e)) + es.skip(j),
                extends(o.enemy_bullets.items@, self.enemy_bullets.items@),
                self.enemy_bullets.items@ == shots_fold(o.enemy_bullets.items@, es.take(j).map_values(|e: Enemy| march(e))),
                self.player.rig == bump_fold(o.player.rig, es.take(j).map_values(|e: Enemy| march(e))),
                self.clones.items@.len() == o.clones.items@.len(),
                forall|k: int| 0 <= k < o.clones.items@.len() ==> {
                    let oc = #[trigger] o.clones.items@[k];
                    let n = self.clones.items@[k];
                    &&& n.id == oc.id
                    &&& n.moves@ == oc.moves@
                    &&& n.step == oc.step
                    &&& n.rig == hurt_fold(oc.rig, es.take(j).map_values(|e: Enemy| march(e)))
                },
                self.player.rig.body == o.player.rig.body,
                self.player.id == o.player.id,
                self.player.moves == o.player.moves,
                self.player.step == o.player.step,
                same_targets(o.clones.items@, self.clones.items@),
                self.player_bullets == o.player_bullets,
                self.platforms == o.platforms,
                self.same_scene(&o),
            decreases self.enemies.items@.len() - i,
        {
            let ghost before = *self;
            let ghost marched = es.take(j).map_values(|e: Enemy| march(e));
            let ghost done = marched.filter(keep);
            assert(done.map_values(|e: Enemy| reload(e)).len() == done.len());
            assert(self.enemies.items@[i as int] == es[j]) by {
                assert(self.enemies.items@[i as int] == es.skip(j)[0]);
            }
            let gone = self.update_enemy(i);
            proof {
                let e = march(es[j]);
                lemma_same_targets(e.bounds(), o.clones.items@, before.clones.items@);
                assert(gone == !keep(e));
                assert(es.take(j + 1).map_values(|x: Enemy| march(x)) =~= marched.push(e));
                lemma_filter_push(marched, e, keep);
                if gone {
                    assert(self.enemies.items@ =~= done.map_values(|x: Enemy| reload(x)) + es.skip(j + 1));
                } else {
                    assert(done.push(e).map_values(|x: Enemy| reload(x)) =~= done.map_values(|x: Enemy| reload(x)).push(reload(e)));
                    assert(self.enemies.items@ =~= done.push(e).map_values(|x: Enemy| reload(x)) + es.skip(j + 1));
                }
                assert forall|k: int| 0 <= k < o.clones.items@.len() implies (#[trigger] self.clones.items@[k]).rig.body
                    == o.clones.items@[k].rig.body && self.clones.items@[k].rig.active == o.clones.items@[k].rig.active by {
                    let c0 = before.clones.items@[k];
                    assert(self.clones.items@[k].rig == hurt(c0.rig, e.bounds(), CONTACT_DAMAGE, SMASHER_CONTACT_DAMAGE));
                }
                let m2 = marched.push(e);
                assert(m2.drop_last() =~= marched);
                assert(m2.last() == e);
                assert(self.enemy_bullets.items@ == shots_fold(o.enemy_bullets.items@, m2));
                assert(self.player.rig == bump_fold(o.player.rig, m2));
                assert forall|k: int| 0 <= k < o.clones.items@.len() implies {
                    let oc = #[trigger] o.clones.items@[k];
                    let n = self.clones.items@[k];
                    &&& n.id == oc.id
                    &&& n.moves@ == oc.moves@
                    &&& n.step == oc.step
                    &&& n.rig == hurt_fold(oc.rig, m2)
                } by {
                    let c0 = before.clones.items@[k];
                    assert(c0.rig == hurt_fold(o.clones.items@[k].rig, marched));
                }
                j = j + 1;
            }
            if !gone {
                i += 1;
            }
        }
        proof {
            if j < es.len() {
                assert(self.enemies.items@.len() == i + es.len() - j);
            }
            assert(es.take(es.len() as int) =~= es);
            assert(self.enemies.items@ =~= es.map_values(|e: Enemy| march(e)).filter(keep).map_values(|e: Enemy| reload(e)));
        }
        let ghost mid = *self;
        self.spawn_enemy(d);
        proof {
            if mid.enemy_cooldown <= 0 && mid.enemies.items@.len() < u32::MAX {
                let t = enemy_template(&mid.reading, mid.camera_distance, *d);
                assert(self.enemies.items@ == mid.enemies.items@.push(Enemy { id: smallest_free(mid.enemies.items@), ..t }));
            }
        }
    }
}

} // verus!
