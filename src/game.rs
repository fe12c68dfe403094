use vstd::prelude::*;
use rand::rngs::StdRng;
use crate::num::{SCALE, clamp, max_int, add_c, sub_c, max_i64};
use crate::geometry::{Body, overlaps, overlaps_exec};
use crate::entity::{Bullet, Enemy};
use crate::registry::{Keyed, has_key, upsert, unique_keys, lemma_filter_unique, lemma_filter_members};
use crate::vehicle::{Vehicle, Rig, reset_rig, driven};
use crate::timeloop::{Draws, all_wf_enemies};
use crate::combat::{hits_enemy, lemma_hits_same_bounds, lemma_filter_push, hostile_hits, strike_fold};
use crate::rng::roll;
use crate::world::{World, GenState, all_wf_vehicles, all_wf_bullets};
use crate::enemies::enemy_gen;
use crate::platforms::platform_gen;

verus! {

/// The generator state after one tick of a run: the enemy generator, the
/// platform generator, then the camera's advance. The keys pressed play no
/// part in it.
pub open spec fn gen_step(g: GenState, d: Draws) -> GenState {
    let h = platform_gen(enemy_gen(g, d), d);
    GenState { camera: clamp(h.camera + 1) as i64, ..h }
}

/// What one tick from `o` with the draws `d` leads to in `n`. Outside a run
/// nothing changes. In a run the generators step (whatever keys are down),
/// the camera advances, the keys down are recorded, the player drives on
/// them and is carried left by the camera, and the run goes on exactly while
/// the player has health left; the record's furthest distance is kept while
/// the run goes on, and when it ends the run becomes a clone.
pub open spec fn ticked(o: World, n: World, d: Draws) -> bool {
    &&& !o.in_run ==> n == o
    &&& o.in_run ==> {
        &&& n.gen_state() == gen_step(o.gen_state(), d)
        &&& n.camera_distance == clamp(o.camera_distance + 1)
        &&& n.player.moves@ == o.player.moves@.push(o.pressed_keys)
        &&& n.player.id == o.player.id
        &&& n.player.rig.body == shifted(driven(o.player.rig, o.pressed_keys, o.platforms.items@).0.body)
        &&& (n.in_run <==> n.player.rig.health > 0)
    }
    &&& o.in_run && n.in_run ==> n.storage.max_camera == o.storage.max_camera
    &&& o.in_run && !n.in_run ==> {
        &&& n.storage.max_camera == max_int(o.storage.max_camera as int, n.camera_distance as int)
        &&& exists|i: int| 0 <= i < n.clones.items@.len() && ({
            let c = #[trigger] n.clones.items@[i];
            &&& c.id == n.player.id
            &&& c.moves@ == n.player.moves@
            &&& c.step == 0
            &&& c.rig == reset_rig(n.player.rig)
        })
    }
}

/// A body one unit further left.
pub open spec fn shifted(b: Body) -> Body {
    Body { x: clamp(b.x - SCALE) as i64, ..b }
}

pub open spec fn shifted_bullet(b: Bullet) -> Bullet {
    Bullet { x: clamp(b.x - SCALE) as i64, ..b }
}

pub open spec fn shifted_enemy(e: Enemy) -> Enemy {
    Enemy { x: clamp(e.x - SCALE) as i64, ..e }
}

/// A clone after the check for deaths: one with no health left is out of play.
pub open spec fn after_death_check(r: Rig) -> Rig {
    if r.health <= 0 {
        Rig { active: false, ..r }
    } else {
        r
    }
}

pub open spec fn alive(e: Enemy) -> bool {
    e.health > 0
}

fn shift_bullets(bs: &mut Vec<Bullet>)
    requires
        all_wf_bullets(old(bs)@),
    ensures
        final(bs)@ == old(bs)@.map_values(|b: Bullet| shifted_bullet(b)),
        all_wf_bullets(final(bs)@),
{
    let ghost start = bs@;
    let mut i: usize = 0;
    while i < bs.len()
        invariant
            bs@.len() == start.len(),
            i <= start.len(),
            all_wf_bullets(start),
            all_wf_bullets(bs@),
            forall|j: int| 0 <= j < i ==> #[trigger] bs@[j] == shifted_bullet(start[j]),
            forall|j: int| i <= j < start.len() ==> #[trigger] bs@[j] == start[j],
        decreases start.len() - i,
    {
        let b = bs[i];
        assert(start[i as int].wf());
        bs.set(i, Bullet { x: sub_c(b.x, SCALE), ..b });
        i += 1;
    }
    assert(bs@ =~= start.map_values(|b: Bullet| shifted_bullet(b)));
}

fn shift_enemies(es: &mut Vec<Enemy>)
    requires
        all_wf_enemies(old(es)@),
    ensures
        final(es)@ == old(es)@.map_values(|e: Enemy| shifted_enemy(e)),
        all_wf_enemies(final(es)@),
{
    let ghost start = es@;
    let mut i: usize = 0;
    while i < es.len()
        invariant
            es@.len() == start.len(),
            i <= start.len(),
            all_wf_enemies(start),
            all_wf_enemies(es@),
            forall|j: int| 0 <= j < i ==> #[trigger] es@[j] == shifted_enemy(start[j]),
            forall|j: int| i <= j < start.len() ==> #[trigger] es@[j] == start[j],
        decreases start.len() - i,
    {
        let e = es[i];
        assert(start[i as int].wf());
        es.set(i, Enemy { x: sub_c(e.x, SCALE), ..e });
        i += 1;
    }
    assert(es@ =~= start.map_values(|e: Enemy| shifted_enemy(e)));
}

/// Every vehicle one unit further left, keeping ids, inputs and cursors.
fn shift_vehicles(cs: &mut Vec<Vehicle>)
    requires
        all_wf_vehicles(old(cs)@),
    ensures
        final(cs)@.len() == old(cs)@.len(),
        forall|j: int| 0 <= j < old(cs)@.len() ==> {
            let o = #[trigger] old(cs)@[j];
            let n = final(cs)@[j];
            &&& n.id == o.id
            &&& n.moves@ == o.moves@
            &&& n.step == o.step
            &&& n.rig == Rig { body: shifted(o.rig.body), ..o.rig }
        },
        all_wf_vehicles(final(cs)@),
{
    let ghost start = cs@;
    let mut i: usize = 0;
    while i < cs.len()
        invariant
            cs@.len() == start.len(),
            i <= start.len(),
            all_wf_vehicles(start),
            all_wf_vehicles(cs@),
            forall|j: int| 0 <= j < i ==> {
                let o = #[trigger] start[j];
                let n = cs@[j];
                &&& n.id == o.id
                &&& n.moves@ == o.moves@
                &&& n.step == o.step
                &&& n.rig == Rig { body: shifted(o.rig.body), ..o.rig }
            },
            forall|j: int| i <= j < start.len() ==> #[trigger] cs@[j] == start[j],
        decreases start.len() - i,
    {
        assert(start[i as int].wf());
        let ghost before = cs@;
        let mut c = cs.remove(i);
        c.rig.body.x = sub_c(c.rig.body.x, SCALE);
        cs.insert(i, c);
        assert(cs@ =~= before.update(i as int, c));
        assert forall|j: int| 0 <= j < cs@.len() implies #[trigger] cs@[j].wf() by {
            if j != i {
            }
        }
        i += 1;
    }
}

fn mark_dead(cs: &mut Vec<Vehicle>)
    requires
        all_wf_vehicles(old(cs)@),
    ensures
        final(cs)@.len() == old(cs)@.len(),
        forall|j: int| 0 <= j < old(cs)@.len() ==> {
            let o = #[trigger] old(cs)@[j];
            let n = final(cs)@[j];
            &&& n.id == o.id
            &&& n.moves@ == o.moves@
            &&& n.step == o.step
            &&& n.rig == after_death_check(o.rig)
        },
        all_wf_vehicles(final(cs)@),
{
    let ghost start = cs@;
    let mut i: usize = 0;
    while i < cs.len()
        invariant
            cs@.len() == start.len(),
            i <= start.len(),
            all_wf_vehicles(start),
            all_wf_vehicles(cs@),
            forall|j: int| 0 <= j < i ==> {
                let o = #[trigger] start[j];
                let n = cs@[j];
                &&& n.id == o.id
                &&& n.moves@ == o.moves@
                &&& n.step == o.step
                &&& n.rig == after_death_check(o.rig)
            },
            forall|j: int| i <= j < start.len() ==> #[trigger] cs@[j] == start[j],
        decreases start.len() - i,
    {
        assert(start[i as int].wf());
        if cs[i].rig.health <= 0 {
            let ghost before = cs@;
            let mut c = cs.remove(i);
            c.rig.active = false;
            cs.insert(i, c);
            assert(cs@ =~= before.update(i as int, c));
            assert forall|j: int| 0 <= j < cs@.len() implies #[trigger] cs@[j].wf() by {
                if j != i {
                }
            }
        }
        i += 1;
    }
}

fn keep_alive(es: &mut Vec<Enemy>)
    requires
        all_wf_enemies(old(es)@),
    ensures
        final(es)@ == old(es)@.filter(|e: Enemy| alive(e)),
        all_wf_enemies(final(es)@),
        forall|i: int| 0 <= i < final(es)@.len() ==> alive(#[trigger] final(es)@[i]),
{
    let ghost start = es@;
    let ghost pred = |e: Enemy| alive(e);
    let mut out: Vec<Enemy> = Vec::new();
    let mut i: usize = 0;
    assert(start.subrange(0, 0).filter(pred) =~= Seq::<Enemy>::empty()) by {
        reveal(Seq::filter);
    }
    while i < es.len()
        invariant
            es@ == start,
            i <= start.len(),
            all_wf_enemies(start),
            pred == (|e: Enemy| alive(e)),
            out@ == start.subrange(0, i as int).filter(pred),
        decreases start.len() - i,
    {
        let e = es[i];
        assert(start[i as int].wf());
        proof {
            reveal(Seq::filter);
            assert(start.subrange(0, i + 1).drop_last() =~= start.subrange(0, i as int));
            assert(start.subrange(0, i + 1).last() == e);
        }
        let keep = e.health > 0;
        assert(keep == pred(e));
        if keep {
            out.push(e);
        }
        i += 1;
    }
    assert(start.subrange(0, start.len() as int) =~= start);
    proof {
        assert forall|k: int| 0 <= k < out@.len() implies #[trigger] out@[k].wf() && alive(out@[k]) by {
            lemma_filter_members(start, pred);
            start.lemma_filter_pred(pred, k);
            assert(k < start.filter(pred).len());
            let j = choose|j: int| 0 <= j < start.len() && #[trigger] start.filter(pred)[k] == start[j];
            assert(start[j].wf());
        }
    }
    *es = out;
}

proof fn lemma_keys_kept_vehicles(a: Seq<Vehicle>, b: Seq<Vehicle>)
    requires
        unique_keys(a),
        a.len() == b.len(),
        forall|j: int| 0 <= j < a.len() ==> #[trigger] b[j].id == a[j].id,
    ensures
        unique_keys(b),
{
    assert forall|i: int, j: int| 0 <= i < b.len() && 0 <= j < b.len() && i != j implies #[trigger] b[i].key() != #[trigger] b[j].key() by {
        assert(b[i].id == a[i].id);
        assert(b[j].id == a[j].id);
        assert(a[i].key() != a[j].key());
    }
}

impl World {
    /// The camera moves one unit right: every vehicle, bullet and enemy
    /// shifts one unit left and the camera distance grows by one.
    /// (Platforms scroll with their own update.)
    pub fn update_camera(&mut self)
        requires
            old(self).wf(),
        ensures
            final(self).wf(),
            final(self).player.rig == (Rig { body: shifted(old(self).player.rig.body), ..old(self).player.rig }),
            final(self).player.id == old(self).player.id,
            final(self).player.moves == old(self).player.moves,
            final(self).player.step == old(self).player.step,
            final(self).clones.items@.len() == old(self).clones.items@.len(),
            forall|j: int| 0 <= j < old(self).clones.items@.len() ==> {
                let o = #[trigger] old(self).clones.items@[j];
                let n = final(self).clones.items@[j];
                &&& n.id == o.id
                &&& n.moves@ == o.moves@
                &&& n.step == o.step
                &&& n.rig == Rig { body: shifted(o.rig.body), ..o.rig }
            },
            final(self).player_bullets.items@ == old(self).player_bullets.items@.map_values(|b: Bullet| shifted_bullet(b)),
            final(self).enemy_bullets.items@ == old(self).enemy_bullets.items@.map_values(|b: Bullet| shifted_bullet(b)),
            final(self).enemies.items@ == old(self).enemies.items@.map_values(|e: Enemy| shifted_enemy(e)),
            final(self).platforms == old(self).platforms,
            final(self).camera_distance == clamp(old(self).camera_distance + 1),
            final(self).in_run == old(self).in_run,
            final(self).pressed_keys == old(self).pressed_keys,
            final(self).platform_cooldown == old(self).platform_cooldown,
            final(self).enemy_cooldown == old(self).enemy_cooldown,
            final(self).storage == old(self).storage,
            final(self).reading == old(self).reading,
    {
        shift_vehicles(&mut self.clones.items);
        shift_bullets(&mut self.player_bullets.items);
        shift_bullets(&mut self.enemy_bullets.items);
        shift_enemies(&mut self.enemies.items);
        self.player.rig.body.x = sub_c(self.player.rig.body.x, SCALE);
        self.camera_distance = add_c(self.camera_distance, 1);
        proof {
            lemma_keys_kept_vehicles(old(self).clones.items@, self.clones.items@);
            let o = old(self);
            assert forall|j: int| 0 <= j < self.player_bullets.items@.len() implies #[trigger] self.player_bullets.items@[j].key()
                == o.player_bullets.items@[j].key() by {}
            assert forall|j: int| 0 <= j < self.enemy_bullets.items@.len() implies #[trigger] self.enemy_bullets.items@[j].key()
                == o.enemy_bullets.items@[j].key() by {}
            assert forall|j: int| 0 <= j < self.enemies.items@.len() implies #[trigger] self.enemies.items@[j].key()
                == o.enemies.items@[j].key() by {}
            crate::combat::lemma_same_keys_unique(o.player_bullets.items@, self.player_bullets.items@);
            crate::combat::lemma_same_keys_unique(o.enemy_bullets.items@, self.enemy_bullets.items@);
            crate::combat::lemma_same_keys_unique(o.enemies.items@, self.enemies.items@);
        }
    }

    /// Raises the replay signal exactly when the camera stands where the
    /// recorded run ended.
    pub fn update_time_loop(&mut self)
        requires
            old(self).wf(),
        ensures
            final(self).wf(),
            final(self).reading.playing == (old(self).camera_distance == old(self).reading.max_camera),
            final(self).reading.max_camera == old(self).reading.max_camera,
            final(self).reading.enemies == old(self).reading.enemies,
            final(self).reading.platforms == old(self).reading.platforms,
            final(self).enemy_cooldown == old(self).enemy_cooldown,
            final(self).platform_cooldown == old(self).platform_cooldown,
            final(self).player == old(self).player,
            final(self).clones == old(self).clones,
            final(self).player_bullets == old(self).player_bullets,
            final(self).enemy_bullets == old(self).enemy_bullets,
            final(self).enemies == old(self).enemies,
            final(self).platforms == old(self).platforms,
            final(self).camera_distance == old(self).camera_distance,
            final(self).in_run == old(self).in_run,
            final(self).pressed_keys == old(self).pressed_keys,
            final(self).storage == old(self).storage,
    {
        self.reading.playing = self.camera_distance == self.reading.max_camera;
    }

    /// Settles direct hits: every enemy bullet on the player costs it the
    /// bullet's damage and is spent; every player bullet on an enemy damages
    /// each enemy it overlaps and is spent. Nothing moves, so the bullets
    /// left are exactly those that touch nothing.
    #[verifier::rlimit(60)]
    pub fn check_hits(&mut self)
        requires
            old(self).wf(),
        ensures
            final(self).wf(),
            final(self).enemy_bullets.items@ == old(self).enemy_bullets.items@.filter(
                |b: Bullet| !overlaps(b.bounds(), old(self).player.rig.body.bounds()),
            ),
            final(self).player_bullets.items@ == old(self).player_bullets.items@.filter(
                |b: Bullet| !hits_enemy(b, old(self).enemies.items@),
            ),
            final(self).player.rig == (Rig {
                health: hostile_hits(old(self).player.rig.health, old(self).enemy_bullets.items@, old(self).player.rig.body.bounds()),
                ..old(self).player.rig
            }),
            final(self).enemies.items@ == strike_fold(old(self).enemies.items@, old(self).player_bullets.items@),
            final(self).player.rig.body == old(self).player.rig.body,
            final(self).player.id == old(self).player.id,
            final(self).player.moves == old(self).player.moves,
            final(self).player.step == old(self).player.step,
            final(self).clones == old(self).clones,
            final(self).enemies.items@.len() == old(self).enemies.items@.len(),
            forall|j: int| 0 <= j < old(self).enemies.items@.len() ==> (#[trigger] final(self).enemies.items@[j]).bounds() == old(self).enemies.items@[j].bounds(),
            final(self).platforms == old(self).platforms,
            final(self).same_scene(old(self)),
    {
        let ghost o = *self;
        let pb = self.player.rig.body.bounds_exec();
        let ghost ebs = o.enemy_bullets.items@;
        let ghost ekeep = |b: Bullet| !overlaps(b.bounds(), o.player.rig.body.bounds());
        let ghost mut j: int = 0;
        let mut i: usize = 0;
        assert(ebs.take(0).filter(ekeep) =~= Seq::<Bullet>::empty()) by {
            reveal(Seq::filter);
        }
        assert(ebs.take(0) =~= Seq::<Bullet>::empty());
        assert(ebs.skip(0) =~= ebs);
        while i < self.enemy_bullets.items.len()
            invariant
                self.wf(),
                pb == o.player.rig.body.bounds(),
                0 <= j <= ebs.len(),
                ebs == o.enemy_bullets.items@,
                ekeep == (|b: Bullet| !overlaps(b.bounds(), o.player.rig.body.bounds())),
                i == ebs.take(j).filter(ekeep).len(),
                self.enemy_bullets.items@ == ebs.take(j).filter(ekeep) + ebs.skip(j),
                self.player.rig == (Rig {
                    health: hostile_hits(o.player.rig.health, ebs.take(j), o.player.rig.body.bounds()),
                    ..o.player.rig
                }),
                self.player.rig.body == o.player.rig.body,
                self.player.id == o.player.id,
                self.player.moves == o.player.moves,
                self.player.step == o.player.step,
                self.clones == o.clones,
                self.player_bullets == o.player_bullets,
                self.enemies == o.enemies,
                self.platforms == o.platforms,
                self.same_scene(&o),
            decreases self.enemy_bullets.items@.len() - i,
        {
            let ghost done = ebs.take(j).filter(ekeep);
            assert(self.enemy_bullets.items@[i as int] == ebs[j]) by {
                assert(self.enemy_bullets.items@[i as int] == ebs.skip(j)[0]);
            }
            let b = self.enemy_bullets.items[i];
            assert(ebs[j].wf());
            let bb = b.bounds_exec();
            let hit = overlaps_exec(&bb, &pb);
            proof {
                assert(ebs.take(j + 1) =~= ebs.take(j).push(b));
                assert(ebs.take(j + 1).drop_last() =~= ebs.take(j));
                lemma_filter_push(ebs.take(j), b, ekeep);
            }
            if hit {
                self.player.rig.health = sub_c(self.player.rig.health, b.damage);
                let ghost before = self.enemy_bullets.items@;
                self.enemy_bullets.items.remove(i);
                assert(self.enemy_bullets.items@ =~= done + ebs.skip(j + 1));
                assert forall|a: int, c: int|
                    0 <= a < self.enemy_bullets.items@.len() && 0 <= c < self.enemy_bullets.items@.len() && a != c implies #[trigger] self.enemy_bullets.items@[a].key()
                    != #[trigger] self.enemy_bullets.items@[c].key() by {
                    let oa = if a < i { a } else { a + 1 };
                    let oc = if c < i { c } else { c + 1 };
                    assert(self.enemy_bullets.items@[a] == before[oa]);
                    assert(self.enemy_bullets.items@[c] == before[oc]);
                }
                assert forall|k: int| 0 <= k < self.enemy_bullets.items@.len() implies #[trigger] self.enemy_bullets.items@[k].wf() by {
                    let ok = if k < i { k } else { k + 1 };
                    assert(self.enemy_bullets.items@[k] == before[ok]);
                }
            } else {
                assert(self.enemy_bullets.items@ =~= done.push(b) + ebs.skip(j + 1));
                i += 1;
            }
            proof {
                j = j + 1;
            }
        }
        proof {
            if j < ebs.len() {
                assert(self.enemy_bullets.items@.len() == i + ebs.len() - j);
            }
            assert(ebs.take(ebs.len() as int) =~= ebs);
            assert(self.enemy_bullets.items@ =~= ebs.filter(ekeep));
        }
        let ghost pbs = o.player_bullets.items@;
        let ghost pkeep = |b: Bullet| !hits_enemy(b, o.enemies.items@);
        let ghost mut j: int = 0;
        let mut i: usize = 0;
        assert(pbs.take(0).filter(pkeep) =~= Seq::<Bullet>::empty()) by {
            reveal(Seq::filter);
        }
        assert(pbs.take(0) =~= Seq::<Bullet>::empty());
        assert(pbs.skip(0) =~= pbs);
        let ghost m = *self;
        while i < self.player_bullets.items.len()
            invariant
                self.wf(),
                0 <= j <= pbs.len(),
                pbs == o.player_bullets.items@,
                pkeep == (|b: Bullet| !hits_enemy(b, o.enemies.items@)),
                i == pbs.take(j).filter(pkeep).len(),
                self.player_bullets.items@ == pbs.take(j).filter(pkeep) + pbs.skip(j),
                self.enemies.items@ == strike_fold(o.enemies.items@, pbs.take(j)),
                self.enemies.items@.len() == o.enemies.items@.len(),
                forall|k: int| 0 <= k < o.enemies.items@.len() ==> (#[trigger] self.enemies.items@[k]).bounds() == o.enemies.items@[k].bounds(),
                self.enemy_bullets == m.enemy_bullets,
                self.player == m.player,
                self.player.rig.body == o.player.rig.body,
                self.clones == o.clones,
                self.platforms == o.platforms,
                self.same_scene(&o),
            decreases self.player_bullets.items@.len() - i,
        {
            let ghost done = pbs.take(j).filter(pkeep);
            let ghost es0 = self.enemies.items@;
            assert(self.player_bullets.items@[i as int] == pbs[j]) by {
                assert(self.player_bullets.items@[i as int] == pbs.skip(j)[0]);
            }
            let b = self.player_bullets.items[i];
            assert(pbs[j].wf());
            let hit = self.strike_enemies(&b);
            proof {
                lemma_hits_same_bounds(b, o.enemies.items@, es0);
                assert(pbs.take(j + 1) =~= pbs.take(j).push(b));
                assert(pbs.take(j + 1).drop_last() =~= pbs.take(j));
                assert(self.enemies.items@ == strike_fold(o.enemies.items@, pbs.take(j + 1)));
                lemma_filter_push(pbs.take(j), b, pkeep);
                assert forall|k: int| 0 <= k < o.enemies.items@.len() implies (#[trigger] self.enemies.items@[k]).bounds() == o.enemies.items@[k].bounds() by {
                    assert(self.enemies.items@[k] == crate::combat::strike(es0[k], b));
                }
            }
            if hit {
                let ghost before = self.player_bullets.items@;
                self.player_bullets.items.remove(i);
                assert(self.player_bullets.items@ =~= done + pbs.skip(j + 1));
                assert forall|a: int, c: int|
                    0 <= a < self.player_bullets.items@.len() && 0 <= c < self.player_bullets.items@.len() && a != c implies #[trigger] self.player_bullets.items@[a].key()
                    != #[trigger] self.player_bullets.items@[c].key() by {
                    let oa = if a < i { a } else { a + 1 };
                    let oc = if c < i { c } else { c + 1 };
                    assert(self.player_bullets.items@[a] == before[oa]);
                    assert(self.player_bullets.items@[c] == before[oc]);
                }
                assert forall|k: int| 0 <= k < self.player_bullets.items@.len() implies #[trigger] self.player_bullets.items@[k].wf() by {
                    let ok = if k < i { k } else { k + 1 };
                    assert(self.player_bullets.items@[k] == before[ok]);
                }
            } else {
                assert(self.player_bullets.items@ =~= done.push(b) + pbs.skip(j + 1));
                i += 1;
            }
            proof {
                j = j + 1;
            }
        }
        proof {
            if j < pbs.len() {
                assert(self.player_bullets.items@.len() == i + pbs.len() - j);
            }
            assert(pbs.take(pbs.len() as int) =~= pbs);
            assert(self.player_bullets.items@ =~= pbs.filter(pkeep));
        }
    }

    /// Clones with no health left go out of play; enemies with no health
    /// left are removed.
    pub fn check_deaths(&mut self)
        requires
            old(self).wf(),
        ensures
            final(self).wf(),
            final(self).clones.items@.len() == old(self).clones.items@.len(),
            forall|j: int| 0 <= j < old(self).clones.items@.len() ==> {
                let o = #[trigger] old(self).clones.items@[j];
                let n = final(self).clones.items@[j];
                &&& n.id == o.id
                &&& n.moves@ == o.moves@
                &&& n.step == o.step
                &&& n.rig == after_death_check(o.rig)
            },
            final(self).enemies.items@ == old(self).enemies.items@.filter(|e: Enemy| alive(e)),
            forall|i: int| 0 <= i < final(self).enemies.items@.len() ==> alive(#[trigger] final(self).enemies.items@[i]),
            final(self).player == old(self).player,
            final(self).player_bullets == old(self).player_bullets,
            final(self).enemy_bullets == old(self).enemy_bullets,
            final(self).platforms == old(self).platforms,
            final(self).same_scene(old(self)),
    {
        mark_dead(&mut self.clones.items);
        let ghost es = self.enemies.items@;
        keep_alive(&mut self.enemies.items);
        proof {
            lemma_keys_kept_vehicles(old(self).clones.items@, self.clones.items@);
            lemma_filter_unique(es, |e: Enemy| alive(e));
        }
    }

    /// Takes the clone with id `k` out of play; `false` when there is none.
    pub fn kill(&mut self, k: u32) -> (found: bool)
        requires
            old(self).wf(),
        ensures
            final(self).wf(),
            found == has_key(old(self).clones.items@, k),
            final(self).clones.items@.len() == old(self).clones.items@.len(),
            forall|j: int| 0 <= j < old(self).clones.items@.len() ==> {
                let o = #[trigger] old(self).clones.items@[j];
                let n = final(self).clones.items@[j];
                &&& n.id == o.id
                &&& n.moves@ == o.moves@
                &&& n.step == o.step
                &&& n.rig == if o.id == k { Rig { active: false, ..o.rig } } else { o.rig }
            },
            final(self).player == old(self).player,
            final(self).player_bullets == old(self).player_bullets,
            final(self).enemy_bullets == old(self).enemy_bullets,
            final(self).enemies == old(self).enemies,
            final(self).platforms == old(self).platforms,
            final(self).same_scene(old(self)),
    {
        match self.clones.position(k) {
            Some(i) => {
                let ghost before = self.clones.items@;
                assert(before[i as int].wf());
                let mut c = self.clones.items.remove(i);
                c.rig.active = false;
                self.clones.items.insert(i, c);
                assert(self.clones.items@ =~= before.update(i as int, c));
                assert forall|j: int| 0 <= j < before.len() && j != i implies before[j].id != k by {
                    assert(before[j].key() != before[i as int].key());
                }
                assert forall|j: int| 0 <= j < self.clones.items@.len() implies #[trigger] self.clones.items@[j].wf() by {
                    if j != i {
                    }
                }
                proof {
                    lemma_keys_kept_vehicles(before, self.clones.items@);
                }
                true
            },
            None => {
                assert forall|j: int| 0 <= j < old(self).clones.items@.len() implies #[trigger] old(self).clones.items@[j].id != k by {
                    if old(self).clones.items@[j].id == k {
                        assert(old(self).clones.items@[j].key() == k);
                    }
                }
                false
            },
        }
    }

    /// Ends the run: the player's run becomes a clone under the player's id
    /// (replacing an earlier clone with that id), and the record keeps the
    /// furthest camera distance reached.
    #[verifier::rlimit(60)]
    pub fn end_run(&mut self)
        requires
            old(self).wf(),
        ensures
            final(self).wf(),
            !final(self).in_run,
            final(self).storage.max_camera == max_int(old(self).storage.max_camera as int, old(self).camera_distance as int),
            final(self).storage.enemies == old(self).storage.enemies,
            final(self).storage.platforms == old(self).storage.platforms,
            final(self).storage.playing == old(self).storage.playing,
            exists|c: Vehicle| {
                &&& c.id == old(self).player.id
                &&& c.moves@ == old(self).player.moves@
                &&& c.step == 0
                &&& c.rig == reset_rig(old(self).player.rig)
                &&& #[trigger] upsert(old(self).clones.items@, c) == final(self).clones.items@
            },
            exists|i: int| 0 <= i < final(self).clones.items@.len() && ({
                let c = #[trigger] final(self).clones.items@[i];
                &&& c.id == old(self).player.id
                &&& c.moves@ == old(self).player.moves@
                &&& c.step == 0
                &&& c.rig == reset_rig(old(self).player.rig)
            }),
            forall|i: int| 0 <= i < final(self).clones.items@.len() && (#[trigger] final(self).clones.items@[i]).id != old(self).player.id
                ==> old(self).clones.items@.contains(final(self).clones.items@[i]),
            final(self).player == old(self).player,
            final(self).player_bullets == old(self).player_bullets,
            final(self).enemy_bullets == old(self).enemy_bullets,
            final(self).enemies == old(self).enemies,
            final(self).platforms == old(self).platforms,
            final(self).camera_distance == old(self).camera_distance,
            final(self).enemy_cooldown == old(self).enemy_cooldown,
            final(self).platform_cooldown == old(self).platform_cooldown,
            final(self).reading == old(self).reading,
    {
        self.in_run = false;
        let c = self.player.make_clone();
        let ghost cs = self.clones.items@;
        self.clones.add(c);
        proof {
            let k = c.id;
            assert(has_key(self.clones.items@, k));
            let i = choose|i: int| 0 <= i < self.clones.items@.len() && #[trigger] self.clones.items@[i].key() == k;
            if has_key(cs, k) {
                assert(self.clones.items@ == cs.map_values(|x: Vehicle| if x.key() == k { c } else { x }));
                assert(self.clones.items@[i] == c);
                assert forall|j: int| 0 <= j < self.clones.items@.len() && (#[trigger] self.clones.items@[j]).id != k
                    implies cs.contains(self.clones.items@[j]) by {
                    assert(self.clones.items@[j] == cs[j]);
                }
                assert forall|j: int| 0 <= j < self.clones.items@.len() implies #[trigger] self.clones.items@[j].wf() by {
                    if cs[j].key() != k {
                        assert(self.clones.items@[j] == cs[j]);
                    } else {
                        assert(self.clones.items@[j] == c);
                    }
                }
            } else {
                assert(self.clones.items@ == cs.push(c));
                assert(self.clones.items@[cs.len() as int] == c);
                assert forall|j: int| 0 <= j < self.clones.items@.len() && (#[trigger] self.clones.items@[j]).id != k
                    implies cs.contains(self.clones.items@[j]) by {
                    assert(self.clones.items@[j] == cs[j]);
                }
                assert forall|j: int| 0 <= j < self.clones.items@.len() implies #[trigger] self.clones.items@[j].wf() by {
                    if j < cs.len() {
                        assert(self.clones.items@[j] == cs[j]);
                    }
                }
            }
        }
        self.storage.max_camera = max_i64(self.storage.max_camera, self.camera_distance);
    }

    /// One fixed-length tick. Outside a run nothing changes. In a run: the
    /// player and clones, bullets, enemies, hits, deaths, platforms, camera
    /// and replay signal are updated in that order, and the run ends if the
    /// player has no health left.
    #[verifier::rlimit(60)]
    pub fn tick(&mut self, d: &Draws)
        requires
            old(self).wf(),
            d.wf(),
        ensures
            final(self).wf(),
            ticked(*old(self), *final(self), *d),
    {
        if !self.in_run {
            return;
        }
        self.update_players();
        self.update_bullets();
        self.update_enemies(d);
        self.check_hits();
        self.check_deaths();
        self.update_platforms(d);
        self.update_camera();
        self.update_time_loop();
        if self.player.rig.health <= 0 {
            self.end_run();
        }
    }

    /// A tick whose random figures come from `rng`: it is a tick for some
    /// well-formed draws.
    pub fn tick_with(&mut self, rng: &mut StdRng)
        requires
            old(self).wf(),
        ensures
            final(self).wf(),
            exists|d: Draws| d.wf() && #[trigger] ticked(*old(self), *final(self), d),
    {
        let d = roll(rng);
        self.tick(&d);
    }
}

} // verus!
