use vstd::prelude::*;
use crate::num::{SCALE, clamp, in_limit, add_c, sub_c};
use crate::geometry::{Aabb, overlaps, overlaps_exec};
use crate::entity::{Bullet, BulletKind, Enemy, Platform, off_screen, off_screen_exec};
use crate::registry::{Keyed, unique_keys, lemma_filter_unique};
use crate::vehicle::{Vehicle, VehicleKind, Rig, SHELL_GRAVITY, BULLET_SPEED};
use crate::timeloop::all_wf_enemies;
use crate::world::{World, all_wf_vehicles, all_wf_bullets};

verus! {

/// Damage a vehicle takes from an enemy's bullet or from touching an enemy;
/// a Smasher takes the lighter contact damage.
pub const CONTACT_DAMAGE: i64 = 10 * SCALE;

pub const SMASHER_CONTACT_DAMAGE: i64 = 5 * SCALE;

/// A bullet's position after one tick of flight.
pub open spec fn fly(b: Bullet) -> Bullet {
    match b.kind {
        BulletKind::Straight => Bullet { x: clamp(b.x + BULLET_SPEED) as i64, ..b },
        BulletKind::Shell => Bullet {
            x: clamp(b.x + b.vx) as i64,
            y: clamp(b.y + b.vy) as i64,
            vy: clamp(b.vy - SHELL_GRAVITY) as i64,
            ..b
        },
        BulletKind::Hostile => Bullet { x: clamp(b.x - b.speed) as i64, ..b },
    }
}

pub fn fly_exec(b: Bullet) -> (r: Bullet)
    requires
        b.wf(),
    ensures
        r == fly(b),
        r.wf(),
{
    match b.kind {
        BulletKind::Straight => Bullet { x: add_c(b.x, BULLET_SPEED), ..b },
        BulletKind::Shell => Bullet {
            x: add_c(b.x, b.vx),
            y: add_c(b.y, b.vy),
            vy: sub_c(b.vy, SHELL_GRAVITY),
            ..b
        },
        BulletKind::Hostile => Bullet { x: sub_c(b.x, b.speed), ..b },
    }
}

pub open spec fn hits_platform(a: Aabb, ps: Seq<Platform>) -> bool {
    exists|i: int| 0 <= i < ps.len() && overlaps(a, #[trigger] ps[i].bounds())
}

/// An enemy after a bullet passes: it loses the bullet's damage if they overlap.
pub open spec fn strike(e: Enemy, b: Bullet) -> Enemy {
    if overlaps(b.bounds(), e.bounds()) {
        Enemy { health: clamp(e.health - b.damage) as i64, ..e }
    } else {
        e
    }
}

pub open spec fn hits_enemy(b: Bullet, es: Seq<Enemy>) -> bool {
    exists|i: int| 0 <= i < es.len() && overlaps(b.bounds(), #[trigger] es[i].bounds())
}

pub open spec fn abs(v: int) -> int {
    if v < 0 { -v } else { v }
}

/// An enemy after a shell bursts: it loses the shell's damage if it lies
/// within the blast reach on both axes.
pub open spec fn blast(e: Enemy, b: Bullet) -> Enemy {
    if abs(b.x - e.x) < b.splash && abs(b.y - e.y) < b.splash {
        Enemy { health: clamp(e.health - b.damage) as i64, ..e }
    } else {
        e
    }
}

/// A vehicle's health after touching the box `a`: dead clones are out of play.
pub open spec fn hurt(r: Rig, a: Aabb, full: i64, light: i64) -> Rig {
    if r.active && overlaps(a, r.body.bounds()) {
        Rig { health: clamp(r.health - (if r.kind == VehicleKind::Smasher { light } else { full })) as i64, ..r }
    } else {
        r
    }
}

pub proof fn lemma_same_keys_unique<T: Keyed>(a: Seq<T>, b: Seq<T>)
    requires
        unique_keys(a),
        a.len() == b.len(),
        forall|j: int| 0 <= j < a.len() ==> #[trigger] b[j].key() == a[j].key(),
    ensures
        unique_keys(b),
{
    assert forall|i: int, j: int| 0 <= i < b.len() && 0 <= j < b.len() && i != j implies #[trigger] b[i].key() != #[trigger] b[j].key() by {
        assert(b[i].key() == a[i].key());
        assert(b[j].key() == a[j].key());
    }
}

/// Whether a bullet hits an enemy depends only on where the enemies are.
pub proof fn lemma_hits_same_bounds(b: Bullet, a: Seq<Enemy>, c: Seq<Enemy>)
    requires
        a.len() == c.len(),
        forall|j: int| 0 <= j < a.len() ==> #[trigger] c[j].bounds() == a[j].bounds(),
    ensures
        hits_enemy(b, c) == hits_enemy(b, a),
{
    if hits_enemy(b, a) {
        let j = choose|j: int| 0 <= j < a.len() && overlaps(b.bounds(), #[trigger] a[j].bounds());
        assert(overlaps(b.bounds(), c[j].bounds()));
    }
    if hits_enemy(b, c) {
        let j = choose|j: int| 0 <= j < c.len() && overlaps(b.bounds(), #[trigger] c[j].bounds());
        assert(overlaps(b.bounds(), a[j].bounds()));
    }
}

/// An enemy bullet, after flying, is spent: it met a platform, left past the
/// left edge, or hit the player or a clone in play.
pub open spec fn hostile_spent(nb: Bullet, ps: Seq<Platform>, player: Aabb, cs: Seq<Vehicle>) -> bool {
    ||| hits_platform(nb.bounds(), ps)
    ||| nb.x + nb.width / 2 <= 0
    ||| overlaps(nb.bounds(), player)
    ||| exists|j: int| 0 <= j < cs.len() && touches(#[trigger] cs[j], nb.bounds())
}

/// A player bullet, after flying, is spent: it met a platform or an enemy.
pub open spec fn player_spent(nb: Bullet, ps: Seq<Platform>, es: Seq<Enemy>) -> bool {
    hits_platform(nb.bounds(), ps) || hits_enemy(nb, es)
}

/// The same clones are in play at the same places.
pub open spec fn same_targets(a: Seq<Vehicle>, b: Seq<Vehicle>) -> bool {
    &&& a.len() == b.len()
    &&& forall|j: int| 0 <= j < a.len() ==> (#[trigger] b[j]).rig.body == a[j].rig.body && b[j].rig.active == a[j].rig.active
}

/// Whether a box touches a clone in play depends only on where the clones
/// are and which are in play.
pub proof fn lemma_same_targets(bx: Aabb, a: Seq<Vehicle>, b: Seq<Vehicle>)
    requires
        same_targets(a, b),
    ensures
        (exists|j: int| 0 <= j < a.len() && touches(#[trigger] a[j], bx)) == (exists|j: int|
            0 <= j < b.len() && touches(#[trigger] b[j], bx)),
{
    if exists|j: int| 0 <= j < a.len() && touches(#[trigger] a[j], bx) {
        let j = choose|j: int| 0 <= j < a.len() && touches(#[trigger] a[j], bx);
        assert(touches(b[j], bx));
    }
    if exists|j: int| 0 <= j < b.len() && touches(#[trigger] b[j], bx) {
        let j = choose|j: int| 0 <= j < b.len() && touches(#[trigger] b[j], bx);
        assert(touches(a[j], bx));
    }
}

/// The player's health after each of the bullets `bs` that overlaps its box
/// `pbox` has cost it the bullet's damage, in order.
pub open spec fn hostile_hits(h: i64, bs: Seq<Bullet>, pbox: Aabb) -> i64
    decreases bs.len(),
{
    if bs.len() == 0 {
        h
    } else {
        let prev = hostile_hits(h, bs.drop_last(), pbox);
        if overlaps(bs.last().bounds(), pbox) {
            clamp(prev - bs.last().damage) as i64
        } else {
            prev
        }
    }
}

/// A clone's rig after each of the enemy bullets `bs` (already flown) has
/// passed, in order.
pub open spec fn hurt_by_bullets(r: Rig, bs: Seq<Bullet>) -> Rig
    decreases bs.len(),
{
    if bs.len() == 0 {
        r
    } else {
        hurt(hurt_by_bullets(r, bs.drop_last()), bs.last().bounds(), CONTACT_DAMAGE, CONTACT_DAMAGE)
    }
}

/// The enemies after each of the player's bullets `bs` (already flown) has
/// passed, in order: each strikes what it overlaps, and a spent shell bursts.
pub open spec fn player_pass(es: Seq<Enemy>, bs: Seq<Bullet>, ps: Seq<Platform>) -> Seq<Enemy>
    decreases bs.len(),
{
    if bs.len() == 0 {
        es
    } else {
        let prev = player_pass(es, bs.drop_last(), ps);
        let nb = bs.last();
        let struck = prev.map_values(|e: Enemy| strike(e, nb));
        if player_spent(nb, ps, prev) && nb.kind == BulletKind::Shell {
            struck.map_values(|e: Enemy| blast(e, nb))
        } else {
            struck
        }
    }
}

/// The enemies after each of the bullets `bs` has struck, in order.
pub open spec fn strike_fold(es: Seq<Enemy>, bs: Seq<Bullet>) -> Seq<Enemy>
    decreases bs.len(),
{
    if bs.len() == 0 {
        es
    } else {
        let nb = bs.last();
        strike_fold(es, bs.drop_last()).map_values(|e: Enemy| strike(e, nb))
    }
}

/// Filtering a sequence extended by one entry.
pub proof fn lemma_filter_push<T>(s: Seq<T>, x: T, pred: spec_fn(T) -> bool)
    ensures
        s.push(x).filter(pred) == if pred(x) {
            s.filter(pred).push(x)
        } else {
            s.filter(pred)
        },
{
    reveal(Seq::filter);
    assert(s.push(x).drop_last() =~= s);
}

impl World {
    /// Whether the box meets any platform.
    pub fn meets_platform(&self, a: &Aabb) -> (r: bool)
        requires
            self.wf(),
            a.wf(),
        ensures
            r == hits_platform(*a, self.platforms.items@),
    {
        let mut i: usize = 0;
        while i < self.platforms.items.len()
            invariant
                self.wf(),
                a.wf(),
                i <= self.platforms.items@.len(),
                forall|j: int| 0 <= j < i ==> !overlaps(*a, #[trigger] self.platforms.items@[j].bounds()),
            decreases self.platforms.items@.len() - i,
        {
            let pb = self.platforms.items[i].bounds_exec();
            assert(self.platforms.items@[i as int].wf());
            if overlaps_exec(a, &pb) {
                return true;
            }
            i += 1;
        }
        false
    }

    /// Every enemy the bullet overlaps loses its damage; says whether any did.
    pub fn strike_enemies(&mut self, b: &Bullet) -> (hit: bool)
        requires
            old(self).wf(),
            b.wf(),
        ensures
            final(self).wf(),
            final(self).enemies.items@ == old(self).enemies.items@.map_values(|e: Enemy| strike(e, *b)),
            hit == hits_enemy(*b, old(self).enemies.items@),
            final(self).player == old(self).player,
            final(self).clones == old(self).clones,
            final(self).player_bullets == old(self).player_bullets,
            final(self).enemy_bullets == old(self).enemy_bullets,
            final(self).platforms == old(self).platforms,
            final(self).same_scene(old(self)),
    {
        let hit = strike_all(&mut self.enemies.items, b);
        proof {
            lemma_same_keys_unique(old(self).enemies.items@, self.enemies.items@);
        }
        hit
    }

    /// Every enemy within the shell's blast reach loses its damage.
    pub fn blast_enemies(&mut self, b: &Bullet)
        requires
            old(self).wf(),
            b.wf(),
        ensures
            final(self).wf(),
            final(self).enemies.items@ == old(self).enemies.items@.map_values(|e: Enemy| blast(e, *b)),
            final(self).player == old(self).player,
            final(self).clones == old(self).clones,
            final(self).player_bullets == old(self).player_bullets,
            final(self).enemy_bullets == old(self).enemy_bullets,
            final(self).platforms == old(self).platforms,
            final(self).same_scene(old(self)),
    {
        blast_all(&mut self.enemies.items, b);
        proof {
            lemma_same_keys_unique(old(self).enemies.items@, self.enemies.items@);
        }
    }
}

fn strike_all(es: &mut Vec<Enemy>, b: &Bullet) -> (hit: bool)
    requires
        all_wf_enemies(old(es)@),
        b.wf(),
    ensures
        final(es)@ == old(es)@.map_values(|e: Enemy| strike(e, *b)),
        all_wf_enemies(final(es)@),
        hit == hits_enemy(*b, old(es)@),
{
    let ghost start = es@;
    let bb = b.bounds_exec();
    let mut hit = false;
    let mut i: usize = 0;
    while i < es.len()
        invariant
            b.wf(),
            bb == b.bounds(),
            es@.len() == start.len(),
            i <= start.len(),
            all_wf_enemies(start),
            all_wf_enemies(es@),
            forall|j: int| 0 <= j < i ==> #[trigger] es@[j] == strike(start[j], *b),
            forall|j: int| i <= j < start.len() ==> #[trigger] es@[j] == start[j],
            hit == exists|j: int| 0 <= j < i && overlaps(b.bounds(), #[trigger] start[j].bounds()),
        decreases start.len() - i,
    {
        let e = es[i];
        assert(start[i as int].wf());
        let eb = e.bounds_exec();
        if overlaps_exec(&bb, &eb) {
            let ne = Enemy { health: sub_c(e.health, b.damage), ..e };
            es.set(i, ne);
            hit = true;
        }
        i += 1;
    }
    assert(es@ =~= start.map_values(|e: Enemy| strike(e, *b)));
    hit
}

fn blast_all(es: &mut Vec<Enemy>, b: &Bullet)
    requires
        all_wf_enemies(old(es)@),
        b.wf(),
    ensures
        final(es)@ == old(es)@.map_values(|e: Enemy| blast(e, *b)),
        all_wf_enemies(final(es)@),
{
    let ghost start = es@;
    let mut i: usize = 0;
    while i < es.len()
        invariant
            b.wf(),
            es@.len() == start.len(),
            i <= start.len(),
            all_wf_enemies(start),
            all_wf_enemies(es@),
            forall|j: int| 0 <= j < i ==> #[trigger] es@[j] == blast(start[j], *b),
            forall|j: int| i <= j < start.len() ==> #[trigger] es@[j] == start[j],
        decreases start.len() - i,
    {
        let e = es[i];
        assert(start[i as int].wf());
        let dx: i64 = if b.x >= e.x { b.x - e.x } else { e.x - b.x };
        let dy: i64 = if b.y >= e.y { b.y - e.y } else { e.y - b.y };
        if dx < b.splash && dy < b.splash {
            let ne = Enemy { health: sub_c(e.health, b.damage), ..e };
            es.set(i, ne);
        }
        i += 1;
    }
    assert(es@ =~= start.map_values(|e: Enemy| blast(e, *b)));
}

/// Whether a clone in play is touched by the box `a`.
pub open spec fn touches(v: Vehicle, a: Aabb) -> bool {
    v.rig.active && overlaps(a, v.rig.body.bounds())
}

/// Every clone in play that the box touches is hurt; says whether any was.
fn hurt_all(cs: &mut Vec<Vehicle>, a: &Aabb, full: i64, light: i64) -> (hit: bool)
    requires
        all_wf_vehicles(old(cs)@),
        a.wf(),
        in_limit(full),
        in_limit(light),
    ensures
        final(cs)@.len() == old(cs)@.len(),
        forall|j: int| 0 <= j < old(cs)@.len() ==> {
            let o = #[trigger] old(cs)@[j];
            let n = final(cs)@[j];
            &&& n.id == o.id
            &&& n.moves@ == o.moves@
            &&& n.step == o.step
            &&& n.rig == hurt(o.rig, *a, full, light)
        },
        all_wf_vehicles(final(cs)@),
        hit == exists|j: int| 0 <= j < old(cs)@.len() && touches(#[trigger] old(cs)@[j], *a),
{
    let ghost start = cs@;
    let mut hit = false;
    let mut i: usize = 0;
    while i < cs.len()
        invariant
            a.wf(),
            in_limit(full),
            in_limit(light),
            cs@.len() == start.len(),
            i <= start.len(),
            all_wf_vehicles(start),
            all_wf_vehicles(cs@),
            forall|j: int| 0 <= j < i ==> {
                let o = #[trigger] start[j];
                let n = cs@[j];
                &&& n.id == o.id
                &&& n.moves@ == o.moves@
                &&& n.step == o.step
                &&& n.rig == hurt(o.rig, *a, full, light)
            },
            forall|j: int| i <= j < start.len() ==> #[trigger] cs@[j] == start[j],
            hit == exists|j: int| 0 <= j < i && touches(#[trigger] start[j], *a),
        decreases start.len() - i,
    {
        assert(start[i as int].wf());
        let vb = cs[i].rig.body.bounds_exec();
        if cs[i].rig.active && overlaps_exec(a, &vb) {
            let ghost before = cs@;
            let mut c = cs.remove(i);
            let dmg = if c.rig.kind == VehicleKind::Smasher { light } else { full };
            c.rig.health = sub_c(c.rig.health, dmg);
            cs.insert(i, c);
            assert(cs@ =~= before.update(i as int, c));
            hit = true;
            assert(touches(start[i as int], *a));
        }
        assert forall|j: int| 0 <= j < cs@.len() implies #[trigger] cs@[j].wf() by {
            if j != i {
            }
        }
        i += 1;
    }
    hit
}

impl World {
    /// Every clone in play that the box touches is hurt; says whether any was.
    pub fn hurt_clones(&mut self, a: &Aabb, full: i64, light: i64) -> (hit: bool)
        requires
            old(self).wf(),
            a.wf(),
            in_limit(full),
            in_limit(light),
        ensures
            final(self).wf(),
            final(self).clones.items@.len() == old(self).clones.items@.len(),
            forall|j: int| 0 <= j < old(self).clones.items@.len() ==> {
                let o = #[trigger] old(self).clones.items@[j];
                let n = final(self).clones.items@[j];
                &&& n.id == o.id
                &&& n.moves@ == o.moves@
                &&& n.step == o.step
                &&& n.rig == hurt(o.rig, *a, full, light)
            },
            hit == exists|j: int| 0 <= j < old(self).clones.items@.len() && touches(#[trigger] old(self).clones.items@[j], *a),
            final(self).player == old(self).player,
            final(self).player_bullets == old(self).player_bullets,
            final(self).enemy_bullets == old(self).enemy_bullets,
            final(self).enemies == old(self).enemies,
            final(self).platforms == old(self).platforms,
            final(self).same_scene(old(self)),
    {
        let hit = hurt_all(&mut self.clones.items, a, full, light);
        proof {
            lemma_same_keys_unique(old(self).clones.items@, self.clones.items@);
        }
        hit
    }

    /// One tick of the player's bullet at position `i`. It flies on; if it
    /// then meets a platform or an enemy it is spent, and each enemy it
    /// overlaps loses its damage (a spent shell also bursts). Says whether
    /// it was spent.
    #[verifier::rlimit(60)]
    pub fn update_player_bullet(&mut self, i: usize) -> (spent: bool)
        requires
            old(self).wf(),
            i < old(self).player_bullets.items@.len(),
        ensures
            final(self).wf(),
            ({
                let nb = fly(old(self).player_bullets.items@[i as int]);
                let struck = old(self).enemies.items@.map_values(|e: Enemy| strike(e, nb));
                &&& spent == (hits_platform(nb.bounds(), old(self).platforms.items@) || hits_enemy(nb, old(self).enemies.items@))
                &&& final(self).player_bullets.items@ == if spent {
                    old(self).player_bullets.items@.remove(i as int)
                } else {
                    old(self).player_bullets.items@.update(i as int, nb)
                }
                &&& final(self).enemies.items@ == if spent && nb.kind == BulletKind::Shell {
                    struck.map_values(|e: Enemy| blast(e, nb))
                } else {
                    struck
                }
            }),
            final(self).player == old(self).player,
            final(self).clones == old(self).clones,
            final(self).enemy_bullets == old(self).enemy_bullets,
            final(self).platforms == old(self).platforms,
            final(self).same_scene(old(self)),
    {
        let b = self.player_bullets.items[i];
        assert(old(self).player_bullets.items@[i as int].wf());
        let nb = fly_exec(b);
        let nbb = nb.bounds_exec();
        let on_platform = self.meets_platform(&nbb);
        let on_enemy = self.strike_enemies(&nb);
        let spent = on_platform || on_enemy;
        let ghost before = self.player_bullets.items@;
        if spent {
            if nb.kind == BulletKind::Shell {
                self.blast_enemies(&nb);
            }
            self.player_bullets.items.remove(i);
            assert forall|a: int, c: int|
                0 <= a < self.player_bullets.items@.len() && 0 <= c < self.player_bullets.items@.len() && a != c implies #[trigger] self.player_bullets.items@[a].key()
                != #[trigger] self.player_bullets.items@[c].key() by {
                let oa = if a < i { a } else { a + 1 };
                let oc = if c < i { c } else { c + 1 };
                assert(self.player_bullets.items@[a] == before[oa]);
                assert(self.player_bullets.items@[c] == before[oc]);
            }
            assert forall|j: int| 0 <= j < self.player_bullets.items@.len() implies #[trigger] self.player_bullets.items@[j].wf() by {
                let oj = if j < i { j } else { j + 1 };
                assert(self.player_bullets.items@[j] == before[oj]);
            }
        } else {
            self.player_bullets.items.set(i, nb);
            proof {
                lemma_same_keys_unique(before, self.player_bullets.items@);
            }
            assert forall|j: int| 0 <= j < self.player_bullets.items@.len() implies #[trigger] self.player_bullets.items@[j].wf() by {
                if j != i {
                    assert(self.player_bullets.items@[j] == before[j]);
                }
            }
        }
        spent
    }
}

impl World {
    /// One tick of the enemy bullet at position `i`. It flies on; it hurts
    /// the player and every clone in play that it then overlaps, and it is
    /// spent if it hit any of them, met a platform or left past the left
    /// edge. Says whether it was spent.
    #[verifier::rlimit(60)]
    pub fn update_enemy_bullet(&mut self, i: usize) -> (spent: bool)
        requires
            old(self).wf(),
            i < old(self).enemy_bullets.items@.len(),
        ensures
            final(self).wf(),
            ({
                let nb = fly(old(self).enemy_bullets.items@[i as int]);
                let pr = old(self).player.rig;
                let hit_player = overlaps(nb.bounds(), pr.body.bounds());
                let hit_clone = exists|j: int| 0 <= j < old(self).clones.items@.len() && touches(#[trigger] old(self).clones.items@[j], nb.bounds());
                &&& spent == (hits_platform(nb.bounds(), old(self).platforms.items@) || nb.x + nb.width / 2 <= 0
                    || hit_player || hit_clone)
                &&& final(self).enemy_bullets.items@ == if spent {
                    old(self).enemy_bullets.items@.remove(i as int)
                } else {
                    old(self).enemy_bullets.items@.update(i as int, nb)
                }
                &&& final(self).player.rig == if hit_player {
                    Rig { health: clamp(pr.health - nb.damage) as i64, ..pr }
                } else {
                    pr
                }
                &&& final(self).clones.items@.len() == old(self).clones.items@.len()
                &&& forall|j: int| 0 <= j < old(self).clones.items@.len() ==> {
                    let o = #[trigger] old(self).clones.items@[j];
                    let n = final(self).clones.items@[j];
                    &&& n.id == o.id
                    &&& n.moves@ == o.moves@
                    &&& n.step == o.step
                    &&& n.rig == hurt(o.rig, nb.bounds(), CONTACT_DAMAGE, CONTACT_DAMAGE)
                }
            }),
            final(self).player.id == old(self).player.id,
            final(self).player.moves == old(self).player.moves,
            final(self).player.step == old(self).player.step,
            final(self).player_bullets == old(self).player_bullets,
            final(self).enemies == old(self).enemies,
            final(self).platforms == old(self).platforms,
            final(self).same_scene(old(self)),
    {
        let b = self.enemy_bullets.items[i];
        assert(old(self).enemy_bullets.items@[i as int].wf());
        let nb = fly_exec(b);
        let nbb = nb.bounds_exec();
        let on_platform = self.meets_platform(&nbb);
        let pb = self.player.rig.body.bounds_exec();
        let hit_player = overlaps_exec(&nbb, &pb);
        if hit_player {
            self.player.rig.health = sub_c(self.player.rig.health, nb.damage);
        }
        let hit_clone = self.hurt_clones(&nbb, CONTACT_DAMAGE, CONTACT_DAMAGE);
        let spent = on_platform || nb.x + nb.width / 2 <= 0 || hit_player || hit_clone;
        let ghost before = self.enemy_bullets.items@;
        if spent {
            self.enemy_bullets.items.remove(i);
            assert forall|a: int, c: int|
                0 <= a < self.enemy_bullets.items@.len() && 0 <= c < self.enemy_bullets.items@.len() && a != c implies #[trigger] self.enemy_bullets.items@[a].key()
                != #[trigger] self.enemy_bullets.items@[c].key() by {
                let oa = if a < i { a } else { a + 1 };
                let oc = if c < i { c } else { c + 1 };
                assert(self.enemy_bullets.items@[a] == before[oa]);
                assert(self.enemy_bullets.items@[c] == before[oc]);
            }
            assert forall|j: int| 0 <= j < self.enemy_bullets.items@.len() implies #[trigger] self.enemy_bullets.items@[j].wf() by {
                let oj = if j < i { j } else { j + 1 };
                assert(self.enemy_bullets.items@[j] == before[oj]);
            }
        } else {
            self.enemy_bullets.items.set(i, nb);
            proof {
                lemma_same_keys_unique(before, self.enemy_bullets.items@);
            }
            assert forall|j: int| 0 <= j < self.enemy_bullets.items@.len() implies #[trigger] self.enemy_bullets.items@[j].wf() by {
                if j != i {
                    assert(self.enemy_bullets.items@[j] == before[j]);
                }
            }
        }
        spent
    }

    /// One tick of every bullet: enemy bullets first, then the player's, each
    /// list in order; then every bullet off screen is removed. A bullet's
    /// fate depends only on where things are, so the bullets left are those
    /// that, after flying, were neither spent nor off screen.
    #[verifier::rlimit(60)]
    pub fn update_bullets(&mut self)
        requires
            old(self).wf(),
        ensures
            final(self).wf(),
            final(self).enemy_bullets.items@ == old(self).enemy_bullets.items@.map_values(|b: Bullet| fly(b)).filter(
                |b: Bullet| !hostile_spent(b, old(self).platforms.items@, old(self).player.rig.body.bounds(), old(self).clones.items@),
            ).filter(|b: Bullet| on_screen(b)),
            final(self).player_bullets.items@ == old(self).player_bullets.items@.map_values(|b: Bullet| fly(b)).filter(
                |b: Bullet| !player_spent(b, old(self).platforms.items@, old(self).enemies.items@),
            ).filter(|b: Bullet| on_screen(b)),
            forall|i: int| 0 <= i < final(self).enemy_bullets.items@.len() ==> on_screen(#[trigger] final(self).enemy_bullets.items@[i]),
            forall|i: int| 0 <= i < final(self).player_bullets.items@.len() ==> on_screen(#[trigger] final(self).player_bullets.items@[i]),
            final(self).player.rig == (Rig {
                health: hostile_hits(
                    old(self).player.rig.health,
                    old(self).enemy_bullets.items@.map_values(|b: Bullet| fly(b)),
                    old(self).player.rig.body.bounds(),
                ),
                ..old(self).player.rig
            }),
            final(self).player.rig.body == old(self).player.rig.body,
            final(self).player.id == old(self).player.id,
            final(self).player.moves == old(self).player.moves,
            final(self).player.step == old(self).player.step,
            same_targets(old(self).clones.items@, final(self).clones.items@),
            forall|k: int| 0 <= k < old(self).clones.items@.len() ==> {
                let o = #[trigger] old(self).clones.items@[k];
                let n = final(self).clones.items@[k];
                &&& n.id == o.id
                &&& n.moves@ == o.moves@
                &&& n.step == o.step
                &&& n.rig == hurt_by_bullets(o.rig, old(self).enemy_bullets.items@.map_values(|b: Bullet| fly(b)))
            },
            final(self).enemies.items@ == player_pass(
                old(self).enemies.items@,
                old(self).player_bullets.items@.map_values(|b: Bullet| fly(b)),
                old(self).platforms.items@,
            ),
            final(self).enemies.items@.len() == old(self).enemies.items@.len(),
            forall|j: int| 0 <= j < old(self).enemies.items@.len() ==> (#[trigger] final(self).enemies.items@[j]).bounds() == old(self).enemies.items@[j].bounds(),
            final(self).platforms == old(self).platforms,
            final(self).same_scene(old(self)),
    {
        let ghost o = *self;
        let ghost ebs = o.enemy_bullets.items@;
        let ghost hkeep = |b: Bullet| !hostile_spent(b, o.platforms.items@, o.player.rig.body.bounds(), o.clones.items@);
        let ghost mut j: int = 0;
        let mut i: usize = 0;
        assert(ebs.take(0).map_values(|b: Bullet| fly(b)).filter(hkeep) =~= Seq::<Bullet>::empty()) by {
            reveal(Seq::filter);
        }
        assert(ebs.skip(0) =~= ebs);
        assert(ebs.take(0).map_values(|b: Bullet| fly(b)) =~= Seq::<Bullet>::empty());
        while i < self.enemy_bullets.items.len()
            invariant
                self.wf(),
                0 <= j <= ebs.len(),
                hkeep == (|b: Bullet| !hostile_spent(b, o.platforms.items@, o.player.rig.body.bounds(), o.clones.items@)),
                i == ebs.take(j).map_values(|b: Bullet| fly(b)).filter(hkeep).len(),
                self.enemy_bullets.items@ == ebs.take(j).map_values(|b: Bullet| fly(b)).filter(hkeep) + ebs.skip(j),
                self.player.rig == (Rig {
                    health: hostile_hits(o.player.rig.health, ebs.take(j).map_values(|b: Bullet| fly(b)), o.player.rig.body.bounds()),
                    ..o.player.rig
                }),
                self.clones.items@.len() == o.clones.items@.len(),
                forall|k: int| 0 <= k < o.clones.items@.len() ==> {
                    let oc = #[trigger] o.clones.items@[k];
                    let n = self.clones.items@[k];
                    &&& n.id == oc.id
                    &&& n.moves@ == oc.moves@
                    &&& n.step == oc.step
                    &&& n.rig == hurt_by_bullets(oc.rig, ebs.take(j).map_values(|b: Bullet| fly(b)))
                },
                self.player.rig.body == o.player.rig.body,
                self.player.id == o.player.id,
                self.player.moves == o.player.moves,
                self.player.step == o.player.step,
                same_targets(o.clones.items@, self.clones.items@),
                self.player_bullets == o.player_bullets,
                self.enemies == o.enemies,
                self.platforms == o.platforms,
                self.same_scene(&o),
            decreases self.enemy_bullets.items@.len() - i,
        {
            let ghost before = *self;
            let ghost done = ebs.take(j).map_values(|b: Bullet| fly(b)).filter(hkeep);
            assert(self.enemy_bullets.items@[i as int] == ebs[j]) by {
                assert(self.enemy_bullets.items@[i as int] == ebs.skip(j)[0]);
            }
            let spent = self.update_enemy_bullet(i);
            proof {
                let nb = fly(ebs[j]);
                lemma_same_targets(nb.bounds(), o.clones.items@, before.clones.items@);
                assert(spent == !hkeep(nb));
                assert(ebs.take(j + 1).map_values(|b: Bullet| fly(b)) =~= ebs.take(j).map_values(|b: Bullet| fly(b)).push(nb));
                lemma_filter_push(ebs.take(j).map_values(|b: Bullet| fly(b)), nb, hkeep);
                if spent {
                    assert(self.enemy_bullets.items@ =~= done + ebs.skip(j + 1));
                } else {
                    assert(self.enemy_bullets.items@ =~= done.push(nb) + ebs.skip(j + 1));
                }
                assert forall|k: int| 0 <= k < o.clones.items@.len() implies (#[trigger] self.clones.items@[k]).rig.body
                    == o.clones.items@[k].rig.body && self.clones.items@[k].rig.active == o.clones.items@[k].rig.active by {
                    let c0 = before.clones.items@[k];
                    assert(self.clones.items@[k].rig == hurt(c0.rig, nb.bounds(), CONTACT_DAMAGE, CONTACT_DAMAGE));
                }
                let f2 = ebs.take(j + 1).map_values(|b: Bullet| fly(b));
                assert(f2.drop_last() =~= ebs.take(j).map_values(|b: Bullet| fly(b)));
                assert(f2.last() == nb);
                assert forall|k: int| 0 <= k < o.clones.items@.len() implies {
                    let oc = #[trigger] o.clones.items@[k];
                    let n = self.clones.items@[k];
                    &&& n.id == oc.id
                    &&& n.moves@ == oc.moves@
                    &&& n.step == oc.step
                    &&& n.rig == hurt_by_bullets(oc.rig, f2)
                } by {
                    let c0 = before.clones.items@[k];
                    assert(self.clones.items@[k].rig == hurt(c0.rig, nb.bounds(), CONTACT_DAMAGE, CONTACT_DAMAGE));
                }
                assert(self.player.rig.health == hostile_hits(o.player.rig.health, f2, o.player.rig.body.bounds()));
                j = j + 1;
            }
            if !spent {
                i += 1;
            }
        }
        proof {
            if j < ebs.len() {
                assert(self.enemy_bullets.items@.len() == i + ebs.len() - j);
            }
            assert(ebs.take(ebs.len() as int) =~= ebs);
            assert(self.enemy_bullets.items@ =~= ebs.map_values(|b: Bullet| fly(b)).filter(hkeep));
        }
        let ghost m = *self;
        let ghost pbs = m.player_bullets.items@;
        let ghost pkeep = |b: Bullet| !player_spent(b, o.platforms.items@, o.enemies.items@);
        let ghost mut j: int = 0;
        let mut i: usize = 0;
        assert(pbs.take(0).map_values(|b: Bullet| fly(b)).filter(pkeep) =~= Seq::<Bullet>::empty()) by {
            reveal(Seq::filter);
        }
        assert(pbs.skip(0) =~= pbs);
        assert(pbs.take(0).map_values(|b: Bullet| fly(b)) =~= Seq::<Bullet>::empty());
        while i < self.player_bullets.items.len()
            invariant
                self.wf(),
                0 <= j <= pbs.len(),
                pbs == o.player_bullets.items@,
                pkeep == (|b: Bullet| !player_spent(b, o.platforms.items@, o.enemies.items@)),
                i == pbs.take(j).map_values(|b: Bullet| fly(b)).filter(pkeep).len(),
                self.player_bullets.items@ == pbs.take(j).map_values(|b: Bullet| fly(b)).filter(pkeep) + pbs.skip(j),
                self.enemies.items@ == player_pass(o.enemies.items@, pbs.take(j).map_values(|b: Bullet| fly(b)), o.platforms.items@),
                self.enemies.items@.len() == o.enemies.items@.len(),
                forall|k: int| 0 <= k < o.enemies.items@.len() ==> (#[trigger] self.enemies.items@[k]).bounds() == o.enemies.items@[k].bounds(),
                self.enemy_bullets == m.enemy_bullets,
                self.player == m.player,
                self.clones == m.clones,
                self.platforms == o.platforms,
                self.same_scene(&o),
            decreases self.player_bullets.items@.len() - i,
        {
            let ghost before = *self;
            let ghost done = pbs.take(j).map_values(|b: Bullet| fly(b)).filter(pkeep);
            assert(self.player_bullets.items@[i as int] == pbs[j]) by {
                assert(self.player_bullets.items@[i as int] == pbs.skip(j)[0]);
            }
            let spent = self.update_player_bullet(i);
            proof {
                let nb = fly(pbs[j]);
                lemma_hits_same_bounds(nb, o.enemies.items@, before.enemies.items@);
                assert(spent == !pkeep(nb));
                assert(pbs.take(j + 1).map_values(|b: Bullet| fly(b)) =~= pbs.take(j).map_values(|b: Bullet| fly(b)).push(nb));
                lemma_filter_push(pbs.take(j).map_values(|b: Bullet| fly(b)), nb, pkeep);
                if spent {
                    assert(self.player_bullets.items@ =~= done + pbs.skip(j + 1));
                } else {
                    assert(self.player_bullets.items@ =~= done.push(nb) + pbs.skip(j + 1));
                }
                assert forall|k: int| 0 <= k < o.enemies.items@.len() implies (#[trigger] self.enemies.items@[k]).bounds() == o.enemies.items@[k].bounds() by {
                    let es = before.enemies.items@;
                    let struck = es.map_values(|e: Enemy| strike(e, nb));
                    assert(struck[k].bounds() == es[k].bounds());
                    if spent && nb.kind == BulletKind::Shell {
                        assert(self.enemies.items@[k] == blast(struck[k], nb));
                    } else {
                        assert(self.enemies.items@[k] == struck[k]);
                    }
                }
                let f2 = pbs.take(j + 1).map_values(|b: Bullet| fly(b));
                assert(f2.drop_last() =~= pbs.take(j).map_values(|b: Bullet| fly(b)));
                assert(f2.last() == nb);
                assert(self.enemies.items@ == player_pass(o.enemies.items@, f2, o.platforms.items@));
                j = j + 1;
            }
            if !spent {
                i += 1;
            }
        }
        proof {
            if j < pbs.len() {
                assert(self.player_bullets.items@.len() == i + pbs.len() - j);
            }
            assert(pbs.take(pbs.len() as int) =~= pbs);
            assert(self.player_bullets.items@ =~= pbs.map_values(|b: Bullet| fly(b)).filter(pkeep));
        }
        let ghost eb = self.enemy_bullets.items@;
        let ghost pb = self.player_bullets.items@;
        cull_bullets(&mut self.enemy_bullets.items);
        cull_bullets(&mut self.player_bullets.items);
        proof {
            lemma_filter_unique(eb, |b: Bullet| on_screen(b));
            lemma_filter_unique(pb, |b: Bullet| on_screen(b));
        }
    }
}

/// A bullet that is still on screen.
pub open spec fn on_screen(b: Bullet) -> bool {
    !off_screen(b.x, b.width)
}

/// Keeps the bullets that are still on screen, in order.
pub fn cull_bullets(bs: &mut Vec<Bullet>)
    requires
        all_wf_bullets(old(bs)@),
    ensures
        final(bs)@ == old(bs)@.filter(|b: Bullet| on_screen(b)),
        all_wf_bullets(final(bs)@),
        forall|i: int| 0 <= i < final(bs)@.len() ==> on_screen(#[trigger] final(bs)@[i]),
{
    let ghost start = bs@;
    let ghost pred = |b: Bullet| on_screen(b);
    let mut out: Vec<Bullet> = Vec::new();
    let mut i: usize = 0;
    assert(start.subrange(0, 0).filter(pred) =~= Seq::<Bullet>::empty()) by {
        reveal(Seq::filter);
    }
    while i < bs.len()
        invariant
            bs@ == start,
            i <= start.len(),
            all_wf_bullets(start),
            pred == (|b: Bullet| on_screen(b)),
            out@ == start.subrange(0, i as int).filter(pred),
        decreases start.len() - i,
    {
        let b = bs[i];
        assert(start[i as int].wf());
        proof {
            reveal(Seq::filter);
            assert(start.subrange(0, i + 1).drop_last() =~= start.subrange(0, i as int));
            assert(start.subrange(0, i + 1).last() == b);
        }
        let keep = !off_screen_exec(b.x, b.width);
        assert(keep == pred(b));
        if keep {
            out.push(b);
        }
        proof {
            reveal(Seq::filter);
            let t = start.subrange(0, i + 1);
            assert(t.filter(pred) == (if pred(t.last()) {
                t.drop_last().filter(pred).push(t.last())
            } else {
                t.drop_last().filter(pred)
            }));
        }
        i += 1;
    }
    assert(start.subrange(0, start.len() as int) =~= start);
    assert(out@ == start.filter(pred));
    proof {
        assert forall|k: int| 0 <= k < out@.len() implies pred(#[trigger] out@[k]) by {
            start.lemma_filter_pred(pred, k);
        }
        assert forall|k: int| 0 <= k < out@.len() implies #[trigger] out@[k].wf() by {
            crate::registry::lemma_filter_members(start, pred);
            assert(k < start.filter(pred).len());
            let j = choose|j: int| 0 <= j < start.len() && #[trigger] start.filter(pred)[k] == start[j];
            assert(start[j].wf());
        }
    }
    *bs = out;
}

} // verus!
