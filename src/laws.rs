use vstd::prelude::*;
use crate::num::{clamp, in_limit, LIMIT};
use crate::entity::{Keys, Enemy, Platform};
use crate::registry::{Keyed, unique_keys, upsert, without, has_key, lemma_without_members};
use crate::vehicle::{Rig, Vehicle, driven, reset_rig};
use crate::timeloop::Draws;
use crate::world::{World, GenState, clone_after};
use crate::game::{gen_step, alive};

verus! {

/// The generator state after a run of in-run ticks, one set of draws each.
pub open spec fn gen_run(g: GenState, ds: Seq<Draws>) -> GenState
    decreases ds.len(),
{
    if ds.len() == 0 {
        g
    } else {
        gen_run(gen_step(g, ds[0]), ds.skip(1))
    }
}

/// `ws` is a run of worlds, each the tick of the one before (in a run) with
/// the matching draws, as `World::tick` ensures.
pub open spec fn is_run(ws: Seq<World>, ds: Seq<Draws>) -> bool {
    &&& ws.len() == ds.len() + 1
    &&& forall|i: int| 0 <= i < ds.len() ==> #[trigger] ws[i + 1].gen_state() == gen_step(ws[i].gen_state(), ds[i])
}

proof fn lemma_run_follows(ws: Seq<World>, ds: Seq<Draws>)
    requires
        is_run(ws, ds),
    ensures
        ws[ds.len() as int].gen_state() == gen_run(ws[0].gen_state(), ds),
    decreases ds.len(),
{
    if ds.len() > 0 {
        let rest = ws.skip(1);
        let rd = ds.skip(1);
        assert forall|i: int| 0 <= i < rd.len() implies #[trigger] rest[i + 1].gen_state() == gen_step(rest[i].gen_state(), rd[i]) by {
            assert(rest[i + 1] == ws[i + 2]);
            assert(rest[i] == ws[i + 1]);
            assert(rd[i] == ds[i + 1]);
        }
        lemma_run_follows(rest, rd);
        assert(ws[1].gen_state() == gen_step(ws[0].gen_state(), ds[0]));
        assert(rest[rd.len() as int] == ws[ds.len() as int]);
    }
}

/// Determinism: two runs that start from the same generator state and use
/// the same draws end with the same records (the same enemy and platform
/// templates in the same order) and the same timers and camera, whatever
/// keys were pressed along the way.
pub proof fn lemma_determinism(a: Seq<World>, b: Seq<World>, ds: Seq<Draws>)
    requires
        is_run(a, ds),
        is_run(b, ds),
        a[0].gen_state() == b[0].gen_state(),
    ensures
        a[ds.len() as int].storage.enemies@ == b[ds.len() as int].storage.enemies@,
        a[ds.len() as int].storage.platforms@ == b[ds.len() as int].storage.platforms@,
        a[ds.len() as int].gen_state() == b[ds.len() as int].gen_state(),
{
    lemma_run_follows(a, ds);
    lemma_run_follows(b, ds);
}

/// A rig driven through the frames `ks`, the i-th among the platforms `ps[i]`,
/// for as many ticks as there are layouts.
pub open spec fn drive_run(r: Rig, ks: Seq<Keys>, ps: Seq<Seq<Platform>>) -> Rig
    decreases ps.len(),
{
    if ps.len() == 0 || ks.len() == 0 {
        r
    } else {
        drive_run(driven(r, ks[0], ps[0]).0, ks.skip(1), ps.skip(1))
    }
}

/// A clone replayed for one tick per layout in `ps`.
pub open spec fn replay_run(c: Vehicle, ps: Seq<Seq<Platform>>) -> Vehicle
    decreases ps.len(),
{
    if ps.len() == 0 {
        c
    } else {
        let (rig, step) = clone_after(c, ps[0]);
        replay_run(Vehicle { rig: rig, step: step, ..c }, ps.skip(1))
    }
}

/// Driving never changes what a reset keeps.
proof fn lemma_driven_keeps(r: Rig, k: Keys, ps: Seq<Platform>)
    ensures
        reset_rig(driven(r, k, ps).0) == reset_rig(r),
        driven(r, k, ps).0.active == r.active,
{
    let (a, shot) = crate::vehicle::act(crate::vehicle::steer(r, k), k);
    let s = crate::vehicle::settle(a);
    lemma_collide_all_size(s.body, ps);
}

proof fn lemma_collide_all_size(b: crate::geometry::Body, ps: Seq<Platform>)
    ensures
        crate::vehicle::collide_all(b, ps).width == b.width,
        crate::vehicle::collide_all(b, ps).height == b.height,
    decreases ps.len(),
{
    if ps.len() > 0 {
        lemma_collide_all_size(crate::geometry::collide(b, ps[0].bounds()), ps.skip(1));
    }
}

proof fn lemma_drive_run_keeps(r: Rig, ks: Seq<Keys>, ps: Seq<Seq<Platform>>)
    ensures
        reset_rig(drive_run(r, ks, ps)) == reset_rig(r),
        drive_run(r, ks, ps).active == r.active,
    decreases ps.len(),
{
    if ps.len() > 0 && ks.len() > 0 {
        lemma_driven_keeps(r, ks[0], ps[0]);
        lemma_drive_run_keeps(driven(r, ks[0], ps[0]).0, ks.skip(1), ps.skip(1));
    }
}

proof fn lemma_replay_matches(c: Vehicle, ps: Seq<Seq<Platform>>)
    requires
        c.rig.active,
        c.step + ps.len() <= c.moves@.len(),
        c.moves@.len() < usize::MAX,
    ensures
        replay_run(c, ps).rig == drive_run(c.rig, c.moves@.skip(c.step as int), ps),
    decreases ps.len(),
{
    if ps.len() > 0 {
        let ks = c.moves@.skip(c.step as int);
        assert(ks[0] == c.frame());
        let (rig, step) = clone_after(c, ps[0]);
        let n = Vehicle { rig: rig, step: step, ..c };
        lemma_driven_keeps(c.rig, c.frame(), ps[0]);
        assert(n.rig == driven(c.rig, ks[0], ps[0]).0);
        assert(replay_run(c, ps) == replay_run(n, ps.skip(1)));
        assert(drive_run(c.rig, ks, ps) == drive_run(n.rig, ks.skip(1), ps.skip(1)));
        if ps.len() > 1 {
            assert(step == c.step + 1);
            assert(ks.skip(1) =~= c.moves@.skip(step as int));
            lemma_replay_matches(n, ps.skip(1));
        } else {
            assert(ps.skip(1).len() == 0);
        }
    }
}

/// Replay fidelity: a run that starts from a freshly reset rig and drives the
/// frames `ks` through the platform layouts `ps`, one per tick, ends with a
/// rig that the run's clone (same inputs, cursor at the start, rig reset)
/// reaches again when replayed through the same layouts; and the two agree
/// after every prefix of the run.
pub proof fn lemma_replay_fidelity(start: Rig, ks: Seq<Keys>, ps: Seq<Seq<Platform>>, c: Vehicle, t: int)
    requires
        start == reset_rig(start),
        start.active,
        ks.len() == ps.len(),
        ks.len() < usize::MAX,
        c.moves@ == ks,
        c.step == 0,
        c.rig == reset_rig(drive_run(start, ks, ps)),
        0 <= t <= ps.len(),
    ensures
        replay_run(c, ps.take(t)).rig == drive_run(start, ks.take(t), ps.take(t)),
        replay_run(c, ps).rig == drive_run(start, ks, ps),
{
    lemma_drive_run_keeps(start, ks, ps);
    assert(c.rig == start);
    lemma_replay_matches(c, ps.take(t));
    lemma_replay_matches(c, ps);
    assert(c.moves@.skip(0) =~= ks);
    lemma_drive_run_prefix(start, ks, ps, t);
}

proof fn lemma_drive_run_prefix(r: Rig, ks: Seq<Keys>, ps: Seq<Seq<Platform>>, t: int)
    requires
        ks.len() == ps.len(),
        0 <= t <= ps.len(),
    ensures
        drive_run(r, ks, ps.take(t)) == drive_run(r, ks.take(t), ps.take(t)),
    decreases t,
{
    if t > 0 {
        assert(ps.take(t).skip(1) =~= ps.skip(1).take(t - 1));
        assert(ks.take(t).skip(1) =~= ks.skip(1).take(t - 1));
        assert(ps.take(t)[0] == ps[0]);
        assert(ks.take(t)[0] == ks[0]);
        lemma_drive_run_prefix(driven(r, ks[0], ps[0]).0, ks.skip(1), ps.skip(1), t - 1);
    }
}

/// An update on a collection: adding an entry or removing a key.
pub enum RegistryOp<T> {
    Add(T),
    Remove(u32),
}

pub open spec fn apply_ops<T: Keyed>(s: Seq<T>, ops: Seq<RegistryOp<T>>) -> Seq<T>
    decreases ops.len(),
{
    if ops.len() == 0 {
        s
    } else {
        let next = match ops[0] {
            RegistryOp::Add(e) => upsert(s, e),
            RegistryOp::Remove(k) => without(s, k),
        };
        apply_ops(next, ops.skip(1))
    }
}

proof fn lemma_upsert_unique<T: Keyed>(s: Seq<T>, e: T)
    requires
        unique_keys(s),
    ensures
        unique_keys(upsert(s, e)),
{
    let u = upsert(s, e);
    if has_key(s, e.key()) {
        assert forall|a: int, b: int| 0 <= a < u.len() && 0 <= b < u.len() && a != b implies #[trigger] u[a].key() != #[trigger] u[b].key() by {
            assert(u[a] == (if s[a].key() == e.key() { e } else { s[a] }));
            assert(u[b] == (if s[b].key() == e.key() { e } else { s[b] }));
        }
    } else {
        assert forall|a: int, b: int| 0 <= a < u.len() && 0 <= b < u.len() && a != b implies #[trigger] u[a].key() != #[trigger] u[b].key() by {
            if a == s.len() {
                assert(u[b] == s[b]);
                assert(!(s[b].key() == e.key()));
            } else if b == s.len() {
                assert(u[a] == s[a]);
                assert(!(s[a].key() == e.key()));
            }
        }
    }
}

proof fn lemma_without_unique<T: Keyed>(s: Seq<T>, k: u32)
    requires
        unique_keys(s),
    ensures
        unique_keys(without(s, k)),
    decreases s.len(),
{
    if s.len() > 0 {
        let t = s.skip(1);
        assert(unique_keys(t)) by {
            assert forall|a: int, b: int| 0 <= a < t.len() && 0 <= b < t.len() && a != b implies #[trigger] t[a].key() != #[trigger] t[b].key() by {
                assert(t[a] == s[a + 1]);
                assert(t[b] == s[b + 1]);
            }
        }
        lemma_without_unique(t, k);
        if s[0].key() != k {
            let w = without(t, k);
            let u = seq![s[0]] + w;
            lemma_without_members(t, k);
            assert forall|a: int, b: int| 0 <= a < u.len() && 0 <= b < u.len() && a != b implies #[trigger] u[a].key() != #[trigger] u[b].key() by {
                if a == 0 && b > 0 {
                    let j = choose|j: int| 0 <= j < t.len() && #[trigger] t[j] == w[b - 1];
                    assert(t[j] == s[j + 1]);
                } else if b == 0 && a > 0 {
                    let j = choose|j: int| 0 <= j < t.len() && #[trigger] t[j] == w[a - 1];
                    assert(t[j] == s[j + 1]);
                } else if a > 0 && b > 0 {
                    assert(u[a] == w[a - 1]);
                    assert(u[b] == w[b - 1]);
                }
            }
        }
    }
}

/// Id uniqueness: after any sequence of adds and removes on a collection
/// whose ids were distinct, no two entries share an id. (Fresh ids come from
/// `Registry::next_id`, which gives the smallest unused one.)
pub proof fn lemma_ids_stay_unique<T: Keyed>(s: Seq<T>, ops: Seq<RegistryOp<T>>)
    requires
        unique_keys(s),
    ensures
        unique_keys(apply_ops(s, ops)),
    decreases ops.len(),
{
    if ops.len() > 0 {
        let next = match ops[0] {
            RegistryOp::Add(e) => upsert(s, e),
            RegistryOp::Remove(k) => without(s, k),
        };
        match ops[0] {
            RegistryOp::Add(e) => lemma_upsert_unique(s, e),
            RegistryOp::Remove(k) => lemma_without_unique(s, k),
        }
        lemma_ids_stay_unique(next, ops.skip(1));
    }
}

/// An enemy after `n` hits of damage `d` each.
pub open spec fn hit_times(e: Enemy, d: i64, n: nat) -> Enemy
    decreases n,
{
    if n == 0 {
        e
    } else {
        let h = hit_times(e, d, (n - 1) as nat);
        Enemy { health: clamp(h.health - d) as i64, ..h }
    }
}

proof fn lemma_hit_times_health(e: Enemy, d: i64, n: nat)
    requires
        in_limit(e.health),
        0 < d <= LIMIT,
    ensures
        hit_times(e, d, n).health == clamp(e.health - n * d) || hit_times(e, d, n).health == -LIMIT,
        in_limit(hit_times(e, d, n).health),
    decreases n,
{
    if n > 0 {
        lemma_hit_times_health(e, d, (n - 1) as nat);
        assert((n - 1) * d + d == n * d) by (nonlinear_arith);
        assert(n * d >= 0) by (nonlinear_arith)
            requires
                d > 0,
        ;
    }
}

/// Health clamp: `n` hits of damage `d` on an enemy with health `h` where
/// `n * d >= h` leave it with no health, so the next check for deaths
/// removes it; a second check then removes nothing more, so the enemy is
/// removed exactly once.
pub proof fn lemma_health_clamp(e: Enemy, d: i64, n: nat, es: Seq<Enemy>)
    requires
        in_limit(e.health),
        0 < d <= LIMIT,
        n * d >= e.health,
    ensures
        hit_times(e, d, n).health <= 0,
        !es.filter(|x: Enemy| alive(x)).contains(hit_times(e, d, n)),
        es.filter(|x: Enemy| alive(x)).filter(|x: Enemy| alive(x)) == es.filter(|x: Enemy| alive(x)),
{
    lemma_hit_times_health(e, d, n);
    let f = es.filter(|x: Enemy| alive(x));
    if f.contains(hit_times(e, d, n)) {
        let i = choose|i: int| 0 <= i < f.len() && f[i] == hit_times(e, d, n);
        es.lemma_filter_pred(|x: Enemy| alive(x), i);
    }
    lemma_filter_all(f, |x: Enemy| alive(x));
}

proof fn lemma_filter_all<T>(s: Seq<T>, pred: spec_fn(T) -> bool)
    requires
        forall|i: int| 0 <= i < s.len() ==> pred(#[trigger] s[i]),
    ensures
        s.filter(pred) == s,
    decreases s.len(),
{
    reveal(Seq::filter);
    if s.len() > 0 {
        let d = s.drop_last();
        assert forall|i: int| 0 <= i < d.len() implies pred(#[trigger] d[i]) by {
            assert(d[i] == s[i]);
        }
        lemma_filter_all(d, pred);
        assert(pred(s.last()));
        assert(d.push(s.last()) =~= s);
    } else {
        assert(s.filter(pred) =~= s);
    }
}

} // verus!
