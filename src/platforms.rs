use vstd::prelude::*;
use crate::num::{SCALE, clamp, sub_c};
use crate::entity::{Platform, gone_left};
use crate::registry::{Keyed, is_smallest_free, smallest_free, lemma_filter_unique, lemma_filter_members};
use crate::vehicle::all_wf_platforms;
use crate::timeloop::{Draws, TimeLoopRecord, next_platform, fresh_platform, is_live};
use crate::enemies::SPAWN_STEP;
use crate::world::{World, GenState, extends};

verus! {

/// Time between platform spawns.
pub const PLATFORM_DELAY: i64 = 1800;

/// The platform template the generator takes next, chosen as for enemies.
pub open spec fn platform_template(reading: &TimeLoopRecord, camera: i64, d: Draws) -> Platform {
    if !is_live(camera, reading) && reading.platforms@.len() > 0 {
        reading.platforms@[0]
    } else {
        fresh_platform(d)
    }
}

/// The generator state after the platform generator's part of a tick.
pub open spec fn platform_gen(g: GenState, d: Draws) -> GenState {
    if g.platform_cooldown <= 0 {
        let replay = g.camera <= g.reading_max && g.reading_platforms.len() > 0;
        GenState {
            platform_cooldown: (PLATFORM_DELAY - SPAWN_STEP) as i64,
            reading_platforms: if replay { g.reading_platforms.skip(1) } else { g.reading_platforms },
            storage_platforms: if replay { g.storage_platforms } else { g.storage_platforms.push(fresh_platform(d)) },
            ..g
        }
    } else {
        GenState { platform_cooldown: clamp(g.platform_cooldown - SPAWN_STEP) as i64, ..g }
    }
}

/// A platform one unit further left.
pub open spec fn scrolled(p: Platform) -> Platform {
    Platform { x: clamp(p.x - SCALE) as i64, ..p }
}

pub open spec fn still_visible(p: Platform) -> bool {
    !gone_left(p.x, p.width)
}

fn scroll_platforms(ps: &mut Vec<Platform>)
    requires
        all_wf_platforms(old(ps)@),
    ensures
        final(ps)@ == old(ps)@.map_values(|p: Platform| scrolled(p)),
        all_wf_platforms(final(ps)@),
{
    let ghost start = ps@;
    let mut i: usize = 0;
    while i < ps.len()
        invariant
            ps@.len() == start.len(),
            i <= start.len(),
            all_wf_platforms(start),
            all_wf_platforms(ps@),
            forall|j: int| 0 <= j < i ==> #[trigger] ps@[j] == scrolled(start[j]),
            forall|j: int| i <= j < start.len() ==> #[trigger] ps@[j] == start[j],
        decreases start.len() - i,
    {
        let p = ps[i];
        assert(start[i as int].wf());
        ps.set(i, Platform { x: sub_c(p.x, SCALE), ..p });
        i += 1;
    }
    assert(ps@ =~= start.map_values(|p: Platform| scrolled(p)));
}

fn cull_platforms(ps: &mut Vec<Platform>)
    requires
        all_wf_platforms(old(ps)@),
    ensures
        final(ps)@ == old(ps)@.filter(|p: Platform| still_visible(p)),
        all_wf_platforms(final(ps)@),
{
    let ghost start = ps@;
    let ghost pred = |p: Platform| still_visible(p);
    let mut out: Vec<Platform> = Vec::new();
    let mut i: usize = 0;
    assert(start.subrange(0, 0).filter(pred) =~= Seq::<Platform>::empty()) by {
        reveal(Seq::filter);
    }
    while i < ps.len()
        invariant
            ps@ == start,
            i <= start.len(),
            all_wf_platforms(start),
            pred == (|p: Platform| still_visible(p)),
            out@ == start.subrange(0, i as int).filter(pred),
        decreases start.len() - i,
    {
        let p = ps[i];
        assert(start[i as int].wf());
        proof {
            reveal(Seq::filter);
            assert(start.subrange(0, i + 1).drop_last() =~= start.subrange(0, i as int));
            assert(start.subrange(0, i + 1).last() == p);
        }
        let keep = p.x + p.width / 2 >= 0;
        assert(keep == pred(p));
        if keep {
            out.push(p);
        }
        i += 1;
    }
    assert(start.subrange(0, start.len() as int) =~= start);
    proof {
        assert forall|k: int| 0 <= k < out@.len() implies #[trigger] out@[k].wf() by {
            lemma_filter_members(start, pred);
            assert(k < start.filter(pred).len());
            let j = choose|j: int| 0 <= j < start.len() && #[trigger] start.filter(pred)[k] == start[j];
            assert(start[j].wf());
        }
    }
    *ps = out;
}

impl World {
    /// The platform generator: when its timer has run out, the next template
    /// (replayed or fresh, see `next_platform`) enters the world under the
    /// smallest free id and the timer restarts; the timer then runs down by
    /// one step.
    pub fn spawn_platform(&mut self, d: &Draws)
        requires
            old(self).wf(),
            d.wf(),
        ensures
            final(self).wf(),
            final(self).gen_state() == platform_gen(old(self).gen_state(), *d),
            if old(self).platform_cooldown <= 0 {
                let t = platform_template(&old(self).reading, old(self).camera_distance, *d);
                &&& (old(self).platforms.items@.len() < u32::MAX ==> final(self).platforms.items@ == old(self).platforms.items@.push(
                    Platform { id: smallest_free(old(self).platforms.items@), ..t },
                ))
                &&& (old(self).platforms.items@.len() >= u32::MAX ==> final(self).platforms == old(self).platforms)
                &&& final(self).platform_cooldown == PLATFORM_DELAY - SPAWN_STEP
                &&& if !is_live(old(self).camera_distance, &old(self).reading) && old(self).reading.platforms@.len() > 0 {
                    &&& final(self).reading.platforms@ == old(self).reading.platforms@.skip(1)
                    &&& final(self).storage.platforms@ == old(self).storage.platforms@
                } else {
                    &&& final(self).reading.platforms@ == old(self).reading.platforms@
                    &&& final(self).storage.platforms@ == old(self).storage.platforms@.push(t)
                }
            } else {
                &&& final(self).platforms == old(self).platforms
                &&& final(self).platform_cooldown == clamp(old(self).platform_cooldown - SPAWN_STEP)
                &&& final(self).reading == old(self).reading
                &&& final(self).storage == old(self).storage
            },
            final(self).reading.enemies@ == old(self).reading.enemies@,
            final(self).storage.enemies@ == old(self).storage.enemies@,
            final(self).reading.max_camera == old(self).reading.max_camera,
            final(self).storage.max_camera == old(self).storage.max_camera,
            final(self).player == old(self).player,
            final(self).clones == old(self).clones,
            final(self).player_bullets == old(self).player_bullets,
            final(self).enemy_bullets == old(self).enemy_bullets,
            final(self).enemies == old(self).enemies,
            final(self).camera_distance == old(self).camera_distance,
            final(self).enemy_cooldown == old(self).enemy_cooldown,
            final(self).in_run == old(self).in_run,
            final(self).pressed_keys == old(self).pressed_keys,
    {
        if self.platform_cooldown <= 0 {
            let cam = self.camera_distance;
            let t = next_platform(&mut self.reading, &mut self.storage, cam, d);
            if self.platforms.len() < u32::MAX as usize {
                let k = self.platforms.next_id();
                let np = Platform { id: k, ..t };
                let ghost ps = self.platforms.items@;
                self.platforms.add(np);
                assert(self.platforms.items@ == ps.push(np));
                assert forall|j: int| 0 <= j < self.platforms.items@.len() implies #[trigger] self.platforms.items@[j].wf() by {
                    if j < ps.len() {
                        assert(self.platforms.items@[j] == ps[j]);
                    }
                }
            }
            self.platform_cooldown = PLATFORM_DELAY - SPAWN_STEP;
        } else {
            self.platform_cooldown = sub_c(self.platform_cooldown, SPAWN_STEP);
        }
    }

    /// Platforms scroll one unit left, those wholly past the left edge are
    /// removed, and the platform generator runs.
    pub fn update_platforms(&mut self, d: &Draws)
        requires
            old(self).wf(),
            d.wf(),
        ensures
            final(self).wf(),
            ({
                let kept = old(self).platforms.items@.map_values(|p: Platform| scrolled(p)).filter(|p: Platform| still_visible(p));
                let t = platform_template(&old(self).reading, old(self).camera_distance, *d);
                &&& final(self).platforms.items@ == if old(self).platform_cooldown <= 0 && kept.len() < u32::MAX {
                    kept.push(Platform { id: smallest_free(kept), ..t })
                } else {
                    kept
                }
                &&& extends(kept, final(self).platforms.items@)
                &&& final(self).platforms.items@.len() <= kept.len() + 1
            }),
            forall|i: int| 0 <= i < final(self).platforms.items@.len() ==> ({
                let p = #[trigger] final(self).platforms.items@[i];
                still_visible(p) || (old(self).platform_cooldown <= 0 && i == final(self).platforms.items@.len() - 1)
            }),
            final(self).gen_state() == platform_gen(old(self).gen_state(), *d),
            final(self).player == old(self).player,
            final(self).clones == old(self).clones,
            final(self).player_bullets == old(self).player_bullets,
            final(self).enemy_bullets == old(self).enemy_bullets,
            final(self).enemies == old(self).enemies,
            final(self).camera_distance == old(self).camera_distance,
            final(self).enemy_cooldown == old(self).enemy_cooldown,
            final(self).in_run == old(self).in_run,
            final(self).pressed_keys == old(self).pressed_keys,
            final(self).reading.enemies@ == old(self).reading.enemies@,
            final(self).storage.enemies@ == old(self).storage.enemies@,
            final(self).reading.max_camera == old(self).reading.max_camera,
            final(self).storage.max_camera == old(self).storage.max_camera,
    {
        let ghost unscrolled = self.platforms.items@;
        scroll_platforms(&mut self.platforms.items);
        proof {
            assert forall|a: int, c: int|
                0 <= a < self.platforms.items@.len() && 0 <= c < self.platforms.items@.len() && a != c implies #[trigger] self.platforms.items@[a].key()
                != #[trigger] self.platforms.items@[c].key() by {
                assert(self.platforms.items@[a].key() == unscrolled[a].key());
                assert(self.platforms.items@[c].key() == unscrolled[c].key());
            }
        }
        let ghost scrolled_all = self.platforms.items@;
        cull_platforms(&mut self.platforms.items);
        proof {
            lemma_filter_unique(scrolled_all, |p: Platform| still_visible(p));
            assert forall|k: int| 0 <= k < self.platforms.items@.len() implies still_visible(#[trigger] self.platforms.items@[k]) by {
                scrolled_all.lemma_filter_pred(|p: Platform| still_visible(p), k);
            }
        }
        let ghost culled = self.platforms.items@;
        let ghost mid = *self;
        self.spawn_platform(d);
        proof {
            if mid.platform_cooldown <= 0 && culled.len() < u32::MAX {
                let t = platform_template(&mid.reading, mid.camera_distance, *d);
                assert(self.platforms.items@ == culled.push(Platform { id: smallest_free(culled), ..t }));
            } else {
                assert(self.platforms.items@ == culled);
            }
        }
        assert forall|i: int| 0 <= i < self.platforms.items@.len() implies ({
            let p = #[trigger] self.platforms.items@[i];
            still_visible(p) || (old(self).platform_cooldown <= 0 && i == self.platforms.items@.len() - 1)
        }) by {
            if i < culled.len() {
                assert(self.platforms.items@[i] == culled[i]);
            }
        }
    }
}

} // verus!
