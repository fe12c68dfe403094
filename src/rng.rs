use vstd::prelude::*;
use rand::Rng;
use rand::rngs::StdRng;
use crate::timeloop::{
    Draws, PLATFORM_IMAGES, SPAWN_HEIGHT, PLATFORM_MIN_WIDTH, PLATFORM_MAX_WIDTH, ENEMY_MIN_LEAD,
    ENEMY_MAX_LEAD,
};

verus! {

/// rand's seedable standard generator, carried through opaque.
#[verifier::external_type_specification]
#[verifier::external_body]
pub struct ExStdRng(StdRng);

/// Relies on rand's `Rng::gen_range` for `u32`: a value in `lo..hi`
/// (it panics on an empty range).
#[verifier::external_body]
fn draw(rng: &mut StdRng, lo: u32, hi: u32) -> (r: u32)
    requires
        lo < hi,
    ensures
        lo <= r < hi,
{
    rng.gen_range(lo..hi)
}

/// Draws the random figures for one tick from a seedable generator, so that
/// a run can be repeated from its seed.
pub fn roll(rng: &mut StdRng) -> (d: Draws)
    ensures
        d.wf(),
{
    let platform_image = draw(rng, 0, PLATFORM_IMAGES);
    let platform_y = draw(rng, 0, SPAWN_HEIGHT);
    let platform_width = draw(rng, PLATFORM_MIN_WIDTH, PLATFORM_MAX_WIDTH);
    let enemy_lead = draw(rng, ENEMY_MIN_LEAD, ENEMY_MAX_LEAD);
    let enemy_y = draw(rng, 0, SPAWN_HEIGHT);
    Draws { platform_image, platform_y, platform_width, enemy_lead, enemy_y }
}

} // verus!
