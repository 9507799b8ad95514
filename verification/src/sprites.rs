//! Which sprite frame an object shows.

use rand::rngs::ThreadRng;
use rand::Rng;
use vstd::prelude::*;

verus! {

/// Frames in the sprite animation cycle.
pub const SPRITE_FRAMES: usize = 8;

#[verifier::external_type_specification]
#[verifier::external_body]
pub struct ExThreadRng(ThreadRng);

/// `rand::Rng::gen_range(0..bound)` on a thread-local generator. rand's
/// documentation and source give a value in the half-open range `0..bound`
/// and a panic on an empty range (hence `bound > 0`). The value itself is
/// random, so nothing more is claimed of it, nor of the generator's new state.
#[verifier::external_body]
fn random_below(rng: &mut ThreadRng, bound: usize) -> (r: usize)
    requires
        bound > 0,
    ensures
        r < bound,
{
    rng.gen_range(0..bound)
}

/// The sprite frame that a newly spawned object starts on: drawn at random
/// among the `frame_count` frames.
pub fn spawn_frame(rng: &mut ThreadRng, frame_count: usize) -> (frame: usize)
    requires
        frame_count > 0,
    ensures
        frame < frame_count,
{
    random_below(rng, frame_count)
}

/// The frame shown after `steps` whole animation steps: the animation
/// cycles through the `frame_count` frames.
pub fn animation_frame(steps: usize, frame_count: usize) -> (frame: usize)
    requires
        frame_count > 0,
    ensures
        frame == steps % frame_count,
        frame < frame_count,
{
    steps % frame_count
}

} // verus!
