//! How many objects each frame removes and spawns to move towards the target.

use vstd::prelude::*;

verus! {

/// Most objects spawned in one frame.
pub const MAX_SPAWNS_PER_FRAME: usize = 25;

/// Smallest target for which spawn progress is reported.
pub const PROGRESS_MIN_TARGET: usize = 1000;

/// Spawn progress is reported each time the count passes a multiple of this.
pub const PROGRESS_INTERVAL: usize = 500;

/// What one frame does to the object population: first the newest `remove`
/// objects go, then `spawn` new objects come.
#[derive(Debug, Clone, Copy, PartialEq, Eq, Structural)]
pub struct PopulationStep {
    pub remove: usize,
    pub spawn: usize,
}

pub open spec fn smaller(a: int, b: int) -> int {
    if a <= b {
        a
    } else {
        b
    }
}

/// The objects removed in a frame that starts with `count` objects.
pub open spec fn removed(count: int, target: int) -> int {
    if count > target {
        count - target
    } else {
        0
    }
}

/// The objects spawned in a frame that starts with `count` objects.
pub open spec fn spawned(count: int, target: int) -> int {
    smaller(target - smaller(count, target), MAX_SPAWNS_PER_FRAME as int)
}

/// The object count at the end of a frame that starts with `count` objects.
pub open spec fn after_frame(count: int, target: int) -> int {
    count - removed(count, target) + spawned(count, target)
}

/// The object count after `frames` frames with a fixed target.
pub open spec fn after_frames(count: int, target: int, frames: nat) -> int
    decreases frames,
{
    if frames == 0 {
        count
    } else {
        after_frames(after_frame(count, target), target, (frames - 1) as nat)
    }
}

/// The frames that it takes to go from `count` objects to `target`.
pub open spec fn frames_to_target(count: int, target: int) -> nat {
    if count > target {
        1
    } else {
        ((target - count + MAX_SPAWNS_PER_FRAME as int - 1) / MAX_SPAWNS_PER_FRAME as int) as nat
    }
}

/// The removals and spawns of one frame that starts with `count` objects.
pub fn plan_population(count: usize, target: usize) -> (step: PopulationStep)
    ensures
        step.remove == removed(count as int, target as int),
        step.spawn == spawned(count as int, target as int),
        count > target ==> step.remove == count - target && step.spawn == 0,
        count <= target ==> step.remove == 0,
        count <= target && target - count >= MAX_SPAWNS_PER_FRAME ==> step.spawn
            == MAX_SPAWNS_PER_FRAME,
        count <= target && target - count < MAX_SPAWNS_PER_FRAME ==> step.spawn == target - count,
{
    let remove = if count > target {
        count - target
    } else {
        0
    };
    let kept = count - remove;
    let missing = target - kept;
    let spawn = if missing < MAX_SPAWNS_PER_FRAME {
        missing
    } else {
        MAX_SPAWNS_PER_FRAME
    };
    PopulationStep { remove, spawn }
}

/// Whether the frame that just spawned `spawn` objects, reaching `count`
/// objects, passed a progress mark worth reporting.
pub fn spawn_progress_due(count: usize, target: usize, spawn: usize) -> (due: bool)
    ensures
        due == (spawn > 0 && target >= PROGRESS_MIN_TARGET && count % PROGRESS_INTERVAL < spawn),
{
    spawn > 0 && target >= PROGRESS_MIN_TARGET && count % PROGRESS_INTERVAL < spawn
}

/// What a frame does, in terms of the object count and the target: an
/// excess is removed at once and nothing is spawned; otherwise nothing is
/// removed and the missing objects are spawned, all of them when fewer than
/// `MAX_SPAWNS_PER_FRAME` are missing and exactly `MAX_SPAWNS_PER_FRAME`
/// when at least that many are missing.
pub proof fn lemma_frame_moves_toward_target(count: int, target: int)
    requires
        0 <= count,
        0 <= target,
    ensures
        count > target ==> removed(count, target) == count - target && spawned(count, target)
            == 0 && after_frame(count, target) == target,
        count <= target ==> removed(count, target) == 0,
        count <= target && target - count >= 25 ==> spawned(count, target) == 25
            && after_frame(count, target) == count + 25,
        count <= target && target - count < 25 ==> spawned(count, target) == target - count
            && after_frame(count, target) == target,
{
}

/// A frame never leaves more objects than the target, never drops below
/// what was kept of the old ones, and spawns at most `MAX_SPAWNS_PER_FRAME`.
pub proof fn lemma_frame_bounds(count: int, target: int)
    requires
        0 <= count,
        0 <= target,
    ensures
        smaller(count, target) <= after_frame(count, target) <= target,
        0 <= spawned(count, target) <= MAX_SPAWNS_PER_FRAME,
        after_frame(count, target) == target <==> target - smaller(count, target)
            <= MAX_SPAWNS_PER_FRAME,
{
}

/// With a fixed target the population reaches the target after
/// `frames_to_target` frames and stays there.
pub proof fn lemma_population_reaches_target(count: int, target: int, extra: nat)
    requires
        0 <= count,
        0 <= target,
    ensures
        after_frames(count, target, frames_to_target(count, target) + extra) == target,
    decreases frames_to_target(count, target),
{
    let f = frames_to_target(count, target);
    let next = after_frame(count, target);
    if count > target {
        assert(next == target);
        lemma_target_is_stable(target, extra);
        assert(after_frames(count, target, f + extra) == after_frames(next, target, extra));
    } else if count == target {
        assert(f == 0);
        lemma_target_is_stable(target, extra);
    } else {
        assert(f >= 1);
        if target - count <= MAX_SPAWNS_PER_FRAME {
            assert(next == target);
            assert(f == 1);
            lemma_target_is_stable(target, extra);
            assert(after_frames(count, target, f + extra) == after_frames(next, target, extra));
        } else {
            assert(next == count + MAX_SPAWNS_PER_FRAME);
            assert(frames_to_target(next, target) == f - 1);
            lemma_population_reaches_target(next, target, extra);
            assert(after_frames(count, target, f + extra) == after_frames(
                next,
                target,
                (f - 1 + extra) as nat,
            ));
        }
    }
}

/// Once the population equals the target, frames leave it there.
pub proof fn lemma_target_is_stable(target: int, frames: nat)
    requires
        0 <= target,
    ensures
        after_frames(target, target, frames) == target,
    decreases frames,
{
    if frames > 0 {
        lemma_target_is_stable(target, (frames - 1) as nat);
    }
}

} // verus!
