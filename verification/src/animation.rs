//! Drawing a glyph stroke by stroke: how far the drawing has come, and
//! how it goes on with time.

use vstd::prelude::*;

verus! {

/// One second, in the unit in which time is counted: the microsecond.
pub const SECOND: u64 = 1_000_000;

/// A whole segment, in the unit in which progress is counted: the
/// millionth of a segment.
pub const PROGRESS_FULL: u64 = 1_000_000;

/// Segments drawn per second.
pub const ANIMATION_SPEED: u64 = 3;

/// What one tick makes of a running animation.
#[derive(Clone, Copy, Debug, PartialEq, Eq)]
pub enum AnimationStep {
    /// The animation goes on, at this progress within this segment.
    Running { progress: u64, segment: usize },
    /// The last segment has been drawn.
    Finished,
}

/// How a segment is to be drawn.
#[derive(Clone, Copy, Debug, PartialEq, Eq)]
pub enum SegmentState {
    /// From its start point to its end point.
    Full,
    /// From its start point towards its end point, this many millionths
    /// of the way.
    Partial { progress: u64 },
    /// Not at all.
    Hidden,
}

/// Whether an animation of a glyph of `count` points can stand at this
/// progress within this segment.
pub open spec fn animation_valid(progress: u64, segment: usize, count: int) -> bool {
    progress < PROGRESS_FULL && segment + 1 < count
}

/// The animation after `elapsed` microseconds. Progress grows with time;
/// once it reaches a whole segment it starts again at zero in the next
/// segment, and after the last segment the animation is over.
pub open spec fn advanced(
    progress: u64,
    segment: usize,
    elapsed: u64,
    count: int,
) -> AnimationStep {
    if progress + elapsed * ANIMATION_SPEED >= PROGRESS_FULL {
        if segment + 1 >= count - 1 {
            AnimationStep::Finished
        } else {
            AnimationStep::Running { progress: 0, segment: (segment + 1) as usize }
        }
    } else {
        AnimationStep::Running {
            progress: (progress + elapsed * ANIMATION_SPEED) as u64,
            segment,
        }
    }
}

/// How segment `index` is drawn while the animation stands at `progress`
/// within `segment`: those before it in full, the segment itself in
/// part, those after it not at all.
pub open spec fn segment_state_at(index: int, progress: u64, segment: usize) -> SegmentState {
    if index < segment {
        SegmentState::Full
    } else if index == segment {
        SegmentState::Partial { progress }
    } else {
        SegmentState::Hidden
    }
}

/// Advances a running animation of a glyph of `count` points by
/// `elapsed` microseconds.
pub fn advance(progress: u64, segment: usize, elapsed: u64, count: usize) -> (step: AnimationStep)
    requires
        animation_valid(progress, segment, count as int),
    ensures
        step == advanced(progress, segment, elapsed, count as int),
        step matches AnimationStep::Running { progress: p, segment: s } ==> animation_valid(
            p,
            s,
            count as int,
        ),
{
    let whole = elapsed >= PROGRESS_FULL || progress + elapsed * ANIMATION_SPEED >= PROGRESS_FULL;
    if whole {
        if segment + 1 >= count - 1 {
            AnimationStep::Finished
        } else {
            AnimationStep::Running { progress: 0, segment: segment + 1 }
        }
    } else {
        AnimationStep::Running { progress: progress + elapsed * ANIMATION_SPEED, segment }
    }
}

/// How segment `index` is drawn while the animation stands at `progress`
/// within `segment`.
pub fn segment_state(index: usize, progress: u64, segment: usize) -> (state: SegmentState)
    ensures
        state == segment_state_at(index as int, progress, segment),
{
    if index < segment {
        SegmentState::Full
    } else if index == segment {
        SegmentState::Partial { progress }
    } else {
        SegmentState::Hidden
    }
}

/// An animation never runs past the last segment: while it runs, the
/// segment it stands in joins two points of the glyph.
pub proof fn lemma_advanced_stays_valid(progress: u64, segment: usize, elapsed: u64, count: int)
    requires
        animation_valid(progress, segment, count),
        count <= usize::MAX,
    ensures
        advanced(progress, segment, elapsed, count) matches AnimationStep::Running {
            progress: p,
            segment: s,
        } ==> animation_valid(p, s, count) && (s == segment || (s == segment + 1 && p == 0)),
{
}

} // verus!
