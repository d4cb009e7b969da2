//! What a frame shows: which parts of the glyph are drawn, how each
//! point is marked, and whether the cursor is lit.

use vstd::prelude::*;
use crate::animation::{animation_valid, segment_state_at, SegmentState};
use crate::app::Screen;

verus! {

/// Half the period of the blinking cursor, in microseconds.
pub const BLINK_HALF_PERIOD: u64 = 500_000;

/// The part that a point plays in its glyph, by which it is coloured.
#[derive(Clone, Copy, Debug, PartialEq, Eq)]
pub enum PointRole {
    /// The point at which the line starts.
    First,
    /// The point at which the line ends, in a glyph of several points.
    Last,
    /// Any point between the two.
    Middle,
}

/// The role of point `index` among `count`: the first point is the
/// first even where it is the only one.
pub open spec fn role_of(index: int, count: int) -> PointRole {
    if index == 0 {
        PointRole::First
    } else if index == count - 1 {
        PointRole::Last
    } else {
        PointRole::Middle
    }
}

/// Whether the cursor is lit at this time: it is lit for the first half
/// of every second and dark for the second.
pub open spec fn cursor_lit_at(blink_timer: u64) -> bool {
    (blink_timer / BLINK_HALF_PERIOD) % 2 == 0
}

/// Whether the screen shows the glyph.
pub open spec fn glyph_shown_on(screen: Screen) -> bool {
    screen is Display || screen is Animating || screen is Saving
}

/// The role of point `index` among `count`.
pub fn point_role(index: usize, count: usize) -> (role: PointRole)
    requires
        index < count,
    ensures
        role == role_of(index as int, count as int),
{
    if index == 0 {
        PointRole::First
    } else if index == count - 1 {
        PointRole::Last
    } else {
        PointRole::Middle
    }
}

/// Whether the cursor is lit at this time.
pub fn cursor_lit(blink_timer: u64) -> (lit: bool)
    ensures
        lit == cursor_lit_at(blink_timer),
{
    (blink_timer / BLINK_HALF_PERIOD) % 2 == 0
}

/// Whether the screen shows the glyph.
pub fn glyph_shown(screen: Screen) -> (shown: bool)
    ensures
        shown == glyph_shown_on(screen),
{
    match screen {
        Screen::Display => true,
        Screen::Animating { .. } => true,
        Screen::Saving => true,
        _ => false,
    }
}

/// One thing to draw. Points are named by their place in the glyph.
#[derive(Clone, Copy, Debug, PartialEq, Eq)]
pub enum Stroke {
    /// The segment from point `from` to the point after it, in full or
    /// in part.
    Segment { from: usize, state: SegmentState },
    /// The mark of a point, coloured by its role.
    Mark { point: usize, role: PointRole },
    /// The label of a point, over its mark.
    Label { point: usize },
}

/// The number of segments of a glyph of `count` points: one less than
/// points, and none without points.
pub open spec fn segment_count(count: int) -> nat {
    if count >= 1 {
        (count - 1) as nat
    } else {
        0
    }
}

/// The segments of a glyph of `count` points as the screen shows them:
/// all of them where the finished glyph is shown; while the animation
/// runs, those before the current one in full and then the current one
/// in part.
pub open spec fn screen_segments(screen: Screen, count: int) -> Seq<Stroke> {
    match screen {
        Screen::Animating { progress, segment } => {
            let full = if segment < segment_count(count) {
                segment as nat
            } else {
                segment_count(count)
            };
            Seq::new(
                full,
                |i: int| Stroke::Segment { from: i as usize, state: SegmentState::Full },
            ) + (if segment + 1 < count {
                seq![Stroke::Segment { from: segment, state: SegmentState::Partial { progress } }]
            } else {
                Seq::empty()
            })
        },
        _ => Seq::new(
            segment_count(count),
            |i: int| Stroke::Segment { from: i as usize, state: SegmentState::Full },
        ),
    }
}

/// The marks and labels of a glyph of `count` points as the screen
/// shows them: point by point, the mark and then the label.
pub open spec fn screen_marks(count: int) -> Seq<Stroke> {
    Seq::new(
        (2 * count) as nat,
        |k: int|
            if k % 2 == 0 {
                Stroke::Mark { point: (k / 2) as usize, role: role_of(k / 2, count) }
            } else {
                Stroke::Label { point: (k / 2) as usize }
            },
    )
}

/// What the screen draws of a glyph of `count` points, in order: the
/// segments, then the marks and labels. Nothing without points.
pub open spec fn screen_strokes_of(screen: Screen, count: int) -> Seq<Stroke> {
    if count == 0 {
        Seq::empty()
    } else {
        screen_segments(screen, count) + screen_marks(count)
    }
}

/// The marks and labels of the first `upto` points in the saved
/// picture, but for the marks of the two ends: point by point, the mark
/// where the point lies between the ends, and then the label.
pub open spec fn picture_marks(count: int, upto: nat) -> Seq<Stroke>
    decreases upto,
{
    if upto == 0 {
        Seq::empty()
    } else {
        let i = (upto - 1) as int;
        let before = picture_marks(count, (upto - 1) as nat);
        if role_of(i, count) == PointRole::Middle {
            before + seq![
                Stroke::Mark { point: i as usize, role: PointRole::Middle },
                Stroke::Label { point: i as usize },
            ]
        } else {
            before + seq![Stroke::Label { point: i as usize }]
        }
    }
}

/// The marks of the two ends in the saved picture: the first point, and
/// the last where there are several.
pub open spec fn picture_ends(count: int) -> Seq<Stroke> {
    if count == 0 {
        Seq::empty()
    } else if count == 1 {
        seq![Stroke::Mark { point: 0, role: PointRole::First }]
    } else {
        seq![
            Stroke::Mark { point: 0, role: PointRole::First },
            Stroke::Mark { point: (count - 1) as usize, role: PointRole::Last },
        ]
    }
}

/// What the saved picture shows of a glyph of `count` points, in order:
/// every segment in full, the marks of the two ends, then the other
/// marks and all labels.
pub open spec fn picture_strokes_of(count: int) -> Seq<Stroke> {
    screen_segments(Screen::Display, count) + picture_ends(count) + picture_marks(
        count,
        count as nat,
    )
}

/// What the screen draws of a glyph of `count` points, in order.
pub fn screen_strokes(screen: Screen, count: usize) -> (strokes: Vec<Stroke>)
    ensures
        strokes@ == screen_strokes_of(screen, count as int),
{
    let mut strokes: Vec<Stroke> = Vec::new();
    if count == 0 {
        return strokes;
    }
    let full: usize = match screen {
        Screen::Animating { progress, segment } => if segment < count - 1 {
            segment
        } else {
            count - 1
        },
        _ => count - 1,
    };
    let mut i: usize = 0;
    while i < full
        invariant
            i <= full,
            strokes@ == Seq::new(
                i as nat,
                |i: int| Stroke::Segment { from: i as usize, state: SegmentState::Full },
            ),
        decreases full - i,
    {
        strokes.push(Stroke::Segment { from: i, state: SegmentState::Full });
        i += 1;
        assert(strokes@ =~= Seq::new(
            i as nat,
            |i: int| Stroke::Segment { from: i as usize, state: SegmentState::Full },
        ));
    }
    if let Screen::Animating { progress, segment } = screen {
        if segment < count - 1 {
            strokes.push(
                Stroke::Segment { from: segment, state: SegmentState::Partial { progress } },
            );
        }
    }
    assert(strokes@ =~= screen_segments(screen, count as int));
    let ghost segments = strokes@;
    let mut k: usize = 0;
    while k < count
        invariant
            k <= count,
            strokes@.len() == segments.len() + 2 * k,
            forall|n: int| 0 <= n < segments.len() ==> strokes@[n] == segments[n],
            forall|m: int|
                segments.len() <= m < strokes@.len() ==> #[trigger] strokes@[m] == screen_marks(
                    count as int,
                )[m - segments.len()],
        decreases count - k,
    {
        strokes.push(Stroke::Mark { point: k, role: point_role(k, count) });
        strokes.push(Stroke::Label { point: k });
        k += 1;
    }
    assert(strokes@ =~= segments + screen_marks(count as int));
    strokes
}

/// What the saved picture shows of a glyph of `count` points, in order.
pub fn picture_strokes(count: usize) -> (strokes: Vec<Stroke>)
    ensures
        strokes@ == picture_strokes_of(count as int),
{
    let mut strokes: Vec<Stroke> = Vec::new();
    let mut i: usize = 0;
    while i + 1 < count
        invariant
            i + 1 <= count || count == 0,
            i == 0 || i + 1 <= count,
            strokes@ == Seq::new(
                i as nat,
                |i: int| Stroke::Segment { from: i as usize, state: SegmentState::Full },
            ),
        decreases count - i,
    {
        strokes.push(Stroke::Segment { from: i, state: SegmentState::Full });
        i += 1;
        assert(strokes@ =~= Seq::new(
            i as nat,
            |i: int| Stroke::Segment { from: i as usize, state: SegmentState::Full },
        ));
    }
    assert(strokes@ =~= screen_segments(Screen::Display, count as int));
    if count > 0 {
        strokes.push(Stroke::Mark { point: 0, role: PointRole::First });
        if count > 1 {
            strokes.push(Stroke::Mark { point: count - 1, role: PointRole::Last });
        }
    }
    assert(strokes@ =~= screen_segments(Screen::Display, count as int) + picture_ends(
        count as int,
    ));
    let ghost head = strokes@;
    let mut k: usize = 0;
    while k < count
        invariant
            k <= count,
            strokes@ == head + picture_marks(count as int, k as nat),
        decreases count - k,
    {
        let ghost before = strokes@;
        if k != 0 && k != count - 1 {
            strokes.push(Stroke::Mark { point: k, role: PointRole::Middle });
        }
        strokes.push(Stroke::Label { point: k });
        k += 1;
        assert(strokes@ =~= head + picture_marks(count as int, k as nat));
    }
    strokes
}

/// While the animation runs, the screen draws the segments before the
/// current one in full, the current one as far as it has come, and no
/// segment after it.
pub proof fn lemma_animation_draws_in_order(progress: u64, segment: usize, count: int)
    requires
        animation_valid(progress, segment, count),
    ensures
        screen_segments(Screen::Animating { progress, segment }, count).len() == segment + 1,
        forall|i: int|
            0 <= i <= segment ==> #[trigger] screen_segments(
                Screen::Animating { progress, segment },
                count,
            )[i] == (Stroke::Segment {
                from: i as usize,
                state: segment_state_at(i, progress, segment),
            }),
{
}

} // verus!
