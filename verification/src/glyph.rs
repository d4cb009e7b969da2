//! From digits to a glyph: the digits are shuffled, each gets a place on
//! a circle, and the places are shuffled once more.

use vstd::prelude::*;
use crate::normalize::{digit_sequence, digits, lemma_digits};
use crate::random::uniform_in;

verus! {

/// A full turn, in millionths of a radian.
pub const FULL_TURN: i32 = 6_283_185;

/// The furthest that a point is moved off its even place, in millionths
/// of a radian.
pub const MAX_JITTER: i32 = 200_000;

/// One point of a glyph: the direction in which it lies from the centre,
/// in millionths of a radian, and the digit written on it. Every point
/// lies at the same distance from the centre.
#[derive(Clone, Copy, Debug, PartialEq, Eq)]
pub struct GlyphPoint {
    pub angle: i32,
    pub label: u8,
}

/// The outcomes of chance that one glyph takes: the draws of the shuffle
/// of its digits, the offset of each angle, and the draws of the shuffle
/// of its angles.
#[derive(Debug)]
pub struct GlyphDraws {
    pub first: Vec<usize>,
    pub jitter: Vec<i32>,
    pub second: Vec<usize>,
}

/// The sequence with the items at `i` and `j` exchanged.
pub open spec fn swapped<T>(s: Seq<T>, i: int, j: int) -> Seq<T> {
    s.update(i, s[j]).update(j, s[i])
}

/// The sequence after the first `steps` exchanges of a shuffle from the
/// right: exchange number `k`, counted from 1, exchanges the item at
/// `len - k` with the one at `draws[k - 1]`.
pub open spec fn shuffled<T>(s: Seq<T>, draws: Seq<usize>, steps: nat) -> Seq<T>
    decreases steps,
{
    if steps == 0 {
        s
    } else {
        swapped(
            shuffled(s, draws, (steps - 1) as nat),
            s.len() - steps,
            draws[steps - 1] as int,
        )
    }
}

/// The sequence after the whole shuffle: the index runs from the last
/// item down to the second.
pub open spec fn fully_shuffled<T>(s: Seq<T>, draws: Seq<usize>) -> Seq<T> {
    if s.len() == 0 {
        s
    } else {
        shuffled(s, draws, (s.len() - 1) as nat)
    }
}

/// Whether `draws` can drive the shuffle of `count` items: one draw for
/// each index from the last down to the second, none beyond its index.
pub open spec fn draws_fit(draws: Seq<usize>, count: int) -> bool {
    &&& draws.len() == (if count >= 1 {
        count - 1
    } else {
        0
    })
    &&& forall|k: int| 0 <= k < draws.len() ==> #[trigger] draws[k] <= count - 1 - k
}

/// The draws that leave every item in place.
pub open spec fn still_draws(count: int) -> Seq<usize> {
    Seq::new((count - 1) as nat, |k: int| (count - 1 - k) as usize)
}

/// The even place of point `index` among `count`.
pub open spec fn base_angle(index: int, count: int) -> int {
    FULL_TURN * index / count
}

/// The angles of `count` points before they are shuffled: each even place
/// moved by its offset.
pub open spec fn jittered_angles(count: int, jitter: Seq<i32>) -> Seq<i32> {
    Seq::new(count as nat, |i: int| (base_angle(i, count) + jitter[i]) as i32)
}

impl GlyphDraws {
    /// Whether these outcomes can drive a glyph of `count` points.
    pub open spec fn fits(self, count: int) -> bool {
        &&& count >= 1
        &&& draws_fit(self.first@, count)
        &&& draws_fit(self.second@, count)
        &&& self.jitter@.len() == count
        &&& forall|k: int|
            0 <= k < count ==> -MAX_JITTER <= #[trigger] self.jitter@[k] <= MAX_JITTER
    }

    /// Whether these outcomes leave everything where it is: no item is
    /// shuffled away and no angle is moved.
    pub open spec fn is_still(self, count: int) -> bool {
        &&& self.first@ == still_draws(count)
        &&& self.second@ == still_draws(count)
        &&& self.jitter@ == Seq::new(count as nat, |k: int| 0i32)
    }
}

/// The glyph of the given digits under the given outcomes of chance.
pub open spec fn glyph(digits: Seq<u8>, draws: GlyphDraws) -> Seq<GlyphPoint> {
    let labels = fully_shuffled(digits, draws.first@);
    let angles = fully_shuffled(jittered_angles(digits.len() as int, draws.jitter@), draws.second@);
    Seq::new(digits.len(), |i: int| GlyphPoint { angle: angles[i], label: labels[i] })
}

/// The labels of the points, in order.
pub open spec fn labels_of(points: Seq<GlyphPoint>) -> Seq<u8> {
    points.map_values(|p: GlyphPoint| p.label)
}

/// Whether `points` is a glyph of the phrase: the glyph of its digits
/// under some outcomes of chance that fit.
pub open spec fn is_glyph_of(points: Seq<GlyphPoint>, phrase: Seq<char>) -> bool {
    exists|draws: GlyphDraws| #[trigger]
        draws.fits(digits(phrase).len() as int) && points == glyph(digits(phrase), draws)
}

/// Exchanging two items keeps length and contents.
pub proof fn lemma_swapped_permutes<T>(s: Seq<T>, i: int, j: int)
    requires
        0 <= i < s.len(),
        0 <= j < s.len(),
    ensures
        swapped(s, i, j).len() == s.len(),
        swapped(s, i, j).to_multiset() == s.to_multiset(),
{
    broadcast use vstd::multiset::group_multiset_axioms;

    let t = s.update(i, s[j]);
    vstd::seq_lib::to_multiset_update(s, i, s[j]);
    vstd::seq_lib::to_multiset_update(t, j, s[i]);
    vstd::seq_lib::to_multiset_contains(s, s[i]);
    vstd::seq_lib::to_multiset_contains(s, s[j]);
    assert(s.contains(s[i]) && s.contains(s[j]));
    assert(t[j] == s[j]);
    assert(swapped(s, i, j).to_multiset() =~= s.to_multiset());
}

/// However the draws fall, a shuffle keeps length and contents: what
/// comes out is a rearrangement of what went in.
pub proof fn lemma_shuffled_permutes<T>(s: Seq<T>, draws: Seq<usize>, steps: nat)
    requires
        draws_fit(draws, s.len() as int),
        steps <= draws.len(),
    ensures
        shuffled(s, draws, steps).len() == s.len(),
        shuffled(s, draws, steps).to_multiset() == s.to_multiset(),
    decreases steps,
{
    if steps > 0 {
        lemma_shuffled_permutes(s, draws, (steps - 1) as nat);
        let prev = shuffled(s, draws, (steps - 1) as nat);
        assert(draws[steps - 1] <= s.len() - 1 - (steps - 1));
        lemma_swapped_permutes(prev, s.len() - steps, draws[steps - 1] as int);
    }
}

/// A whole shuffle keeps length and contents, and with them every
/// property that all items share.
pub proof fn lemma_fully_shuffled_permutes<T>(s: Seq<T>, draws: Seq<usize>)
    requires
        draws_fit(draws, s.len() as int),
    ensures
        fully_shuffled(s, draws).len() == s.len(),
        fully_shuffled(s, draws).to_multiset() == s.to_multiset(),
        forall|i: int|
            0 <= i < s.len() ==> s.contains(#[trigger] fully_shuffled(s, draws)[i]),
{
    if s.len() >= 1 {
        lemma_shuffled_permutes(s, draws, (s.len() - 1) as nat);
    }
    let out = fully_shuffled(s, draws);
    assert forall|i: int| 0 <= i < s.len() implies s.contains(#[trigger] out[i]) by {
        assert(out.contains(out[i]));
        vstd::seq_lib::to_multiset_contains(out, out[i]);
        vstd::seq_lib::to_multiset_contains(s, out[i]);
    }
}

/// Draws that leave every item in place leave the sequence as it is.
pub proof fn lemma_still_draws_keep_order<T>(s: Seq<T>, steps: nat)
    requires
        1 <= s.len() <= usize::MAX,
        steps <= s.len() - 1,
    ensures
        draws_fit(still_draws(s.len() as int), s.len() as int),
        shuffled(s, still_draws(s.len() as int), steps) == s,
    decreases steps,
{
    if steps > 0 {
        lemma_still_draws_keep_order(s, (steps - 1) as nat);
        assert(still_draws(s.len() as int)[steps - 1] as int == s.len() - steps);
        assert(swapped(s, s.len() - steps, s.len() - steps) =~= s);
    }
}

/// The even places lie within one turn, so every angle before the
/// shuffle lies within one turn widened by the largest offset.
pub proof fn lemma_base_angle_bounds(index: int, count: int)
    requires
        0 <= index < count,
    ensures
        0 <= base_angle(index, count) < FULL_TURN,
{
    assert(0 <= FULL_TURN * index / count < FULL_TURN) by (nonlinear_arith)
        requires
            0 <= index < count,
            FULL_TURN == 6_283_185,
    ;
}

/// A glyph has one point for each digit, its labels are the digits
/// rearranged, no label is beyond nine where no digit is, and each angle
/// lies within one turn widened by the largest offset.
pub proof fn lemma_glyph_properties(digits: Seq<u8>, draws: GlyphDraws)
    requires
        draws.fits(digits.len() as int),
    ensures
        glyph(digits, draws).len() == digits.len(),
        labels_of(glyph(digits, draws)).to_multiset() == digits.to_multiset(),
        (forall|i: int| 0 <= i < digits.len() ==> #[trigger] digits[i] <= 9) ==> forall|i: int|
            0 <= i < digits.len() ==> (#[trigger] glyph(digits, draws)[i]).label <= 9,
        forall|i: int|
            0 <= i < digits.len() ==> -MAX_JITTER <= (#[trigger] glyph(digits, draws)[i]).angle
                < FULL_TURN + MAX_JITTER,
{
    let n = digits.len() as int;
    let labels = fully_shuffled(digits, draws.first@);
    let before = jittered_angles(n, draws.jitter@);
    let angles = fully_shuffled(before, draws.second@);
    let out = glyph(digits, draws);
    lemma_fully_shuffled_permutes(digits, draws.first@);
    lemma_fully_shuffled_permutes(before, draws.second@);
    assert(labels_of(out) =~= labels);
    if forall|i: int| 0 <= i < digits.len() ==> #[trigger] digits[i] <= 9 {
        assert forall|i: int| 0 <= i < digits.len() implies (#[trigger] out[i]).label <= 9 by {
            assert(digits.contains(labels[i]));
        }
    }
    assert forall|i: int| 0 <= i < digits.len() implies -MAX_JITTER <= (#[trigger] out[i]).angle
        < FULL_TURN + MAX_JITTER by {
        assert(before.contains(angles[i]));
        let j = choose|j: int| 0 <= j < before.len() && before[j] == angles[i];
        lemma_base_angle_bounds(j, n);
        assert(-MAX_JITTER <= draws.jitter@[j] <= MAX_JITTER);
    }
}

/// With chance switched off the glyph shows the digits in their own
/// order, each at its even place on the circle.
pub proof fn lemma_still_glyph(digits: Seq<u8>, draws: GlyphDraws)
    requires
        1 <= digits.len() <= usize::MAX,
        draws.is_still(digits.len() as int),
    ensures
        draws.fits(digits.len() as int),
        glyph(digits, draws).len() == digits.len(),
        forall|i: int|
            0 <= i < digits.len() ==> #[trigger] glyph(digits, draws)[i] == (GlyphPoint {
                angle: base_angle(i, digits.len() as int) as i32,
                label: digits[i],
            }),
{
    let n = digits.len() as int;
    let before = jittered_angles(n, draws.jitter@);
    lemma_still_draws_keep_order(digits, (n - 1) as nat);
    lemma_still_draws_keep_order(before, (n - 1) as nat);
}

/// Two runs on the same digits with the same outcomes of chance give the
/// same glyph, point for point.
pub proof fn lemma_glyph_repeatable(digits: Seq<u8>, once: GlyphDraws, again: GlyphDraws)
    requires
        once.first@ == again.first@,
        once.jitter@ == again.jitter@,
        once.second@ == again.second@,
    ensures
        glyph(digits, once) == glyph(digits, again),
{
}

/// Shuffles `items` from the right with the given draws: for each index
/// from the last down to the second, the item there changes places with
/// the one at the next draw.
pub fn shuffle_with<T: Copy>(items: &mut Vec<T>, draws: &Vec<usize>)
    requires
        draws_fit(draws@, old(items).len() as int),
    ensures
        final(items)@ == fully_shuffled(old(items)@, draws@),
        final(items)@.len() == old(items)@.len(),
        final(items)@.to_multiset() == old(items)@.to_multiset(),
{
    let n: usize = items.len();
    if n == 0 {
        return ;
    }
    let mut step: usize = 0;
    while step < n - 1
        invariant
            n == old(items).len(),
            n >= 1,
            step <= n - 1,
            draws_fit(draws@, n as int),
            items@.len() == n,
            items@ == shuffled(old(items)@, draws@, step as nat),
        decreases n - 1 - step,
    {
        let i: usize = n - 1 - step;
        let j: usize = draws[step];
        assert(j <= n - 1 - step);
        let at_i = items[i];
        let at_j = items[j];
        items.set(i, at_j);
        items.set(j, at_i);
        step += 1;
    }
    proof {
        lemma_fully_shuffled_permutes(old(items)@, draws@);
    }
}

/// Draws what drives the shuffle of `count` items.
fn draw_shuffle(count: usize) -> (draws: Vec<usize>)
    requires
        1 <= count <= MAX_DRAW_COUNT,
    ensures
        draws_fit(draws@, count as int),
{
    let mut draws: Vec<usize> = Vec::new();
    let mut k: usize = 0;
    while k < count - 1
        invariant
            1 <= count <= MAX_DRAW_COUNT,
            k <= count - 1,
            draws.len() == k,
            forall|m: int| 0 <= m < k ==> #[trigger] draws[m] <= count - 1 - m,
        decreases count - 1 - k,
    {
        let i: usize = count - 1 - k;
        let j: i32 = uniform_in(0, (i + 1) as i32);
        draws.push(j as usize);
        k += 1;
    }
    draws
}

/// Largest number of points for which chance can be drawn.
pub const MAX_DRAW_COUNT: usize = 0x10_0000;

impl GlyphDraws {
    /// Draws the outcomes of chance for a glyph of `count` points, in the
    /// order in which the glyph takes them: the shuffle of the digits, the
    /// offsets, the shuffle of the angles.
    pub fn random(count: usize) -> (draws: GlyphDraws)
        requires
            1 <= count <= MAX_DRAW_COUNT,
        ensures
            draws.fits(count as int),
    {
        let first = draw_shuffle(count);
        let mut jitter: Vec<i32> = Vec::new();
        let mut k: usize = 0;
        while k < count
            invariant
                k <= count,
                jitter.len() == k,
                forall|m: int| 0 <= m < k ==> -MAX_JITTER <= #[trigger] jitter[m] <= MAX_JITTER,
            decreases count - k,
        {
            jitter.push(uniform_in(-MAX_JITTER, MAX_JITTER));
            k += 1;
        }
        let second = draw_shuffle(count);
        GlyphDraws { first, jitter, second }
    }

    /// The outcomes with chance switched off, for a glyph of `count`
    /// points: nothing is shuffled away and no angle is moved.
    pub fn still(count: usize) -> (draws: GlyphDraws)
        requires
            count >= 1,
        ensures
            draws.is_still(count as int),
            draws.fits(count as int),
    {
        let mut first: Vec<usize> = Vec::new();
        let mut second: Vec<usize> = Vec::new();
        let mut jitter: Vec<i32> = Vec::new();
        let mut k: usize = 0;
        while k < count
            invariant
                1 <= count,
                k <= count,
                jitter.len() == k,
                first.len() == (if k < count {
                    k
                } else {
                    (count - 1) as usize
                }),
                second@ == first@,
                forall|m: int| 0 <= m < jitter.len() ==> #[trigger] jitter[m] == 0,
                forall|m: int| 0 <= m < first.len() ==> #[trigger] first[m] == count - 1 - m,
            decreases count - k,
        {
            if k < count - 1 {
                first.push(count - 1 - k);
                second.push(count - 1 - k);
            }
            jitter.push(0);
            k += 1;
        }
        assert(first@ =~= still_draws(count as int));
        assert(jitter@ =~= Seq::new(count as nat, |k: int| 0i32));
        GlyphDraws { first, jitter, second }
    }
}

/// Places the digits on the circle under the given outcomes of chance.
pub fn place_points(digits: &Vec<u8>, draws: &GlyphDraws) -> (points: Vec<GlyphPoint>)
    requires
        draws.fits(digits.len() as int),
    ensures
        points@ == glyph(digits@, *draws),
        points.len() == digits.len(),
        labels_of(points@).to_multiset() == digits@.to_multiset(),
{
    let n: usize = digits.len();
    let mut labels: Vec<u8> = Vec::new();
    let mut angles: Vec<i32> = Vec::new();
    let mut i: usize = 0;
    while i < n
        invariant
            n == digits.len(),
            i <= n,
            draws.fits(n as int),
            labels@ == digits@.take(i as int),
            angles.len() == i,
            forall|m: int|
                0 <= m < i ==> #[trigger] angles[m] == (base_angle(m, n as int)
                    + draws.jitter@[m]) as i32,
        decreases n - i,
    {
        proof {
            lemma_base_angle_bounds(i as int, n as int);
            assert(-MAX_JITTER <= draws.jitter@[i as int] <= MAX_JITTER);
            assert(FULL_TURN * i <= FULL_TURN * usize::MAX) by (nonlinear_arith)
                requires
                    0 <= i <= usize::MAX,
                    FULL_TURN == 6_283_185,
            ;
        }
        let even: u128 = (FULL_TURN as u128) * (i as u128) / (n as u128);
        angles.push((even as i32) + draws.jitter[i]);
        labels.push(digits[i]);
        assert(digits@.take(i + 1) =~= digits@.take(i as int).push(digits@[i as int]));
        i += 1;
    }
    assert(digits@.take(n as int) =~= digits@);
    assert(angles@ =~= jittered_angles(n as int, draws.jitter@));
    shuffle_with(&mut labels, &draws.first);
    shuffle_with(&mut angles, &draws.second);
    let mut points: Vec<GlyphPoint> = Vec::new();
    let mut k: usize = 0;
    while k < n
        invariant
            k <= n,
            labels.len() == n,
            angles.len() == n,
            points.len() == k,
            forall|m: int|
                0 <= m < k ==> #[trigger] points[m] == (GlyphPoint {
                    angle: angles[m],
                    label: labels[m],
                }),
        decreases n - k,
    {
        points.push(GlyphPoint { angle: angles[k], label: labels[k] });
        k += 1;
    }
    proof {
        assert(points@ =~= glyph(digits@, *draws));
        lemma_glyph_properties(digits@, *draws);
    }
    points
}

/// The glyph of a phrase under given outcomes of chance; none where the
/// phrase has no digits.
pub fn generate_with(phrase: &str, draws: &GlyphDraws) -> (made: Option<Vec<GlyphPoint>>)
    requires
        digits(phrase@).len() > 0 ==> draws.fits(digits(phrase@).len() as int),
    ensures
        made is None <==> digits(phrase@).len() == 0,
        made matches Some(points) ==> points@ == glyph(digits(phrase@), *draws),
{
    let numbers = digit_sequence(phrase);
    if numbers.len() == 0 {
        None
    } else {
        Some(place_points(&numbers, draws))
    }
}

/// The glyph of a phrase, with chance drawn afresh; none where the phrase
/// has no digits. There is one point for each digit, the labels are the
/// digits rearranged, and each angle lies within one turn widened by the
/// largest offset.
pub fn generate(phrase: &str) -> (made: Option<Vec<GlyphPoint>>)
    ensures
        made is None <==> digits(phrase@).len() == 0,
        made matches Some(points) ==> {
            &&& is_glyph_of(points@, phrase@)
            &&& points.len() == digits(phrase@).len()
            &&& labels_of(points@).to_multiset() == digits(phrase@).to_multiset()
            &&& forall|i: int| 0 <= i < points.len() ==> (#[trigger] points[i]).label <= 9
            &&& forall|i: int|
                0 <= i < points.len() ==> -MAX_JITTER <= (#[trigger] points[i]).angle < FULL_TURN
                    + MAX_JITTER
        },
{
    let numbers = digit_sequence(phrase);
    if numbers.len() == 0 {
        None
    } else {
        let draws = GlyphDraws::random(numbers.len());
        let points = place_points(&numbers, &draws);
        proof {
            lemma_glyph_properties(numbers@, draws);
            assert(draws.fits(digits(phrase@).len() as int) && points@ == glyph(
                digits(phrase@),
                draws,
            ));
        }
        Some(points)
    }
}

/// A glyph of a phrase has one point for each digit of the phrase, its
/// labels are those digits rearranged, and every label is a digit.
pub proof fn lemma_glyph_of_phrase(points: Seq<GlyphPoint>, phrase: Seq<char>)
    requires
        is_glyph_of(points, phrase),
    ensures
        points.len() == digits(phrase).len(),
        points.len() <= 128,
        labels_of(points).to_multiset() == digits(phrase).to_multiset(),
        forall|i: int| 0 <= i < points.len() ==> (#[trigger] points[i]).label <= 9,
        forall|i: int|
            0 <= i < points.len() ==> -MAX_JITTER <= (#[trigger] points[i]).angle < FULL_TURN
                + MAX_JITTER,
{
    let draws = choose|draws: GlyphDraws| #[trigger]
        draws.fits(digits(phrase).len() as int) && points == glyph(digits(phrase), draws);
    lemma_digits(phrase);
    lemma_glyph_properties(digits(phrase), draws);
}

} // verus!
