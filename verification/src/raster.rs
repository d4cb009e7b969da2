//! Lines and circles on a pixel grid, for the saved picture.

use vstd::prelude::*;

verus! {

/// The distance between two coordinates.
pub open spec fn span(p: int, q: int) -> int {
    if p < q {
        q - p
    } else {
        p - q
    }
}

/// The step that leads from `p` towards `q` along one axis.
pub open spec fn toward(p: int, q: int) -> int {
    if p < q {
        1
    } else {
        -1
    }
}

/// How far the pixel `at` lies off the ideal line from `from` to `to`: a
/// scaled signed distance, positive where the pixel is ahead along the
/// vertical axis and negative where it is ahead along the horizontal one.
pub open spec fn line_error(from: (i32, i32), to: (i32, i32), at: (i32, i32)) -> int {
    let a = span(from.0 as int, to.0 as int);
    let b = span(from.1 as int, to.1 as int);
    a - b - span(from.0 as int, at.0 as int) * b + span(from.1 as int, at.1 as int) * a
}

/// The pixel that follows `at` on the line from `from` to `to`: it lies
/// one step further along each axis on which `at` is not ahead by more
/// than half a step.
pub open spec fn line_successor(from: (i32, i32), to: (i32, i32), at: (i32, i32)) -> (int, int) {
    let a = span(from.0 as int, to.0 as int);
    let b = span(from.1 as int, to.1 as int);
    let twice = 2 * line_error(from, to, at);
    (
        if twice >= -b {
            at.0 + toward(from.0 as int, to.0 as int)
        } else {
            at.0 as int
        },
        if twice <= a {
            at.1 + toward(from.1 as int, to.1 as int)
        } else {
            at.1 as int
        },
    )
}

/// Whether `p` lies in the rectangle that `from` and `to` span.
pub open spec fn in_box(from: (i32, i32), to: (i32, i32), p: (i32, i32)) -> bool {
    &&& span(from.0 as int, p.0 as int) + span(p.0 as int, to.0 as int) == span(
        from.0 as int,
        to.0 as int,
    )
    &&& span(from.1 as int, p.1 as int) + span(p.1 as int, to.1 as int) == span(
        from.1 as int,
        to.1 as int,
    )
}

/// The number of pixels on the line from `from` to `to`: one for each
/// step along the axis on which the two lie further apart, and one more.
pub open spec fn line_len(from: (i32, i32), to: (i32, i32)) -> int {
    let a = span(from.0 as int, to.0 as int);
    let b = span(from.1 as int, to.1 as int);
    if a >= b {
        a + 1
    } else {
        b + 1
    }
}

/// Whether `pixels` is the line from `from` to `to`: it starts at the
/// one and ends at the other, reaches the end only once, takes one step
/// along the longer axis from each pixel to the next, never leaves the
/// rectangle that the two span, and each pixel is followed by its
/// successor.
pub open spec fn is_line(pixels: Seq<(i32, i32)>, from: (i32, i32), to: (i32, i32)) -> bool {
    &&& pixels.len() == line_len(from, to)
    &&& pixels[0] == from
    &&& pixels[pixels.len() - 1] == to
    &&& forall|k: int| 0 <= k < pixels.len() ==> in_box(from, to, #[trigger] pixels[k])
    &&& forall|k: int|
        0 <= k < pixels.len() - 1 ==> {
            &&& pixels[k] != to
            &&& (pixels[k + 1].0 as int, pixels[k + 1].1 as int) == line_successor(
                from,
                to,
                #[trigger] pixels[k],
            )
        }
}

/// The pixels of the line from `(x0, y0)` to `(x1, y1)`, first to last.
#[verifier::rlimit(30)]
pub fn line_pixels(x0: i32, y0: i32, x1: i32, y1: i32) -> (pixels: Vec<(i32, i32)>)
    ensures
        is_line(pixels@, (x0, y0), (x1, y1)),
{
    let ghost from = (x0, y0);
    let ghost to = (x1, y1);
    let a: i64 = if x0 < x1 {
        x1 as i64 - x0 as i64
    } else {
        x0 as i64 - x1 as i64
    };
    let b: i64 = if y0 < y1 {
        y1 as i64 - y0 as i64
    } else {
        y0 as i64 - y1 as i64
    };
    let sx: i32 = if x0 < x1 {
        1
    } else {
        -1
    };
    let sy: i32 = if y0 < y1 {
        1
    } else {
        -1
    };
    let mut x: i32 = x0;
    let mut y: i32 = y0;
    let mut err: i64 = a - b;
    let ghost mut i: int = 0;
    let ghost mut j: int = 0;
    let ghost mut ib: int = 0;
    let ghost mut ja: int = 0;
    let mut pixels: Vec<(i32, i32)> = Vec::new();
    pixels.push((x, y));
    while x != x1 || y != y1
        invariant
            from == (x0, y0),
            to == (x1, y1),
            a == span(x0 as int, x1 as int),
            b == span(y0 as int, y1 as int),
            sx == toward(x0 as int, x1 as int),
            sy == toward(y0 as int, y1 as int),
            0 <= i <= a,
            0 <= j <= b,
            x == (if x0 < x1 {
                x0 + i
            } else {
                x0 - i
            }),
            y == (if y0 < y1 {
                y0 + j
            } else {
                y0 - j
            }),
            ib == i * b,
            ja == j * a,
            err == a - b - ib + ja,
            -2 * b <= err <= 2 * a,
            a >= b ==> 2 * err >= -b && pixels.len() == i + 1,
            a < b ==> 2 * err <= a && pixels.len() == j + 1,
            pixels.len() >= 1,
            pixels@[0] == from,
            pixels@[pixels.len() - 1] == (x, y),
            forall|k: int| 0 <= k < pixels.len() ==> in_box(from, to, #[trigger] pixels@[k]),
            forall|k: int|
                0 <= k < pixels.len() - 1 ==> {
                    &&& pixels@[k] != to
                    &&& (pixels@[k + 1].0 as int, pixels@[k + 1].1 as int) == line_successor(
                        from,
                        to,
                        #[trigger] pixels@[k],
                    )
                },
        decreases (a - i) + (b - j),
    {
        let ghost at = (x, y);
        let ghost before = pixels@;
        proof {
            assert(span(x0 as int, x as int) == i);
            assert(span(y0 as int, y as int) == j);
            assert(line_error(from, to, at) == err);
            if i == a {
                // the row is done: only the column moves
                assert(j < b);
                assert(ja + a <= a * b) by (nonlinear_arith)
                    requires
                        ja == j * a,
                        j + 1 <= b,
                        a >= 0,
                ;
                assert(ib == a * b) by (nonlinear_arith)
                    requires
                        ib == i * b,
                        i == a,
                ;
            }
            if j == b {
                assert(i < a);
                assert(ib + b <= a * b) by (nonlinear_arith)
                    requires
                        ib == i * b,
                        i + 1 <= a,
                        b >= 0,
                ;
                assert(ja == a * b) by (nonlinear_arith)
                    requires
                        ja == j * a,
                        j == b,
                ;
            }
        }
        let twice: i64 = 2 * err;
        if twice >= -b {
            err = err - b;
            x = x + sx;
            proof {
                assert((i + 1) * b == ib + b) by (nonlinear_arith)
                    requires
                        ib == i * b,
                ;
                i = i + 1;
                ib = ib + b;
            }
        }
        if twice <= a {
            err = err + a;
            y = y + sy;
            proof {
                assert((j + 1) * a == ja + a) by (nonlinear_arith)
                    requires
                        ja == j * a,
                ;
                j = j + 1;
                ja = ja + a;
            }
        }
        pixels.push((x, y));
        proof {
            assert(forall|k: int| 0 <= k < before.len() ==> pixels@[k] == before[k]);
            assert(pixels@[before.len() - 1] == at);
            assert(at != to);
            assert((x as int, y as int) == line_successor(from, to, at));
        }
    }
    pixels
}

/// On a line every pixel touches the one before it: from pixel to pixel
/// each coordinate changes by at most one, and at least one of them
/// changes.
pub proof fn lemma_line_is_connected(
    pixels: Seq<(i32, i32)>,
    from: (i32, i32),
    to: (i32, i32),
    k: int,
)
    requires
        is_line(pixels, from, to),
        0 <= k < pixels.len() - 1,
    ensures
        span(pixels[k].0 as int, pixels[k + 1].0 as int) <= 1,
        span(pixels[k].1 as int, pixels[k + 1].1 as int) <= 1,
        pixels[k] != pixels[k + 1],
{
    let a = span(from.0 as int, to.0 as int);
    let b = span(from.1 as int, to.1 as int);
    let next = line_successor(from, to, pixels[k]);
    assert(next == (pixels[k + 1].0 as int, pixels[k + 1].1 as int));
    let twice = 2 * line_error(from, to, pixels[k]);
    assert(twice >= -b || twice <= a);
}

/// One stop on the way round the first eighth of a circle: the offset
/// from the centre, and the error that decides the next stop.
pub struct ArcStop {
    pub x: int,
    pub y: int,
    pub err: int,
}

/// The stop after `s`: one pixel up, and one pixel inwards where the
/// error says that the arc has drifted outwards.
pub open spec fn arc_next(s: ArcStop) -> ArcStop {
    if s.err <= 0 {
        ArcStop { x: s.x, y: s.y + 1, err: s.err + 2 * (s.y + 1) + 1 }
    } else {
        ArcStop { x: s.x - 1, y: s.y + 1, err: s.err - (2 * (s.x - 1) + 1) }
    }
}

/// Stop number `k` on the circle of the given radius; the first lies on
/// the horizontal axis.
pub open spec fn arc_stop(radius: int, k: nat) -> ArcStop
    decreases k,
{
    if k == 0 {
        ArcStop { x: radius, y: 0, err: 0 }
    } else {
        arc_next(arc_stop(radius, (k - 1) as nat))
    }
}

/// The eight offsets that the symmetry of the circle makes of one.
pub open spec fn mirrored(x: int, y: int) -> Seq<(int, int)> {
    seq![(x, y), (y, x), (-y, x), (-x, y), (-x, -y), (-y, -x), (y, -x), (x, -y)]
}

/// Whether `offsets` is the circle of the given radius round the
/// origin: eight mirrored offsets for each stop, stop after stop for as
/// long as the stops stay in the first eighth, and none further from
/// either axis than the radius.
pub open spec fn is_circle(offsets: Seq<(i32, i32)>, radius: int) -> bool {
    &&& offsets.len() % 8 == 0
    &&& forall|k: nat|
        k < offsets.len() / 8 ==> (#[trigger] arc_stop(radius, k)).x >= arc_stop(radius, k).y
    &&& arc_stop(radius, offsets.len() / 8).x < arc_stop(radius, offsets.len() / 8).y
    &&& forall|n: int|
        0 <= n < offsets.len() ==> (#[trigger] offsets[n].0 as int, offsets[n].1 as int)
            == mirrored(arc_stop(radius, (n / 8) as nat).x, arc_stop(radius, (n / 8) as nat).y)[n
            % 8]
    &&& forall|n: int|
        0 <= n < offsets.len() ==> span(0, (#[trigger] offsets[n]).0 as int) <= radius && span(
            0,
            offsets[n].1 as int,
        ) <= radius
}

/// The offsets, from the centre, of the pixels of a circle of the given
/// radius; none for a negative radius.
pub fn circle_offsets(radius: i32) -> (offsets: Vec<(i32, i32)>)
    ensures
        is_circle(offsets@, radius as int),
{
    let mut offsets: Vec<(i32, i32)> = Vec::new();
    if radius < 0 {
        return offsets;
    }
    let mut x: i64 = radius as i64;
    let mut y: i64 = 0;
    let mut err: i64 = 0;
    let ghost mut steps: nat = 0;
    while x >= y
        invariant
            0 <= radius,
            0 <= y,
            -1 <= x <= radius,
            y <= x + 2,
            -2 * radius - 2 <= err <= 2 * radius + 4,
            x >= 0 ==> err <= 2 * radius + 3,
            offsets.len() == 8 * steps,
            arc_stop(radius as int, steps) == (ArcStop {
                x: x as int,
                y: y as int,
                err: err as int,
            }),
            forall|k: nat|
                k < steps ==> (#[trigger] arc_stop(radius as int, k)).x >= arc_stop(
                    radius as int,
                    k,
                ).y,
            forall|n: int|
                0 <= n < offsets.len() ==> (#[trigger] offsets@[n].0 as int, offsets@[n].1 as int)
                    == mirrored(
                    arc_stop(radius as int, (n / 8) as nat).x,
                    arc_stop(radius as int, (n / 8) as nat).y,
                )[n % 8],
            forall|n: int|
                0 <= n < offsets.len() ==> span(0, (#[trigger] offsets@[n]).0 as int) <= radius
                    && span(0, offsets@[n].1 as int) <= radius,
        decreases x - y + 2,
    {
        let ghost before = offsets@;
        let px: i32 = x as i32;
        let py: i32 = y as i32;
        offsets.push((px, py));
        offsets.push((py, px));
        offsets.push((-py, px));
        offsets.push((-px, py));
        offsets.push((-px, -py));
        offsets.push((-py, -px));
        offsets.push((py, -px));
        offsets.push((px, -py));
        proof {
            let eight = mirrored(x as int, y as int);
            assert forall|n: int| 0 <= n < offsets.len() implies (
                #[trigger] offsets@[n].0 as int,
                offsets@[n].1 as int,
            ) == mirrored(
                arc_stop(radius as int, (n / 8) as nat).x,
                arc_stop(radius as int, (n / 8) as nat).y,
            )[n % 8] by {
                if n < before.len() {
                    assert(offsets@[n] == before[n]);
                } else {
                    assert(n / 8 == steps);
                    assert(n % 8 == n - 8 * steps);
                    assert((offsets@[n].0 as int, offsets@[n].1 as int) == eight[n - 8 * steps]);
                }
            }
            assert forall|n: int| 0 <= n < offsets.len() implies span(
                0,
                (#[trigger] offsets@[n]).0 as int,
            ) <= radius && span(0, offsets@[n].1 as int) <= radius by {
                if n < before.len() {
                    assert(offsets@[n] == before[n]);
                }
            }
        }
        y = y + 1;
        if err <= 0 {
            err = err + (2 * y + 1);
        } else {
            x = x - 1;
            err = err - (2 * x + 1);
        }
        proof {
            steps = steps + 1;
        }
    }
    proof {
        assert(offsets@.len() / 8 == steps);
    }
    offsets
}

} // verus!
