//! The one place where chance enters: a uniform draw from a range.

use vstd::prelude::*;

verus! {

/// Largest magnitude of a bound that `uniform_in` takes.
pub const MAX_DRAW_BOUND: i32 = 0x10_0000;

/// Calls `gen_range` of macroquad's `rand` module, which is that of the
/// quad-rand crate: it scales the next value of the global generator into
/// the range. The contract claims that
/// the draw lies in `low..high`, the upper bound excluded. The generator
/// computes `low + (high - low) * r` in double precision, with `r` at
/// least 0 and below 1, and cuts the fraction off towards zero: with
/// bounds of this size the product is exact, and with `low` at most 0 and
/// `high` above 0 the cut never reaches `high`.
#[verifier::external_body]
pub(crate) fn uniform_in(low: i32, high: i32) -> (draw: i32)
    requires
        -MAX_DRAW_BOUND <= low <= 0,
        0 < high <= MAX_DRAW_BOUND,
    ensures
        low <= draw < high,
{
    macroquad::rand::gen_range(low, high)
}

} // verus!
