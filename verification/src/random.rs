//! What the library uses of the `fastrand` crate. Of a random number only its range is known.

use fastrand::Rng;
use vstd::prelude::*;

verus! {

/// The state of a generator after a number of 32 bits was drawn, and the number.
pub uninterp spec fn drawn_u32(seed: u64) -> (u64, u32);

/// The state of a generator after a number in a range was drawn, and the number.
pub uninterp spec fn drawn_u64_in(seed: u64, start: u64, limit: u64) -> (u64, u64);

/// `Rng::new` and `Rng::get_seed`: the state of a new generator. Which state that is, is left to
/// chance.
#[verifier::external_body]
pub(crate) fn new_seed() -> u64 {
    Rng::new().get_seed()
}

/// `Rng::u32` over all values, for a generator in the given state: the state after the draw, and
/// the number. Both follow from the state.
#[verifier::external_body]
pub(crate) fn draw_u32(seed: u64) -> (drawn: (u64, u32))
    ensures
        drawn == drawn_u32(seed),
{
    let mut rng = Rng::with_seed(seed);
    let value = rng.u32(..);
    (rng.get_seed(), value)
}

/// `Rng::u64` over a range that has `limit` as its end, which it does not reach, for a generator in
/// the given state: the state after the draw, and the number. Both follow from the state and the
/// range. It panics on an empty range.
#[verifier::external_body]
pub(crate) fn draw_u64_in(seed: u64, start: u64, limit: u64) -> (drawn: (u64, u64))
    requires
        start < limit,
    ensures
        drawn == drawn_u64_in(seed, start, limit),
        start <= drawn.1 < limit,
{
    let mut rng = Rng::with_seed(seed);
    let value = rng.u64(start..limit);
    (rng.get_seed(), value)
}

/// `fastrand::u16` over a range with both its ends. It panics on an empty range.
#[verifier::external_body]
pub(crate) fn u16_between(first: u16, last: u16) -> (value: u16)
    requires
        first <= last,
    ensures
        first <= value <= last,
{
    fastrand::u16(first..=last)
}

} // verus!
