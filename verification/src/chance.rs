//! The one source of chance in the game: how high a coin appears.

use vstd::prelude::*;
use rand::Rng;
use crate::units::{COIN_BAND_HIGH, COIN_BAND_LOW};

verus! {

/// Calls `rand::Rng::random_range` on the thread's generator, `rand::rng()`,
/// with the half-open range `low..high`. The call panics on an empty range,
/// which `requires` leaves out. Taken on trust from the crate: the number drawn
/// is at least `low` and less than `high`. Nothing more is claimed of it, and
/// two calls may differ.
#[verifier::external_body]
fn random_in(low: i64, high: i64) -> (r: i64)
    requires
        low < high,
    ensures
        low <= r < high,
{
    rand::rng().random_range(low..high)
}

/// Whether `offset` lies in the band above the ground line in which coins
/// appear.
pub open spec fn in_coin_band(offset: i64) -> bool {
    COIN_BAND_LOW <= offset < COIN_BAND_HIGH
}

/// Draws the height of a new coin above the ground line.
pub fn coin_offset() -> (offset: i64)
    ensures
        in_coin_band(offset),
{
    random_in(COIN_BAND_LOW, COIN_BAND_HIGH)
}

} // verus!
