//! The one source of randomness: everything the game leaves to chance is
//! drawn here, and every function that consumes a draw is verified for each
//! value the draw may take.

use crate::types::PowerUp;
use rand::Rng;
use vstd::prelude::*;

verus! {

/// A uniformly distributed index below `n`.
///
/// Trusted: calls `Rng::random_range` of the `rand` crate on the thread-local
/// generator with the half-open range `0..n`. The range is not empty, since
/// `n > 0`, so the call does not panic, and the value it returns lies in the
/// range. Nothing else is claimed of the value.
#[verifier::external_body]
pub(crate) fn random_below(n: usize) -> (index: usize)
    requires
        n > 0,
    ensures
        index < n,
{
    rand::rng().random_range(0..n)
}

/// The four cards in deck order.
pub open spec fn deck_card(index: int) -> PowerUp {
    if index == 0 {
        PowerUp::Shield
    } else if index == 1 {
        PowerUp::Radar
    } else if index == 2 {
        PowerUp::Repair
    } else {
        PowerUp::MissileStrike
    }
}

/// The card at a position of the deck; positions past the end give the last
/// card.
pub fn card_at(index: usize) -> (card: PowerUp)
    ensures
        card == deck_card(index as int),
{
    if index == 0 {
        PowerUp::Shield
    } else if index == 1 {
        PowerUp::Radar
    } else if index == 2 {
        PowerUp::Repair
    } else {
        PowerUp::MissileStrike
    }
}

/// A card drawn from the deck, each of the four with the same chance.
pub fn random_card() -> PowerUp {
    let index = random_below(4);
    card_at(index)
}

/// A fair coin.
pub fn coin_flip() -> bool {
    random_below(2) == 0
}

} // verus!
