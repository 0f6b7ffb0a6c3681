//! Throwing dice.

use rand::Rng;
use vstd::prelude::*;

use crate::game::FACES;

verus! {

/// How many dice a player has.
pub const DICE: usize = 6;

/// A hand is as many dice as a player has, each with a face of a die.
pub open spec fn is_hand(hand: Seq<usize>) -> bool {
    &&& hand.len() == DICE
    &&& forall|i: int| 0 <= i < hand.len() ==> 1 <= #[trigger] hand[i] <= FACES
}

/// Calls `random_range` of the thread's generator `rand::rng()`. Trusted: the
/// drawn number lies in the given inclusive range, which must not be empty.
/// Which number of the range it is rests on chance, so nothing more is said.
/// The generator of a thread takes its seed from the system when it is first
/// used.
#[verifier::external_body]
fn random_in(low: usize, high: usize) -> (drawn: usize)
    requires
        low <= high,
    ensures
        low <= drawn <= high,
{
    rand::rng().random_range(low..=high)
}

/// Throws the dice of one player.
pub fn roll_dice() -> (hand: Vec<usize>)
    ensures
        is_hand(hand@),
{
    let mut hand: Vec<usize> = Vec::new();
    while hand.len() < DICE
        invariant
            hand.len() <= DICE,
            forall|i: int| 0 <= i < hand.len() ==> 1 <= #[trigger] hand@[i] <= FACES,
        decreases DICE - hand.len(),
    {
        hand.push(random_in(1, FACES));
    }
    hand
}

} // verus!
