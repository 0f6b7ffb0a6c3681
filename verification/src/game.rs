//! What the table as a whole holds: the clock, the turn, the standing bid and
//! the count of the dice.

use std::collections::HashMap;
use vstd::multiset::Multiset;
use vstd::prelude::*;

use crate::text::{decimal, decimal_text};

verus! {

broadcast use vstd::std_specs::hash::group_hash_axioms;

/// The seconds that a player has for a turn.
pub const TURN_TIMEOUT: isize = 60;

/// The highest face of a die; the lowest is one.
pub const FACES: usize = 6;

/// What the server does at the next tick.
#[derive(Debug, Clone, Copy, PartialEq, Eq, Structural)]
pub enum State {
    /// There are too few players.
    Waiting,
    /// Every player is about to get new dice.
    Roll,
    /// A player bids or calls the previous bid a lie.
    Turn,
}

/// The claim that at least `amount` of all dice show `face`. A `face` of zero
/// means that nothing was claimed yet.
#[derive(Debug, Clone, Copy, PartialEq, Eq, Structural)]
pub struct Bid {
    pub face: usize,
    pub amount: usize,
}

impl Bid {
    /// How a bid is shown: the amount, then the face.
    pub open spec fn shown(self) -> Seq<char> {
        decimal(self.amount as nat) + " x "@ + decimal(self.face as nat)
    }

    /// Writes the bid as it is shown.
    pub fn text(&self) -> (text: String)
        ensures
            text@ == self.shown(),
    {
        let mut text = decimal_text(self.amount);
        text.append(" x ");
        text.append(decimal_text(self.face).as_str());
        text
    }
}

/// The state of the table.
pub struct ServerApp {
    /// The seconds left in a turn; while waiting, the step of the animation.
    pub timer: isize,
    /// The seat whose turn it is.
    pub turn: Option<usize>,
    pub state: State,
    /// The standing bid.
    pub bid: Bid,
    /// How many dice show each face.
    pub totals: HashMap<usize, usize>,
    /// The player whose turn came before the present one.
    pub prev_turn_id: usize,
}

/// The mathematical content of a [`ServerApp`].
#[verifier::ext_equal]
pub struct Game {
    pub timer: int,
    pub turn: Option<usize>,
    pub state: State,
    pub bid: Bid,
    pub totals: Map<usize, usize>,
    pub prev_turn_id: usize,
}

impl View for ServerApp {
    type V = Game;

    open spec fn view(&self) -> Game {
        Game {
            timer: self.timer as int,
            turn: self.turn,
            state: self.state,
            bid: self.bid,
            totals: self.totals@,
            prev_turn_id: self.prev_turn_id,
        }
    }
}

impl Game {
    /// A table at which nobody sits.
    pub open spec fn fresh() -> Game {
        Game {
            timer: 0,
            turn: None,
            state: State::Waiting,
            bid: Bid { face: 0, amount: 0 },
            totals: tally(Multiset::empty()),
            prev_turn_id: 0,
        }
    }

    /// What holds of the table between any two ticks.
    pub open spec fn wf(self) -> bool {
        &&& 0 <= self.timer <= TURN_TIMEOUT
        &&& self.state == State::Turn ==> self.timer >= 1 && self.turn is Some
        &&& self.bid.face <= FACES
        &&& self.bid.face == 0 || self.bid.amount >= 1
        &&& forall|face: usize| 1 <= face <= FACES ==> #[trigger] self.totals.contains_key(face)
    }
}

/// How often each face occurs among `dice`. The faces of a die are always
/// listed, also where none of the dice shows them.
pub open spec fn tally(dice: Multiset<usize>) -> Map<usize, usize> {
    Map::new(
        |face: usize| 1 <= face <= FACES || dice.count(face) > 0,
        |face: usize| dice.count(face) as usize,
    )
}

/// All dice of a table: those of each hand together.
pub open spec fn pooled(hands: Seq<Seq<usize>>) -> Multiset<usize>
    decreases hands.len(),
{
    if hands.len() == 0 {
        Multiset::empty()
    } else {
        pooled(hands.drop_last()).add(hands.last().to_multiset())
    }
}

/// The counts before any die is thrown.
pub fn no_totals() -> (totals: HashMap<usize, usize>)
    ensures
        totals@ == tally(Multiset::empty()),
{
    let mut totals: HashMap<usize, usize> = HashMap::new();
    let mut face: usize = 1;
    while face <= FACES
        invariant
            1 <= face <= FACES + 1,
            totals@ =~= Map::new(|f: usize| 1 <= f < face, |f: usize| 0usize),
        decreases FACES + 1 - face,
    {
        totals.insert(face, 0);
        face += 1;
    }
    totals
}

/// Adds the dice of one hand to the counts; `counted` are the dice that were
/// counted before.
pub(crate) fn count_hand(totals: &mut HashMap<usize, usize>, hand: &Vec<usize>, counted: Ghost<
    Multiset<usize>,
>)
    requires
        old(totals)@ == tally(counted@),
        counted@.len() + hand@.len() <= usize::MAX,
    ensures
        final(totals)@ == tally(counted@.add(hand@.to_multiset())),
{
    broadcast use vstd::seq_lib::group_to_multiset_ensures;

    let mut i: usize = 0;
    let ghost mut seen: Multiset<usize> = counted@;
    proof {
        assert(hand@.take(0) =~= Seq::empty());
        assert(seen =~= counted@.add(hand@.take(0).to_multiset()));
    }
    while i < hand.len()
        invariant
            i <= hand.len(),
            counted@.len() + hand@.len() <= usize::MAX,
            seen == counted@.add(hand@.take(i as int).to_multiset()),
            seen.len() == counted@.len() + i,
            totals@ == tally(seen),
        decreases hand.len() - i,
    {
        let face = hand[i];
        proof {
            assert(seen.count(face) <= seen.len());
        }
        let slot = totals.entry(face).or_insert(0);
        *slot = *slot + 1;
        proof {
            let before = hand@.take(i as int);
            before.to_multiset_ensures();
            assert(hand@.take(i + 1) =~= before.push(face));
            assert(before.push(face).to_multiset() =~= before.to_multiset().insert(face));
            let next = seen.insert(face);
            assert(next =~= counted@.add(hand@.take(i + 1).to_multiset()));
            assert(totals@ =~= tally(next));
            seen = next;
        }
        i += 1;
    }
    proof {
        assert(hand@.take(hand.len() as int) =~= hand@);
    }
}

impl ServerApp {
    /// A table at which nobody sits.
    pub fn new() -> (app: ServerApp)
        ensures
            app@ == Game::fresh(),
            app@.wf(),
    {
        ServerApp {
            timer: 0,
            turn: None,
            state: State::Waiting,
            bid: Bid { amount: 0, face: 0 },
            totals: no_totals(),
            prev_turn_id: 0,
        }
    }
}

} // verus!
