//! What the server keeps of one player.

use vstd::prelude::*;

use crate::game::FACES;
use crate::text::chars_of;

verus! {

/// One player's side of the game.
pub struct App {
    /// The player's dice, once they were thrown.
    pub rolls: Option<Vec<usize>>,
    /// How the player sees the names of all seats.
    pub names: Vec<String>,
    /// The amount that the player's next bid would claim.
    pub amount: usize,
    /// The face that the player's next bid would claim.
    pub face: usize,
    /// Whether the player called the standing bid a lie.
    pub liar: bool,
    /// Whether the player placed a bid.
    pub bid: bool,
    /// Whether the player is still in the game.
    pub can_play: bool,
}

/// The mathematical content of an [`App`].
#[verifier::ext_equal]
pub struct Player {
    pub rolls: Option<Seq<usize>>,
    pub names: Seq<Seq<char>>,
    pub amount: usize,
    pub face: usize,
    pub liar: bool,
    pub bid: bool,
    pub can_play: bool,
}

impl View for App {
    type V = Player;

    open spec fn view(&self) -> Player {
        Player {
            rolls: match self.rolls {
                Some(rolls) => Some(rolls@),
                None => None,
            },
            names: chars_of(self.names@),
            amount: self.amount,
            face: self.face,
            liar: self.liar,
            bid: self.bid,
            can_play: self.can_play,
        }
    }
}

impl Player {
    /// The bid that a player prepares always names a face of a die and at
    /// least one die.
    pub open spec fn wf(self) -> bool {
        &&& 1 <= self.face <= FACES
        &&& 1 <= self.amount
    }

    /// A player who has just arrived.
    pub open spec fn fresh() -> Player {
        Player {
            rolls: None,
            names: Seq::empty(),
            amount: 1,
            face: 1,
            liar: false,
            bid: false,
            can_play: true,
        }
    }
}

impl App {
    /// A player who has just arrived.
    pub fn new() -> (app: App)
        ensures
            app@ == Player::fresh(),
            app@.wf(),
    {
        let names: Vec<String> = Vec::new();
        proof {
            assert(chars_of(names@) =~= Seq::empty());
        }
        App {
            rolls: None,
            names,
            amount: 1,
            face: 1,
            liar: false,
            bid: false,
            can_play: true,
        }
    }
}

} // verus!
