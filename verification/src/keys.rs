//! The keys that a player presses.

use vstd::prelude::*;

use crate::game::FACES;
use crate::player::{App, Player};

verus! {

/// What a player asks for with the bytes of a key.
#[derive(Debug, Clone, Copy, PartialEq, Eq, Structural)]
pub enum Key {
    Quit,
    MoreDice,
    FewerDice,
    LowerFace,
    HigherFace,
    CallLiar,
    PlaceBid,
    /// Anything else.
    Other,
}

/// The key that sends the given bytes: a letter, an arrow, space or enter.
pub open spec fn key_of(data: Seq<u8>) -> Key {
    if data == seq![113u8] {
        Key::Quit
    } else if data == seq![27u8, 91u8, 65u8] || data == seq![107u8] {
        Key::MoreDice
    } else if data == seq![27u8, 91u8, 66u8] || data == seq![106u8] {
        Key::FewerDice
    } else if data == seq![27u8, 91u8, 68u8] || data == seq![104u8] {
        Key::LowerFace
    } else if data == seq![27u8, 91u8, 67u8] || data == seq![108u8] {
        Key::HigherFace
    } else if data == seq![32u8] {
        Key::CallLiar
    } else if data == seq![13u8] {
        Key::PlaceBid
    } else {
        Key::Other
    }
}

/// A player after a key was pressed. Arrows change the bid that the player
/// prepares, within the faces of a die and never below one die.
pub open spec fn pressed(player: Player, key: Key) -> Player {
    match key {
        Key::MoreDice => Player { amount: (player.amount + 1) as usize, ..player },
        Key::FewerDice => if player.amount > 1 {
            Player { amount: (player.amount - 1) as usize, ..player }
        } else {
            player
        },
        Key::LowerFace => if player.face > 1 {
            Player { face: (player.face - 1) as usize, ..player }
        } else {
            player
        },
        Key::HigherFace => if player.face < FACES {
            Player { face: (player.face + 1) as usize, ..player }
        } else {
            player
        },
        Key::CallLiar => Player { liar: true, ..player },
        Key::PlaceBid => Player { bid: true, ..player },
        Key::Quit => player,
        Key::Other => player,
    }
}

/// Tells which key sent the given bytes.
pub fn read_key(data: &[u8]) -> (key: Key)
    ensures
        key == key_of(data@),
{
    if data.len() == 1 {
        let byte: u8 = data[0];
        proof {
            assert(data@ =~= seq![byte]);
        }
        match byte {
            113 => Key::Quit,
            107 => Key::MoreDice,
            106 => Key::FewerDice,
            104 => Key::LowerFace,
            108 => Key::HigherFace,
            32 => Key::CallLiar,
            13 => Key::PlaceBid,
            _ => Key::Other,
        }
    } else if data.len() == 3 && data[0] == 27 && data[1] == 91 {
        let byte: u8 = data[2];
        proof {
            assert(data@ =~= seq![27u8, 91u8, byte]);
        }
        match byte {
            65 => Key::MoreDice,
            66 => Key::FewerDice,
            67 => Key::HigherFace,
            68 => Key::LowerFace,
            _ => Key::Other,
        }
    } else {
        Key::Other
    }
}

impl App {
    /// Presses a key.
    pub fn press(&mut self, key: Key)
        requires
            key == Key::MoreDice ==> old(self)@.amount < usize::MAX,
        ensures
            final(self)@ == pressed(old(self)@, key),
            old(self)@.wf() ==> final(self)@.wf(),
    {
        match key {
            Key::MoreDice => {
                self.amount = self.amount + 1;
            },
            Key::FewerDice => {
                if self.amount > 1 {
                    self.amount = self.amount - 1;
                }
            },
            Key::LowerFace => {
                if self.face > 1 {
                    self.face = self.face - 1;
                }
            },
            Key::HigherFace => {
                if self.face < FACES {
                    self.face = self.face + 1;
                }
            },
            Key::CallLiar => {
                self.liar = true;
            },
            Key::PlaceBid => {
                self.bid = true;
            },
            Key::Quit => {},
            Key::Other => {},
        }
    }
}

} // verus!
