//! The rules of the game: what one tick of the server makes of the table and
//! of the players.

use vstd::prelude::*;

use crate::game::{pooled, tally, Bid, Game, ServerApp, State, TURN_TIMEOUT};
use crate::player::{App, Player};
use crate::text::seat_names;

verus! {

broadcast use vstd::std_specs::hash::group_hash_axioms;

/// Whether `order` lists each of `members` once and nobody else: an order in
/// which all of them can be visited.
pub open spec fn is_walk(order: Seq<usize>, members: Set<usize>) -> bool {
    &&& order.no_duplicates()
    &&& forall|id: usize| #[trigger] order.contains(id) <==> members.contains(id)
}

// ---------------------------------------------------------------------------
// Waiting for players
// ---------------------------------------------------------------------------

/// The table after a tick of waiting: the bid is gone, the animation moves
/// on, and with two seats taken the dice will be thrown.
pub open spec fn waited(game: Game, seats: nat) -> Game {
    Game {
        bid: Bid { face: 0, amount: 0 },
        timer: (game.timer + 1) % 3,
        state: if seats >= 2 {
            State::Roll
        } else {
            State::Waiting
        },
        ..game
    }
}

/// A player after a tick of waiting.
pub open spec fn waited_player(player: Player, ids: Seq<usize>, id: usize) -> Player {
    Player {
        amount: 1,
        face: 1,
        bid: false,
        liar: false,
        names: seat_names(ids, id, None),
        ..player
    }
}

// ---------------------------------------------------------------------------
// Throwing the dice
// ---------------------------------------------------------------------------

/// The table after the dice were thrown: all of them are counted, and the
/// clock of the turn starts.
pub open spec fn dealt(game: Game, hands: Seq<Seq<usize>>) -> Game {
    Game {
        timer: TURN_TIMEOUT as int,
        turn: match game.turn {
            Some(seat) => Some(seat),
            None => Some(0usize),
        },
        totals: tally(pooled(hands)),
        state: State::Turn,
        ..game
    }
}

/// A player who was given a hand.
pub open spec fn dealt_player(player: Player, hand: Seq<usize>) -> Player {
    Player { rolls: Some(hand), ..player }
}

// ---------------------------------------------------------------------------
// The clock of a turn
// ---------------------------------------------------------------------------

/// Whether the clock runs out with this tick.
pub open spec fn time_is_up(game: Game) -> bool {
    game.timer <= 1
}

/// The seat after `seat`, with the first one following the last.
pub open spec fn next_seat(seat: usize, seats: nat) -> usize {
    if seat + 1 >= seats {
        0
    } else {
        (seat + 1) as usize
    }
}

/// The bid that stands when the turn passes on: where nobody claimed anything
/// yet, one die with a one.
pub open spec fn opened(bid: Bid) -> Bid {
    if bid.face == 0 || bid.amount == 0 {
        Bid { face: 1, amount: 1 }
    } else {
        bid
    }
}

/// The table after a second of a turn has passed, before anybody is heard.
pub open spec fn clocked(game: Game, ids: Seq<usize>) -> Game {
    let counted = Game {
        state: if ids.len() <= 1 {
            State::Waiting
        } else {
            game.state
        },
        ..game
    };
    if time_is_up(game) {
        Game {
            timer: TURN_TIMEOUT as int,
            prev_turn_id: ids[game.turn->0 as int],
            turn: Some(next_seat(game.turn->0, ids.len())),
            bid: opened(game.bid),
            ..counted
        }
    } else {
        Game { timer: game.timer - 1, ..counted }
    }
}

// ---------------------------------------------------------------------------
// What the player whose turn it is does
// ---------------------------------------------------------------------------

/// Whether a claim may follow the standing bid: its face is bigger, or its
/// amount is.
pub open spec fn outbids(face: usize, amount: usize, bid: Bid) -> bool {
    face > bid.face || amount > bid.amount
}

/// Whether the player places a bid that counts.
pub open spec fn places_bid(game: Game, player: Player) -> bool {
    player.bid && outbids(player.face, player.amount, game.bid)
}

/// The bid that stands after the player's own, if there is one.
pub open spec fn standing_bid(game: Game, player: Player) -> Bid {
    if places_bid(game, player) {
        Bid { face: player.face, amount: player.amount }
    } else {
        game.bid
    }
}

/// Whether the player ends the turn.
pub open spec fn ends_turn(game: Game, player: Player) -> bool {
    places_bid(game, player) || player.liar
}

/// Whether the standing bid claims more dice than there are.
pub open spec fn bid_is_lie(game: Game, player: Player) -> bool {
    let bid = standing_bid(game, player);
    bid.amount > game.totals[bid.face]
}

/// The table after the player whose turn it is was heard.
pub open spec fn heard(game: Game, player: Player) -> Game {
    let bid = standing_bid(game, player);
    Game {
        timer: if ends_turn(game, player) {
            1
        } else {
            game.timer
        },
        state: if player.liar {
            State::Roll
        } else {
            game.state
        },
        bid: if !ends_turn(game, player) && game.timer <= 1 {
            Bid { amount: (bid.amount + 1) as usize, ..bid }
        } else {
            bid
        },
        ..game
    }
}

/// Whether the player can be heard: a call needs a bid on a face that was
/// counted, and the amount of a raised bid must be a number that fits.
pub open spec fn can_hear(game: Game, player: Player) -> bool {
    &&& player.liar ==> game.totals.contains_key(standing_bid(game, player).face)
    &&& !ends_turn(game, player) && game.timer <= 1 ==> game.bid.amount < usize::MAX
}

// ---------------------------------------------------------------------------
// A tick of a turn
// ---------------------------------------------------------------------------

/// The player whose turn it is, where one of `players` is.
pub open spec fn actor(game: Game, players: Map<usize, Player>, ids: Seq<usize>) -> Option<usize> {
    match game.turn {
        Some(seat) => if seat < ids.len() && players.contains_key(ids[seat as int]) {
            Some(ids[seat as int])
        } else {
            None
        },
        None => None,
    }
}

/// The player who is out after the actor was heard: the one who lied, or the
/// one who called a true bid a lie.
pub open spec fn loser(game: Game, players: Map<usize, Player>, ids: Seq<usize>) -> Option<usize> {
    match actor(game, players, ids) {
        Some(id) => if !players[id].liar {
            None
        } else if bid_is_lie(game, players[id]) {
            Some(game.prev_turn_id)
        } else {
            Some(id)
        },
        None => None,
    }
}

/// The table after the players of `before` were visited.
pub open spec fn heard_so_far(
    game: Game,
    players: Map<usize, Player>,
    ids: Seq<usize>,
    before: Seq<usize>,
) -> Game {
    match actor(game, players, ids) {
        Some(id) => if before.contains(id) {
            heard(game, players[id])
        } else {
            game
        },
        None => game,
    }
}

/// The table after a tick of a turn.
pub open spec fn turned(game: Game, players: Map<usize, Player>, ids: Seq<usize>) -> Game {
    let c = clocked(game, ids);
    let h = match actor(c, players, ids) {
        Some(id) => heard(c, players[id]),
        None => c,
    };
    Game {
        state: if loser(c, players, ids) is Some && players.dom().len() < 2 {
            State::Waiting
        } else {
            h.state
        },
        ..h
    }
}

/// The player `id` after a tick of a turn; `before` are the players who were
/// visited earlier in the tick. Those who are visited after the actor see the
/// clock as the actor left it.
pub open spec fn turned_player(
    game: Game,
    players: Map<usize, Player>,
    ids: Seq<usize>,
    before: Seq<usize>,
    id: usize,
) -> Player {
    let c = clocked(game, ids);
    let seat: usize = match c.turn {
        Some(seat) => seat,
        None => 0,
    };
    Player {
        names: seat_names(
            ids,
            id,
            Some((seat, heard_so_far(c, players, ids, before).timer)),
        ),
        bid: false,
        liar: false,
        can_play: players[id].can_play && loser(c, players, ids) != Some(id),
        ..players[id]
    }
}

/// Whether a tick of a turn is defined. When the clock runs out, the seat
/// whose turn it was must still be taken; and the actor must be one who can
/// be heard.
pub open spec fn can_turn(game: Game, players: Map<usize, Player>, ids: Seq<usize>) -> bool {
    &&& time_is_up(game) ==> game.turn->0 < ids.len()
    &&& match actor(clocked(game, ids), players, ids) {
        Some(id) => can_hear(clocked(game, ids), players[id]),
        None => true,
    }
}

impl ServerApp {
    /// Lets a second of a turn pass.
    pub fn run_clock(&mut self, ids: &Vec<usize>)
        requires
            old(self)@.wf(),
            old(self)@.state == State::Turn,
            time_is_up(old(self)@) ==> old(self)@.turn->0 < ids@.len(),
        ensures
            final(self)@ == clocked(old(self)@, ids@),
    {
        if ids.len() <= 1 {
            self.state = State::Waiting;
        }
        self.timer = self.timer - 1;
        if self.timer <= 0 {
            self.timer = TURN_TIMEOUT;
            if let Some(seat) = self.turn {
                self.prev_turn_id = ids[seat];
                if seat + 1 >= ids.len() {
                    self.turn = Some(0);
                } else {
                    self.turn = Some(seat + 1);
                }
            }
            if self.bid.face == 0 || self.bid.amount == 0 {
                self.bid = Bid { face: 1, amount: 1 };
            }
        }
    }

    /// Hears the player whose turn it is. Returns whether the standing bid is
    /// a lie, if the player calls it one.
    pub fn hear(&mut self, player: &App) -> (verdict: Option<bool>)
        requires
            can_hear(old(self)@, player@),
        ensures
            final(self)@ == heard(old(self)@, player@),
            verdict == (if player@.liar {
                Some(bid_is_lie(old(self)@, player@))
            } else {
                None
            }),
    {
        let mut ended = false;
        let mut verdict: Option<bool> = None;
        if player.bid && (player.face > self.bid.face || player.amount > self.bid.amount) {
            self.bid = Bid { face: player.face, amount: player.amount };
            self.timer = 1;
            ended = true;
        }
        if player.liar {
            // The counts always hold the face of a bid that is called a lie.
            let count: usize = match self.totals.get(&self.bid.face) {
                Some(count) => *count,
                None => 0,
            };
            verdict = Some(self.bid.amount > count);
            self.state = State::Roll;
            self.timer = 1;
            ended = true;
        }
        if !ended && self.timer <= 1 {
            self.bid.amount = self.bid.amount + 1;
        }
        verdict
    }
}

} // verus!
