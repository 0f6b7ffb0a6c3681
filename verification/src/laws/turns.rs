//! What a tick of a turn does, told from the table, the players and the seats
//! before it.

use vstd::prelude::*;

use crate::game::{Bid, Game, State};
use crate::player::Player;
use crate::rules::{
    actor, bid_is_lie, can_hear, can_turn, clocked, heard, is_walk, loser, time_is_up, turned,
    turned_player,
};
use crate::server::turn_outcome;
use crate::text::seat_names;

verus! {

/// An order of visiting lists everybody once and nobody else.
pub proof fn law_walk_lists_everybody_once(order: Seq<usize>, members: Set<usize>)
    ensures
        is_walk(order, members) <==> {
            &&& forall|i: int, j: int| 0 <= i < j < order.len() ==> order[i] != order[j]
            &&& forall|i: int| 0 <= i < order.len() ==> members.contains(#[trigger] order[i])
            &&& forall|id: usize| #[trigger]
                members.contains(id) ==> exists|i: int| 0 <= i < order.len() && order[i] == id
        },
{
    if is_walk(order, members) {
        assert forall|i: int| 0 <= i < order.len() implies members.contains(#[trigger] order[i]) by {
            assert(order.contains(order[i]));
        }
        assert forall|id: usize| #[trigger] members.contains(id) implies exists|i: int|
            0 <= i < order.len() && order[i] == id by {
            assert(order.contains(id));
        }
    }
}

// ---------------------------------------------------------------------------
// The clock
// ---------------------------------------------------------------------------

/// While there is time left, a second goes by and the table stays as it is;
/// only with one seat or none the server begins to wait.
pub proof fn law_second_goes_by(game: Game, ids: Seq<usize>)
    requires
        game.timer > 1,
    ensures
        clocked(game, ids).timer == game.timer - 1,
        clocked(game, ids).turn == game.turn,
        clocked(game, ids).bid == game.bid,
        clocked(game, ids).totals == game.totals,
        clocked(game, ids).prev_turn_id == game.prev_turn_id,
        clocked(game, ids).state == (if ids.len() >= 2 {
            game.state
        } else {
            State::Waiting
        }),
        !time_is_up(game),
{
}

/// When the clock runs out, the next seat gets a full minute, the player of
/// the seat before it is remembered, and the dice are counted as they were.
pub proof fn law_clock_runs_out(game: Game, ids: Seq<usize>, seat: usize)
    requires
        game.timer <= 1,
        game.turn == Some(seat),
        seat < ids.len(),
    ensures
        time_is_up(game),
        clocked(game, ids).timer == 60,
        seat + 1 < ids.len() ==> clocked(game, ids).turn == Some((seat + 1) as usize),
        seat + 1 == ids.len() ==> clocked(game, ids).turn == Some(0usize),
        clocked(game, ids).prev_turn_id == ids[seat as int],
        clocked(game, ids).totals == game.totals,
        clocked(game, ids).state == (if ids.len() >= 2 {
            game.state
        } else {
            State::Waiting
        }),
{
}

/// A bid that was placed is handed on unchanged when the clock runs out.
/// Where nothing was claimed, one die with a one is.
pub proof fn law_bid_is_handed_on(game: Game, ids: Seq<usize>)
    requires
        game.timer <= 1,
    ensures
        game.bid.face >= 1 && game.bid.amount >= 1 ==> clocked(game, ids).bid == game.bid,
        game.bid.face == 0 || game.bid.amount == 0 ==> {
            &&& clocked(game, ids).bid.face == 1
            &&& clocked(game, ids).bid.amount == 1
        },
{
}

/// The table that a tick with the clock run out begins with: the next seat
/// has the turn, with a second more than a full minute.
pub open spec fn passed_on(game: Game, ids: Seq<usize>, seat: usize) -> Game {
    Game {
        timer: 61,
        turn: if seat + 1 < ids.len() {
            Some((seat + 1) as usize)
        } else {
            Some(0usize)
        },
        prev_turn_id: ids[seat as int],
        bid: if game.bid.face >= 1 && game.bid.amount >= 1 {
            game.bid
        } else {
            Bid { face: 1, amount: 1 }
        },
        ..game
    }
}

/// A tick with which the clock runs out leads to what a tick leads to with
/// which the next seat begins its minute.
pub proof fn law_passing_on_starts_a_turn(
    game: Game,
    players: Map<usize, Player>,
    ids: Seq<usize>,
    order: Seq<usize>,
    game_after: Game,
    after: Map<usize, Player>,
    seat: usize,
)
    requires
        game.timer <= 1,
        game.turn == Some(seat),
        seat < ids.len(),
    ensures
        turn_outcome(game, players, ids, order, game_after, after) == turn_outcome(
            passed_on(game, ids, seat),
            players,
            ids,
            order,
            game_after,
            after,
        ),
        turned(game, players, ids) == turned(passed_on(game, ids, seat), players, ids),
        forall|before: Seq<usize>, id: usize| #[trigger]
            turned_player(game, players, ids, before, id) == turned_player(
                passed_on(game, ids, seat),
                players,
                ids,
                before,
                id,
            ),
        can_turn(game, players, ids) == can_turn(passed_on(game, ids, seat), players, ids),
{
    assert(clocked(game, ids) == clocked(passed_on(game, ids, seat), ids));
}

/// Without the seat whose turn it is, the clock cannot run out.
pub proof fn law_clock_needs_its_seat(
    game: Game,
    players: Map<usize, Player>,
    ids: Seq<usize>,
    seat: usize,
)
    requires
        game.timer <= 1,
        game.turn == Some(seat),
        seat >= ids.len(),
    ensures
        !can_turn(game, players, ids),
{
}

// ---------------------------------------------------------------------------
// Hearing a player
// ---------------------------------------------------------------------------

/// Whether a player's claim counts: it was placed, and its face or its amount
/// is bigger than that of the bid.
pub open spec fn claims(player: Player, bid: Bid) -> bool {
    &&& player.bid
    &&& bid.face < player.face || bid.amount < player.amount
}

/// A claim that counts becomes the bid, and nothing else does. The last
/// second of a turn that nothing ends adds one die to the bid.
pub proof fn law_hearing_sets_the_bid(game: Game, player: Player)
    ensures
        claims(player, game.bid) ==> {
            &&& heard(game, player).bid.face == player.face
            &&& heard(game, player).bid.amount == player.amount
        },
        !claims(player, game.bid) && (player.liar || game.timer > 1) ==> heard(game, player).bid
            == game.bid,
        !claims(player, game.bid) && !player.liar && game.timer <= 1 ==> {
            &&& heard(game, player).bid.face == game.bid.face
            &&& game.bid.amount < usize::MAX ==> heard(game, player).bid.amount == game.bid.amount
                + 1
        },
{
}

/// A claim that counts and a call leave a second on the clock, and only a
/// call asks for new dice. Seats and counts stay.
pub proof fn law_hearing_ends_the_turn(game: Game, player: Player)
    ensures
        claims(player, game.bid) || player.liar ==> heard(game, player).timer == 1,
        !claims(player, game.bid) && !player.liar ==> heard(game, player).timer == game.timer,
        player.liar ==> heard(game, player).state == State::Roll,
        !player.liar ==> heard(game, player).state == game.state,
        heard(game, player).turn == game.turn,
        heard(game, player).totals == game.totals,
        heard(game, player).prev_turn_id == game.prev_turn_id,
{
}

/// A bid is a lie if it claims more dice than were counted; a claim that the
/// caller places in the same breath is the one that is judged.
pub proof fn law_lie_claims_too_much(game: Game, player: Player)
    ensures
        claims(player, game.bid) ==> (bid_is_lie(game, player) <==> game.totals[player.face]
            < player.amount),
        !claims(player, game.bid) ==> (bid_is_lie(game, player) <==> game.totals[game.bid.face]
            < game.bid.amount),
{
}

/// A call can be heard where the face in question was counted, and anything
/// else where the amount of the bid need not grow beyond the largest number.
pub proof fn law_who_can_be_heard(game: Game, player: Player)
    ensures
        player.liar && claims(player, game.bid) ==> (can_hear(game, player)
            <==> game.totals.contains_key(player.face)),
        player.liar && !claims(player, game.bid) ==> (can_hear(game, player)
            <==> game.totals.contains_key(game.bid.face)),
        !player.liar ==> (can_hear(game, player) <==> claims(player, game.bid) || game.timer > 1
            || game.bid.amount < usize::MAX),
{
}

// ---------------------------------------------------------------------------
// The table after a tick of a turn
// ---------------------------------------------------------------------------

/// The actor is the connected player in the seat whose turn it is.
pub proof fn law_actor_has_the_turn(game: Game, players: Map<usize, Player>, ids: Seq<usize>)
    ensures
        forall|id: usize|
            actor(game, players, ids) == Some(id) <==> (players.contains_key(id) && (game.turn
                matches Some(seat) && seat < ids.len() && ids[seat as int] == id)),
{
}

/// Where the seat whose turn it is is empty, only a second goes by.
pub proof fn law_empty_seat_does_nothing(
    game: Game,
    players: Map<usize, Player>,
    ids: Seq<usize>,
    seat: usize,
)
    requires
        game.timer > 1,
        game.turn == Some(seat),
        seat >= ids.len() || !players.contains_key(ids[seat as int]),
    ensures
        turned(game, players, ids).timer == game.timer - 1,
        turned(game, players, ids).turn == game.turn,
        turned(game, players, ids).bid == game.bid,
        turned(game, players, ids).totals == game.totals,
        turned(game, players, ids).prev_turn_id == game.prev_turn_id,
        turned(game, players, ids).state == (if ids.len() >= 2 {
            game.state
        } else {
            State::Waiting
        }),
        can_turn(game, players, ids),
{
}

/// Where the player whose turn it is calls no lie, a claim that counts becomes
/// the bid and leaves one second; otherwise a second goes by, and the last
/// one adds a die to the bid.
pub proof fn law_turn_without_a_call(
    game: Game,
    players: Map<usize, Player>,
    ids: Seq<usize>,
    seat: usize,
)
    requires
        game.timer > 1,
        game.turn == Some(seat),
        seat < ids.len(),
        players.contains_key(ids[seat as int]),
        !players[ids[seat as int]].liar,
    ensures
        ({
            let player = players[ids[seat as int]];
            let after = turned(game, players, ids);
            &&& after.turn == game.turn
            &&& after.totals == game.totals
            &&& after.prev_turn_id == game.prev_turn_id
            &&& after.state == (if ids.len() >= 2 {
                game.state
            } else {
                State::Waiting
            })
            &&& claims(player, game.bid) ==> {
                &&& after.bid.face == player.face
                &&& after.bid.amount == player.amount
                &&& after.timer == 1
            }
            &&& !claims(player, game.bid) ==> {
                &&& after.timer == game.timer - 1
                &&& after.bid.face == game.bid.face
                &&& game.timer > 2 ==> after.bid.amount == game.bid.amount
                &&& game.timer == 2 && game.bid.amount < usize::MAX ==> after.bid.amount
                    == game.bid.amount + 1
            }
            &&& can_turn(game, players, ids) <==> (claims(player, game.bid) || game.timer > 2
                || game.bid.amount < usize::MAX)
        }),
{
}

/// A call leaves one second, the bid that was judged and the seat. Two
/// connected players go on with new dice, and one waits for company.
pub proof fn law_turn_with_a_call(
    game: Game,
    players: Map<usize, Player>,
    ids: Seq<usize>,
    seat: usize,
)
    requires
        game.timer > 1,
        game.turn == Some(seat),
        seat < ids.len(),
        players.contains_key(ids[seat as int]),
        players[ids[seat as int]].liar,
    ensures
        ({
            let player = players[ids[seat as int]];
            let after = turned(game, players, ids);
            &&& after.timer == 1
            &&& after.turn == game.turn
            &&& after.totals == game.totals
            &&& after.prev_turn_id == game.prev_turn_id
            &&& players.dom().len() >= 2 ==> after.state == State::Roll
            &&& players.dom().len() < 2 ==> after.state == State::Waiting
            &&& claims(player, game.bid) ==> after.bid.face == player.face && after.bid.amount
                == player.amount
            &&& !claims(player, game.bid) ==> after.bid == game.bid
            &&& can_turn(game, players, ids) <==> game.totals.contains_key(after.bid.face)
        }),
{
}

// ---------------------------------------------------------------------------
// The players after a tick of a turn
// ---------------------------------------------------------------------------

proof fn lemma_visited(
    game: Game,
    players: Map<usize, Player>,
    ids: Seq<usize>,
    order: Seq<usize>,
    game_after: Game,
    after: Map<usize, Player>,
    id: usize,
) -> (k: int)
    requires
        turn_outcome(game, players, ids, order, game_after, after),
        players.contains_key(id),
    ensures
        0 <= k < order.len(),
        order[k] == id,
        after[id] == turned_player(game, players, ids, order.take(k), id),
{
    assert(order.contains(id));
    let k = choose|k: int| 0 <= k < order.len() && order[k] == id;
    assert(after[order[k]] == turned_player(game, players, ids, order.take(k), order[k]));
    k
}

/// Whatever the order of visiting, the table is the one that the laws above
/// speak of, and nobody joins or leaves.
pub proof fn law_table_after_a_turn(
    game: Game,
    players: Map<usize, Player>,
    ids: Seq<usize>,
    order: Seq<usize>,
    game_after: Game,
    after: Map<usize, Player>,
)
    requires
        turn_outcome(game, players, ids, order, game_after, after),
    ensures
        game_after == turned(game, players, ids),
        forall|id: usize| #[trigger] after.contains_key(id) <==> players.contains_key(id),
{
}

/// Without a call from the player whose turn it is, nobody goes out.
pub proof fn law_no_call_no_loser(
    game: Game,
    players: Map<usize, Player>,
    ids: Seq<usize>,
    order: Seq<usize>,
    game_after: Game,
    after: Map<usize, Player>,
    seat: usize,
)
    requires
        turn_outcome(game, players, ids, order, game_after, after),
        game.timer > 1,
        game.turn == Some(seat),
        seat < ids.len() && players.contains_key(ids[seat as int])
            ==> !players[ids[seat as int]].liar,
    ensures
        after.dom() == players.dom(),
        forall|id: usize| #[trigger]
            players.contains_key(id) ==> after[id].can_play == players[id].can_play,
{
    assert forall|id: usize| #[trigger] players.contains_key(id) implies after[id].can_play
        == players[id].can_play by {
        let _ = lemma_visited(game, players, ids, order, game_after, after, id);
    }
}

/// A call puts exactly one player out, however many are connected: if the bid
/// claims more dice than were counted, the one whose turn came before, and
/// otherwise the caller. Everybody else stays as in or out as before.
pub proof fn law_call_puts_the_loser_out(
    game: Game,
    players: Map<usize, Player>,
    ids: Seq<usize>,
    order: Seq<usize>,
    game_after: Game,
    after: Map<usize, Player>,
    seat: usize,
)
    requires
        turn_outcome(game, players, ids, order, game_after, after),
        game.timer > 1,
        game.turn == Some(seat),
        seat < ids.len(),
        players.contains_key(ids[seat as int]),
        players[ids[seat as int]].liar,
    ensures
        ({
            let caller = ids[seat as int];
            let bid = if claims(players[caller], game.bid) {
                Bid { face: players[caller].face, amount: players[caller].amount }
            } else {
                game.bid
            };
            let out = if game.totals[bid.face] < bid.amount {
                game.prev_turn_id
            } else {
                caller
            };
            &&& after.dom() == players.dom()
            &&& players.contains_key(out) ==> !after[out].can_play
            &&& forall|id: usize| #[trigger]
                players.contains_key(id) && id != out ==> after[id].can_play
                    == players[id].can_play
        }),
{
    assert forall|id: usize| #[trigger] players.contains_key(id) implies after[id].can_play == (
    players[id].can_play && loser(clocked(game, ids), players, ids) != Some(id)) by {
        let _ = lemma_visited(game, players, ids, order, game_after, after, id);
    }
}

/// The loser of a tick, if there is one, cannot play any more, and every
/// other player can or cannot as before. This holds of every tick of a turn
/// and of any number of players.
pub proof fn law_loser_cannot_play(
    game: Game,
    players: Map<usize, Player>,
    ids: Seq<usize>,
    order: Seq<usize>,
    game_after: Game,
    after: Map<usize, Player>,
    id: usize,
)
    requires
        turn_outcome(game, players, ids, order, game_after, after),
        players.contains_key(id),
    ensures
        loser(clocked(game, ids), players, ids) == Some(id) ==> !after[id].can_play,
        loser(clocked(game, ids), players, ids) != Some(id) ==> after[id].can_play
            == players[id].can_play,
{
    let _ = lemma_visited(game, players, ids, order, game_after, after, id);
}

/// There is a loser if and only if the player whose turn it is calls a lie:
/// the player before, if the bid claims too much, and else the caller.
pub proof fn law_loser_of_a_call(
    game: Game,
    players: Map<usize, Player>,
    ids: Seq<usize>,
    seat: usize,
)
    requires
        game.turn == Some(seat),
    ensures
        seat >= ids.len() ==> loser(game, players, ids) is None,
        seat < ids.len() && !players.contains_key(ids[seat as int]) ==> loser(
            game,
            players,
            ids,
        ) is None,
        seat < ids.len() && players.contains_key(ids[seat as int]) ==> {
            let caller = ids[seat as int];
            let bid = if claims(players[caller], game.bid) {
                Bid { face: players[caller].face, amount: players[caller].amount }
            } else {
                game.bid
            };
            &&& !players[caller].liar ==> loser(game, players, ids) is None
            &&& players[caller].liar && game.totals[bid.face] < bid.amount ==> loser(
                game,
                players,
                ids,
            ) == Some(game.prev_turn_id)
            &&& players[caller].liar && game.totals[bid.face] >= bid.amount ==> loser(
                game,
                players,
                ids,
            ) == Some(caller)
        },
{
}

/// A tick of a turn takes up every player's bid and call. It leaves the dice
/// and the prepared bids alone.
pub proof fn law_turn_keeps_hands(
    game: Game,
    players: Map<usize, Player>,
    ids: Seq<usize>,
    order: Seq<usize>,
    game_after: Game,
    after: Map<usize, Player>,
    id: usize,
)
    requires
        turn_outcome(game, players, ids, order, game_after, after),
        players.contains_key(id),
    ensures
        after[id].rolls == players[id].rolls,
        after[id].amount == players[id].amount,
        after[id].face == players[id].face,
        !after[id].bid,
        !after[id].liar,
{
    let _ = lemma_visited(game, players, ids, order, game_after, after, id);
}

/// Every player sees the seconds of the turn at the seat that has it: those
/// that are left after the tick began, or one, for those who are visited after
/// the player whose turn it is has ended it.
pub proof fn law_everybody_sees_the_clock(
    game: Game,
    players: Map<usize, Player>,
    ids: Seq<usize>,
    before: Seq<usize>,
    id: usize,
    seat: usize,
)
    requires
        game.timer > 1,
        game.turn == Some(seat),
    ensures
        ({
            let names = turned_player(game, players, ids, before, id).names;
            let ended = seat < ids.len() && players.contains_key(ids[seat as int])
                && before.contains(ids[seat as int]) && (players[ids[seat as int]].liar || claims(
                players[ids[seat as int]],
                game.bid,
            ));
            names == seat_names(
                ids,
                id,
                Some(
                    (
                        seat,
                        if ended {
                            1
                        } else {
                            game.timer - 1
                        },
                    ),
                ),
            )
        }),
{
}

} // verus!
