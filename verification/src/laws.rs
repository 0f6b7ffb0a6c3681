//! What holds of the game as a whole.

pub mod display;
pub mod input;
pub mod rounds;
pub mod turns;

use vstd::multiset::Multiset;
use vstd::prelude::*;

use crate::dice::{is_hand, DICE};
use crate::game::{pooled, tally, Bid, Game, State, FACES, TURN_TIMEOUT};
use crate::keys::{pressed, Key};
use crate::player::Player;
use crate::rules::{
    actor, can_turn, clocked, dealt, ends_turn, is_walk, loser, next_seat, opened, outbids,
    standing_bid, time_is_up, turned, turned_player, waited, waited_player,
};
use crate::screen::{panels, Area, PLAYERS_HEIGHT};
use crate::server::{dealt_hands, roll_outcome, turn_outcome};
use crate::sink::{collected, flushed};
use crate::text::{decimal, digits, seat_names};

verus! {

// ---------------------------------------------------------------------------
// Bids
// ---------------------------------------------------------------------------

/// A bid that the player whose turn it is places stands after the tick if its
/// face or its amount is bigger than that of the bid before. Otherwise the bid
/// before stands; in the last second of a turn that nothing else ends, it
/// claims one die more.
pub proof fn law_valid_bid(game: Game, players: Map<usize, Player>, ids: Seq<usize>, id: usize)
    requires
        actor(clocked(game, ids), players, ids) == Some(id),
        players[id].bid,
    ensures
        ({
            let clock = clocked(game, ids);
            let before = clock.bid;
            let after = turned(game, players, ids).bid;
            let claim = Bid { face: players[id].face, amount: players[id].amount };
            if claim.face > before.face || claim.amount > before.amount {
                after == claim
            } else if clock.timer > 1 || players[id].liar {
                after == before
            } else {
                after == Bid { amount: (before.amount + 1) as usize, ..before }
            }
        }),
{
}

/// A tick of a turn leaves the standing bid as it is, or puts one in its
/// place that may follow it.
pub proof fn law_bid_never_shrinks(game: Game, players: Map<usize, Player>, ids: Seq<usize>)
    requires
        game.wf(),
        forall|id: usize| #[trigger] players.contains_key(id) ==> players[id].wf(),
        game.bid.amount < usize::MAX,
    ensures
        turned(game, players, ids).bid == game.bid || outbids(
            turned(game, players, ids).bid.face,
            turned(game, players, ids).bid.amount,
            game.bid,
        ),
{
    let c = clocked(game, ids);
    if let Some(id) = actor(c, players, ids) {
        assert(players.contains_key(id));
    }
}

// ---------------------------------------------------------------------------
// Calling a bid a lie
// ---------------------------------------------------------------------------

/// Whoever calls a bid a lie is right if and only if fewer dice of all hands
/// show its face than it claims. Then the player before is out, and otherwise
/// the caller is.
pub proof fn law_challenge(
    thrown: Game,
    hands: Seq<Seq<usize>>,
    game: Game,
    players: Map<usize, Player>,
    ids: Seq<usize>,
    id: usize,
)
    requires
        pooled(hands).len() <= usize::MAX,
        game.totals == dealt(thrown, hands).totals,
        actor(game, players, ids) == Some(id),
        players[id].liar,
        1 <= standing_bid(game, players[id]).face <= FACES,
    ensures
        ({
            let bid = standing_bid(game, players[id]);
            loser(game, players, ids) == Some(
                if pooled(hands).count(bid.face) < bid.amount {
                    game.prev_turn_id
                } else {
                    id
                },
            )
        }),
{
    let face = standing_bid(game, players[id]).face;
    assert(pooled(hands).count(face) <= pooled(hands).len());
    assert(game.totals[face] == pooled(hands).count(face));
}

/// The counts of the dice change only when the dice are thrown.
pub proof fn law_totals_stand(
    game: Game,
    players: Map<usize, Player>,
    ids: Seq<usize>,
    seats: nat,
)
    ensures
        turned(game, players, ids).totals == game.totals,
        waited(game, seats).totals == game.totals,
{
}

/// In one tick at most one player goes out, only because somebody called a
/// bid a lie, and nobody comes back in.
pub proof fn law_one_loser(
    game: Game,
    players: Map<usize, Player>,
    ids: Seq<usize>,
    order: Seq<usize>,
    game_after: Game,
    after: Map<usize, Player>,
)
    requires
        turn_outcome(game, players, ids, order, game_after, after),
    ensures
        forall|id: usize| #[trigger]
            players.contains_key(id) && after[id].can_play ==> players[id].can_play,
        forall|a: usize, b: usize|
            #![trigger players.contains_key(a), players.contains_key(b)]
            players.contains_key(a) && players.contains_key(b) && players[a].can_play
                && players[b].can_play && !after[a].can_play && !after[b].can_play ==> a == b,
        (exists|id: usize| #[trigger]
            players.contains_key(id) && players[id].can_play && !after[id].can_play) ==> (
        exists|id: usize| #[trigger] players.contains_key(id) && players[id].liar),
{
    assert forall|id: usize| #[trigger] players.contains_key(id) implies after[id].can_play == (
    players[id].can_play && loser(clocked(game, ids), players, ids) != Some(id)) by {
        assert(order.contains(id));
        let k = choose|k: int| 0 <= k < order.len() && order[k] == id;
        assert(after[order[k]] == turned_player(game, players, ids, order.take(k), order[k]));
    }
    if loser(clocked(game, ids), players, ids) is Some {
        let caller = actor(clocked(game, ids), players, ids)->0;
        assert(players.contains_key(caller) && players[caller].liar);
    }
}

/// A call is followed by new dice if two players are connected, and else by
/// waiting for players. It does not touch the seat whose turn it is.
pub proof fn law_call_ends_round(
    game: Game,
    players: Map<usize, Player>,
    ids: Seq<usize>,
    id: usize,
)
    requires
        actor(clocked(game, ids), players, ids) == Some(id),
        players[id].liar,
    ensures
        turned(game, players, ids).state == (if players.dom().len() >= 2 {
            State::Roll
        } else {
            State::Waiting
        }),
        turned(game, players, ids).turn == clocked(game, ids).turn,
{
}

// ---------------------------------------------------------------------------
// Dice
// ---------------------------------------------------------------------------

/// How many dice show one of the faces up to `face`.
pub open spec fn shown_up_to(totals: Map<usize, usize>, face: nat) -> nat
    decreases face,
{
    if face == 0 {
        0
    } else {
        shown_up_to(totals, (face - 1) as nat) + totals[face as usize] as nat
    }
}

/// How many of the given dice show one of the faces up to `face`.
spec fn dice_up_to(dice: Multiset<usize>, face: nat) -> nat
    decreases face,
{
    if face == 0 {
        0
    } else {
        dice_up_to(dice, (face - 1) as nat) + dice.count(face as usize)
    }
}

proof fn lemma_all_dice_up_to(hand: Seq<usize>, face: nat)
    requires
        face <= usize::MAX,
        forall|i: int| 0 <= i < hand.len() ==> 1 <= #[trigger] hand[i] <= face,
    ensures
        dice_up_to(hand.to_multiset(), face) == hand.len(),
    decreases hand.len(),
{
    hand.to_multiset_ensures();
    if hand.len() == 0 {
        lemma_no_dice_up_to(hand.to_multiset(), face);
    } else {
        let rest = hand.drop_last();
        lemma_all_dice_up_to(rest, face);
        rest.to_multiset_ensures();
        assert(rest.push(hand.last()) =~= hand);
        assert(hand.to_multiset() =~= rest.to_multiset().insert(hand.last()));
        lemma_one_more_up_to(rest.to_multiset(), hand.last(), face);
    }
}

proof fn lemma_no_dice_up_to(dice: Multiset<usize>, face: nat)
    requires
        dice.len() == 0,
    ensures
        dice_up_to(dice, face) == 0,
    decreases face,
{
    if face > 0 {
        lemma_no_dice_up_to(dice, (face - 1) as nat);
        assert(dice.count(face as usize) <= dice.len());
    }
}

proof fn lemma_one_more_up_to(dice: Multiset<usize>, die: usize, face: nat)
    requires
        face <= usize::MAX,
    ensures
        dice_up_to(dice.insert(die), face) == dice_up_to(dice, face) + (if 1 <= die <= face {
            1nat
        } else {
            0nat
        }),
    decreases face,
{
    if face > 0 {
        lemma_one_more_up_to(dice, die, (face - 1) as nat);
    }
}

proof fn lemma_pools_up_to(a: Multiset<usize>, b: Multiset<usize>, face: nat)
    ensures
        dice_up_to(a.add(b), face) == dice_up_to(a, face) + dice_up_to(b, face),
    decreases face,
{
    if face > 0 {
        lemma_pools_up_to(a, b, (face - 1) as nat);
    }
}

proof fn lemma_tally_up_to(dice: Multiset<usize>, face: nat)
    requires
        face <= FACES,
        dice.len() <= usize::MAX,
    ensures
        shown_up_to(tally(dice), face) == dice_up_to(dice, face),
    decreases face,
{
    if face > 0 {
        lemma_tally_up_to(dice, (face - 1) as nat);
        assert(dice.count(face as usize) <= dice.len());
    }
}

proof fn lemma_pooled_up_to(hands: Seq<Seq<usize>>)
    requires
        forall|k: int| 0 <= k < hands.len() ==> is_hand(#[trigger] hands[k]),
    ensures
        dice_up_to(pooled(hands), FACES as nat) == hands.len() * DICE,
        pooled(hands).len() == hands.len() * DICE,
    decreases hands.len(),
{
    if hands.len() == 0 {
        lemma_no_dice_up_to(pooled(hands), FACES as nat);
    } else {
        let fewer = hands.drop_last();
        assert forall|k: int| 0 <= k < fewer.len() implies is_hand(#[trigger] fewer[k]) by {
            assert(is_hand(hands[k]));
        }
        lemma_pooled_up_to(fewer);
        assert(is_hand(hands[hands.len() - 1]));
        lemma_all_dice_up_to(hands.last(), FACES as nat);
        hands.last().to_multiset_ensures();
        lemma_pools_up_to(pooled(fewer), hands.last().to_multiset(), FACES as nat);
    }
}

proof fn lemma_pooled_without(hands: Seq<Seq<usize>>, k: int)
    requires
        0 <= k < hands.len(),
    ensures
        pooled(hands) == pooled(hands.remove(k)).add(hands[k].to_multiset()),
    decreases hands.len(),
{
    let last = hands.len() - 1;
    if k == last {
        assert(hands.remove(k) =~= hands.drop_last());
    } else {
        lemma_pooled_without(hands.drop_last(), k);
        assert(hands.remove(k).drop_last() =~= hands.drop_last().remove(k));
        assert(hands.remove(k).last() == hands.last());
        assert(pooled(hands) =~= pooled(hands.remove(k)).add(hands[k].to_multiset()));
    }
}

/// The dice of all players are the same in whatever order the players are
/// visited.
pub proof fn law_dice_in_any_order(
    players: Map<usize, Player>,
    members: Set<usize>,
    order_a: Seq<usize>,
    order_b: Seq<usize>,
)
    requires
        is_walk(order_a, members),
        is_walk(order_b, members),
    ensures
        pooled(dealt_hands(players, order_a)) == pooled(dealt_hands(players, order_b)),
    decreases order_a.len(),
{
    if order_a.len() == 0 {
        if order_b.len() > 0 {
            assert(order_b.contains(order_b[0]));
            assert(order_a.contains(order_b[0]));
        }
        assert(dealt_hands(players, order_a) =~= dealt_hands(players, order_b));
    } else {
        let id = order_a.last();
        assert(order_a.contains(id));
        assert(order_b.contains(id));
        let k = choose|k: int| 0 <= k < order_b.len() && order_b[k] == id;
        let fewer_a = order_a.drop_last();
        let fewer_b = order_b.remove(k);
        let others = members.remove(id);
        assert forall|other: usize| #[trigger]
            fewer_a.contains(other) <==> others.contains(other) by {
            assert(order_a.contains(other) <==> members.contains(other));
            if others.contains(other) {
                let i = choose|i: int| 0 <= i < order_a.len() && order_a[i] == other;
                assert(fewer_a[i] == other);
            }
            if fewer_a.contains(other) {
                let i = choose|i: int| 0 <= i < fewer_a.len() && fewer_a[i] == other;
                assert(order_a[i] == other);
            }
        }
        assert forall|other: usize| #[trigger]
            fewer_b.contains(other) <==> others.contains(other) by {
            assert(order_b.contains(other) <==> members.contains(other));
            if others.contains(other) {
                let i = choose|i: int| 0 <= i < order_b.len() && order_b[i] == other;
                assert(fewer_b[if i < k { i } else { i - 1 }] == other);
            }
            if fewer_b.contains(other) {
                let i = choose|i: int| 0 <= i < fewer_b.len() && fewer_b[i] == other;
                assert(order_b[if i < k { i } else { i + 1 }] == other);
            }
        }
        law_dice_in_any_order(players, others, fewer_a, fewer_b);
        let hands_a = dealt_hands(players, order_a);
        let hands_b = dealt_hands(players, order_b);
        lemma_pooled_without(hands_b, k);
        assert(hands_a.drop_last() =~= dealt_hands(players, fewer_a));
        assert(hands_b.remove(k) =~= dealt_hands(players, fewer_b));
    }
}

/// After the dice are thrown, the counts of all faces together make up the
/// dice of all connected players.
pub proof fn law_all_dice_counted(
    game: Game,
    players: Map<usize, Player>,
    order: Seq<usize>,
    game_after: Game,
    after: Map<usize, Player>,
)
    requires
        roll_outcome(game, players, order, game_after, after),
        players.dom().len() * DICE <= usize::MAX,
    ensures
        shown_up_to(game_after.totals, FACES as nat) == players.dom().len() * DICE,
{
    let hands = dealt_hands(after, order);
    assert forall|k: int| 0 <= k < hands.len() implies is_hand(#[trigger] hands[k]) by {
        assert(order.contains(order[k]));
        assert(after[order[k]].rolls is Some);
    }
    lemma_pooled_up_to(hands);
    order.unique_seq_to_set();
    assert(order.to_set() =~= players.dom());
    lemma_tally_up_to(pooled(hands), FACES as nat);
}

// ---------------------------------------------------------------------------
// Seats and the clock
// ---------------------------------------------------------------------------

/// The dice are thrown as soon as two seats are taken, and not before.
pub proof fn law_two_players_start(game: Game, seats: nat)
    ensures
        waited(game, seats).state == State::Roll <==> seats >= 2,
        waited(game, seats).state != State::Turn,
{
}

/// Where one seat or none is left and nobody calls a bid a lie, the server
/// waits for players.
pub proof fn law_lone_player_waits(game: Game, players: Map<usize, Player>, ids: Seq<usize>)
    requires
        ids.len() <= 1,
        match actor(clocked(game, ids), players, ids) {
            Some(id) => !players[id].liar,
            None => true,
        },
    ensures
        turned(game, players, ids).state == State::Waiting,
{
}

/// The turn passes on if and only if the time is up, and then from a seat to
/// the one after it.
pub proof fn law_turn_passes(game: Game, players: Map<usize, Player>, ids: Seq<usize>, seat: usize)
    requires
        game.turn == Some(seat),
        seat < ids.len(),
    ensures
        turned(game, players, ids).turn == Some(
            if time_is_up(game) {
                ((seat + 1) % ids.len() as int) as usize
            } else {
                seat
            },
        ),
        turned(game, players, ids).prev_turn_id == (if time_is_up(game) {
            ids[seat as int]
        } else {
            game.prev_turn_id
        }),
{
    if seat + 1 < ids.len() {
        assert((seat + 1) % ids.len() as int == seat + 1) by (nonlinear_arith)
            requires
                0 <= seat + 1 < ids.len(),
        ;
    } else {
        assert((seat + 1) % ids.len() as int == 0) by (nonlinear_arith)
            requires
                seat + 1 == ids.len(),
        ;
    }
}

/// The seat whose turn it is after the turn has passed on `passes` times.
pub open spec fn seat_after(seat: usize, seats: nat, passes: nat) -> usize
    decreases passes,
{
    if passes == 0 {
        seat
    } else {
        next_seat(seat_after(seat, seats, (passes - 1) as nat), seats)
    }
}

/// Every seat gets its turn before any seat gets a second one: as often as
/// there are seats, the turn passes to a seat that did not have it yet, and
/// then it is back where it began.
pub proof fn law_turns_go_round(seat: usize, seats: nat, other: usize)
    requires
        seat < seats <= usize::MAX,
        other < seats,
    ensures
        seat_after(seat, seats, seats) == seat,
        exists|passes: nat|
            passes < seats && #[trigger] seat_after(seat, seats, passes) == other,
        forall|a: nat, b: nat|
            #![trigger seat_after(seat, seats, a), seat_after(seat, seats, b)]
            a < b < seats ==> seat_after(seat, seats, a) != seat_after(seat, seats, b),
{
    assert forall|passes: nat| passes <= seats implies #[trigger] seat_after(seat, seats, passes)
        == (if seat + passes < seats {
        seat + passes
    } else {
        seat + passes - seats
    }) by {
        lemma_seat_after(seat, seats, passes);
    }
    let passes: nat = if other >= seat {
        (other - seat) as nat
    } else {
        (other + seats - seat) as nat
    };
    assert(seat_after(seat, seats, passes) == other);
}

proof fn lemma_seat_after(seat: usize, seats: nat, passes: nat)
    requires
        seat < seats <= usize::MAX,
        passes <= seats,
    ensures
        seat_after(seat, seats, passes) == (if seat + passes < seats {
            seat + passes
        } else {
            seat + passes - seats
        }),
    decreases passes,
{
    if passes > 0 {
        lemma_seat_after(seat, seats, (passes - 1) as nat);
    }
}

/// A bid that counts and a call both end the turn: with the next tick the
/// time is up.
pub proof fn law_move_ends_turn(
    game: Game,
    players: Map<usize, Player>,
    ids: Seq<usize>,
    id: usize,
)
    requires
        actor(clocked(game, ids), players, ids) == Some(id),
        ends_turn(clocked(game, ids), players[id]),
    ensures
        time_is_up(turned(game, players, ids)),
{
}

/// Once a bid stands whose amount can still grow, every tick of a turn is
/// defined, as long as the seat whose turn it is is taken.
pub proof fn law_turn_is_defined(game: Game, players: Map<usize, Player>, ids: Seq<usize>)
    requires
        game.wf(),
        game.state == State::Turn,
        forall|id: usize| #[trigger] players.contains_key(id) ==> players[id].wf(),
        game.turn->0 < ids.len(),
        game.bid.face >= 1,
        game.bid.amount < usize::MAX,
    ensures
        can_turn(game, players, ids),
{
    let c = clocked(game, ids);
    if let Some(id) = actor(c, players, ids) {
        assert(players.contains_key(id));
        assert(c.totals.contains_key(standing_bid(c, players[id]).face));
    }
}

/// The table after several ticks of a turn; `rounds` are the players at each
/// of them.
pub open spec fn turned_often(game: Game, rounds: Seq<Map<usize, Player>>, ids: Seq<usize>) -> Game
    decreases rounds.len(),
{
    if rounds.len() == 0 {
        game
    } else {
        turned(turned_often(game, rounds.drop_last(), ids), rounds.last(), ids)
    }
}

/// A player who does nothing keeps the turn for as many ticks as the clock
/// shows. In the last one of them the standing bid grows by one die for that
/// player, and with the next tick the turn passes on with a full clock.
pub proof fn law_idle_turn(
    game: Game,
    rounds: Seq<Map<usize, Player>>,
    ids: Seq<usize>,
    seat: usize,
)
    requires
        game.wf(),
        game.state == State::Turn,
        game.timer >= 2,
        game.turn == Some(seat),
        seat < ids.len(),
        2 <= ids.len(),
        game.bid.amount < usize::MAX,
        rounds.len() <= game.timer,
        forall|i: int|
            0 <= i < rounds.len() ==> (#[trigger] rounds[i]).contains_key(ids[seat as int]),
        forall|i: int, id: usize|
            #![trigger rounds[i].contains_key(id)]
            0 <= i < rounds.len() && rounds[i].contains_key(id) ==> !rounds[i][id].bid
                && !rounds[i][id].liar,
    ensures
        ({
            let ticks = rounds.len();
            let after = turned_often(game, rounds, ids);
            let raised = Bid { amount: (game.bid.amount + 1) as usize, ..game.bid };
            if ticks < game.timer - 1 {
                after == Game { timer: game.timer - ticks, ..game }
            } else if ticks < game.timer {
                after == Game { timer: 1, bid: raised, ..game }
            } else {
                after == Game {
                    timer: TURN_TIMEOUT as int,
                    turn: Some(next_seat(seat, ids.len())),
                    prev_turn_id: ids[seat as int],
                    bid: opened(raised),
                    ..game
                }
            }
        }),
    decreases rounds.len(),
{
    if rounds.len() > 0 {
        let fewer = rounds.drop_last();
        let last = rounds.len() - 1;
        assert forall|i: int| 0 <= i < fewer.len() implies (#[trigger] fewer[i]).contains_key(
            ids[seat as int],
        ) by {
            assert(rounds[i].contains_key(ids[seat as int]));
        }
        assert forall|i: int, id: usize|
            #![trigger fewer[i].contains_key(id)]
            0 <= i < fewer.len() && fewer[i].contains_key(id) implies !fewer[i][id].bid
            && !fewer[i][id].liar by {
            assert(rounds[i].contains_key(id));
        }
        law_idle_turn(game, fewer, ids, seat);
        assert(rounds[last].contains_key(ids[seat as int]));
        let c = clocked(turned_often(game, fewer, ids), ids);
        if let Some(id) = actor(c, rounds[last], ids) {
            assert(rounds[last].contains_key(id));
        }
    }
}

// ---------------------------------------------------------------------------
// The order in which the players are visited
// ---------------------------------------------------------------------------

/// In whatever order the players are visited, the table comes out the same,
/// and so do the players, up to the clock in the names that they see. Where
/// nobody ends the turn, the names are the same too.
pub proof fn law_order_hardly_matters(
    game: Game,
    players: Map<usize, Player>,
    ids: Seq<usize>,
    order_a: Seq<usize>,
    game_a: Game,
    after_a: Map<usize, Player>,
    order_b: Seq<usize>,
    game_b: Game,
    after_b: Map<usize, Player>,
)
    requires
        turn_outcome(game, players, ids, order_a, game_a, after_a),
        turn_outcome(game, players, ids, order_b, game_b, after_b),
    ensures
        game_a == game_b,
        after_a.dom() == after_b.dom(),
        forall|id: usize| #[trigger]
            players.contains_key(id) ==> after_a[id] == (Player {
                names: after_a[id].names,
                ..after_b[id]
            }),
        (match actor(clocked(game, ids), players, ids) {
            Some(id) => !ends_turn(clocked(game, ids), players[id]),
            None => true,
        }) ==> after_a == after_b,
{
    assert forall|id: usize| #[trigger] players.contains_key(id) implies ({
        &&& after_a[id] == (Player { names: after_a[id].names, ..after_b[id] })
        &&& (match actor(clocked(game, ids), players, ids) {
            Some(id) => !ends_turn(clocked(game, ids), players[id]),
            None => true,
        }) ==> after_a[id] == after_b[id]
    }) by {
        assert(order_a.contains(id) && order_b.contains(id));
        let i = choose|i: int| 0 <= i < order_a.len() && order_a[i] == id;
        let j = choose|j: int| 0 <= j < order_b.len() && order_b[j] == id;
        assert(after_a[order_a[i]] == turned_player(
            game,
            players,
            ids,
            order_a.take(i),
            order_a[i],
        ));
        assert(after_b[order_b[j]] == turned_player(
            game,
            players,
            ids,
            order_b.take(j),
            order_b[j],
        ));
    }
    if match actor(clocked(game, ids), players, ids) {
        Some(id) => !ends_turn(clocked(game, ids), players[id]),
        None => true,
    } {
        assert(after_a =~= after_b);
    }
}

/// After a tick of a turn, as after one of waiting, no bid and no call of any
/// player is left over.
pub proof fn law_moves_are_used_up(
    game: Game,
    players: Map<usize, Player>,
    ids: Seq<usize>,
    before: Seq<usize>,
    id: usize,
)
    ensures
        !turned_player(game, players, ids, before, id).bid,
        !turned_player(game, players, ids, before, id).liar,
        !waited_player(players[id], ids, id).bid,
        !waited_player(players[id], ids, id).liar,
{
}

// ---------------------------------------------------------------------------
// Names
// ---------------------------------------------------------------------------

/// Different numbers are written differently.
pub proof fn law_decimal_is_unique(a: nat, b: nat)
    requires
        decimal(a) == decimal(b),
    ensures
        a == b,
    decreases a,
{
    lemma_decimal_digits(a);
    lemma_decimal_digits(b);
    assert(decimal(a).last() == decimal(b).last());
    assert(a % 10 == b % 10);
    if a >= 10 && b >= 10 {
        assert(decimal(a).drop_last() =~= decimal(a / 10));
        assert(decimal(b).drop_last() =~= decimal(b / 10));
        law_decimal_is_unique(a / 10, b / 10);
    } else if a >= 10 {
        lemma_decimal_digits(a / 10);
        assert(decimal(a).len() >= 2);
    } else if b >= 10 {
        lemma_decimal_digits(b / 10);
        assert(decimal(b).len() >= 2);
    }
}

proof fn lemma_decimal_digits(n: nat)
    ensures
        decimal(n).len() >= 1,
        decimal(n).last() == digits()[(n % 10) as int],
        forall|i: int| 0 <= i < decimal(n).len() ==> #[trigger] decimal(n)[i] != ' ',
    decreases n,
{
    if n >= 10 {
        lemma_decimal_digits(n / 10);
    }
}

/// Every player sees the seats under different names, whoever's turn it is.
pub proof fn law_names_are_unique(
    ids: Seq<usize>,
    reader: usize,
    clock: Option<(usize, int)>,
    a: int,
    b: int,
)
    requires
        0 <= a < ids.len(),
        0 <= b < ids.len(),
        seat_names(ids, reader, clock)[a] == seat_names(ids, reader, clock)[b],
    ensures
        a == b,
{
    reveal_strlit("player ");
    reveal_strlit(" (you)");
    reveal_strlit(" (");
    let name_a = seat_names(ids, reader, clock)[a];
    let name_b = seat_names(ids, reader, clock)[b];
    let number_a = decimal(a as nat + 1);
    let number_b = decimal(b as nat + 1);
    lemma_decimal_digits(a as nat + 1);
    lemma_decimal_digits(b as nat + 1);
    let n = number_a.len() as int;
    let m = number_b.len() as int;
    assert(name_a.subrange(7, 7 + n) =~= number_a);
    assert(name_b.subrange(7, 7 + m) =~= number_b);
    if n < m {
        assert(name_a.len() > 7 + n);
        assert(name_a[7 + n] == ' ');
        assert(name_b[7 + n] == number_b[n]);
    } else if m < n {
        assert(name_b.len() > 7 + m);
        assert(name_b[7 + m] == ' ');
        assert(name_a[7 + m] == number_a[m]);
    }
    assert(number_a == number_b);
    law_decimal_is_unique(a as nat + 1, b as nat + 1);
}

// ---------------------------------------------------------------------------
// Keys
// ---------------------------------------------------------------------------

/// The keys for more and for fewer dice undo each other, and so do those for
/// a higher and for a lower face, where neither stops at a limit.
pub proof fn law_keys_undo(player: Player)
    ensures
        1 <= player.amount < usize::MAX ==> pressed(
            pressed(player, Key::MoreDice),
            Key::FewerDice,
        ) == player,
        player.amount > 1 ==> pressed(pressed(player, Key::FewerDice), Key::MoreDice) == player,
        1 <= player.face < FACES ==> pressed(
            pressed(player, Key::HigherFace),
            Key::LowerFace,
        ) == player,
        1 < player.face <= FACES ==> pressed(
            pressed(player, Key::LowerFace),
            Key::HigherFace,
        ) == player,
{
}

/// The player after a row of keys.
pub open spec fn pressed_all(player: Player, keys: Seq<Key>) -> Player
    decreases keys.len(),
{
    if keys.len() == 0 {
        player
    } else {
        pressed(pressed_all(player, keys.drop_last()), keys.last())
    }
}

/// Whatever keys are pressed, the player prepares a bid on a face of a die
/// and on one die at least, and neither the dice nor the names nor the
/// player's place in the game change.
pub proof fn law_keys_keep_bid_sound(player: Player, keys: Seq<Key>)
    requires
        player.wf(),
        player.amount + keys.len() <= usize::MAX,
    ensures
        pressed_all(player, keys).wf(),
        pressed_all(player, keys).amount <= player.amount + keys.len(),
        pressed_all(player, keys).rolls == player.rolls,
        pressed_all(player, keys).names == player.names,
        pressed_all(player, keys).can_play == player.can_play,
    decreases keys.len(),
{
    if keys.len() > 0 {
        law_keys_keep_bid_sound(player, keys.drop_last());
    }
}

// ---------------------------------------------------------------------------
// Bytes for a terminal
// ---------------------------------------------------------------------------

/// What happens to the bytes of a terminal.
pub enum SinkEvent {
    /// The given bytes are written.
    Write(Seq<u8>),
    /// The bytes that wait are handed over for sending, which succeeds or
    /// fails.
    Flush(bool),
}

/// The bytes that wait after the given events.
pub open spec fn waiting_after(events: Seq<SinkEvent>) -> Seq<u8>
    decreases events.len(),
{
    if events.len() == 0 {
        Seq::empty()
    } else {
        let before = waiting_after(events.drop_last());
        match events.last() {
            SinkEvent::Write(data) => collected(before, data),
            SinkEvent::Flush(sent) => flushed(before, sent),
        }
    }
}

/// The bytes that were sent with the given events.
pub open spec fn sent_by(events: Seq<SinkEvent>) -> Seq<u8>
    decreases events.len(),
{
    if events.len() == 0 {
        Seq::empty()
    } else {
        let before = sent_by(events.drop_last());
        match events.last() {
            SinkEvent::Flush(true) => before + waiting_after(events.drop_last()),
            _ => before,
        }
    }
}

/// The bytes that were written with the given events.
pub open spec fn written_by(events: Seq<SinkEvent>) -> Seq<u8>
    decreases events.len(),
{
    if events.len() == 0 {
        Seq::empty()
    } else {
        let before = written_by(events.drop_last());
        match events.last() {
            SinkEvent::Write(data) => before + data,
            SinkEvent::Flush(_) => before,
        }
    }
}

/// Whatever is written and flushed, and whichever flushes fail: what was sent
/// and what waits are together what was written, in the same order.
pub proof fn law_no_byte_is_lost(events: Seq<SinkEvent>)
    ensures
        sent_by(events) + waiting_after(events) == written_by(events),
    decreases events.len(),
{
    if events.len() > 0 {
        law_no_byte_is_lost(events.drop_last());
        assert(sent_by(events) + waiting_after(events) =~= written_by(events));
    } else {
        assert(sent_by(events) + waiting_after(events) =~= written_by(events));
    }
}

// ---------------------------------------------------------------------------
// The screen
// ---------------------------------------------------------------------------

/// Whether an area has no cells, or lies within another one without touching
/// its border.
pub open spec fn framed_by(inner: Area, outer: Area) -> bool {
    ||| inner.width == 0
    ||| inner.height == 0
    ||| {
        &&& outer.x < inner.x
        &&& inner.x + inner.width < outer.x + outer.width
        &&& outer.y < inner.y
        &&& inner.y + inner.height < outer.y + outer.height
    }
}

/// The list of players and the table fill the screen, one above the other;
/// the two panels lie side by side within the frame of the table and fill it.
pub proof fn law_panels_fill_screen(width: u16, height: u16)
    requires
        height >= PLAYERS_HEIGHT,
    ensures
        ({
            let parts = panels(width, height);
            &&& parts.players.x == 0 && parts.players.y == 0 && parts.players.width == width
            &&& parts.table.x == 0 && parts.table.y == parts.players.height
            &&& parts.table.width == width
            &&& parts.players.height + parts.table.height == height
            &&& framed_by(parts.left, parts.table)
            &&& framed_by(parts.right, parts.table)
            &&& parts.right.x == parts.left.x + parts.left.width
            &&& parts.right.y == parts.left.y && parts.right.height == parts.left.height
            &&& width >= 2 && height >= PLAYERS_HEIGHT + 2 ==> parts.left.width
                + parts.right.width == width - 2 && parts.left.height == height - PLAYERS_HEIGHT
                - 2
        }),
{
}

} // verus!
