//! How a round comes about: waiting for players, and throwing the dice.

use vstd::multiset::Multiset;
use vstd::prelude::*;

use crate::dice::is_hand;
use crate::game::{pooled, tally, Game, State};
use crate::player::Player;
use crate::rules::{dealt, dealt_player, waited, waited_player};
use crate::laws::turns::law_call_puts_the_loser_out;
use crate::server::{dealt_hands, hands_of, roll_outcome, turn_outcome, waited_players};
use crate::text::seat_names;

verus! {

// ---------------------------------------------------------------------------
// The beginning
// ---------------------------------------------------------------------------

/// A table at which nobody sits has no bid, no turn and no dice.
pub proof fn law_fresh_table()
    ensures
        Game::fresh().timer == 0,
        Game::fresh().turn is None,
        Game::fresh().state == State::Waiting,
        Game::fresh().bid.face == 0,
        Game::fresh().bid.amount == 0,
        Game::fresh().prev_turn_id == 0,
        forall|face: usize|
            Game::fresh().totals.contains_key(face) <==> 1 <= face <= 6,
        forall|face: usize| 1 <= face <= 6 ==> #[trigger] Game::fresh().totals[face] == 0,
{
}

/// A player who has just arrived is in the game, holds no dice, and prepares
/// to claim one die with a one.
pub proof fn law_fresh_player()
    ensures
        Player::fresh().can_play,
        Player::fresh().rolls is None,
        Player::fresh().names.len() == 0,
        Player::fresh().amount == 1,
        Player::fresh().face == 1,
        !Player::fresh().bid,
        !Player::fresh().liar,
{
}

/// What is promised of the table between any two ticks.
pub proof fn law_sound_table(game: Game)
    ensures
        game.wf() <==> {
            &&& 0 <= game.timer <= 60
            &&& game.state == State::Turn ==> game.timer != 0 && game.turn is Some
            &&& game.bid.face <= 6
            &&& game.bid.face != 0 ==> game.bid.amount != 0
            &&& forall|face: usize| 1 <= face <= 6 ==> #[trigger] game.totals.contains_key(face)
        },
{
}

/// What is promised of a player between any two events.
pub proof fn law_sound_player(player: Player)
    ensures
        player.wf() <==> 0 < player.face < 7 && 0 < player.amount,
{
}

// ---------------------------------------------------------------------------
// Waiting
// ---------------------------------------------------------------------------

/// A tick of waiting takes the bid off the table and moves the animation on
/// by one of three steps. The seat whose turn it was, the counts and the
/// player before are kept.
pub proof fn law_waiting_table(game: Game, seats: nat)
    requires
        game.timer >= 0,
    ensures
        waited(game, seats).bid.face == 0,
        waited(game, seats).bid.amount == 0,
        0 <= waited(game, seats).timer < 3,
        (game.timer + 1 - waited(game, seats).timer) % 3 == 0,
        seats >= 2 ==> waited(game, seats).state == State::Roll,
        seats < 2 ==> waited(game, seats).state == State::Waiting,
        waited(game, seats).turn == game.turn,
        waited(game, seats).totals == game.totals,
        waited(game, seats).prev_turn_id == game.prev_turn_id,
{
}

/// Three ticks of waiting show the three steps of the animation and lead back
/// to the first.
pub proof fn law_animation_goes_round(game: Game)
    requires
        0 <= game.timer < 3,
    ensures
        waited(waited(waited(game, 0), 0), 0).timer == game.timer,
        waited(game, 0).timer != game.timer,
        waited(waited(game, 0), 0).timer != game.timer,
        waited(waited(game, 0), 0).timer != waited(game, 0).timer,
{
}

/// A tick of waiting makes everybody prepare to claim one die with a one,
/// takes back all bids and calls, and shows the seats without a clock. Dice
/// and places in the game stay.
pub proof fn law_waiting_players(players: Map<usize, Player>, ids: Seq<usize>)
    ensures
        forall|id: usize| #[trigger]
            waited_players(players, ids).contains_key(id) <==> players.contains_key(id),
        forall|id: usize|
            #![trigger players.contains_key(id)]
            players.contains_key(id) ==> {
                let after = waited_players(players, ids)[id];
                &&& after.amount == 1
                &&& after.face == 1
                &&& !after.bid
                &&& !after.liar
                &&& after.names == seat_names(ids, id, None)
                &&& after.rolls == players[id].rolls
                &&& after.can_play == players[id].can_play
            },
        forall|player: Player, id: usize|
            #![trigger waited_player(player, ids, id)]
            {
                let after = waited_player(player, ids, id);
                &&& after.amount == 1
                &&& after.face == 1
                &&& !after.bid
                &&& !after.liar
                &&& after.names == seat_names(ids, id, None)
                &&& after.rolls == player.rolls
                &&& after.can_play == player.can_play
            },
{
}

// ---------------------------------------------------------------------------
// Throwing the dice
// ---------------------------------------------------------------------------

/// A hand is six dice with faces from one to six.
pub proof fn law_hand_is_six_dice(hand: Seq<usize>)
    ensures
        is_hand(hand) <==> hand.len() == 6 && forall|i: int|
            0 <= i < hand.len() ==> 0 < #[trigger] hand[i] < 7,
{
}

/// How many dice of a hand show the given face.
pub open spec fn shown_in_hand(hand: Seq<usize>, face: usize) -> nat
    decreases hand.len(),
{
    if hand.len() == 0 {
        0
    } else {
        shown_in_hand(hand.drop_last(), face) + (if hand.last() == face {
            1nat
        } else {
            0nat
        })
    }
}

/// How many dice of all hands show the given face.
pub open spec fn shown_at_table(hands: Seq<Seq<usize>>, face: usize) -> nat
    decreases hands.len(),
{
    if hands.len() == 0 {
        0
    } else {
        shown_at_table(hands.drop_last(), face) + shown_in_hand(hands.last(), face)
    }
}

/// How many dice lie on the table.
pub open spec fn dice_at_table(hands: Seq<Seq<usize>>) -> nat
    decreases hands.len(),
{
    if hands.len() == 0 {
        0
    } else {
        dice_at_table(hands.drop_last()) + hands.last().len()
    }
}

proof fn lemma_shown_in_hand(hand: Seq<usize>, face: usize)
    ensures
        hand.to_multiset().count(face) == shown_in_hand(hand, face),
    decreases hand.len(),
{
    hand.to_multiset_ensures();
    if hand.len() > 0 {
        let rest = hand.drop_last();
        lemma_shown_in_hand(rest, face);
        rest.to_multiset_ensures();
        assert(rest.push(hand.last()) =~= hand);
        assert(hand.to_multiset() =~= rest.to_multiset().insert(hand.last()));
    } else {
        assert(!hand.contains(face));
    }
}

proof fn lemma_shown_at_table(hands: Seq<Seq<usize>>, face: usize)
    ensures
        pooled(hands).count(face) == shown_at_table(hands, face),
        pooled(hands).len() == dice_at_table(hands),
    decreases hands.len(),
{
    if hands.len() > 0 {
        lemma_shown_at_table(hands.drop_last(), face);
        lemma_shown_in_hand(hands.last(), face);
        hands.last().to_multiset_ensures();
    }
}

/// Throwing the dice counts, for each face of a die and for each other face
/// that came up, the dice of all hands that show it.
pub proof fn law_throw_counts_the_dice(game: Game, hands: Seq<Seq<usize>>, face: usize)
    requires
        dice_at_table(hands) <= usize::MAX,
    ensures
        dealt(game, hands).totals.contains_key(face) <==> 1 <= face <= 6 || shown_at_table(
            hands,
            face,
        ) > 0,
        dealt(game, hands).totals.contains_key(face) ==> dealt(game, hands).totals[face]
            == shown_at_table(hands, face),
        pooled(hands).len() == dice_at_table(hands),
{
    lemma_shown_at_table(hands, face);
    assert(pooled(hands).count(face) <= pooled(hands).len());
}

/// The counts before any die is thrown are zero for each face of a die.
pub proof fn law_no_dice_no_counts(face: usize)
    ensures
        tally(Multiset::empty()).contains_key(face) <==> 1 <= face <= 6,
        1 <= face <= 6 ==> tally(Multiset::empty())[face] == 0,
{
}

/// Throwing the dice starts a turn with a full minute, whatever was on the
/// table before. The seat that had the turn keeps it, and else the first seat
/// gets it. The bid and the player before stay.
pub proof fn law_throw_starts_a_minute(game: Game, hands: Seq<Seq<usize>>)
    ensures
        dealt(game, hands).timer == 60,
        dealt(game, hands).state == State::Turn,
        game.turn is Some ==> dealt(game, hands).turn == game.turn,
        game.turn is None ==> dealt(game, hands).turn == Some(0usize),
        dealt(game, hands).bid == game.bid,
        dealt(game, hands).prev_turn_id == game.prev_turn_id,
{
}

/// A player who is dealt a hand holds that hand, and is otherwise as before.
pub proof fn law_hand_is_dealt(player: Player, hand: Seq<usize>)
    ensures
        dealt_player(player, hand).rolls == Some(hand),
        dealt_player(player, hand).names == player.names,
        dealt_player(player, hand).amount == player.amount,
        dealt_player(player, hand).face == player.face,
        dealt_player(player, hand).bid == player.bid,
        dealt_player(player, hand).liar == player.liar,
        dealt_player(player, hand).can_play == player.can_play,
{
}

/// The hands are taken as they lie.
pub proof fn law_hands_as_they_lie(hands: Seq<Vec<usize>>)
    ensures
        hands_of(hands).len() == hands.len(),
        forall|k: int| 0 <= k < hands.len() ==> #[trigger] hands_of(hands)[k] == hands[k]@,
{
}

/// However the dice fall and in whatever order they are thrown: a turn starts
/// with a full minute at the seat that had it, or at the first one; the bid
/// stays; and each face is counted as often as the dice of all players show
/// it.
pub proof fn law_every_throw(
    game: Game,
    players: Map<usize, Player>,
    order: Seq<usize>,
    game_after: Game,
    after: Map<usize, Player>,
    face: usize,
)
    requires
        roll_outcome(game, players, order, game_after, after),
        players.dom().len() * 6 <= usize::MAX,
        1 <= face <= 6,
    ensures
        game_after.timer == 60,
        game_after.state == State::Turn,
        game.turn is Some ==> game_after.turn == game.turn,
        game.turn is None ==> game_after.turn == Some(0usize),
        game_after.bid == game.bid,
        game_after.prev_turn_id == game.prev_turn_id,
        order.len() == players.dom().len(),
        forall|k: int| 0 <= k < order.len() ==> players.contains_key(#[trigger] order[k]),
        forall|i: int, j: int| 0 <= i < j < order.len() ==> order[i] != order[j],
        ({
            let hands = Seq::new(order.len(), |k: int| after[order[k]].rolls->0);
            game_after.totals.contains_key(face) && game_after.totals[face] == shown_at_table(
                hands,
                face,
            )
        }),
{
    let hands = dealt_hands(after, order);
    assert forall|k: int| 0 <= k < order.len() implies players.contains_key(
        #[trigger] order[k],
    ) by {
        assert(order.contains(order[k]));
    }
    assert forall|k: int| 0 <= k < hands.len() implies (#[trigger] hands[k]).len() == 6 by {
        assert(players.contains_key(order[k]));
        assert(after[order[k]].rolls is Some);
    }
    lemma_sixes(hands);
    order.unique_seq_to_set();
    assert(order.to_set() =~= players.dom());
    law_throw_counts_the_dice(game, hands, face);
    assert(hands =~= Seq::new(order.len(), |k: int| after[order[k]].rolls->0));
}

proof fn lemma_sixes(hands: Seq<Seq<usize>>)
    requires
        forall|k: int| 0 <= k < hands.len() ==> (#[trigger] hands[k]).len() == 6,
    ensures
        dice_at_table(hands) == hands.len() * 6,
    decreases hands.len(),
{
    if hands.len() > 0 {
        let fewer = hands.drop_last();
        assert forall|k: int| 0 <= k < fewer.len() implies (#[trigger] fewer[k]).len() == 6 by {
            assert(hands[k].len() == 6);
        }
        lemma_sixes(fewer);
        assert(hands[hands.len() - 1].len() == 6);
    }
}

/// However the dice fall, everybody gets six new ones with faces from one to
/// six, and nothing else changes for anybody.
pub proof fn law_everybody_gets_a_hand(
    game: Game,
    players: Map<usize, Player>,
    order: Seq<usize>,
    game_after: Game,
    after: Map<usize, Player>,
    id: usize,
)
    requires
        roll_outcome(game, players, order, game_after, after),
    ensures
        after.contains_key(id) <==> players.contains_key(id),
        players.contains_key(id) ==> {
            &&& after[id].rolls matches Some(hand)
            &&& hand.len() == 6
            &&& forall|i: int| 0 <= i < 6 ==> 0 < #[trigger] hand[i] < 7
            &&& after[id].names == players[id].names
            &&& after[id].amount == players[id].amount
            &&& after[id].face == players[id].face
            &&& after[id].bid == players[id].bid
            &&& after[id].liar == players[id].liar
            &&& after[id].can_play == players[id].can_play
        },
{
    if players.contains_key(id) {
        assert(after[id].rolls is Some);
    }
}

/// Whoever calls a lie is judged by the dice that lie on the table: with
/// fewer of them showing the face than the bid claims, the player before is
/// out, and otherwise the caller, and nobody else is.
pub proof fn law_dice_judge_a_call(
    thrown: Game,
    hands: Seq<Seq<usize>>,
    game: Game,
    players: Map<usize, Player>,
    ids: Seq<usize>,
    order: Seq<usize>,
    game_after: Game,
    after: Map<usize, Player>,
    seat: usize,
)
    requires
        dice_at_table(hands) <= usize::MAX,
        game.totals == dealt(thrown, hands).totals,
        turn_outcome(game, players, ids, order, game_after, after),
        game.timer > 1,
        game.turn == Some(seat),
        seat < ids.len(),
        players.contains_key(ids[seat as int]),
        players[ids[seat as int]].liar,
        !players[ids[seat as int]].bid,
        1 <= game.bid.face <= 6,
    ensures
        ({
            let out = if shown_at_table(hands, game.bid.face) < game.bid.amount {
                game.prev_turn_id
            } else {
                ids[seat as int]
            };
            forall|id: usize| #[trigger]
                players.contains_key(id) ==> after[id].can_play == (players[id].can_play && id
                    != out)
        }),
{
    law_throw_counts_the_dice(thrown, hands, game.bid.face);
    law_call_puts_the_loser_out(game, players, ids, order, game_after, after, seat);
}

} // verus!
