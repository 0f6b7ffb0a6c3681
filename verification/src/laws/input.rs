//! What the keys mean, and what the server knows of its connections.

use vstd::prelude::*;

use crate::game::{ServerApp, State};
use crate::keys::{key_of, pressed, Key};
use crate::player::{App, Player};
use crate::rules::can_turn;
use crate::server::{players_of, terminals_of, AppServer};

verus! {

// ---------------------------------------------------------------------------
// Keys
// ---------------------------------------------------------------------------

/// Whether the bytes are the one given character.
pub open spec fn is_letter(data: Seq<u8>, letter: char) -> bool {
    data.len() == 1 && data[0] as int == letter as int
}

/// Whether the bytes are the escape sequence of an arrow, which ends in the
/// given letter.
pub open spec fn is_arrow(data: Seq<u8>, letter: char) -> bool {
    &&& data.len() == 3
    &&& data[0] == 27
    &&& data[1] as int == '[' as int
    &&& data[2] as int == letter as int
}

/// Every key has a letter, and the arrows have an escape sequence too: up and
/// down change the number of dice, right and left the face. Enter places a
/// bid and space calls a lie. All other bytes are no key.
pub proof fn law_letters_and_arrows(data: Seq<u8>)
    ensures
        key_of(data) == Key::Quit <==> is_letter(data, 'q'),
        key_of(data) == Key::MoreDice <==> is_letter(data, 'k') || is_arrow(data, 'A'),
        key_of(data) == Key::FewerDice <==> is_letter(data, 'j') || is_arrow(data, 'B'),
        key_of(data) == Key::HigherFace <==> is_letter(data, 'l') || is_arrow(data, 'C'),
        key_of(data) == Key::LowerFace <==> is_letter(data, 'h') || is_arrow(data, 'D'),
        key_of(data) == Key::CallLiar <==> is_letter(data, ' '),
        key_of(data) == Key::PlaceBid <==> is_letter(data, '\r'),
{
    if data.len() == 1 {
        assert(data =~= seq![data[0]]);
    } else if data.len() == 3 {
        assert(data =~= seq![data[0], data[1], data[2]]);
    }
}

/// A call is made by the key for it alone, and a bid is placed by the key for
/// it alone.
pub proof fn law_calls_and_bids_by_their_keys(player: Player, key: Key)
    ensures
        pressed(player, key).liar == (player.liar || key == Key::CallLiar),
        pressed(player, key).bid == (player.bid || key == Key::PlaceBid),
{
}

/// The number of dice changes by one with the two keys for it alone, and does
/// not fall below one.
pub proof fn law_amount_by_its_keys(player: Player, key: Key)
    ensures
        key == Key::MoreDice && player.amount < usize::MAX ==> pressed(player, key).amount
            == player.amount + 1,
        key == Key::FewerDice && player.amount > 1 ==> pressed(player, key).amount == player.amount
            - 1,
        key == Key::FewerDice && player.amount <= 1 ==> pressed(player, key).amount
            == player.amount,
        key != Key::MoreDice && key != Key::FewerDice ==> pressed(player, key).amount
            == player.amount,
{
}

/// The face changes by one with the two keys for it alone, and stays between
/// one and six.
pub proof fn law_face_by_its_keys(player: Player, key: Key)
    ensures
        key == Key::HigherFace && player.face < 6 ==> pressed(player, key).face == player.face + 1,
        key == Key::HigherFace && player.face >= 6 ==> pressed(player, key).face == player.face,
        key == Key::LowerFace && player.face > 1 ==> pressed(player, key).face == player.face - 1,
        key == Key::LowerFace && player.face <= 1 ==> pressed(player, key).face == player.face,
        key != Key::HigherFace && key != Key::LowerFace ==> pressed(player, key).face
            == player.face,
{
}

/// No key touches the dice, the names or a player's place in the game.
pub proof fn law_keys_touch_nothing_else(player: Player, key: Key)
    ensures
        pressed(player, key).rolls == player.rolls,
        pressed(player, key).names == player.names,
        pressed(player, key).can_play == player.can_play,
{
}

// ---------------------------------------------------------------------------
// Connections
// ---------------------------------------------------------------------------

/// A session ends with the key for quitting, and with any key of a player who
/// is out; every other key leaves it open.
pub proof fn law_who_is_closed<T>(server: AppServer<T>, id: usize, key: Key)
    requires
        server.clients@.contains_key(id),
    ensures
        key == Key::Quit ==> server.key_ends_session(id, key),
        !server.clients@[id].1.can_play ==> server.key_ends_session(id, key),
        key != Key::Quit && server.clients@[id].1.can_play ==> !server.key_ends_session(id, key),
{
}

/// Anybody may quit. Other keys are taken from connected players, and one
/// more die only while there is a number for it.
pub proof fn law_whose_keys_are_taken<T>(server: AppServer<T>, id: usize, key: Key)
    ensures
        key == Key::Quit ==> server.key_is_defined(id, key) && server.key_ends_session(id, key),
        key != Key::Quit && !server.clients@.contains_key(id) ==> !server.key_is_defined(id, key),
        key != Key::Quit && key != Key::MoreDice && server.clients@.contains_key(id)
            ==> server.key_is_defined(id, key),
        key == Key::MoreDice && server.clients@.contains_key(id) ==> (server.key_is_defined(id, key)
            <==> server.clients@[id].1.amount < usize::MAX),
{
}

/// Every connected player is one of the clients, with the terminal of that
/// client.
pub proof fn law_clients_are_players_with_terminals<T>(clients: Map<usize, (T, App)>, id: usize)
    ensures
        players_of(clients).contains_key(id) <==> clients.contains_key(id),
        terminals_of(clients).contains_key(id) <==> clients.contains_key(id),
        clients.contains_key(id) ==> players_of(clients)[id] == clients[id].1@,
        clients.contains_key(id) ==> terminals_of(clients)[id] == clients[id].0,
{
}

/// The players and terminals of a server are those of its clients, and a
/// server is sound if its table and all its players are.
pub proof fn law_server_is_its_clients<T>(server: AppServer<T>)
    ensures
        server.players() == players_of(server.clients@),
        server.terminals() == terminals_of(server.clients@),
        server.wf() <==> {
            &&& server.app@.wf()
            &&& forall|id: usize| #[trigger]
                server.clients@.contains_key(id) ==> server.clients@[id].1@.wf()
        },
{
    if server.wf() {
        assert forall|id: usize| #[trigger]
            server.clients@.contains_key(id) implies server.clients@[id].1@.wf() by {
            assert(server.players().contains_key(id));
            assert(server.players()[id].wf());
        }
    }
    if server.app@.wf() && (forall|id: usize| #[trigger]
        server.clients@.contains_key(id) ==> server.clients@[id].1@.wf()) {
        assert forall|id: usize|
            #![trigger server.players()[id]]
            server.players().contains_key(id) implies server.players()[id].wf() by {
            assert(server.clients@.contains_key(id));
        }
    }
}

/// A tick of waiting is always defined; throwing the dice is while the counts
/// of all dice fit; and a tick of a turn is where the rules say so.
pub proof fn law_when_a_tick_is_defined<T>(server: AppServer<T>, ids: Seq<usize>)
    ensures
        server.app.state == State::Waiting ==> server.tick_is_defined(ids),
        server.app.state == State::Roll ==> (server.tick_is_defined(ids)
            <==> server.clients@.dom().len() * 6 <= usize::MAX),
        server.app.state == State::Turn ==> (server.tick_is_defined(ids) <==> can_turn(
            server.app@,
            server.players(),
            ids,
        )),
{
    assert(server.players().dom() =~= server.clients@.dom());
}

// ---------------------------------------------------------------------------
// Contents
// ---------------------------------------------------------------------------

/// The content of a table is all that it holds.
pub proof fn law_content_of_a_table(app: ServerApp)
    ensures
        app@.timer == app.timer,
        app@.turn == app.turn,
        app@.state == app.state,
        app@.bid.face == app.bid.face,
        app@.bid.amount == app.bid.amount,
        app@.totals == app.totals@,
        app@.prev_turn_id == app.prev_turn_id,
{
}

/// The content of a player is all that is kept of one.
pub proof fn law_content_of_a_player(app: App)
    ensures
        app.rolls is None ==> app@.rolls is None,
        app.rolls matches Some(rolls) ==> app@.rolls == Some(rolls@),
        app@.names.len() == app.names@.len(),
        forall|i: int| 0 <= i < app.names@.len() ==> #[trigger] app@.names[i] == app.names@[i]@,
        app@.amount == app.amount,
        app@.face == app.face,
        app@.liar == app.liar,
        app@.bid == app.bid,
        app@.can_play == app.can_play,
{
}

} // verus!
