//! The server: who is connected, and what a tick does to all of them.

use std::collections::hash_map::Entry;
use std::collections::HashMap;
use vstd::prelude::*;
use vstd::std_specs::iter::IteratorSpec;

use crate::dice::{is_hand, roll_dice, DICE};
use crate::game::{count_hand, no_totals, pooled, Bid, Game, ServerApp, State, TURN_TIMEOUT};
use crate::player::{App, Player};
use crate::rules::{
    actor, bid_is_lie, can_turn, clocked, dealt, dealt_player, heard_so_far,
    is_walk, loser, turned, turned_player, waited, waited_player,
};
use crate::text::name_seats;

verus! {

broadcast use vstd::std_specs::hash::group_hash_axioms;

/// The state of the server. `T` is the terminal of a player, which the rules
/// of the game never look at.
pub struct AppServer<T> {
    /// The connected players by their numbers, each with a terminal.
    pub clients: HashMap<usize, (T, App)>,
    /// The number of the next player.
    pub id: usize,
    /// The table.
    pub app: ServerApp,
}

/// The players of a table of clients.
pub open spec fn players_of<T>(clients: Map<usize, (T, App)>) -> Map<usize, Player> {
    clients.map_values(|client: (T, App)| client.1@)
}

/// The terminals of a table of clients.
pub open spec fn terminals_of<T>(clients: Map<usize, (T, App)>) -> Map<usize, T> {
    clients.map_values(|client: (T, App)| client.0)
}

impl<T> AppServer<T> {
    /// The connected players by their numbers.
    pub open spec fn players(self) -> Map<usize, Player> {
        players_of(self.clients@)
    }

    /// The terminals of the connected players.
    pub open spec fn terminals(self) -> Map<usize, T> {
        terminals_of(self.clients@)
    }

    /// What holds of the server between any two events.
    pub open spec fn wf(self) -> bool {
        &&& self.app@.wf()
        &&& forall|id: usize|
            #![trigger self.players()[id]]
            self.players().contains_key(id) ==> self.players()[id].wf()
    }

    /// A server without players.
    pub fn new() -> (server: Self)
        ensures
            server.players() == Map::<usize, Player>::empty(),
            server.terminals() == Map::<usize, T>::empty(),
            server.id == 0,
            server.app@ == Game::fresh(),
            server.wf(),
    {
        let server = AppServer { clients: HashMap::new(), id: 0, app: ServerApp::new() };
        proof {
            assert(server.players() =~= Map::empty());
            assert(server.terminals() =~= Map::empty());
        }
        server
    }

    /// Lists the numbers of the connected players, in no particular order.
    pub fn client_ids(&self) -> (ids: Vec<usize>)
        ensures
            is_walk(ids@, self.players().dom()),
            ids@.len() == self.players().dom().len(),
    {
        let mut ids: Vec<usize> = Vec::new();
        let walk = self.clients.keys();
        let ghost all = walk.remaining();
        for id in keys: walk
            invariant
                keys.seq() == all,
                ids@ == all.take(keys.index() as int).unref(),
        {
            ids.push(*id);
        }
        proof {
            assert(all.take(all.len() as int) =~= all);
            assert(ids@ == all.unref());
            assert(all.unref().to_set() == self.clients@.dom());
            assert forall|id: usize| #[trigger]
                ids@.contains(id) <==> self.players().dom().contains(id) by {
                assert(ids@.to_set().contains(id) == ids@.contains(id));
            }
            lemma_walk_len(ids@, self.players().dom());
        }
        ids
    }

    /// A tick of waiting. `ids` are the seats, and `order` is the order in
    /// which the players are visited.
    pub fn waiting_step(&mut self, ids: &Vec<usize>, order: &Vec<usize>)
        requires
            old(self).wf(),
            old(self).app@.state == State::Waiting,
            is_walk(order@, old(self).players().dom()),
        ensures
            final(self).wf(),
            final(self).app@ == waited(old(self).app@, ids@.len()),
            final(self).players() == waited_players(old(self).players(), ids@),
            final(self).terminals() == old(self).terminals(),
            final(self).id == old(self).id,
    {
        self.app.bid = Bid { face: 0, amount: 0 };
        self.app.timer = (self.app.timer + 1) % 3;
        if ids.len() >= 2 {
            self.app.state = State::Roll;
        }
        let mut k: usize = 0;
        while k < order.len()
            invariant
                k <= order.len(),
                is_walk(order@, old(self).players().dom()),
                self.app@ == waited(old(self).app@, ids@.len()),
                self.id == old(self).id,
                self.terminals() == old(self).terminals(),
                self.players().dom() == old(self).players().dom(),
                forall|j: int|
                    0 <= j < k ==> self.players()[#[trigger] order@[j]] == waited_player(
                        old(self).players()[order@[j]],
                        ids@,
                        order@[j],
                    ),
                forall|j: int|
                    k <= j < order@.len() ==> self.players()[#[trigger] order@[j]] == old(
                        self,
                    ).players()[order@[j]],
            decreases order.len() - k,
        {
            let id = order[k];
            let names = name_seats(ids, id, None);
            let ghost before = self.clients@;
            proof {
                assert(order@.contains(id));
                assert(before.contains_key(id));
            }
            if let Entry::Occupied(entry) = self.clients.entry(id) {
                let client = entry.into_mut();
                client.1.amount = 1;
                client.1.face = 1;
                client.1.bid = false;
                client.1.liar = false;
                client.1.names = names;
            }
            proof {
                lemma_client_changed(before, self.clients@, id);
            }
            k += 1;
        }
        proof {
            assert forall|id: usize| old(self).players().contains_key(id) implies #[trigger]
                self.players()[id] == waited_player(old(self).players()[id], ids@, id) by {
                let j = walk_position(order@, old(self).players().dom(), id);
                assert(order@[j] == id);
            }
            assert(self.players() =~= waited_players(old(self).players(), ids@));
        }
    }

    /// Throws the dice: the `k`-th player of `order` gets the `k`-th hand.
    pub fn roll_step(&mut self, order: &Vec<usize>, hands: &Vec<Vec<usize>>)
        requires
            old(self).wf(),
            old(self).app@.state == State::Roll,
            is_walk(order@, old(self).players().dom()),
            hands@.len() == order@.len(),
            pooled(hands_of(hands@)).len() <= usize::MAX,
        ensures
            final(self).wf(),
            final(self).app@ == dealt(old(self).app@, hands_of(hands@)),
            final(self).players().dom() == old(self).players().dom(),
            forall|k: int|
                0 <= k < order@.len() ==> final(self).players()[#[trigger] order@[k]]
                    == dealt_player(old(self).players()[order@[k]], hands@[k]@),
            final(self).terminals() == old(self).terminals(),
            final(self).id == old(self).id,
    {
        self.app.timer = TURN_TIMEOUT;
        if self.app.turn.is_none() {
            self.app.turn = Some(0);
        }
        self.app.totals = no_totals();
        let ghost all = hands_of(hands@);
        let mut k: usize = 0;
        proof {
            assert(all.take(0) =~= Seq::empty());
        }
        while k < order.len()
            invariant
                k <= order.len(),
                is_walk(order@, old(self).players().dom()),
                hands@.len() == order@.len(),
                all == hands_of(hands@),
                pooled(all).len() <= usize::MAX,
                self.app@ == (Game {
                    state: State::Roll,
                    ..dealt(old(self).app@, all.take(k as int))
                }),
                self.id == old(self).id,
                self.terminals() == old(self).terminals(),
                self.players().dom() == old(self).players().dom(),
                forall|j: int|
                    0 <= j < k ==> self.players()[#[trigger] order@[j]] == dealt_player(
                        old(self).players()[order@[j]],
                        hands@[j]@,
                    ),
                forall|j: int|
                    k <= j < order@.len() ==> self.players()[#[trigger] order@[j]] == old(
                        self,
                    ).players()[order@[j]],
            decreases order.len() - k,
        {
            let id = order[k];
            let hand = hands[k].clone();
            let ghost before = self.clients@;
            proof {
                assert(hand@ =~= hands@[k as int]@);
                assert(order@.contains(id));
                assert(before.contains_key(id));
                assert(all.take(k + 1).drop_last() =~= all.take(k as int));
                lemma_pooled_grows(all, k + 1);
                hand@.to_multiset_ensures();
            }
            count_hand(&mut self.app.totals, &hand, Ghost(pooled(all.take(k as int))));
            if let Entry::Occupied(entry) = self.clients.entry(id) {
                let client = entry.into_mut();
                client.1.rolls = Some(hand);
            }
            proof {
                lemma_client_changed(before, self.clients@, id);
            }
            k += 1;
        }
        self.app.state = State::Turn;
        proof {
            assert(all.take(order@.len() as int) =~= all);
            assert forall|id: usize| old(self).players().contains_key(id) implies (
            #[trigger] self.players()[id]).wf() by {
                let k = walk_position(order@, old(self).players().dom(), id);
                assert(order@[k] == id);
            }
        }
    }

    /// A tick of a turn. `ids` are the seats, and `order` is the order in
    /// which the players are visited.
    pub fn turn_step(&mut self, ids: &Vec<usize>, order: &Vec<usize>)
        requires
            old(self).wf(),
            old(self).app@.state == State::Turn,
            is_walk(order@, old(self).players().dom()),
            can_turn(old(self).app@, old(self).players(), ids@),
        ensures
            final(self).wf(),
            final(self).app@ == turned(old(self).app@, old(self).players(), ids@),
            final(self).players().dom() == old(self).players().dom(),
            forall|k: int|
                0 <= k < order@.len() ==> final(self).players()[#[trigger] order@[k]]
                    == turned_player(
                    old(self).app@,
                    old(self).players(),
                    ids@,
                    order@.take(k),
                    order@[k],
                ),
            final(self).terminals() == old(self).terminals(),
            final(self).id == old(self).id,
    {
        let ghost game = self.app@;
        let ghost players = self.players();
        self.app.run_clock(ids);
        let ghost c = self.app@;
        let ghost who = actor(c, players, ids@);
        let seat: usize = match self.app.turn {
            Some(seat) => seat,
            None => 0,
        };
        let mut out: Option<usize> = None;
        let mut lied = false;
        let mut k: usize = 0;
        while k < order.len()
            invariant
                k <= order.len(),
                is_walk(order@, players.dom()),
                c == clocked(game, ids@),
                c.turn == Some(seat),
                who == actor(c, players, ids@),
                can_turn(game, players, ids@),
                self.app@ == heard_so_far(c, players, ids@, order@.take(k as int)),
                match who {
                    Some(id) => if order@.take(k as int).contains(id) {
                        out == loser(c, players, ids@) && lied == (players[id].liar && bid_is_lie(
                            c,
                            players[id],
                        ))
                    } else {
                        out is None && !lied
                    },
                    None => out is None && !lied,
                },
                self.id == old(self).id,
                self.terminals() == old(self).terminals(),
                self.players().dom() == players.dom(),
                forall|j: int|
                    0 <= j < k ==> self.players()[#[trigger] order@[j]] == visited_player(
                        game,
                        players,
                        ids@,
                        order@.take(j),
                        order@[j],
                    ),
                forall|j: int|
                    k <= j < order@.len() ==> self.players()[#[trigger] order@[j]]
                        == players[order@[j]],
            decreases order.len() - k,
        {
            let id = order[k];
            let names = name_seats(ids, id, Some((seat, self.app.timer)));
            let acts = seat < ids.len() && ids[seat] == id;
            let ghost before = self.clients@;
            proof {
                assert(order@.contains(id));
                assert(before.contains_key(id));
                assert(acts == (who == Some(id)));
                assert(order@.take(k + 1) =~= order@.take(k as int).push(id));
                assert(!order@.take(k as int).contains(id));
                assert(forall|other: usize| #[trigger]
                    order@.take(k + 1).contains(other) <==> (order@.take(k as int).contains(other)
                        || other == id)) by {
                    assert(order@.take(k + 1)[k as int] == id);
                    assert forall|other: usize| #[trigger]
                        order@.take(k as int).contains(other) implies order@.take(k + 1).contains(
                        other,
                    ) by {
                        let i = choose|i: int| 0 <= i < k && order@.take(k as int)[i] == other;
                        assert(order@.take(k + 1)[i] == other);
                    }
                }
            }
            if let Entry::Occupied(entry) = self.clients.entry(id) {
                let client = entry.into_mut();
                if acts {
                    match self.app.hear(&client.1) {
                        Some(true) => {
                            lied = true;
                            out = Some(self.app.prev_turn_id);
                        },
                        Some(false) => {
                            client.1.can_play = false;
                            out = Some(id);
                        },
                        None => {},
                    }
                }
                client.1.names = names;
                client.1.bid = false;
                client.1.liar = false;
            }
            proof {
                lemma_client_changed(before, self.clients@, id);
            }
            k += 1;
        }
        proof {
            assert(order@.take(order@.len() as int) =~= order@);
            if let Some(id) = who {
                assert(order@.contains(id));
            }
        }
        let ghost before = self.clients@;
        if lied {
            if let Entry::Occupied(entry) = self.clients.entry(self.app.prev_turn_id) {
                let client = entry.into_mut();
                client.1.can_play = false;
            }
        }
        proof {
            let prev = self.app.prev_turn_id;
            if lied && before.contains_key(prev) {
                lemma_client_changed(before, self.clients@, prev);
            } else {
                assert(self.clients@ =~= before);
            }
        }
        if out.is_some() {
            if self.clients.len() < 2 {
                self.app.state = State::Waiting;
            }
        }
        proof {
            assert(self.players().dom() =~= self.clients@.dom());
            assert forall|k: int| 0 <= k < order@.len() implies self.players()[#[trigger] order@[k]]
                == turned_player(game, players, ids@, order@.take(k), order@[k]) by {
                assert(order@.contains(order@[k]));
            }
            assert forall|id: usize| players.contains_key(id) implies (
            #[trigger] self.players()[id]).wf() by {
                let k = walk_position(order@, players.dom(), id);
                assert(order@[k] == id);
                assert(players[id].wf());
            }
            if let Some(id) = who {
                assert(players[id].wf());
            }
        }
    }

    /// Whether a tick is defined in the present state.
    pub open spec fn tick_is_defined(self, ids: Seq<usize>) -> bool {
        match self.app@.state {
            State::Waiting => true,
            State::Roll => self.players().dom().len() * DICE <= usize::MAX,
            State::Turn => can_turn(self.app@, self.players(), ids),
        }
    }

    /// Tells whether a tick is defined in the present state.
    pub fn can_tick(&self, ids: &Vec<usize>) -> (can: bool)
        requires
            self.wf(),
        ensures
            can == self.tick_is_defined(ids@),
    {
        proof {
            assert(self.players().dom() =~= self.clients@.dom());
        }
        match self.app.state {
            State::Waiting => true,
            State::Roll => self.clients.len() <= usize::MAX / DICE,
            State::Turn => {
                let ghost c = clocked(self.app@, ids@);
                let mut seat: usize = match self.app.turn {
                    Some(seat) => seat,
                    None => 0,
                };
                let mut bid = self.app.bid;
                let mut timer: isize = self.app.timer - 1;
                if timer <= 0 {
                    if seat >= ids.len() {
                        return false;
                    }
                    timer = TURN_TIMEOUT;
                    seat = if seat + 1 >= ids.len() {
                        0
                    } else {
                        seat + 1
                    };
                    if bid.face == 0 || bid.amount == 0 {
                        bid = Bid { face: 1, amount: 1 };
                    }
                }
                if seat >= ids.len() {
                    return true;
                }
                match self.clients.get(&ids[seat]) {
                    Some(client) => {
                        let player = &client.1;
                        proof {
                            assert(actor(c, self.players(), ids@) == Some(ids@[seat as int]));
                            assert(self.players()[ids@[seat as int]] == player@);
                        }
                        let placed = player.bid && (player.face > bid.face || player.amount
                            > bid.amount);
                        if placed {
                            bid = Bid { face: player.face, amount: player.amount };
                        }
                        if player.liar {
                            self.app.totals.contains_key(&bid.face)
                        } else {
                            placed || timer > 1 || bid.amount < usize::MAX
                        }
                    },
                    None => true,
                }
            },
        }
    }

    /// Lets a second pass. `ids` are the seats. The players are visited in an
    /// order that nothing fixes, and their dice fall as they may.
    pub fn tick(&mut self, ids: &Vec<usize>)
        requires
            old(self).wf(),
            old(self).tick_is_defined(ids@),
        ensures
            final(self).wf(),
            final(self).terminals() == old(self).terminals(),
            final(self).id == old(self).id,
            match old(self).app@.state {
                State::Waiting => {
                    &&& final(self).app@ == waited(old(self).app@, ids@.len())
                    &&& final(self).players() == waited_players(old(self).players(), ids@)
                },
                State::Roll => exists|order: Seq<usize>| #[trigger]
                    roll_outcome(
                        old(self).app@,
                        old(self).players(),
                        order,
                        final(self).app@,
                        final(self).players(),
                    ),
                State::Turn => exists|order: Seq<usize>| #[trigger]
                    turn_outcome(
                        old(self).app@,
                        old(self).players(),
                        ids@,
                        order,
                        final(self).app@,
                        final(self).players(),
                    ),
            },
    {
        let order = self.client_ids();
        match self.app.state {
            State::Waiting => {
                self.waiting_step(ids, &order);
            },
            State::Roll => {
                let mut hands: Vec<Vec<usize>> = Vec::new();
                while hands.len() < order.len()
                    invariant
                        hands.len() <= order.len(),
                        forall|k: int| 0 <= k < hands.len() ==> is_hand((#[trigger] hands@[k])@),
                    decreases order.len() - hands.len(),
                {
                    hands.push(roll_dice());
                }
                proof {
                    lemma_pooled_len(hands_of(hands@));
                }
                self.roll_step(&order, &hands);
                proof {
                    let after = self.players();
                    assert(hands_of(hands@) =~= dealt_hands(after, order@));
                    assert forall|id: usize| old(self).players().contains_key(id) implies ({
                        &&& (#[trigger] after[id]).rolls matches Some(hand)
                        &&& is_hand(hand)
                        &&& after[id] == dealt_player(old(self).players()[id], hand)
                    }) by {
                        let k = walk_position(order@, old(self).players().dom(), id);
                        assert(order@[k] == id);
                        assert(is_hand(hands@[k]@));
                    }
                    assert(roll_outcome(
                        old(self).app@,
                        old(self).players(),
                        order@,
                        self.app@,
                        after,
                    ));
                }
            },
            State::Turn => {
                self.turn_step(ids, &order);
                proof {
                    assert(turn_outcome(
                        old(self).app@,
                        old(self).players(),
                        ids@,
                        order@,
                        self.app@,
                        self.players(),
                    ));
                }
            },
        }
    }
}

/// All players after a tick of waiting.
pub open spec fn waited_players(players: Map<usize, Player>, ids: Seq<usize>) -> Map<
    usize,
    Player,
> {
    Map::new(
        |id: usize| players.contains_key(id),
        |id: usize| waited_player(players[id], ids, id),
    )
}

/// The hands that the players hold, in the given order.
pub open spec fn dealt_hands(players: Map<usize, Player>, order: Seq<usize>) -> Seq<Seq<usize>> {
    order.map_values(|id: usize| players[id].rolls->0)
}

/// What throwing the dice may lead to: every player holds a new hand, all
/// hands are counted, and nothing else changes for the players.
pub open spec fn roll_outcome(
    game: Game,
    players: Map<usize, Player>,
    order: Seq<usize>,
    game_after: Game,
    players_after: Map<usize, Player>,
) -> bool {
    &&& is_walk(order, players.dom())
    &&& game_after == dealt(game, dealt_hands(players_after, order))
    &&& players_after.dom() == players.dom()
    &&& forall|id: usize|
        #![trigger players_after[id]]
        players.contains_key(id) ==> {
            &&& players_after[id].rolls matches Some(hand)
            &&& is_hand(hand)
            &&& players_after[id] == dealt_player(players[id], hand)
        }
}

/// What a tick of a turn leads to if the players are visited in the given
/// order.
pub open spec fn turn_outcome(
    game: Game,
    players: Map<usize, Player>,
    ids: Seq<usize>,
    order: Seq<usize>,
    game_after: Game,
    players_after: Map<usize, Player>,
) -> bool {
    &&& is_walk(order, players.dom())
    &&& game_after == turned(game, players, ids)
    &&& players_after.dom() == players.dom()
    &&& forall|k: int|
        0 <= k < order.len() ==> players_after[#[trigger] order[k]] == turned_player(
            game,
            players,
            ids,
            order.take(k),
            order[k],
        )
}

/// A player who was visited in a tick of a turn, before the one who lied is
/// put out of the game.
spec fn visited_player(
    game: Game,
    players: Map<usize, Player>,
    ids: Seq<usize>,
    before: Seq<usize>,
    id: usize,
) -> Player {
    let c = clocked(game, ids);
    Player {
        can_play: players[id].can_play && !(actor(c, players, ids) == Some(id) && players[id].liar
            && !bid_is_lie(c, players[id])),
        ..turned_player(game, players, ids, before, id)
    }
}

/// The dice of each hand.
pub open spec fn hands_of(hands: Seq<Vec<usize>>) -> Seq<Seq<usize>> {
    hands.map_values(|hand: Vec<usize>| hand@)
}

/// Some of the hands hold no more dice than all of them.
proof fn lemma_pooled_grows(hands: Seq<Seq<usize>>, n: int)
    requires
        0 <= n <= hands.len(),
    ensures
        pooled(hands.take(n)).len() <= pooled(hands).len(),
    decreases hands.len(),
{
    if n < hands.len() {
        lemma_pooled_grows(hands.drop_last(), n);
        assert(hands.drop_last().take(n) =~= hands.take(n));
    } else {
        assert(hands.take(n) =~= hands);
    }
}

/// Hands of the usual size hold that many dice each.
proof fn lemma_pooled_len(hands: Seq<Seq<usize>>)
    requires
        forall|k: int| 0 <= k < hands.len() ==> is_hand(#[trigger] hands[k]),
    ensures
        pooled(hands).len() == hands.len() * DICE,
    decreases hands.len(),
{
    if hands.len() > 0 {
        let fewer = hands.drop_last();
        assert forall|k: int| 0 <= k < fewer.len() implies is_hand(#[trigger] fewer[k]) by {
            assert(is_hand(hands[k]));
        }
        lemma_pooled_len(fewer);
        assert(is_hand(hands[hands.len() - 1]));
        hands.last().to_multiset_ensures();
    }
}

/// An order of all members is as long as there are members.
proof fn lemma_walk_len(order: Seq<usize>, members: Set<usize>)
    requires
        is_walk(order, members),
    ensures
        order.len() == members.len(),
{
    order.unique_seq_to_set();
    assert(order.to_set() =~= members);
}

/// Where a member comes in an order of all members.
proof fn walk_position(order: Seq<usize>, members: Set<usize>, id: usize) -> (k: int)
    requires
        is_walk(order, members),
        members.contains(id),
    ensures
        0 <= k < order.len(),
        order[k] == id,
{
    assert(order.contains(id));
    choose|k: int| 0 <= k < order.len() && order[k] == id
}

/// What the change of one client's player does to the tables of players and
/// of terminals.
pub(crate) proof fn lemma_client_changed<T>(
    before: Map<usize, (T, App)>,
    after: Map<usize, (T, App)>,
    id: usize,
)
    requires
        before.contains_key(id),
        after == before.insert(id, after[id]),
        after[id].0 == before[id].0,
    ensures
        players_of(after) == players_of(before).insert(id, after[id].1@),
        terminals_of(after) == terminals_of(before),
        players_of(after).dom() == players_of(before).dom(),
        players_of(after)[id] == after[id].1@,
        players_of(before)[id] == before[id].1@,
{
    assert(players_of(after) =~= players_of(before).insert(id, after[id].1@));
    assert(terminals_of(after) =~= terminals_of(before));
    assert(players_of(after).dom() =~= players_of(before).dom());
}

} // verus!
