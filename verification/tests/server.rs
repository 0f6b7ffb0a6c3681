use liars_dice::game::{Bid, State};
use liars_dice::server::AppServer;

fn server(players: usize) -> AppServer<char> {
    let mut server: AppServer<char> = AppServer::new();
    for k in 0..players {
        let id = server.new_client();
        assert_eq!(id, k);
        server.channel_open_session(id, 't');
    }
    server
}

fn hands() -> Vec<Vec<usize>> {
    vec![
        vec![1, 1, 2, 3, 3, 6],
        vec![3, 3, 3, 4, 5, 5],
        vec![5, 6, 6, 6, 1, 2],
    ]
}

/// Three players in the first second of a turn, with the hands above.
fn in_turn() -> AppServer<char> {
    let mut s = server(3);
    let ids = vec![0, 1, 2];
    s.waiting_step(&ids, &ids);
    s.roll_step(&ids, &hands());
    s
}

#[test]
fn a_new_server_is_empty() {
    let s: AppServer<char> = AppServer::new();
    assert!(s.clients.is_empty());
    assert_eq!(s.id, 0);
    assert_eq!(s.app.state, State::Waiting);
}

#[test]
fn the_ids_are_those_of_the_clients() {
    let mut s = server(5);
    s.disconnect(3);
    let mut ids = s.client_ids();
    ids.sort();
    assert_eq!(ids, vec![0, 1, 2, 4]);
}

#[test]
fn one_player_waits() {
    let mut s = server(1);
    for timer in [1, 2, 0, 1] {
        s.tick(&vec![0]);
        assert_eq!(s.app.state, State::Waiting);
        assert_eq!(s.app.timer, timer);
        assert_eq!(s.clients[&0].1.names, vec!["player 1 (you)"]);
    }
}

#[test]
fn two_players_start() {
    let mut s = server(2);
    s.clients.get_mut(&1).unwrap().1.amount = 5;
    s.clients.get_mut(&1).unwrap().1.face = 4;
    s.clients.get_mut(&1).unwrap().1.bid = true;
    s.clients.get_mut(&1).unwrap().1.liar = true;
    s.app.bid = Bid { face: 2, amount: 2 };
    s.tick(&vec![1, 0]);
    assert_eq!(s.app.state, State::Roll);
    assert_eq!(s.app.bid, Bid { face: 0, amount: 0 });
    assert_eq!(s.clients[&0].1.names, vec!["player 1", "player 2 (you)"]);
    assert_eq!(s.clients[&1].1.names, vec!["player 1 (you)", "player 2"]);
    let one = &s.clients[&1].1;
    assert_eq!((one.amount, one.face, one.bid, one.liar), (1, 1, false, false));
}

#[test]
fn the_dice_are_counted() {
    let s = in_turn();
    assert_eq!(s.app.state, State::Turn);
    assert_eq!(s.app.timer, 60);
    assert_eq!(s.app.turn, Some(0));
    let counts: Vec<usize> = (1..=6).map(|face| s.app.totals[&face]).collect();
    assert_eq!(counts, vec![3, 2, 5, 1, 3, 4]);
    assert_eq!(counts.iter().sum::<usize>(), 18);
    assert_eq!(s.app.totals.len(), 6);
    for id in 0..3 {
        assert_eq!(s.clients[&id].1.rolls, Some(hands()[id].clone()));
    }
}

#[test]
fn the_dice_are_counted_in_any_order() {
    let mut s = server(3);
    let ids = vec![0, 1, 2];
    s.waiting_step(&ids, &vec![2, 0, 1]);
    let h = hands();
    s.roll_step(&vec![2, 0, 1], &vec![h[2].clone(), h[0].clone(), h[1].clone()]);
    assert_eq!(s.app.totals, in_turn().app.totals);
    assert_eq!(s.clients[&2].1.rolls, Some(h[2].clone()));
}

#[test]
fn faces_beyond_a_die_are_counted_too() {
    let mut s = server(2);
    let ids = vec![0, 1];
    s.waiting_step(&ids, &ids);
    s.roll_step(&ids, &vec![vec![9, 9], vec![9]]);
    assert_eq!(s.app.totals[&9], 3);
    assert_eq!(s.app.totals.len(), 7);
}

#[test]
fn a_seat_keeps_its_turn_for_new_dice() {
    let mut s = in_turn();
    s.app.state = State::Roll;
    s.app.turn = Some(2);
    s.app.bid = Bid { face: 3, amount: 1 };
    s.roll_step(&vec![0, 1, 2], &hands());
    assert_eq!(s.app.turn, Some(2));
    assert_eq!(s.app.bid, Bid { face: 3, amount: 1 });
}

#[test]
fn a_tick_throws_everybodys_dice() {
    let mut s = server(4);
    let ids = s.client_ids();
    s.tick(&ids);
    assert_eq!(s.app.state, State::Roll);
    s.tick(&ids);
    assert_eq!(s.app.state, State::Turn);
    let mut counts = [0usize; 7];
    for (_, (_, app)) in s.clients.iter() {
        let rolls = app.rolls.clone().unwrap();
        assert_eq!(rolls.len(), 6);
        for die in rolls {
            counts[die] += 1;
        }
    }
    for face in 1..=6 {
        assert_eq!(s.app.totals[&face], counts[face]);
    }
}

#[test]
fn everybody_sees_whose_turn_it_is() {
    let mut s = in_turn();
    s.turn_step(&vec![0, 1, 2], &vec![1, 0, 2]);
    assert_eq!(s.app.timer, 59);
    assert_eq!(
        s.clients[&0].1.names,
        vec!["player 1 (you) (59)", "player 2", "player 3"]
    );
    assert_eq!(
        s.clients[&1].1.names,
        vec!["player 1 (59)", "player 2 (you)", "player 3"]
    );
}

#[test]
fn a_bid_ends_the_turn() {
    let mut s = in_turn();
    let ids = vec![0, 1, 2];
    s.clients.get_mut(&0).unwrap().1.face = 3;
    s.clients.get_mut(&0).unwrap().1.amount = 2;
    s.clients.get_mut(&0).unwrap().1.bid = true;
    s.clients.get_mut(&1).unwrap().1.bid = true;
    s.turn_step(&ids, &vec![1, 0, 2]);
    assert_eq!(s.app.bid, Bid { face: 3, amount: 2 });
    assert_eq!(s.app.timer, 1);
    assert_eq!(s.app.state, State::Turn);
    // Those who are visited after the bidder see the shortened clock.
    assert_eq!(s.clients[&1].1.names[0], "player 1 (59)");
    assert_eq!(s.clients[&0].1.names[0], "player 1 (you) (59)");
    assert_eq!(s.clients[&2].1.names[0], "player 1 (1)");
    for id in 0..3 {
        assert!(!s.clients[&id].1.bid && !s.clients[&id].1.liar && s.clients[&id].1.can_play);
    }
    s.turn_step(&ids, &ids);
    assert_eq!(s.app.turn, Some(1));
    assert_eq!(s.app.prev_turn_id, 0);
    assert_eq!(s.app.timer, 60);
    assert_eq!(s.app.bid, Bid { face: 3, amount: 2 });
}

#[test]
fn a_liar_is_out() {
    let mut s = in_turn();
    s.app.turn = Some(1);
    s.app.prev_turn_id = 0;
    s.app.bid = Bid { face: 4, amount: 2 };
    s.clients.get_mut(&1).unwrap().1.liar = true;
    s.turn_step(&vec![0, 1, 2], &vec![0, 1, 2]);
    assert_eq!(s.app.state, State::Roll);
    assert_eq!(s.app.timer, 1);
    assert!(!s.clients[&0].1.can_play);
    assert!(s.clients[&1].1.can_play && s.clients[&2].1.can_play);
    assert_eq!(s.clients.len(), 3);
}

#[test]
fn a_wrong_caller_is_out() {
    let mut s = in_turn();
    s.app.turn = Some(1);
    s.app.prev_turn_id = 0;
    s.app.bid = Bid { face: 4, amount: 1 };
    s.clients.get_mut(&1).unwrap().1.liar = true;
    s.turn_step(&vec![0, 1, 2], &vec![0, 1, 2]);
    assert_eq!(s.app.state, State::Roll);
    assert!(!s.clients[&1].1.can_play);
    assert!(s.clients[&0].1.can_play && s.clients[&2].1.can_play);
}

#[test]
fn the_verdict_does_not_rest_on_the_order() {
    for order in [vec![0, 1, 2], vec![2, 1, 0], vec![1, 2, 0]] {
        let mut s = in_turn();
        s.app.turn = Some(2);
        s.app.prev_turn_id = 1;
        s.app.bid = Bid { face: 6, amount: 5 };
        s.clients.get_mut(&2).unwrap().1.liar = true;
        s.turn_step(&vec![0, 1, 2], &order);
        assert_eq!(s.app.state, State::Roll);
        assert_eq!(s.app.bid, Bid { face: 6, amount: 5 });
        let playing: Vec<bool> = (0..3).map(|id| s.clients[&id].1.can_play).collect();
        assert_eq!(playing, vec![true, false, true]);
    }
}

#[test]
fn a_call_with_one_player_left_waits() {
    let mut s = in_turn();
    s.disconnect(1);
    s.disconnect(2);
    s.app.bid = Bid { face: 3, amount: 1 };
    s.clients.get_mut(&0).unwrap().1.liar = true;
    s.turn_step(&vec![0, 1, 2], &vec![0]);
    assert_eq!(s.app.state, State::Waiting);
    assert!(!s.clients[&0].1.can_play);
}

#[test]
fn a_turn_without_seats_waits() {
    let mut s = in_turn();
    s.turn_step(&vec![], &vec![0, 1, 2]);
    assert_eq!(s.app.state, State::Waiting);
    assert_eq!(s.app.timer, 59);
    assert!(s.clients[&0].1.names.is_empty());
}

#[test]
fn an_idle_turn_lasts_a_minute() {
    let mut s = in_turn();
    let ids = vec![0, 1, 2];
    s.app.bid = Bid { face: 2, amount: 4 };
    for tick in 1..=58 {
        s.tick(&ids);
        assert_eq!(s.app.timer, 60 - tick);
        assert_eq!(s.app.turn, Some(0));
        assert_eq!(s.app.bid, Bid { face: 2, amount: 4 });
    }
    s.tick(&ids);
    assert_eq!(s.app.timer, 1);
    assert_eq!(s.app.bid, Bid { face: 2, amount: 5 });
    s.tick(&ids);
    assert_eq!(s.app.timer, 60);
    assert_eq!(s.app.turn, Some(1));
    assert_eq!(s.app.prev_turn_id, 0);
    assert_eq!(s.app.bid, Bid { face: 2, amount: 5 });
}

#[test]
fn the_first_idle_turn_opens_with_one_one() {
    let mut s = in_turn();
    let ids = vec![0, 1, 2];
    for _ in 0..60 {
        s.tick(&ids);
    }
    assert_eq!(s.app.turn, Some(1));
    assert_eq!(s.app.bid, Bid { face: 1, amount: 1 });
}

#[test]
fn the_turns_go_round() {
    let mut s = in_turn();
    let ids = vec![0, 1, 2];
    let mut seats = vec![];
    for _ in 0..6 {
        s.app.timer = 1;
        s.tick(&ids);
        seats.push(s.app.turn.unwrap());
    }
    assert_eq!(seats, vec![1, 2, 0, 1, 2, 0]);
}

#[test]
fn calling_before_any_bid_is_not_defined() {
    let mut s = in_turn();
    let ids = vec![0, 1, 2];
    assert!(s.can_tick(&ids));
    s.clients.get_mut(&0).unwrap().1.liar = true;
    assert!(!s.can_tick(&ids));
    s.clients.get_mut(&0).unwrap().1.bid = true;
    assert!(s.can_tick(&ids));
    s.clients.get_mut(&0).unwrap().1.bid = false;
    s.app.bid = Bid { face: 1, amount: 1 };
    assert!(s.can_tick(&ids));
}

#[test]
fn a_turn_of_an_empty_seat_cannot_run_out() {
    let mut s = in_turn();
    s.app.turn = Some(2);
    assert!(s.can_tick(&vec![0, 1]));
    s.app.timer = 1;
    assert!(!s.can_tick(&vec![0, 1]));
    assert!(s.can_tick(&vec![0, 1, 2]));
}

#[test]
fn a_bid_cannot_grow_beyond_the_largest_number() {
    let mut s = in_turn();
    let ids = vec![0, 1, 2];
    s.app.bid = Bid { face: 6, amount: usize::MAX };
    assert!(s.can_tick(&ids));
    s.app.timer = 2;
    assert!(!s.can_tick(&ids));
}

#[test]
fn waiting_and_rolling_are_always_defined() {
    let mut s = server(2);
    assert!(s.can_tick(&vec![]));
    s.app.state = State::Roll;
    assert!(s.can_tick(&vec![]));
}

#[test]
fn terminals_are_never_touched() {
    let mut s: AppServer<String> = AppServer::new();
    for name in ["a", "b"] {
        let id = s.new_client();
        s.channel_open_session(id, name.to_string());
    }
    let ids = s.client_ids();
    for _ in 0..10 {
        s.tick(&ids);
    }
    assert_eq!(s.clients[&0].0, "a");
    assert_eq!(s.clients[&1].0, "b");
}

#[test]
fn the_counts_stand_until_the_next_throw() {
    let mut s = in_turn();
    let ids = vec![0, 1, 2];
    let counts = s.app.totals.clone();
    for _ in 0..70 {
        s.tick(&ids);
        assert_eq!(s.app.totals, counts);
    }
    s.app.state = State::Waiting;
    s.tick(&vec![0]);
    assert_eq!(s.app.totals, counts);
}

#[test]
fn a_standing_bid_makes_every_call_defined() {
    let mut s = in_turn();
    let ids = vec![0, 1, 2];
    s.app.bid = Bid { face: 6, amount: 1 };
    for id in 0..3 {
        s.clients.get_mut(&id).unwrap().1.liar = true;
    }
    for (seat, timer) in [(0, 1), (1, 2), (2, 60)] {
        s.app.turn = Some(seat);
        s.app.timer = timer;
        assert!(s.can_tick(&ids));
    }
}
