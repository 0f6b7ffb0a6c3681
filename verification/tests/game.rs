use liars_dice::dice::roll_dice;
use liars_dice::game::{no_totals, Bid, ServerApp, State, TURN_TIMEOUT};
use liars_dice::player::App;

fn table() -> ServerApp {
    let mut app = ServerApp::new();
    app.state = State::Turn;
    app.turn = Some(0);
    app.timer = 30;
    for (face, count) in [(1, 2), (2, 0), (3, 5), (4, 1), (5, 3), (6, 1)] {
        app.totals.insert(face, count);
    }
    app
}

fn player(face: usize, amount: usize, bid: bool, liar: bool) -> App {
    let mut app = App::new();
    app.face = face;
    app.amount = amount;
    app.bid = bid;
    app.liar = liar;
    app
}

#[test]
fn a_new_player() {
    let app = App::new();
    assert_eq!(app.rolls, None);
    assert!(app.names.is_empty());
    assert_eq!((app.amount, app.face), (1, 1));
    assert!(!app.liar && !app.bid && app.can_play);
}

#[test]
fn a_new_table() {
    let app = ServerApp::new();
    assert_eq!(app.timer, 0);
    assert_eq!(app.turn, None);
    assert_eq!(app.state, State::Waiting);
    assert_eq!(app.bid, Bid { face: 0, amount: 0 });
    assert_eq!(app.prev_turn_id, 0);
    assert_eq!(app.totals, no_totals());
    assert_eq!(app.totals.len(), 6);
    for face in 1..=6 {
        assert_eq!(app.totals[&face], 0);
    }
}

#[test]
fn a_bid_shows_amount_then_face() {
    assert_eq!(Bid { face: 6, amount: 12 }.text(), "12 x 6");
    assert_eq!(Bid { face: 0, amount: 0 }.text(), "0 x 0");
}

#[test]
fn a_hand_is_six_dice() {
    let mut seen = [0usize; 7];
    for _ in 0..500 {
        let hand = roll_dice();
        assert_eq!(hand.len(), 6);
        for die in hand {
            assert!(1 <= die && die <= 6);
            seen[die] += 1;
        }
    }
    for face in 1..=6 {
        assert!(seen[face] > 0);
    }
}

#[test]
fn the_clock_counts_down() {
    let mut app = table();
    app.run_clock(&vec![7, 8, 9]);
    assert_eq!(app.timer, 29);
    assert_eq!(app.turn, Some(0));
    assert_eq!(app.state, State::Turn);
    assert_eq!(app.bid, Bid { face: 0, amount: 0 });
}

#[test]
fn the_turn_passes_when_the_time_is_up() {
    let mut app = table();
    app.timer = 1;
    app.run_clock(&vec![7, 8, 9]);
    assert_eq!(app.timer, TURN_TIMEOUT);
    assert_eq!(app.turn, Some(1));
    assert_eq!(app.prev_turn_id, 7);
    assert_eq!(app.bid, Bid { face: 1, amount: 1 });
}

#[test]
fn the_first_seat_follows_the_last() {
    let mut app = table();
    app.timer = 1;
    app.turn = Some(2);
    app.bid = Bid { face: 3, amount: 2 };
    app.run_clock(&vec![7, 8, 9]);
    assert_eq!(app.turn, Some(0));
    assert_eq!(app.prev_turn_id, 9);
    assert_eq!(app.bid, Bid { face: 3, amount: 2 });
}

#[test]
fn a_lone_seat_stops_the_turn() {
    let mut app = table();
    app.run_clock(&vec![7]);
    assert_eq!(app.state, State::Waiting);
    assert_eq!(app.timer, 29);
}

#[test]
fn a_bigger_amount_is_a_valid_bid() {
    let mut app = table();
    app.bid = Bid { face: 4, amount: 3 };
    assert_eq!(app.hear(&player(2, 4, true, false)), None);
    assert_eq!(app.bid, Bid { face: 2, amount: 4 });
    assert_eq!(app.timer, 1);
    assert_eq!(app.state, State::Turn);
}

#[test]
fn a_bigger_face_is_a_valid_bid() {
    let mut app = table();
    app.bid = Bid { face: 4, amount: 3 };
    assert_eq!(app.hear(&player(5, 1, true, false)), None);
    assert_eq!(app.bid, Bid { face: 5, amount: 1 });
    assert_eq!(app.timer, 1);
}

#[test]
fn a_bid_that_is_no_bigger_is_ignored() {
    let mut app = table();
    app.bid = Bid { face: 4, amount: 3 };
    assert_eq!(app.hear(&player(4, 3, true, false)), None);
    assert_eq!(app.bid, Bid { face: 4, amount: 3 });
    assert_eq!(app.timer, 30);
}

#[test]
fn an_unplaced_bid_is_ignored() {
    let mut app = table();
    assert_eq!(app.hear(&player(6, 9, false, false)), None);
    assert_eq!(app.bid, Bid { face: 0, amount: 0 });
    assert_eq!(app.timer, 30);
}

#[test]
fn the_last_second_raises_the_bid() {
    let mut app = table();
    app.timer = 1;
    app.bid = Bid { face: 4, amount: 3 };
    assert_eq!(app.hear(&player(1, 1, true, false)), None);
    assert_eq!(app.bid, Bid { face: 4, amount: 4 });
    assert_eq!(app.timer, 1);
}

#[test]
fn a_lie_is_called() {
    let mut app = table();
    app.bid = Bid { face: 3, amount: 6 };
    assert_eq!(app.hear(&player(1, 1, false, true)), Some(true));
    assert_eq!(app.state, State::Roll);
    assert_eq!(app.timer, 1);
    assert_eq!(app.bid, Bid { face: 3, amount: 6 });
}

#[test]
fn a_true_bid_is_called_a_lie() {
    let mut app = table();
    app.bid = Bid { face: 3, amount: 5 };
    assert_eq!(app.hear(&player(1, 1, false, true)), Some(false));
    assert_eq!(app.state, State::Roll);
    assert_eq!(app.timer, 1);
}

#[test]
fn a_player_may_bid_and_call_at_once() {
    let mut app = table();
    app.bid = Bid { face: 3, amount: 5 };
    assert_eq!(app.hear(&player(2, 6, true, true)), Some(true));
    assert_eq!(app.bid, Bid { face: 2, amount: 6 });
}
