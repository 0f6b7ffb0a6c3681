use liars_dice::keys::{read_key, Key};
use liars_dice::player::App;
use liars_dice::server::AppServer;

fn server() -> AppServer<char> {
    let mut server: AppServer<char> = AppServer::new();
    for _ in 0..2 {
        let id = server.new_client();
        server.channel_open_session(id, 't');
    }
    server
}

#[test]
fn letters_and_arrows() {
    assert_eq!(read_key(b"q"), Key::Quit);
    assert_eq!(read_key(b"k"), Key::MoreDice);
    assert_eq!(read_key(&[27, 91, 65]), Key::MoreDice);
    assert_eq!(read_key(b"j"), Key::FewerDice);
    assert_eq!(read_key(&[27, 91, 66]), Key::FewerDice);
    assert_eq!(read_key(b"h"), Key::LowerFace);
    assert_eq!(read_key(&[27, 91, 68]), Key::LowerFace);
    assert_eq!(read_key(b"l"), Key::HigherFace);
    assert_eq!(read_key(&[27, 91, 67]), Key::HigherFace);
    assert_eq!(read_key(b" "), Key::CallLiar);
    assert_eq!(read_key(b"\r"), Key::PlaceBid);
}

#[test]
fn other_bytes_are_no_keys() {
    for data in [
        &b""[..],
        b"x",
        b"Q",
        b"qq",
        b"\n",
        &[27],
        &[27, 91],
        &[27, 91, 69],
        &[27, 90, 65],
        &[26, 91, 65],
        &[27, 91, 65, 65],
    ] {
        assert_eq!(read_key(data), Key::Other);
    }
}

#[test]
fn the_amount_stays_above_zero() {
    let mut app = App::new();
    app.press(Key::FewerDice);
    assert_eq!(app.amount, 1);
    app.press(Key::MoreDice);
    app.press(Key::MoreDice);
    assert_eq!(app.amount, 3);
    app.press(Key::FewerDice);
    assert_eq!(app.amount, 2);
}

#[test]
fn the_face_stays_on_the_die() {
    let mut app = App::new();
    app.press(Key::LowerFace);
    assert_eq!(app.face, 1);
    for _ in 0..9 {
        app.press(Key::HigherFace);
    }
    assert_eq!(app.face, 6);
    app.press(Key::LowerFace);
    assert_eq!(app.face, 5);
}

#[test]
fn keys_that_undo_each_other() {
    let mut app = App::new();
    app.amount = 4;
    app.face = 3;
    for (there, back) in [
        (Key::MoreDice, Key::FewerDice),
        (Key::FewerDice, Key::MoreDice),
        (Key::HigherFace, Key::LowerFace),
        (Key::LowerFace, Key::HigherFace),
    ] {
        app.press(there);
        app.press(back);
        assert_eq!((app.amount, app.face), (4, 3));
    }
}

#[test]
fn any_keys_leave_a_sound_bid() {
    let mut app = App::new();
    app.rolls = Some(vec![1, 2, 3, 4, 5, 6]);
    for key in [
        Key::LowerFace,
        Key::FewerDice,
        Key::Other,
        Key::HigherFace,
        Key::MoreDice,
        Key::CallLiar,
        Key::PlaceBid,
        Key::Quit,
    ] {
        app.press(key);
        assert!(1 <= app.face && app.face <= 6 && 1 <= app.amount);
    }
    assert!(app.liar && app.bid && app.can_play);
    assert_eq!(app.rolls, Some(vec![1, 2, 3, 4, 5, 6]));
}

#[test]
fn keys_change_only_the_own_player() {
    let mut s = server();
    assert!(!s.data(1, b"k"));
    assert!(!s.data(1, b"l"));
    assert!(!s.data(1, b" "));
    assert!(!s.data(1, b"\r"));
    assert!(!s.data(1, b"?"));
    let one = &s.clients[&1].1;
    assert_eq!((one.amount, one.face, one.liar, one.bid), (2, 2, true, true));
    let zero = &s.clients[&0].1;
    assert_eq!((zero.amount, zero.face, zero.liar, zero.bid), (1, 1, false, false));
}

#[test]
fn quitting_removes_the_player() {
    let mut s = server();
    assert!(s.data(0, b"q"));
    assert!(!s.clients.contains_key(&0));
    assert!(s.clients.contains_key(&1));
    assert!(s.data(0, b"q"));
    assert_eq!(s.clients.len(), 1);
}

#[test]
fn a_player_who_is_out_is_closed_at_the_next_key() {
    for data in [&b"k"[..], b"j", b"h", b"l", b" ", b"\r", b"?", b"q"] {
        let mut s = server();
        s.clients.get_mut(&1).unwrap().1.can_play = false;
        assert!(s.data(1, data));
        assert!(!s.clients.contains_key(&1));
    }
}

#[test]
fn keys_need_a_player() {
    let mut s = server();
    assert!(s.can_take(1, b"k"));
    assert!(!s.can_take(7, b"k"));
    assert!(!s.can_take(7, b"?"));
    assert!(s.can_take(7, b"q"));
    s.clients.get_mut(&1).unwrap().1.amount = usize::MAX;
    assert!(!s.can_take(1, b"k"));
    assert!(s.can_take(1, b"j"));
}

#[test]
fn numbers_are_never_given_twice() {
    let mut s = server();
    s.disconnect(0);
    s.disconnect(1);
    assert_eq!(s.new_client(), 2);
    assert_eq!(s.new_client(), 3);
}

#[test]
fn opening_again_starts_afresh() {
    let mut s = server();
    s.data(1, b"k");
    s.channel_open_session(1, 'u');
    assert_eq!(s.clients[&1].0, 'u');
    assert_eq!(s.clients[&1].1.amount, 1);
    assert_eq!(s.clients.len(), 2);
}
