use liars_dice::game::{Bid, ServerApp, State};
use liars_dice::player::App;
use liars_dice::screen::{
    divide, draw_screen, instructions, turn_text, waiting_text, window_area, Area, Draw, Item,
    Side,
};

fn area(x: u16, y: u16, width: u16, height: u16) -> Area {
    Area { x, y, width, height }
}

#[test]
fn a_common_terminal() {
    let parts = divide(80, 24);
    assert_eq!(parts.players, area(0, 0, 80, 6));
    assert_eq!(parts.table, area(0, 6, 80, 18));
    assert_eq!(parts.left, area(1, 7, 52, 16));
    assert_eq!(parts.right, area(53, 7, 26, 16));
}

#[test]
fn the_left_panel_takes_two_thirds() {
    for width in 2..400u16 {
        let parts = divide(width, 30);
        let inner = (width - 2) as u32;
        let left = ((inner * 67 + 50) / 100) as u16;
        assert_eq!(parts.left, area(1, 7, left, 22));
        assert_eq!(parts.right, area(1 + left, 7, width - 2 - left, 22));
    }
}

#[test]
fn the_widest_terminal() {
    let parts = divide(65535, 65535);
    assert_eq!(parts.table, area(0, 6, 65535, 65529));
    assert_eq!(parts.left, area(1, 7, 43907, 65527));
    assert_eq!(parts.right, area(43908, 7, 21626, 65527));
}

#[test]
fn no_room_for_the_panels() {
    for (width, height) in [(1, 30), (0, 6), (80, 7), (80, 6)] {
        let parts = divide(width, height);
        assert_eq!(parts.table, area(0, 6, width, height - 6));
        assert_eq!(parts.left, area(0, 0, 0, 0));
        assert_eq!(parts.right, area(0, 0, 0, 0));
    }
}

#[test]
fn windows_are_cut_to_sixteen_bits() {
    assert_eq!(window_area(80, 24), area(0, 0, 80, 24));
    assert_eq!(window_area(65536, 65537), area(0, 0, 0, 1));
    assert_eq!(window_area(u32::MAX, 0), area(0, 0, 65535, 0));
}

#[test]
fn the_help() {
    assert_eq!(
        instructions(),
        "- instructions -\nincrease amount: up, k\nincrease face: right, l\n\
         decrease amount: up, j\ndecrease face: left, h\nplace bid: enter\n\
         call liar: space\nquit: q\n\n- valid bid -\nvalue is bigger than previously\n\
         or\nface is bigger than previously"
    );
}

#[test]
fn the_dots_move() {
    let mut app = ServerApp::new();
    for (timer, text) in [
        (0, "Waiting for players.  "),
        (1, "Waiting for players.. "),
        (2, "Waiting for players..."),
        (59, "Waiting for players   "),
    ] {
        app.timer = timer;
        assert_eq!(waiting_text(&app), text);
    }
}

#[test]
fn the_text_of_a_turn() {
    let mut app = ServerApp::new();
    app.bid = Bid { face: 5, amount: 12 };
    let mut player = App::new();
    player.amount = 13;
    player.face = 2;
    assert_eq!(
        turn_text(&app, &player),
        "Your rolls: \nPrevious bid 12 x 5\n\n\nAmount: 13\n\nFace: 2"
    );
    player.rolls = Some(vec![1, 6, 3]);
    assert_eq!(
        turn_text(&app, &player),
        "Your rolls: 1 6 3\nPrevious bid 12 x 5\n\n\nAmount: 13\n\nFace: 2"
    );
}

fn text(area: Area, body: &str, side: Side, title: &str) -> Draw {
    Draw { area, item: Item::Text { body: body.to_string(), side, title: title.to_string() } }
}

#[test]
fn the_screen_of_a_turn() {
    let mut app = ServerApp::new();
    app.state = State::Turn;
    app.turn = Some(0);
    app.timer = 60;
    let mut player = App::new();
    player.names = vec!["player 1 (you)".to_string(), "player 2".to_string()];
    let draws = draw_screen(&app, &player, 80, 24);
    assert_eq!(
        draws,
        vec![
            Draw { area: area(0, 0, 80, 6), item: Item::Clear },
            text(area(0, 0, 80, 6), "player 1 (you)\nplayer 2", Side::Left, "[ Players ]"),
            Draw { area: area(0, 6, 80, 18), item: Item::Clear },
            text(area(0, 6, 80, 18), "test", Side::Left, "[ Liar's Dice ]"),
            text(
                area(1, 7, 52, 16),
                "Your rolls: \nPrevious bid 0 x 0\n\n\nAmount: 1\n\nFace: 1",
                Side::Center,
                "[ Game ]"
            ),
            text(area(53, 7, 26, 16), &instructions(), Side::Center, "[ Game ]"),
            Draw {
                area: area(53, 7, 26, 16),
                item: Item::Frame { title: "[ Feed ]".to_string() }
            },
        ]
    );
}

#[test]
fn the_screen_while_waiting() {
    let app = ServerApp::new();
    let draws = draw_screen(&app, &App::new(), 80, 24);
    assert_eq!(draws.len(), 7);
    assert_eq!(
        draws[4],
        text(area(1, 7, 52, 16), "Waiting for players.  ", Side::Center, "[ Game ]")
    );
}

#[test]
fn nothing_is_drawn_while_rolling() {
    let mut app = ServerApp::new();
    app.state = State::Roll;
    assert!(draw_screen(&app, &App::new(), 80, 24).is_empty());
    assert!(draw_screen(&app, &App::new(), 0, 0).is_empty());
}
