//! What a player sees: which texts stand in which parts of the terminal.

use ratatui::layout::{Constraint, Direction, Layout, Margin, Rect};
use vstd::prelude::*;

use crate::game::{Game, ServerApp, State};
use crate::player::{App, Player};
use crate::text::{chars_of, decimal, decimal_text, decimal_texts, decimals, join, joined};

verus! {

/// The rows that the list of players takes.
pub const PLAYERS_HEIGHT: u16 = 6;

/// The columns of the left panel, in percent.
pub const LEFT_PERCENT: u16 = 67;

/// The columns of the right panel, in percent.
pub const RIGHT_PERCENT: u16 = 33;

/// A rectangle of the terminal's cells.
#[derive(Debug, Clone, Copy, PartialEq, Eq, Structural)]
pub struct Area {
    pub x: u16,
    pub y: u16,
    pub width: u16,
    pub height: u16,
}

/// The largest number of cells in a row or column.
pub open spec fn capped(n: int) -> u16 {
    if n > u16::MAX {
        u16::MAX
    } else {
        n as u16
    }
}

/// An area at the given place, no larger than the numbers of its cells allow.
pub open spec fn placed(x: u16, y: u16, width: u16, height: u16) -> Area {
    Area {
        x,
        y,
        width: if x + width > u16::MAX {
            (u16::MAX - x) as u16
        } else {
            width
        },
        height: if y + height > u16::MAX {
            (u16::MAX - y) as u16
        } else {
            height
        },
    }
}

/// What is left of an area without a margin on each side; an area without
/// cells where there is no room for the margin.
pub open spec fn inset(area: Area, horizontal: u16, vertical: u16) -> Area {
    if area.width < capped(2 * horizontal) || area.height < capped(2 * vertical) {
        Area { x: 0, y: 0, width: 0, height: 0 }
    } else {
        Area {
            x: capped(area.x + horizontal),
            y: capped(area.y + vertical),
            width: (area.width - capped(2 * horizontal)) as u16,
            height: (area.height - capped(2 * vertical)) as u16,
        }
    }
}

/// The columns that the given percentage of `width` takes, to the nearest
/// number, halves upwards.
pub open spec fn percent_of(width: u16, percent: u16) -> u16 {
    ((width * percent + 50) / 100) as u16
}

/// The left one of two columns.
pub open spec fn left_column(area: Area, percent: u16) -> Area {
    Area { width: percent_of(area.width, percent), ..area }
}

/// The right one of two columns: what the left one leaves.
pub open spec fn right_column(area: Area, percent: u16) -> Area {
    Area {
        x: (area.x + percent_of(area.width, percent)) as u16,
        width: (area.width - percent_of(area.width, percent)) as u16,
        ..area
    }
}

/// Calls `Rect::new` of `ratatui`. Trusted: the rectangle has the given
/// corner and size, and its size is cut where its far side would lie beyond
/// the largest `u16`.
#[verifier::external_body]
fn new_area(x: u16, y: u16, width: u16, height: u16) -> (area: Area)
    ensures
        area == placed(x, y, width, height),
{
    let rect = Rect::new(x, y, width, height);
    Area { x: rect.x, y: rect.y, width: rect.width, height: rect.height }
}

/// Calls `Rect::inner` of `ratatui`. Trusted: the rectangle loses the margin
/// on each of its sides, and is the empty one at the origin where it has no
/// room for it.
#[verifier::external_body]
fn inner_area(area: Area, horizontal: u16, vertical: u16) -> (inner: Area)
    ensures
        inner == inset(area, horizontal, vertical),
{
    let outer = Rect { x: area.x, y: area.y, width: area.width, height: area.height };
    let rect = outer.inner(Margin { horizontal, vertical });
    Area { x: rect.x, y: rect.y, width: rect.width, height: rect.height }
}

/// Calls `Layout::split` of `ratatui` on a horizontal layout with two
/// percentages. Trusted, for two percentages that make up the whole: the
/// columns lie side by side and fill the area; the left one starts where the
/// area does and takes its percentage of the width, rounded to the nearest
/// column.
#[verifier::external_body]
fn split_columns(area: Area, left: u16, right: u16) -> (columns: (Area, Area))
    requires
        left + right == 100,
        area.x + area.width <= u16::MAX,
    ensures
        columns.0 == left_column(area, left),
        columns.1 == right_column(area, left),
{
    let whole = Rect { x: area.x, y: area.y, width: area.width, height: area.height };
    let parts = Layout::default()
        .direction(Direction::Horizontal)
        .constraints(vec![Constraint::Percentage(left), Constraint::Percentage(right)])
        .split(whole);
    (
        Area { x: parts[0].x, y: parts[0].y, width: parts[0].width, height: parts[0].height },
        Area { x: parts[1].x, y: parts[1].y, width: parts[1].width, height: parts[1].height },
    )
}

/// The parts of the screen.
#[derive(Debug, Clone, Copy, PartialEq, Eq, Structural)]
pub struct Panels {
    /// The list of players, at the top.
    pub players: Area,
    /// The rest, with a frame around the two panels.
    pub table: Area,
    pub left: Area,
    pub right: Area,
}

/// The parts of a screen of the given size.
pub open spec fn panels(width: u16, height: u16) -> Panels {
    let table = Area {
        x: 0,
        y: PLAYERS_HEIGHT,
        width,
        height: (height - PLAYERS_HEIGHT) as u16,
    };
    let inner = inset(table, 1, 1);
    Panels {
        players: Area { x: 0, y: 0, width, height: PLAYERS_HEIGHT },
        table,
        left: left_column(inner, LEFT_PERCENT),
        right: right_column(inner, LEFT_PERCENT),
    }
}

/// Divides a screen of the given size.
pub fn divide(width: u16, height: u16) -> (parts: Panels)
    requires
        height >= PLAYERS_HEIGHT,
    ensures
        parts == panels(width, height),
{
    let players = new_area(0, 0, width, PLAYERS_HEIGHT);
    let table = new_area(0, PLAYERS_HEIGHT, width, height - PLAYERS_HEIGHT);
    let inner = inner_area(table, 1, 1);
    let (left, right) = split_columns(inner, LEFT_PERCENT, RIGHT_PERCENT);
    Panels { players, table, left, right }
}

/// Where a text stands between the sides of its area.
#[derive(Debug, Clone, Copy, PartialEq, Eq, Structural)]
pub enum Side {
    Left,
    Center,
}

/// What is drawn in an area.
#[derive(Debug, PartialEq, Eq)]
pub enum Item {
    /// Nothing: what stood there is gone.
    Clear,
    /// A text in a frame with a title.
    Text { body: String, side: Side, title: String },
    /// A frame with a title, around what stands there.
    Frame { title: String },
}

/// One step of drawing a screen.
#[derive(Debug, PartialEq, Eq)]
pub struct Draw {
    pub area: Area,
    pub item: Item,
}

/// The mathematical content of an [`Item`].
pub enum Shape {
    Clear,
    Text { body: Seq<char>, side: Side, title: Seq<char> },
    Frame { title: Seq<char> },
}

impl View for Item {
    type V = Shape;

    open spec fn view(&self) -> Shape {
        match *self {
            Item::Clear => Shape::Clear,
            Item::Text { body, side, title } => Shape::Text { body: body@, side, title: title@ },
            Item::Frame { title } => Shape::Frame { title: title@ },
        }
    }
}

/// The steps of drawing, each with its area and the content of its item.
pub open spec fn shapes(draws: Seq<Draw>) -> Seq<(Area, Shape)> {
    draws.map_values(|draw: Draw| (draw.area, draw.item@))
}

/// The help that every player sees.
pub open spec fn instruction_lines() -> Seq<Seq<char>> {
    seq![
        "- instructions -"@,
        "increase amount: up, k"@,
        "increase face: right, l"@,
        "decrease amount: up, j"@,
        "decrease face: left, h"@,
        "place bid: enter"@,
        "call liar: space"@,
        "quit: q"@,
        ""@,
        "- valid bid -"@,
        "value is bigger than previously"@,
        "or"@,
        "face is bigger than previously"@,
    ]
}

/// The dots of the animation while the server waits for players.
pub open spec fn dots(timer: int) -> Seq<char> {
    if timer == 0 {
        ".  "@
    } else if timer == 1 {
        ".. "@
    } else if timer == 2 {
        "..."@
    } else {
        "   "@
    }
}

/// The main text while the server waits for players.
pub open spec fn waiting_body(game: Game) -> Seq<char> {
    "Waiting for players"@ + dots(game.timer)
}

/// The main text of a turn: the player's dice, the standing bid, and the bid
/// that the player prepares.
pub open spec fn turn_body(game: Game, player: Player) -> Seq<char> {
    let rolls = match player.rolls {
        Some(rolls) => rolls,
        None => Seq::empty(),
    };
    "Your rolls: "@ + joined(decimals(rolls), " "@) + "\nPrevious bid "@ + game.bid.shown()
        + "\n\n\nAmount: "@ + decimal(player.amount as nat) + "\n\nFace: "@ + decimal(
        player.face as nat,
    )
}

/// How a screen with the given main text is drawn, step by step.
pub open spec fn drawn(player: Player, body: Seq<char>, parts: Panels) -> Seq<(Area, Shape)> {
    seq![
        (parts.players, Shape::Clear),
        (
            parts.players,
            Shape::Text {
                body: joined(player.names, "\n"@),
                side: Side::Left,
                title: "[ Players ]"@,
            },
        ),
        (parts.table, Shape::Clear),
        (
            parts.table,
            Shape::Text { body: "test"@, side: Side::Left, title: "[ Liar's Dice ]"@ },
        ),
        (parts.left, Shape::Text { body, side: Side::Center, title: "[ Game ]"@ }),
        (
            parts.right,
            Shape::Text {
                body: joined(instruction_lines(), "\n"@),
                side: Side::Center,
                title: "[ Game ]"@,
            },
        ),
        (parts.right, Shape::Frame { title: "[ Feed ]"@ }),
    ]
}

/// The screen of a player. While the dice are thrown, nothing is drawn.
pub open spec fn screen(game: Game, player: Player, width: u16, height: u16) -> Seq<
    (Area, Shape),
> {
    match game.state {
        State::Waiting => drawn(player, waiting_body(game), panels(width, height)),
        State::Roll => Seq::empty(),
        State::Turn => drawn(player, turn_body(game, player), panels(width, height)),
    }
}

/// Writes the help that every player sees.
pub fn instructions() -> (text: String)
    ensures
        text@ == joined(instruction_lines(), "\n"@),
{
    let mut lines: Vec<String> = Vec::new();
    lines.push("- instructions -".to_owned());
    lines.push("increase amount: up, k".to_owned());
    lines.push("increase face: right, l".to_owned());
    lines.push("decrease amount: up, j".to_owned());
    lines.push("decrease face: left, h".to_owned());
    lines.push("place bid: enter".to_owned());
    lines.push("call liar: space".to_owned());
    lines.push("quit: q".to_owned());
    lines.push("".to_owned());
    lines.push("- valid bid -".to_owned());
    lines.push("value is bigger than previously".to_owned());
    lines.push("or".to_owned());
    lines.push("face is bigger than previously".to_owned());
    proof {
        assert(chars_of(lines@) =~= instruction_lines());
    }
    join(&lines, "\n")
}

/// Writes the main text while the server waits for players.
pub fn waiting_text(app: &ServerApp) -> (text: String)
    ensures
        text@ == waiting_body(app@),
{
    let mut text = "Waiting for players".to_owned();
    text.append(
        match app.timer {
            0 => ".  ",
            1 => ".. ",
            2 => "...",
            _ => "   ",
        },
    );
    text
}

/// Writes the main text of a turn.
pub fn turn_text(app: &ServerApp, player: &App) -> (text: String)
    ensures
        text@ == turn_body(app@, player@),
{
    let no_rolls: Vec<usize> = Vec::new();
    let rolls = match &player.rolls {
        Some(rolls) => rolls,
        None => &no_rolls,
    };
    let mut text = "Your rolls: ".to_owned();
    text.append(join(&decimal_texts(rolls), " ").as_str());
    text.append("\nPrevious bid ");
    text.append(app.bid.text().as_str());
    text.append("\n\n\nAmount: ");
    text.append(decimal_text(player.amount).as_str());
    text.append("\n\nFace: ");
    text.append(decimal_text(player.face).as_str());
    text
}

fn draw_parts(player: &App, body: String, parts: Panels) -> (draws: Vec<Draw>)
    ensures
        shapes(draws@) == drawn(player@, body@, parts),
{
    let ghost main = body@;
    let mut draws: Vec<Draw> = Vec::new();
    draws.push(Draw { area: parts.players, item: Item::Clear });
    draws.push(
        Draw {
            area: parts.players,
            item: Item::Text {
                body: join(&player.names, "\n"),
                side: Side::Left,
                title: "[ Players ]".to_owned(),
            },
        },
    );
    draws.push(Draw { area: parts.table, item: Item::Clear });
    draws.push(
        Draw {
            area: parts.table,
            item: Item::Text {
                body: "test".to_owned(),
                side: Side::Left,
                title: "[ Liar's Dice ]".to_owned(),
            },
        },
    );
    draws.push(
        Draw {
            area: parts.left,
            item: Item::Text { body, side: Side::Center, title: "[ Game ]".to_owned() },
        },
    );
    draws.push(
        Draw {
            area: parts.right,
            item: Item::Text {
                body: instructions(),
                side: Side::Center,
                title: "[ Game ]".to_owned(),
            },
        },
    );
    draws.push(Draw { area: parts.right, item: Item::Frame { title: "[ Feed ]".to_owned() } });
    proof {
        assert(shapes(draws@) =~= drawn(player@, main, parts));
    }
    draws
}

/// Lists the steps of drawing a player's screen of the given size. Unless the
/// dice are being thrown, it needs the rows of the list of players.
pub fn draw_screen(app: &ServerApp, player: &App, width: u16, height: u16) -> (draws: Vec<Draw>)
    requires
        app@.state != State::Roll ==> height >= PLAYERS_HEIGHT,
    ensures
        shapes(draws@) == screen(app@, player@, width, height),
{
    match app.state {
        State::Waiting => draw_parts(player, waiting_text(app), divide(width, height)),
        State::Roll => {
            let draws: Vec<Draw> = Vec::new();
            proof {
                assert(shapes(draws@) =~= Seq::empty());
            }
            draws
        },
        State::Turn => draw_parts(player, turn_text(app, player), divide(width, height)),
    }
}

/// The size of a terminal that the client announces in columns and rows, of
/// which the low sixteen bits are taken.
pub fn window_area(col_width: u32, row_height: u32) -> (area: Area)
    ensures
        area.x == 0,
        area.y == 0,
        area.width == col_width % 0x1_0000,
        area.height == row_height % 0x1_0000,
{
    assert(col_width as u16 == col_width % 0x1_0000) by (bit_vector);
    assert(row_height as u16 == row_height % 0x1_0000) by (bit_vector);
    Area { x: 0, y: 0, width: col_width as u16, height: row_height as u16 }
}

} // verus!
