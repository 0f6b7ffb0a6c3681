//! What a player reads, and where.

use vstd::prelude::*;

use crate::dice::is_hand;
use crate::game::{Bid, Game, State};
use crate::player::Player;
use crate::screen::{
    inset, instruction_lines, left_column, panels, placed, right_column, screen, shapes,
    turn_body, waiting_body, Area, Draw, Item, Shape, Side,
};
use crate::sink::{collected, flushed, TerminalSink};
use crate::text::{chars_of, decimal, decimals, joined, seat_names, signed_decimal};

verus! {

// ---------------------------------------------------------------------------
// Numbers
// ---------------------------------------------------------------------------

/// The number that a row of decimal digits stands for.
pub open spec fn read_number(digits: Seq<char>) -> int
    decreases digits.len(),
{
    if digits.len() == 0 {
        0
    } else {
        10 * read_number(digits.drop_last()) + (digits.last() as int - '0' as int)
    }
}

/// A number is written in decimal digits that read back as that number, and
/// only zero begins with a zero.
pub proof fn law_decimal_reads_back(n: nat)
    ensures
        read_number(decimal(n)) == n,
        decimal(n).len() >= 1,
        forall|i: int| 0 <= i < decimal(n).len() ==> '0' <= #[trigger] decimal(n)[i] <= '9',
        n > 0 ==> decimal(n)[0] != '0',
        n < 10 <==> decimal(n).len() == 1,
    decreases n,
{
    let digits = decimal(n);
    if n < 10 {
        assert(digits.drop_last() =~= Seq::<char>::empty());
        assert(read_number(digits.drop_last()) == 0);
    } else {
        law_decimal_reads_back(n / 10);
        assert(digits.drop_last() =~= decimal(n / 10));
        assert(digits[0] == decimal(n / 10)[0]);
    }
}

/// A negative number is written as a minus sign and its magnitude, and any
/// other one as it is without a sign.
pub proof fn law_sign_comes_first(n: int)
    ensures
        n >= 0 ==> read_number(signed_decimal(n)) == n && '0' <= signed_decimal(n)[0] <= '9',
        n < 0 ==> {
            &&& signed_decimal(n).len() >= 2
            &&& signed_decimal(n)[0] == '-'
            &&& read_number(signed_decimal(n).skip(1)) == -n
        },
        n >= 0 ==> signed_decimal(n) == decimal(n as nat),
        n < 0 ==> signed_decimal(n).skip(1) == decimal((-n) as nat),
{
    if n >= 0 {
        law_decimal_reads_back(n as nat);
    } else {
        reveal_strlit("-");
        law_decimal_reads_back((-n) as nat);
        assert(signed_decimal(n).skip(1) =~= decimal((-n) as nat));
    }
}

// ---------------------------------------------------------------------------
// Lists
// ---------------------------------------------------------------------------

/// A list of one item reads as that item, and a list of none as nothing.
pub proof fn law_short_lists(item: Seq<char>, sep: Seq<char>)
    ensures
        joined(seq![item], sep) == item,
        joined(Seq::empty(), sep) == Seq::<char>::empty(),
{
}

/// Two lists after one another read as the first, the separator and the
/// second.
pub proof fn law_lists_after_one_another(a: Seq<Seq<char>>, b: Seq<Seq<char>>, sep: Seq<char>)
    requires
        a.len() > 0,
        b.len() > 0,
    ensures
        joined(a + b, sep) == joined(a, sep) + sep + joined(b, sep),
    decreases b.len(),
{
    assert((a + b).last() == b.last());
    assert((a + b).drop_last() =~= a + b.drop_last());
    if b.len() == 1 {
        assert(a + b.drop_last() =~= a);
        assert(joined(b, sep) == b[0]);
    } else {
        law_lists_after_one_another(a, b.drop_last(), sep);
        assert(joined(a + b, sep) =~= joined(a, sep) + sep + joined(b, sep));
    }
}

/// The strings of a list are taken one by one, and so are its numbers.
pub proof fn law_lists_item_by_item(texts: Seq<String>, numbers: Seq<usize>)
    ensures
        chars_of(texts).len() == texts.len(),
        forall|i: int| 0 <= i < texts.len() ==> #[trigger] chars_of(texts)[i] == texts[i]@,
        decimals(numbers).len() == numbers.len(),
        forall|i: int|
            0 <= i < numbers.len() ==> #[trigger] decimals(numbers)[i] == decimal(
                numbers[i] as nat,
            ),
{
}

proof fn lemma_single_characters(items: Seq<Seq<char>>, sep: Seq<char>)
    requires
        forall|i: int| 0 <= i < items.len() ==> (#[trigger] items[i]).len() == 1,
        sep.len() == 1,
    ensures
        items.len() > 0 ==> joined(items, sep).len() == 2 * items.len() - 1,
        forall|i: int|
            0 <= i < items.len() ==> joined(items, sep)[2 * i] == (#[trigger] items[i])[0],
    decreases items.len(),
{
    if items.len() == 1 {
        assert(items[0].len() == 1);
    } else if items.len() > 1 {
        let fewer = items.drop_last();
        assert forall|i: int| 0 <= i < fewer.len() implies (#[trigger] fewer[i]).len() == 1 by {
            assert(items[i].len() == 1);
        }
        lemma_single_characters(fewer, sep);
        assert(items[items.len() - 1].len() == 1);
        assert forall|i: int| 0 <= i < items.len() implies joined(items, sep)[2 * i] == (
        #[trigger] items[i])[0] by {
            if i < fewer.len() {
                assert(fewer[i] == items[i]);
            }
        }
    }
}

// ---------------------------------------------------------------------------
// Names
// ---------------------------------------------------------------------------

/// Every seat has a name with its number, counted from one. The reader's own
/// seats are marked, and so is the seat that the clock is at, with its
/// seconds.
pub proof fn law_what_a_name_says(
    ids: Seq<usize>,
    reader: usize,
    seat: usize,
    seconds: int,
    i: int,
)
    requires
        0 <= i < ids.len(),
    ensures
        seat_names(ids, reader, None).len() == ids.len(),
        seat_names(ids, reader, Some((seat, seconds))).len() == ids.len(),
        ({
            let number = "player "@ + decimal((i + 1) as nat);
            let mark = if ids[i] == reader {
                number + " (you)"@
            } else {
                number
            };
            &&& seat_names(ids, reader, None)[i] == mark
            &&& i != seat ==> seat_names(ids, reader, Some((seat, seconds)))[i] == mark
            &&& i == seat ==> seat_names(ids, reader, Some((seat, seconds)))[i] == mark + " ("@
                + signed_decimal(seconds) + ")"@
        }),
{
    let number = "player "@ + decimal((i + 1) as nat);
    let mark = if ids[i] == reader {
        number + " (you)"@
    } else {
        number
    };
    assert(seat_names(ids, reader, None)[i] =~= mark);
    if i == seat {
        assert(seat_names(ids, reader, Some((seat, seconds)))[i] =~= mark + " ("@ + signed_decimal(
            seconds,
        ) + ")"@);
    } else {
        assert(seat_names(ids, reader, Some((seat, seconds)))[i] =~= mark);
    }
}

// ---------------------------------------------------------------------------
// Texts
// ---------------------------------------------------------------------------

/// A bid is shown as its amount and its face, with a cross between them.
pub proof fn law_bid_is_shown(bid: Bid)
    ensures
        bid.shown() == decimal(bid.amount as nat) + " x "@ + decimal(bid.face as nat),
{
}

/// While the server waits, one to three dots stand behind the text, as the
/// clock counts from zero to two; at any other time there are none.
pub proof fn law_waiting_is_shown(game: Game)
    ensures
        game.timer == 0 ==> waiting_body(game) == "Waiting for players"@ + ".  "@,
        game.timer == 1 ==> waiting_body(game) == "Waiting for players"@ + ".. "@,
        game.timer == 2 ==> waiting_body(game) == "Waiting for players"@ + "..."@,
        game.timer < 0 || game.timer > 2 ==> waiting_body(game) == "Waiting for players"@
            + "   "@,
{
}

/// What a player reads in a turn: all dice of the hand in their order, with a
/// space between neighbours, then the standing bid, and then the amount and
/// the face that the player prepares.
pub proof fn law_turn_is_shown(game: Game, player: Player, hand: Seq<usize>)
    requires
        player.rolls == Some(hand) || (player.rolls is None && hand.len() == 0),
    ensures
        turn_body(game, player) == "Your rolls: "@ + joined(
            Seq::new(hand.len(), |i: int| decimal(hand[i] as nat)),
            " "@,
        ) + "\nPrevious bid "@ + decimal(game.bid.amount as nat) + " x "@ + decimal(
            game.bid.face as nat,
        ) + "\n\n\nAmount: "@ + decimal(player.amount as nat) + "\n\nFace: "@ + decimal(
            player.face as nat,
        ),
{
    let dice = Seq::new(hand.len(), |i: int| decimal(hand[i] as nat));
    assert(decimals(hand) =~= dice);
    assert(turn_body(game, player) =~= "Your rolls: "@ + joined(dice, " "@) + "\nPrevious bid "@
        + decimal(game.bid.amount as nat) + " x "@ + decimal(game.bid.face as nat)
        + "\n\n\nAmount: "@ + decimal(player.amount as nat) + "\n\nFace: "@ + decimal(
        player.face as nat,
    ));
}

proof fn lemma_dice_in_text(game: Game, player: Player, hand: Seq<usize>, i: int)
    requires
        is_hand(hand),
        player.rolls == Some(hand),
        0 <= i < 6,
    ensures
        turn_body(game, player).len() > 12 + 2 * i,
        turn_body(game, player)[12 + 2 * i] as int == '0' as int + hand[i],
{
    reveal_strlit("Your rolls: ");
    reveal_strlit(" ");
    law_turn_is_shown(game, player, hand);
    let dice = Seq::new(hand.len(), |k: int| decimal(hand[k] as nat));
    assert forall|k: int| 0 <= k < dice.len() implies (#[trigger] dice[k]).len() == 1 by {
        law_decimal_reads_back(hand[k] as nat);
    }
    lemma_single_characters(dice, " "@);
    assert(joined(dice, " "@)[2 * i] == dice[i][0]);
    law_decimal_reads_back(hand[i] as nat);
    let digit = decimal(hand[i] as nat);
    assert(digit.drop_last() =~= Seq::<char>::empty());
    assert(read_number(digit.drop_last()) == 0);
    assert(digit.last() == digit[0]);
}

/// Two players who hold different hands read different texts, whatever else
/// is on the table.
pub proof fn law_hands_can_be_told_apart(
    game_a: Game,
    player_a: Player,
    hand_a: Seq<usize>,
    game_b: Game,
    player_b: Player,
    hand_b: Seq<usize>,
)
    requires
        is_hand(hand_a),
        is_hand(hand_b),
        player_a.rolls == Some(hand_a),
        player_b.rolls == Some(hand_b),
        turn_body(game_a, player_a) == turn_body(game_b, player_b),
    ensures
        hand_a == hand_b,
{
    assert forall|i: int| 0 <= i < 6 implies hand_a[i] == hand_b[i] by {
        lemma_dice_in_text(game_a, player_a, hand_a, i);
        lemma_dice_in_text(game_b, player_b, hand_b, i);
    }
    assert(hand_a =~= hand_b);
}

// ---------------------------------------------------------------------------
// The screen
// ---------------------------------------------------------------------------

/// A rectangle keeps its corner. It keeps its size where its far sides are
/// still numbered, and else reaches as far as the numbers do.
pub proof fn law_rectangles_stay_on_the_grid(x: u16, y: u16, width: u16, height: u16)
    ensures
        placed(x, y, width, height).x == x,
        placed(x, y, width, height).y == y,
        x + width <= 0xffff ==> placed(x, y, width, height).width == width,
        x + width > 0xffff ==> x + placed(x, y, width, height).width == 0xffff,
        y + height <= 0xffff ==> placed(x, y, width, height).height == height,
        y + height > 0xffff ==> y + placed(x, y, width, height).height == 0xffff,
{
}

/// A margin takes its cells from each of two sides, and everything where the
/// sides are closer than that.
pub proof fn law_margin_takes_each_side(area: Area, horizontal: u16, vertical: u16)
    requires
        area.x + horizontal <= 0xffff,
        area.y + vertical <= 0xffff,
        2 * horizontal <= 0xffff,
        2 * vertical <= 0xffff,
    ensures
        ({
            let inner = inset(area, horizontal, vertical);
            let room = area.width >= horizontal + horizontal && area.height >= vertical + vertical;
            &&& room ==> {
                &&& inner.x == area.x + horizontal
                &&& inner.y == area.y + vertical
                &&& inner.width + horizontal + horizontal == area.width
                &&& inner.height + vertical + vertical == area.height
            }
            &&& !room ==> inner.x == 0 && inner.y == 0 && inner.width == 0 && inner.height == 0
        }),
{
}

/// Two columns share an area: they lie side by side, are as high as the area
/// and together as wide; and the left one is the number of cells nearest to
/// its percentage.
pub proof fn law_columns_share_the_width(area: Area, percent: u16)
    requires
        percent <= 100,
        area.x + area.width <= 0xffff,
    ensures
        ({
            let left = left_column(area, percent);
            let right = right_column(area, percent);
            &&& left.x == area.x
            &&& right.x == left.x + left.width
            &&& left.width + right.width == area.width
            &&& left.y == area.y && right.y == area.y
            &&& left.height == area.height && right.height == area.height
            &&& 100 * left.width <= area.width * percent + 50
            &&& area.width * percent < 100 * left.width + 50
        }),
{
    assert(0 <= area.width * percent <= area.width * 100) by (nonlinear_arith)
        requires
            percent <= 100,
    ;
}

/// The list of players takes six rows. The left panel takes 67 percent of the
/// columns within the frame of the table, to the nearest one.
pub proof fn law_sizes_of_panels(width: u16, height: u16)
    requires
        height >= 6,
    ensures
        panels(width, height).players == (Area { x: 0, y: 0, width, height: 6 }),
        panels(width, height).table == (Area { x: 0, y: 6, width, height: (height - 6) as u16 }),
        width >= 2 && height >= 8 ==> {
            let left = panels(width, height).left;
            let right = panels(width, height).right;
            &&& left.x == 1 && left.y == 7 && left.height == height - 8
            &&& right.x == 1 + left.width && right.y == 7 && right.height == height - 8
            &&& left.width + right.width == width - 2
            &&& 100 * left.width <= 67 * (width - 2) + 50
            &&& 67 * (width - 2) < 100 * left.width + 50
        },
        width < 2 || height < 8 ==> {
            let empty = Area { x: 0, y: 0, width: 0, height: 0 };
            panels(width, height).left == empty && panels(width, height).right == empty
        },
{
}

/// While the server waits and in a turn, a screen is drawn in seven steps; the
/// two differ in the text of the left panel alone. While the dice are thrown,
/// nothing is drawn.
pub proof fn law_steps_of_a_screen(game: Game, player: Player, width: u16, height: u16)
    ensures
        game.state == State::Roll ==> screen(game, player, width, height).len() == 0,
        game.state != State::Roll ==> {
            let steps = screen(game, player, width, height);
            let parts = panels(width, height);
            &&& steps.len() == 7
            &&& steps[0] == (parts.players, Shape::Clear)
            &&& steps[1] == (
                parts.players,
                Shape::Text {
                    body: joined(player.names, "\n"@),
                    side: Side::Left,
                    title: "[ Players ]"@,
                },
            )
            &&& steps[2] == (parts.table, Shape::Clear)
            &&& steps[3] == (
                parts.table,
                Shape::Text { body: "test"@, side: Side::Left, title: "[ Liar's Dice ]"@ },
            )
            &&& steps[4].0 == parts.left
            &&& steps[4].1 == (Shape::Text {
                body: if game.state == State::Turn {
                    turn_body(game, player)
                } else {
                    waiting_body(game)
                },
                side: Side::Center,
                title: "[ Game ]"@,
            })
            &&& steps[5] == (
                parts.right,
                Shape::Text {
                    body: joined(instruction_lines(), "\n"@),
                    side: Side::Center,
                    title: "[ Game ]"@,
                },
            )
            &&& steps[6] == (parts.right, Shape::Frame { title: "[ Feed ]"@ })
        },
{
}

/// The steps of drawing are taken one by one, with all that they hold.
pub proof fn law_content_of_a_drawing(draws: Seq<Draw>, i: int)
    requires
        0 <= i < draws.len(),
    ensures
        shapes(draws).len() == draws.len(),
        shapes(draws)[i].0 == draws[i].area,
        match draws[i].item {
            Item::Clear => shapes(draws)[i].1 == Shape::Clear,
            Item::Text { body, side, title } => shapes(draws)[i].1 == (Shape::Text {
                body: body@,
                side,
                title: title@,
            }),
            Item::Frame { title } => shapes(draws)[i].1 == (Shape::Frame { title: title@ }),
        },
{
}

// ---------------------------------------------------------------------------
// Bytes for a terminal
// ---------------------------------------------------------------------------

/// What is written waits behind what waited before. A flush that succeeds
/// leaves nothing waiting, and one that fails leaves all of it.
pub proof fn law_bytes_wait_in_order(sink: TerminalSink, data: Seq<u8>)
    ensures
        sink@ == sink.bytes@,
        collected(sink@, data).len() == sink.bytes@.len() + data.len(),
        forall|i: int|
            0 <= i < sink.bytes@.len() ==> #[trigger] collected(sink@, data)[i] == sink.bytes@[i],
        forall|i: int|
            0 <= i < data.len() ==> collected(sink@, data)[sink.bytes@.len() + i]
                == #[trigger] data[i],
        flushed(sink@, true).len() == 0,
        flushed(sink@, false) == sink.bytes@,
{
}

} // verus!
