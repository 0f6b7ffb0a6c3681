//! The short texts of the game: numbers, lists and player names.

use vstd::prelude::*;

verus! {

/// The ten decimal digits.
pub open spec fn digits() -> Seq<char> {
    seq!['0', '1', '2', '3', '4', '5', '6', '7', '8', '9']
}

/// A natural number in decimal, without leading zeros.
pub open spec fn decimal(n: nat) -> Seq<char>
    decreases n,
{
    if n < 10 {
        seq![digits()[n as int]]
    } else {
        decimal(n / 10).push(digits()[(n % 10) as int])
    }
}

/// An integer in decimal, with a minus sign where it is negative.
pub open spec fn signed_decimal(n: int) -> Seq<char> {
    if n < 0 {
        "-"@ + decimal((-n) as nat)
    } else {
        decimal(n as nat)
    }
}

/// The items of a list, one after the other, with `sep` between neighbours.
pub open spec fn joined(items: Seq<Seq<char>>, sep: Seq<char>) -> Seq<char>
    decreases items.len(),
{
    if items.len() == 0 {
        Seq::empty()
    } else if items.len() == 1 {
        items[0]
    } else {
        joined(items.drop_last(), sep) + sep + items.last()
    }
}

/// The characters of each string of a list.
pub open spec fn chars_of(items: Seq<String>) -> Seq<Seq<char>> {
    items.map_values(|s: String| s@)
}

/// Numbers of a list, each in decimal.
pub open spec fn decimals(items: Seq<usize>) -> Seq<Seq<char>> {
    items.map_values(|n: usize| decimal(n as nat))
}

/// How the player in seat `seat` is called. The reader's own seat is marked
/// as such, and the seat whose turn it is carries the seconds left.
pub open spec fn player_name(seat: nat, you: bool, clock: Option<int>) -> Seq<char> {
    "player "@ + decimal(seat + 1) + (if you {
        " (you)"@
    } else {
        Seq::empty()
    }) + (match clock {
        Some(seconds) => " ("@ + signed_decimal(seconds) + ")"@,
        None => Seq::empty(),
    })
}

/// The names of all seats as the player `reader` sees them; `clock` is the
/// seat whose turn it is, with the seconds left to it.
pub open spec fn seat_names(ids: Seq<usize>, reader: usize, clock: Option<(usize, int)>) -> Seq<
    Seq<char>,
> {
    Seq::new(
        ids.len(),
        |i: int|
            player_name(
                i as nat,
                ids[i] == reader,
                match clock {
                    Some((seat, seconds)) if seat == i => Some(seconds),
                    _ => None,
                },
            ),
    )
}

fn digit_text(d: usize) -> (text: &'static str)
    requires
        d < 10,
    ensures
        text@ == seq![digits()[d as int]],
{
    proof {
        reveal_strlit("0");
        reveal_strlit("1");
        reveal_strlit("2");
        reveal_strlit("3");
        reveal_strlit("4");
        reveal_strlit("5");
        reveal_strlit("6");
        reveal_strlit("7");
        reveal_strlit("8");
        reveal_strlit("9");
    }
    match d {
        0 => "0",
        1 => "1",
        2 => "2",
        3 => "3",
        4 => "4",
        5 => "5",
        6 => "6",
        7 => "7",
        8 => "8",
        _ => "9",
    }
}

/// Writes a number in decimal.
pub fn decimal_text(n: usize) -> (text: String)
    ensures
        text@ == decimal(n as nat),
    decreases n,
{
    if n < 10 {
        digit_text(n).to_owned()
    } else {
        let mut text = decimal_text(n / 10);
        text.append(digit_text(n % 10));
        text
    }
}

/// Writes a signed number in decimal.
pub fn signed_text(n: isize) -> (text: String)
    ensures
        text@ == signed_decimal(n as int),
{
    if n < 0 {
        let magnitude: usize = (-(n + 1)) as usize + 1;
        let mut text = "-".to_owned();
        text.append(decimal_text(magnitude).as_str());
        text
    } else {
        decimal_text(n as usize)
    }
}

/// Joins the items of a list with `sep` between neighbours.
pub fn join(items: &Vec<String>, sep: &str) -> (text: String)
    ensures
        text@ == joined(chars_of(items@), sep@),
{
    let mut text = String::new();
    let ghost all = chars_of(items@);
    let mut i: usize = 0;
    while i < items.len()
        invariant
            i <= items.len(),
            all == chars_of(items@),
            text@ == joined(all.take(i as int), sep@),
        decreases items.len() - i,
    {
        if i > 0 {
            text.append(sep);
        }
        text.append(items[i].as_str());
        proof {
            assert(all.take(i + 1).drop_last() =~= all.take(i as int));
            assert(all.take(i + 1).last() == items@[i as int]@);
            if i == 0 {
                assert(text@ =~= all.take(1)[0]);
            }
        }
        i += 1;
    }
    proof {
        assert(all.take(items.len() as int) =~= all);
    }
    text
}

/// Writes each number of a list in decimal.
pub fn decimal_texts(items: &Vec<usize>) -> (texts: Vec<String>)
    ensures
        chars_of(texts@) == decimals(items@),
{
    let mut texts: Vec<String> = Vec::new();
    let mut i: usize = 0;
    while i < items.len()
        invariant
            i <= items.len(),
            texts.len() == i,
            forall|j: int|
                0 <= j < i ==> (#[trigger] texts@[j])@ == decimal(items@[j] as nat),
        decreases items.len() - i,
    {
        texts.push(decimal_text(items[i]));
        i += 1;
    }
    proof {
        assert(chars_of(texts@) =~= decimals(items@));
    }
    texts
}

/// Names every seat as the player `reader` sees it.
pub fn name_seats(ids: &Vec<usize>, reader: usize, clock: Option<(usize, isize)>) -> (names: Vec<
    String,
>)
    ensures
        chars_of(names@) == seat_names(
            ids@,
            reader,
            match clock {
                Some((seat, seconds)) => Some((seat, seconds as int)),
                None => None,
            },
        ),
{
    let ghost model: Option<(usize, int)> = match clock {
        Some((seat, seconds)) => Some((seat, seconds as int)),
        None => None,
    };
    let mut names: Vec<String> = Vec::new();
    let mut i: usize = 0;
    while i < ids.len()
        invariant
            i <= ids.len(),
            names.len() == i,
            model == (match clock {
                Some((seat, seconds)) => Some((seat, seconds as int)),
                None => None,
            }),
            forall|j: int|
                0 <= j < i ==> (#[trigger] names@[j])@ == seat_names(ids@, reader, model)[j],
        decreases ids.len() - i,
    {
        let mut name = "player ".to_owned();
        name.append(decimal_text(i + 1).as_str());
        if ids[i] == reader {
            name.append(" (you)");
        }
        if let Some((seat, seconds)) = clock {
            if i == seat {
                name.append(" (");
                name.append(signed_text(seconds).as_str());
                name.append(")");
            }
        }
        proof {
            assert(name@ =~= seat_names(ids@, reader, model)[i as int]);
        }
        names.push(name);
        i += 1;
    }
    proof {
        assert(chars_of(names@) =~= seat_names(ids@, reader, model));
    }
    names
}

} // verus!
