use liars_dice::text::{decimal_text, decimal_texts, join, name_seats, signed_text};

#[test]
fn decimal_of_zero() {
    assert_eq!(decimal_text(0), "0");
}

#[test]
fn decimal_keeps_inner_zeros() {
    assert_eq!(decimal_text(9), "9");
    assert_eq!(decimal_text(10), "10");
    assert_eq!(decimal_text(100203), "100203");
    assert_eq!(decimal_text(987654321), "987654321");
}

#[test]
fn decimal_of_the_largest_number() {
    assert_eq!(decimal_text(usize::MAX), format!("{}", usize::MAX));
}

#[test]
fn signed_numbers() {
    assert_eq!(signed_text(0), "0");
    assert_eq!(signed_text(60), "60");
    assert_eq!(signed_text(-1), "-1");
    assert_eq!(signed_text(isize::MIN), format!("{}", isize::MIN));
    assert_eq!(signed_text(isize::MAX), format!("{}", isize::MAX));
}

#[test]
fn joining_lists() {
    let none: Vec<String> = vec![];
    assert_eq!(join(&none, "\n"), "");
    assert_eq!(join(&vec!["a".to_string()], "\n"), "a");
    let three = vec!["a".to_string(), "".to_string(), "bc".to_string()];
    assert_eq!(join(&three, ", "), "a, , bc");
}

#[test]
fn numbers_of_a_list() {
    assert_eq!(decimal_texts(&vec![6, 1, 10]), vec!["6", "1", "10"]);
}

#[test]
fn names_without_a_clock() {
    assert_eq!(
        name_seats(&vec![4, 9, 2], 9, None),
        vec!["player 1", "player 2 (you)", "player 3"]
    );
}

#[test]
fn names_with_a_clock() {
    assert_eq!(
        name_seats(&vec![4, 9, 2], 9, Some((1, 60))),
        vec!["player 1", "player 2 (you) (60)", "player 3"]
    );
    assert_eq!(
        name_seats(&vec![4, 9, 2], 9, Some((0, 7))),
        vec!["player 1 (7)", "player 2 (you)", "player 3"]
    );
    assert_eq!(
        name_seats(&vec![4, 9], 5, Some((2, 7))),
        vec!["player 1", "player 2"]
    );
}

#[test]
fn names_of_many_seats_differ() {
    let ids: Vec<usize> = (0..25).collect();
    let names = name_seats(&ids, 0, Some((9, 1)));
    assert_eq!(names.len(), 25);
    for a in 0..25 {
        for b in 0..25 {
            assert_eq!(names[a] == names[b], a == b);
        }
    }
}
