use meal_api::text::{text_at_most, text_equal};

#[test]
fn texts_are_ordered_by_their_first_difference() {
    assert!(text_at_most("2024-06-09", "2024-06-10"));
    assert!(!text_at_most("2024-06-10", "2024-06-09"));
    assert!(text_at_most("2023-12-31", "2024-01-01"));
    assert!(text_at_most("a", "b"));
    assert!(!text_at_most("b", "a"));
}

#[test]
fn a_text_is_at_most_itself() {
    assert!(text_at_most("2024-06-15", "2024-06-15"));
    assert!(text_at_most("", ""));
}

#[test]
fn a_prefix_comes_first() {
    assert!(text_at_most("", "a"));
    assert!(!text_at_most("a", ""));
    assert!(text_at_most("2024-06", "2024-06-01"));
    assert!(!text_at_most("2024-06-01", "2024-06"));
}

#[test]
fn texts_are_ordered_by_their_bytes() {
    assert!(text_at_most("Z", "a"));
    assert!(text_at_most("z", "\u{e9}"));
    assert!(!text_at_most("\u{e9}", "z"));
    assert!(text_at_most("+10000-01-06", "9999-12-25"));
    assert!(text_at_most("-0001-12-28", "0000-01-09"));
    assert!(text_at_most("\u{ffff}", "\u{10000}"));
}

#[test]
fn the_order_agrees_with_the_order_of_strings() {
    let texts = ["", "a", "ab", "b", "2024-01-01", "2024-01-02", "\u{e9}", "\u{4e2d}", "~"];
    for a in texts {
        for b in texts {
            assert_eq!(text_at_most(a, b), a <= b, "{:?} {:?}", a, b);
            assert_eq!(text_equal(a, b), a == b, "{:?} {:?}", a, b);
        }
    }
}

#[test]
fn equal_texts_are_told_from_others() {
    assert!(text_equal("2024-01-15", "2024-01-15"));
    assert!(!text_equal("2024-01-15", "2024-01-16"));
    assert!(!text_equal("2024-01-15", "2024-01-1"));
    assert!(!text_equal("", "x"));
    assert!(text_equal("", ""));
}
