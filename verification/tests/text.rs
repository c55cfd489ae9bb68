//! Text and names.

use gelix::text::{concat2, concat3, concat5, decimal_text, same, suffix};

#[test]
fn numbers_are_written_in_decimal() {
    assert_eq!(decimal_text(0), "0");
    assert_eq!(decimal_text(9), "9");
    assert_eq!(decimal_text(10), "10");
    assert_eq!(decimal_text(1234567890), "1234567890");
    assert_eq!(decimal_text(u128::MAX), u128::MAX.to_string());
}

#[test]
fn names_are_numbered() {
    assert_eq!(suffix("a", 0), "a-0");
    assert_eq!(suffix("a-1", 23), "a-1-23");
    assert_ne!(suffix("a-1", 2), suffix("a", 12));
}

#[test]
fn pieces_are_joined() {
    assert_eq!(concat2("a", "b"), "ab");
    assert_eq!(concat3("a", "", "c"), "ac");
    assert_eq!(concat5("a", "b", "c", "d", "e"), "abcde");
    assert!(same("ä", "ä"));
    assert!(!same("a", "b"));
}
