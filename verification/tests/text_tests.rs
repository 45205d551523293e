use rlox::text::{fmt_usize, pad_left_with, pad_right_with};

#[test]
fn decimal_rendering() {
    assert_eq!(fmt_usize(0), "0");
    assert_eq!(fmt_usize(7), "7");
    assert_eq!(fmt_usize(10), "10");
    assert_eq!(fmt_usize(1234), "1234");
    assert_eq!(fmt_usize(1000000), "1000000");
    assert_eq!(fmt_usize(usize::MAX), format!("{}", usize::MAX));
}

#[test]
fn left_padding() {
    assert_eq!(pad_left_with("7", 4, "0"), "0007");
    assert_eq!(pad_left_with("123", 4, " "), " 123");
    assert_eq!(pad_left_with("12345", 4, " "), "12345");
    assert_eq!(pad_left_with("", 3, "x"), "xxx");
}

#[test]
fn right_padding() {
    assert_eq!(pad_right_with("OP_CONSTANT", 16, " "), "OP_CONSTANT     ");
    assert_eq!(pad_right_with("abcd", 3, " "), "abcd");
    assert_eq!(pad_right_with("", 2, "y"), "yy");
}
