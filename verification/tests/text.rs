use rusty_store::report::{COLUMN, WIDE_COLUMN};
use rusty_store::text::{decimal_string, push_decimal, push_left_aligned};

#[test]
fn decimal_string_matches_display() {
    let values: [i64; 17] = [
        0,
        1,
        9,
        10,
        11,
        99,
        100,
        12345,
        -1,
        -9,
        -10,
        -120,
        i32::MAX as i64,
        i32::MIN as i64,
        i64::MAX,
        i64::MIN,
        -4611686014132420609,
    ];
    for value in values {
        assert_eq!(decimal_string(value), value.to_string());
    }
}

#[test]
fn decimal_string_letter_for_letter() {
    assert_eq!(decimal_string(0), "0");
    assert_eq!(decimal_string(-120), "-120");
    assert_eq!(decimal_string(1002003), "1002003");
    assert_eq!(decimal_string(i64::MIN), "-9223372036854775808");
    assert_eq!(decimal_string(i64::MAX), "9223372036854775807");
}

#[test]
fn push_decimal_appends() {
    let mut out = String::from("x=");
    push_decimal(&mut out, -42);
    push_decimal(&mut out, 7);
    assert_eq!(out, "x=-427");
}

#[test]
fn push_left_aligned_pads_to_width() {
    let mut out = String::from("|");
    push_left_aligned(&mut out, "ab", 5);
    out.push('|');
    assert_eq!(out, "|ab   |");
    let mut out = String::new();
    push_left_aligned(&mut out, "", 3);
    assert_eq!(out, "   ");
    let mut out = String::new();
    push_left_aligned(&mut out, "", 0);
    assert_eq!(out, "");
}

#[test]
fn push_left_aligned_keeps_longer_text() {
    let mut out = String::new();
    push_left_aligned(&mut out, "abcdef", 3);
    assert_eq!(out, "abcdef");
    let mut out = String::new();
    push_left_aligned(&mut out, "abc", 3);
    assert_eq!(out, "abc");
}

#[test]
fn push_left_aligned_counts_characters() {
    let mut out = String::new();
    push_left_aligned(&mut out, "héllo€", 8);
    assert_eq!(out, format!("{:<8}", "héllo€"));
    assert_eq!(out.chars().count(), 8);
}

#[test]
fn column_widths() {
    assert_eq!(COLUMN, 20);
    assert_eq!(WIDE_COLUMN, 40);
}
