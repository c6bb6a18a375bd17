use source_it::text::{push_decimal, push_hex, DIGITS};

fn decimal(n: u64, width: usize) -> String {
    let mut out = String::new();
    push_decimal(&mut out, n, width);
    out
}

fn hex(v: u64) -> String {
    let mut out = String::new();
    push_hex(&mut out, v);
    out
}

#[test]
fn decimal_of_zero_is_one_digit() {
    assert_eq!(decimal(0, 0), "0");
    assert_eq!(decimal(0, 1), "0");
}

#[test]
fn decimal_is_padded_with_zeros() {
    assert_eq!(decimal(7, 2), "07");
    assert_eq!(decimal(7, 4), "0007");
    assert_eq!(decimal(0, 4), "0000");
    assert_eq!(decimal(2025, 4), "2025");
}

#[test]
fn decimal_longer_than_the_width_is_written_in_full() {
    assert_eq!(decimal(12345, 4), "12345");
    assert_eq!(decimal(100, 2), "100");
    assert_eq!(decimal(u64::MAX, 4), "18446744073709551615");
}

#[test]
fn decimal_agrees_with_the_formatting_of_std() {
    for n in [0u64, 9, 10, 99, 100, 999, 1000, 9999, 10000, 1_234_567_890] {
        assert_eq!(decimal(n, 4), format!("{:04}", n));
        assert_eq!(decimal(n, 2), format!("{:02}", n));
        assert_eq!(decimal(n, 0), format!("{}", n));
    }
}

#[test]
fn decimal_is_appended_to_what_is_there() {
    let mut out = String::from("day ");
    push_decimal(&mut out, 5, 2);
    push_decimal(&mut out, 12, 2);
    assert_eq!(out, "day 0512");
}

#[test]
fn hex_has_sixteen_digits() {
    assert_eq!(hex(0), "0000000000000000");
    assert_eq!(hex(1), "0000000000000001");
    assert_eq!(hex(u64::MAX), "ffffffffffffffff");
    assert_eq!(hex(0x0123_4567_89ab_cdef), "0123456789abcdef");
}

#[test]
fn hex_agrees_with_the_formatting_of_std() {
    for v in [0u64, 255, 0xdead_beef, 0x00ff_0000_0000_0000, u64::MAX] {
        assert_eq!(hex(v), format!("{:016x}", v));
    }
}

#[test]
fn hex_is_appended_to_what_is_there() {
    let mut out = String::from("0x");
    push_hex(&mut out, 0xabc);
    assert_eq!(out, "0x0000000000000abc");
}

#[test]
fn digits_are_sixteen_in_order() {
    assert_eq!(DIGITS, "0123456789abcdef");
}
