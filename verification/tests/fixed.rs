use fcmlib::decimal::{push_fixed, push_nat, push_padded, push_shortest};
use fcmlib::text::{chars_of, push_range};
use fcmlib::Fixed;

fn m(micros: i64) -> Fixed {
    Fixed::from_micros(micros)
}

#[test]
fn whole_numbers() {
    assert_eq!(Fixed::from_int(96).micros, 96_000_000);
    assert_eq!(Fixed::from_int(-1).micros, -1_000_000);
    assert_eq!(Fixed::from_int(i32::MIN).micros, -2_147_483_648_000_000);
}

#[test]
fn sums_clamp() {
    assert_eq!(m(1).plus(m(2)), m(3));
    assert_eq!(m(i64::MAX).plus(m(1)), m(i64::MAX));
    assert_eq!(m(i64::MIN).plus(m(-1)), m(i64::MIN));
    assert_eq!(m(i64::MAX).plus(m(i64::MIN)), m(-1));
}

#[test]
fn operands_are_absolute_or_offsets() {
    assert_eq!(m(10).resolve(false, m(3)), m(3));
    assert_eq!(m(10).resolve(true, m(3)), m(13));
    assert_eq!(m(i64::MAX).resolve(true, m(3)), m(i64::MAX));
}

#[test]
fn reflection() {
    assert_eq!(m(10).reflect_through(m(20)), m(30));
    assert_eq!(m(-5).reflect_through(m(0)), m(5));
    assert_eq!(m(i64::MIN).reflect_through(m(i64::MAX)), m(i64::MAX));
    assert_eq!(m(i64::MAX).reflect_through(m(i64::MIN)), m(i64::MIN));
}

#[test]
fn two_thirds_of_the_way() {
    assert_eq!(m(0).two_thirds_toward(m(30)), m(20));
    assert_eq!(m(60).two_thirds_toward(m(30)), m(40));
    assert_eq!(m(0).two_thirds_toward(m(1)), m(1));
    assert_eq!(m(0).two_thirds_toward(m(2)), m(1));
    assert_eq!(m(0).two_thirds_toward(m(-1)), m(-1));
    assert_eq!(m(i64::MIN).two_thirds_toward(m(i64::MAX)), m(3_074_457_345_618_258_602));
}

#[test]
fn distance() {
    assert!(!m(0).farther_than(m(1000), 1000));
    assert!(m(0).farther_than(m(1001), 1000));
    assert!(m(1001).farther_than(m(0), 1000));
    assert!(m(i64::MIN).farther_than(m(i64::MAX), u64::MAX - 1));
    assert!(!m(i64::MIN).farther_than(m(i64::MAX), u64::MAX));
}

fn written(value: i64, places: u8) -> String {
    let mut out = String::from("x");
    push_fixed(&mut out, m(value), places);
    out
}

#[test]
fn fixed_places() {
    assert_eq!(written(0, 5), "x0.00000");
    assert_eq!(written(1_234_567, 5), "x1.23457");
    assert_eq!(written(1_234_564, 5), "x1.23456");
    assert_eq!(written(1_234_565, 5), "x1.23457");
    assert_eq!(written(-1_234_565, 5), "x-1.23457");
    assert_eq!(written(-4, 5), "x0.00000");
    assert_eq!(written(-5, 5), "x-0.00001");
    assert_eq!(written(999_999_999, 2), "x1000.00");
    assert_eq!(written(51_023_622, 0), "x51");
    assert_eq!(written(500_000, 0), "x1");
    assert_eq!(written(499_999, 0), "x0");
    assert_eq!(written(-1_500_000, 0), "x-2");
    assert_eq!(written(12_000_345, 6), "x12.000345");
    assert_eq!(written(i64::MAX, 6), "x9223372036854.775807");
    assert_eq!(written(i64::MIN, 6), "x-9223372036854.775808");
    assert_eq!(written(i64::MIN, 0), "x-9223372036855");
}

fn shortest(value: i64) -> String {
    let mut out = String::new();
    push_shortest(&mut out, m(value));
    out
}

#[test]
fn shortest_form() {
    assert_eq!(shortest(0), "0");
    assert_eq!(shortest(215_900_000), "215.9");
    assert_eq!(shortest(210_000_000), "210");
    assert_eq!(shortest(-177_800_000), "-177.8");
    assert_eq!(shortest(13_980_000), "13.98");
    assert_eq!(shortest(1), "0.000001");
    assert_eq!(shortest(-1_000_010), "-1.00001");
}

#[test]
fn digits() {
    let mut out = String::new();
    push_nat(&mut out, 0);
    push_nat(&mut out, 907);
    push_nat(&mut out, u64::MAX);
    assert_eq!(out, "090718446744073709551615");
    let mut out = String::new();
    push_padded(&mut out, 42, 5);
    push_padded(&mut out, 12345, 3);
    push_padded(&mut out, 7, 0);
    assert_eq!(out, "00042345");
}

#[test]
fn text_helpers() {
    let chars = chars_of("a\u{e9}\u{2702}z");
    assert_eq!(chars, vec!['a', '\u{e9}', '\u{2702}', 'z']);
    let mut out = String::from("<");
    push_range(&mut out, &chars, 1, 3);
    push_range(&mut out, &chars, 2, 2);
    assert_eq!(out, "<\u{e9}\u{2702}");
}
