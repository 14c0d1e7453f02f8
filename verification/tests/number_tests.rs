use host_telemetry::numbers::{
    push_decimal, push_integer, push_thousandths, read_thousandths, read_unsigned, Milli,
};
use host_telemetry::text::chars_of;
use host_telemetry::time::Timestamp;

fn unsigned(text: &str, max: u64) -> Option<u64> {
    read_unsigned(&chars_of(text), max)
}

fn thousandths(text: &str) -> Option<Milli> {
    read_thousandths(&chars_of(text))
}

fn written(v: u64, keep: usize) -> String {
    let mut out = Vec::new();
    push_thousandths(&mut out, Milli(v), keep);
    out.into_iter().collect()
}

#[test]
fn unsigned_numbers() {
    assert_eq!(unsigned("0", 10), Some(0));
    assert_eq!(unsigned("10", 10), Some(10));
    assert_eq!(unsigned("11", 10), None);
    assert_eq!(unsigned("+7", 10), Some(7));
    assert_eq!(unsigned("007", 10), Some(7));
    assert_eq!(unsigned("", 10), None);
    assert_eq!(unsigned("+", 10), None);
    assert_eq!(unsigned("-1", 10), None);
    assert_eq!(unsigned("1 ", 10), None);
    assert_eq!(unsigned("1_0", 100), None);
    assert_eq!(unsigned("++1", 10), None);
    assert_eq!(unsigned("٣", 10), None);
    assert_eq!(unsigned("18446744073709551615", u64::MAX), Some(u64::MAX));
    assert_eq!(unsigned("18446744073709551616", u64::MAX), None);
    assert_eq!(unsigned("99999999999999999999999999", u64::MAX), None);
}

#[test]
fn quantities_in_thousandths() {
    assert_eq!(thousandths("15.456"), Some(Milli(15_456)));
    assert_eq!(thousandths("15"), Some(Milli(15_000)));
    assert_eq!(thousandths("0.5"), Some(Milli(500)));
    assert_eq!(thousandths(".5"), Some(Milli(500)));
    assert_eq!(thousandths("5."), Some(Milli(5_000)));
    assert_eq!(thousandths("+2.25"), Some(Milli(2_250)));
    assert_eq!(thousandths("1.23456789"), Some(Milli(1_234)));
    assert_eq!(thousandths("0.0009"), Some(Milli(0)));
    assert_eq!(thousandths("007.070"), Some(Milli(7_070)));
    assert_eq!(thousandths("."), None);
    assert_eq!(thousandths(""), None);
    assert_eq!(thousandths("+"), None);
    assert_eq!(thousandths("-1.5"), None);
    assert_eq!(thousandths("1.2.3"), None);
    assert_eq!(thousandths("1e3"), None);
    assert_eq!(thousandths("<1"), None);
    assert_eq!(thousandths(" 1"), None);
    assert_eq!(thousandths("18446744073709551.615"), Some(Milli(u64::MAX)));
    assert_eq!(thousandths("18446744073709551.616"), None);
    assert_eq!(thousandths("18446744073709552"), None);
}

#[test]
fn quantities_are_written_without_trailing_zeros() {
    assert_eq!(written(95_500, 0), "95.5");
    assert_eq!(written(95_000, 0), "95");
    assert_eq!(written(95_000, 1), "95.0");
    assert_eq!(written(95_000, 2), "95.00");
    assert_eq!(written(95_000, 3), "95.000");
    assert_eq!(written(12_345, 0), "12.345");
    assert_eq!(written(12_340, 0), "12.34");
    assert_eq!(written(50, 0), "0.05");
    assert_eq!(written(5, 1), "0.005");
    assert_eq!(written(0, 0), "0");
    assert_eq!(written(0, 1), "0.0");
    assert_eq!(written(u64::MAX, 0), "18446744073709551.615");
}

#[test]
fn integers_are_written_in_base_ten() {
    let text = |n: i64| -> String {
        let mut out = Vec::new();
        push_integer(&mut out, n);
        out.into_iter().collect()
    };
    assert_eq!(text(0), "0");
    assert_eq!(text(7), "7");
    assert_eq!(text(-7), "-7");
    assert_eq!(text(1_000), "1000");
    assert_eq!(text(i64::MAX), "9223372036854775807");
    assert_eq!(text(i64::MIN), "-9223372036854775808");
    let mut out = vec!['x'];
    push_decimal(&mut out, u64::MAX);
    assert_eq!(out.into_iter().collect::<String>(), "x18446744073709551615");
}

#[test]
fn days_are_taken_off_an_instant() {
    let now = Timestamp { secs: 1_000_000, nanos: 42 };
    assert_eq!(now.minus_days(1), Timestamp { secs: 913_600, nanos: 42 });
    assert_eq!(now.minus_days(0), now);
    assert_eq!(now.minus_days(-2), Timestamp { secs: 1_172_800, nanos: 42 });
    let low = Timestamp { secs: i64::MIN + 5, nanos: 0 };
    assert_eq!(low.minus_days(1).secs, i64::MIN);
    let high = Timestamp { secs: i64::MAX - 5, nanos: 0 };
    assert_eq!(high.minus_days(-1).secs, i64::MAX);
    assert_eq!(
        Timestamp { secs: 0, nanos: 0 }.minus_days(i32::MAX).secs,
        -(i32::MAX as i64) * 86_400
    );
}

#[test]
fn instants_compare_by_second_then_nanosecond() {
    let a = Timestamp { secs: 1, nanos: 999 };
    let b = Timestamp { secs: 2, nanos: 0 };
    let c = Timestamp { secs: 2, nanos: 1 };
    assert!(a.is_before(&b) && b.is_before(&c) && a.is_before(&c));
    assert!(!b.is_before(&a) && !b.is_before(&b));
    assert!(b.is_not_after(&b) && a.is_not_after(&b) && !c.is_not_after(&b));
}
