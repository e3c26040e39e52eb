use screencast_receiver::clock::{civil_from_days, div_floor, http_date, http_date_at, now, rem_floor, timestamp_from};
use screencast_receiver::text::{chars_of, decimal_string, parse_unsigned_chars, split_whitespace, trim_chars};

fn s(v: &[char]) -> String {
    v.iter().collect()
}

#[test]
fn civil_from_days_epoch() {
    assert_eq!(civil_from_days(0), (1970, 1, 1));
}

#[test]
fn civil_from_days_before_epoch() {
    assert_eq!(civil_from_days(-1), (1969, 12, 31));
    assert_eq!(civil_from_days(-719468), (0, 3, 1));
}

#[test]
fn civil_from_days_leap_day_and_new_year() {
    assert_eq!(civil_from_days(11016), (2000, 2, 29));
    assert_eq!(civil_from_days(19723), (2024, 1, 1));
    assert_eq!(civil_from_days(19782), (2024, 2, 29));
}

#[test]
fn floor_division_rounds_down() {
    assert_eq!(div_floor(-1, 86400), -1);
    assert_eq!(rem_floor(-1, 86400), 86399);
    assert_eq!(div_floor(86400, 86400), 1);
    assert_eq!(rem_floor(7, 7), 0);
}

#[test]
fn http_date_of_epoch() {
    assert_eq!(http_date_at(0), "Thu, 01 Jan 1970 00:00:00 GMT");
}

#[test]
fn http_date_of_known_instant() {
    assert_eq!(http_date_at(1_700_000_000), "Tue, 14 Nov 2023 22:13:20 GMT");
}

#[test]
fn http_date_before_epoch() {
    assert_eq!(http_date_at(-1), "Wed, 31 Dec 1969 23:59:59 GMT");
}

#[test]
fn http_date_now_has_rfc1123_shape() {
    let d = http_date();
    assert!(d.ends_with(" GMT"));
    assert_eq!(d.len(), 29);
    assert!(now() > 1_600_000_000);
}

#[test]
fn timestamp_from_clock_reading() {
    assert_eq!(timestamp_from(Some(42)), 42);
    assert_eq!(timestamp_from(None), 0);
}

#[test]
fn decimal_text_parses_back() {
    for n in [0u64, 7, 10, 1900, 65535, 123456789] {
        let t = decimal_string(n);
        assert_eq!(t, n.to_string());
        assert_eq!(parse_unsigned_chars(&chars_of(&t), u64::MAX), Some(n));
    }
}

#[test]
fn unsigned_parse_rejects_bad_text() {
    assert_eq!(parse_unsigned_chars(&chars_of(""), 100), None);
    assert_eq!(parse_unsigned_chars(&chars_of("12a"), 100), None);
    assert_eq!(parse_unsigned_chars(&chars_of("101"), 100), None);
    assert_eq!(parse_unsigned_chars(&chars_of("100"), 100), Some(100));
    assert_eq!(parse_unsigned_chars(&chars_of("+5"), 100), Some(5));
}

#[test]
fn trimming_and_splitting() {
    assert_eq!(s(&trim_chars(&chars_of("  a b \t\r\n"))), "a b");
    let toks = split_whitespace(&chars_of(" GET  /x HTTP/1.1 "));
    let toks: Vec<String> = toks.iter().map(|t| s(t)).collect();
    assert_eq!(toks, vec!["GET", "/x", "HTTP/1.1"]);
}

#[test]
fn civil_from_days_successor() {
    assert_eq!(civil_from_days(11016), (2000, 2, 29));
    assert_eq!(civil_from_days(11017), (2000, 3, 1));
    assert_eq!(civil_from_days(19722), (2023, 12, 31));
    assert_eq!(civil_from_days(19723), (2024, 1, 1));
    assert_eq!(civil_from_days(-307), (1969, 2, 28));
    assert_eq!(civil_from_days(-306), (1969, 3, 1));
}

#[test]
fn unicode_whitespace_is_trimmed() {
    assert_eq!(s(&trim_chars(&chars_of("\u{3000}\u{a0}abc\u{2009}\u{85}"))), "abc");
    assert_eq!(s(&trim_chars(&chars_of("\u{200b}x"))), "\u{200b}x");
}
