use ats_bot::decimal::{i64_to_string, parse_i64, u64_to_string};

#[test]
fn formats_like_to_string() {
    for n in [0i64, 7, -7, 10, 123456789, -1001, i64::MAX, i64::MIN] {
        assert_eq!(i64_to_string(n), n.to_string());
    }
    for n in [0u64, 9, 10, 99, 100, u64::MAX] {
        assert_eq!(u64_to_string(n), n.to_string());
    }
}

#[test]
fn parses_like_str_parse() {
    let cases = [
        "0", "42", "-42", "+42", "", "-", "+", "--1", "+-1", " 1", "1 ", "1a", "007",
        "9223372036854775807", "9223372036854775808", "-9223372036854775808",
        "-9223372036854775809", "99999999999999999999999", "١٢", "12٣",
    ];
    for s in cases {
        assert_eq!(parse_i64(s), s.parse::<i64>().ok(), "{s:?}");
    }
}

#[test]
fn chat_id_text_round_trips() {
    for n in [0i64, 1, -1, 123, -100123456789, i64::MAX, i64::MIN] {
        assert_eq!(parse_i64(&i64_to_string(n)), Some(n));
    }
}
