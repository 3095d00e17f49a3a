use parpress::text::{chars_of, i64_to_string, parse_i64, u64_to_string};

fn parse(s: &str) -> Option<i64> {
    let v = chars_of(s);
    parse_i64(&v, 0, v.len())
}

#[test]
fn decimal_text_of_integers() {
    assert_eq!(u64_to_string(0), "0");
    assert_eq!(u64_to_string(1_700_000_000), "1700000000");
    assert_eq!(u64_to_string(u64::MAX), "18446744073709551615");
    assert_eq!(i64_to_string(-1), "-1");
    assert_eq!(i64_to_string(i64::MIN), "-9223372036854775808");
    assert_eq!(i64_to_string(i64::MAX), "9223372036854775807");
}

#[test]
fn parse_i64_matches_std() {
    for s in [
        "", "+", "-", "0", "007", "+5", "-12", "1x", " 1", "9223372036854775807",
        "9223372036854775808", "-9223372036854775808", "-9223372036854775809",
        "99999999999999999999999", "١٢",
    ] {
        assert_eq!(parse(s), s.parse::<i64>().ok(), "input {:?}", s);
    }
}

#[test]
fn parse_i64_round_trip() {
    for i in [0i64, 1, -1, 42, i64::MIN, i64::MAX, 1_700_000_000_000_000] {
        assert_eq!(parse(&i64_to_string(i)), Some(i));
    }
}

#[test]
fn parse_i64_on_a_range() {
    let v = chars_of("ab-17cd");
    assert_eq!(parse_i64(&v, 2, 5), Some(-17));
    assert_eq!(parse_i64(&v, 3, 3), None);
}
