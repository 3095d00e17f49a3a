use parpress::cursor::{decode_cursor, encode_cursor, split_cursor_text};
use parpress::models::book::{ApiError, DecodedCursor};

const ID: u128 = 0x550e8400_e29b_41d4_a716_446655440000;

#[test]
fn encode_cursor_known_value() {
    assert_eq!(
        encode_cursor(1_700_000_000_000_000, ID),
        "MTcwMDAwMDAwMDAwMDAwMCw1NTBlODQwMC1lMjliLTQxZDQtYTcxNi00NDY2NTU0NDAwMDA"
    );
}

#[test]
fn encode_cursor_negative_instant() {
    assert_eq!(
        encode_cursor(-2_208_936_075_000_000, 1),
        "LTIyMDg5MzYwNzUwMDAwMDAsMDAwMDAwMDAtMDAwMC0wMDAwLTAwMDAtMDAwMDAwMDAwMDAx"
    );
}

#[test]
fn cursor_round_trip() {
    for (created_at, id) in [
        (0i64, 0u128),
        (1_700_000_000_000_000, ID),
        (-2_208_936_075_000_000, u128::MAX),
        (7_000_000_000_000_000_000, 42),
        (-7_000_000_000_000_000_000, 7),
    ] {
        let c = encode_cursor(created_at, id);
        assert_eq!(decode_cursor(&c), Ok(DecodedCursor { created_at, id }));
    }
}

#[test]
fn decode_cursor_rejects_bad_base64() {
    assert_eq!(decode_cursor("!!!"), Err(ApiError::InvalidCursor));
    assert_eq!(decode_cursor("YWJj="), Err(ApiError::InvalidCursor));
    assert_eq!(decode_cursor("@@@"), Err(ApiError::InvalidCursor));
    assert_eq!(decode_cursor(""), Err(ApiError::InvalidCursor));
}

#[test]
fn decode_cursor_rejects_missing_comma() {
    assert_eq!(decode_cursor("YWJj"), Err(ApiError::InvalidCursor));
}

#[test]
fn decode_cursor_rejects_bad_uuid() {
    assert_eq!(decode_cursor("MTIsbm90YXV1aWQ"), Err(ApiError::InvalidCursor));
}

#[test]
fn decode_cursor_rejects_overflowing_instant() {
    assert_eq!(
        decode_cursor("OTIyMzM3MjAzNjg1NDc3NTgwOCw1NTBlODQwMC1lMjliLTQxZDQtYTcxNi00NDY2NTU0NDAwMDA"),
        Err(ApiError::InvalidCursor)
    );
}

#[test]
fn decode_cursor_rejects_instant_beyond_calendar() {
    assert_eq!(
        decode_cursor("OTAwMDAwMDAwMDAwMDAwMDAwMCw1NTBlODQwMC1lMjliLTQxZDQtYTcxNi00NDY2NTU0NDAwMDA"),
        Err(ApiError::InvalidCursor)
    );
}

#[test]
fn decode_cursor_rejects_non_utf8() {
    assert_eq!(decode_cursor("__4s"), Err(ApiError::InvalidCursor));
}

#[test]
fn decode_cursor_accepts_plus_sign_and_simple_uuid() {
    assert_eq!(
        decode_cursor("KzUsNTUwZTg0MDAtZTI5Yi00MWQ0LWE3MTYtNDQ2NjU1NDQwMDAw"),
        Ok(DecodedCursor { created_at: 5, id: ID })
    );
    assert_eq!(
        decode_cursor("NSw1NTBlODQwMGUyOWI0MWQ0YTcxNjQ0NjY1NTQ0MDAwMA"),
        Ok(DecodedCursor { created_at: 5, id: ID })
    );
}

#[test]
fn split_cursor_text_cases() {
    assert_eq!(split_cursor_text("12,abc"), Some((12, "abc")));
    assert_eq!(split_cursor_text("1,2,3"), Some((1, "2,3")));
    assert_eq!(split_cursor_text("-4,"), Some((-4, "")));
    assert_eq!(split_cursor_text("abc"), None);
    assert_eq!(split_cursor_text("x,abc"), None);
    assert_eq!(split_cursor_text(",abc"), None);
}
