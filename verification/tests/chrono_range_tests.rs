use chrono::DateTime;
use parpress::cursor::{decode_cursor, encode_cursor};
use parpress::models::book::{ApiError, DecodedCursor};

const MIN: i64 = -8_334_601_228_800_000_000;
const MAX: i64 = 8_210_266_876_799_999_999;

#[test]
fn chrono_micros_range_edges() {
    assert!(DateTime::from_timestamp_micros(MIN).is_some());
    assert!(DateTime::from_timestamp_micros(MIN - 1).is_none());
    assert!(DateTime::from_timestamp_micros(MAX).is_some());
    assert!(DateTime::from_timestamp_micros(MAX + 1).is_none());
    assert_eq!(DateTime::<chrono::Utc>::MIN_UTC.timestamp_micros(), MIN);
    assert_eq!(DateTime::<chrono::Utc>::MAX_UTC.timestamp_micros(), MAX);
}

#[test]
fn cursor_at_range_edges() {
    for m in [MIN, MAX] {
        assert_eq!(decode_cursor(&encode_cursor(m, 3)), Ok(DecodedCursor { created_at: m, id: 3 }));
    }
    for m in [MIN - 1, MAX + 1, i64::MIN, i64::MAX] {
        assert_eq!(decode_cursor(&encode_cursor(m, 3)), Err(ApiError::InvalidCursor));
    }
}
