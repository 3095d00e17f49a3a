//! The listing cursor: an opaque token naming the last book of a page by its
//! creation instant and id.
use vstd::prelude::*;
use vstd::utf8::*;

use crate::codec::{
    lemma_b64url_encode_injective, lemma_uuid_text_injective,
    b64url_decode, b64url_decode_spec, b64url_encode, b64url_encode_spec, hex_digits, lemma_hex_digits_ascii,
    micros_in_chrono_range, micros_to_datetime_ok, uuid_parse, uuid_parse_spec, uuid_text,
    uuid_to_string,
};
use crate::models::book::{ApiError, DecodedCursor};
use crate::text::{
    chars_of, i64_to_string, lemma_parse_signed_decimal, lemma_signed_decimal_ascii,
    parse_i64, parse_i64_spec, signed_decimal_text,
};

verus! {

/// The text inside a cursor: the instant in microseconds, a comma, and the
/// hyphenated id.
pub open spec fn cursor_text(created_at: i64, id: u128) -> Seq<char> {
    signed_decimal_text(created_at as int) + seq![','] + uuid_text(id)
}

/// The cursor for a position: its text, as UTF-8, in unpadded URL-safe
/// base64.
pub open spec fn encode_cursor_spec(created_at: i64, id: u128) -> Seq<char> {
    b64url_encode_spec(encode_utf8(cursor_text(created_at, id)))
}

/// `i` is the position of the first comma in `s`.
pub open spec fn is_first_comma(s: Seq<char>, i: int) -> bool {
    &&& 0 <= i < s.len()
    &&& s[i] == ','
    &&& forall|j: int| 0 <= j < i ==> s[j] != ','
}

/// A cursor text split at its first comma: the decimal instant before it,
/// and the rest after it. `None` when there is no comma or the first part is
/// not an `i64`.
pub open spec fn split_cursor_spec(s: Seq<char>) -> Option<(i64, Seq<char>)> {
    if exists|i: int| is_first_comma(s, i) {
        let i = choose|i: int| is_first_comma(s, i);
        match parse_i64_spec(s.take(i)) {
            Some(m) => Some((m, s.skip(i + 1))),
            None => None,
        }
    } else {
        None
    }
}

/// What a cursor's bytes (after base64) decode to: they must be UTF-8, split
/// at the first comma into an `i64` and a UUID, and the instant must be one
/// that chrono represents.
pub open spec fn cursor_from_bytes_spec(bytes: Seq<u8>) -> Option<(i64, u128)> {
    if !valid_utf8(bytes) {
        None
    } else {
        match split_cursor_spec(decode_utf8(bytes)) {
            None => None,
            Some((m, rest)) => match uuid_parse_spec(rest) {
                None => None,
                Some(id) => if micros_in_chrono_range(m) {
                    Some((m, id))
                } else {
                    None
                },
            },
        }
    }
}

/// What a cursor decodes to.
pub open spec fn decode_cursor_spec(cursor: Seq<char>) -> Option<(i64, u128)> {
    match b64url_decode_spec(cursor) {
        None => None,
        Some(bytes) => cursor_from_bytes_spec(bytes),
    }
}

/// The result a decoding gives for what the spec says.
pub open spec fn cursor_result(d: Option<(i64, u128)>) -> Result<DecodedCursor, ApiError> {
    match d {
        Some((m, id)) => Ok(DecodedCursor { created_at: m, id }),
        None => Err(ApiError::InvalidCursor),
    }
}

/// The text of a cursor is ASCII and at most 57 characters long.
pub proof fn lemma_cursor_text_ascii(created_at: i64, id: u128)
    ensures
        is_ascii_chars(cursor_text(created_at, id)),
        cursor_text(created_at, id).len() <= 57,
{
    lemma_signed_decimal_ascii(created_at);
    lemma_hex_digits_ascii(id as nat, 32);
    let t = cursor_text(created_at, id);
    let d = signed_decimal_text(created_at as int);
    let u = uuid_text(id);
    let h = hex_digits(id as nat, 32);
    assert(u.len() == 36);
    assert forall|i: int| 0 <= i < u.len() implies '\0' <= #[trigger] u[i] <= '\u{7f}' by {
        if i < 8 {
            assert(u[i] == h[i]);
        } else if i == 8 || i == 13 || i == 18 || i == 23 {
        } else if i < 13 {
            assert(u[i] == h[i - 1]);
        } else if i < 18 {
            assert(u[i] == h[i - 2]);
        } else if i < 23 {
            assert(u[i] == h[i - 3]);
        } else {
            assert(u[i] == h[i - 4]);
        }
    }
    assert forall|i: int| 0 <= i < t.len() implies '\0' <= #[trigger] t[i] <= '\u{7f}' by {
        if i < d.len() {
            let b = crate::text::signed_decimal_bytes(created_at as int)[i];
            assert(b < 128);
            assert(d[i] == b as char);
            assert(t[i] == d[i]);
            assert(t[i] <= '\u{7f}');
        } else if i == d.len() {
            assert(t[i] == ',');
            assert(t[i] <= '\u{7f}');
        } else {
            assert(t[i] == u[i - d.len() - 1]);
            assert(u[i - d.len() - 1] <= '\u{7f}');
        }
    }
}

/// The cursor naming a position in the listing.
pub fn encode_cursor(created_at: i64, id: u128) -> (cursor: String)
    ensures
        cursor@ == encode_cursor_spec(created_at, id),
{
    let mut raw = i64_to_string(created_at);
    raw.append(",");
    let id_text = uuid_to_string(id);
    raw.append(id_text.as_str());
    proof {
        reveal_strlit(",");
        assert(raw@ =~= cursor_text(created_at, id));
        lemma_cursor_text_ascii(created_at, id);
        is_ascii_chars_encode_utf8(raw@);
    }
    let bytes = raw.as_str().as_bytes();
    b64url_encode(bytes)
}

/// A cursor text splits at the comma after the instant, giving back the
/// instant and the hyphenated id.
pub proof fn lemma_cursor_text_split(created_at: i64, id: u128)
    ensures
        split_cursor_spec(cursor_text(created_at, id)) == Some((created_at, uuid_text(id))),
{
    let t = cursor_text(created_at, id);
    let d = signed_decimal_text(created_at as int);
    let db = crate::text::signed_decimal_bytes(created_at as int);
    let u = uuid_text(id);
    let k = d.len() as int;
    let m: nat = if created_at < 0 { (-created_at) as nat } else { created_at as nat };
    crate::text::lemma_decimal_bytes_digits(m);
    assert forall|j: int| 0 <= j < k implies #[trigger] d[j] != ',' by {
        let b = db[j];
        if created_at < 0 {
            if j > 0 {
                assert(b == crate::text::decimal_bytes(m)[j - 1]);
            }
        } else {
            assert(b == crate::text::decimal_bytes(m)[j]);
        }
        assert(b != 44);
        assert(d[j] == b as char);
    }
    assert forall|j: int| 0 <= j < k implies #[trigger] t[j] != ',' by {
        assert(t[j] == d[j]);
    }
    assert(t[k] == ',');
    assert(is_first_comma(t, k));
    assert forall|i: int| is_first_comma(t, i) implies i == k by {
        if i < k {
            assert(t[i] != ',');
        }
    }
    let i = choose|i: int| is_first_comma(t, i);
    assert(i == k);
    assert(t.take(k) =~= d);
    lemma_parse_signed_decimal(created_at);
    assert(t.skip(k + 1) =~= u);
}

/// The cursor of a position reads back to that position, for every instant
/// that chrono represents (the instant of every `DateTime<Utc>`).
pub proof fn lemma_cursor_round_trip(created_at: i64, id: u128)
    requires
        micros_in_chrono_range(created_at),
    ensures
        decode_cursor_spec(encode_cursor_spec(created_at, id)) == Some((created_at, id)),
{
    let t = cursor_text(created_at, id);
    let bytes = encode_utf8(t);
    let cursor = encode_cursor_spec(created_at, id);
    assert(b64url_encode_spec(bytes) == cursor);
    let c = choose|b: Seq<u8>| #[trigger] b64url_encode_spec(b) == cursor;
    lemma_b64url_encode_injective(c, bytes);
    assert(b64url_decode_spec(cursor) == Some(bytes));
    encode_utf8_valid_utf8(t);
    encode_utf8_decode_utf8(t);
    lemma_cursor_text_split(created_at, id);
    let u = uuid_text(id);
    let k = choose|x: u128| #[trigger] uuid_text(x) == u;
    lemma_uuid_text_injective(k, id);
    assert(uuid_parse_spec(u) == Some(id));
}

/// Splits a cursor text at its first comma into the decimal instant before
/// it and the text after it.
pub fn split_cursor_text(text: &str) -> (r: Option<(i64, &str)>)
    ensures
        r is None <==> split_cursor_spec(text@) is None,
        r matches Some((m, rest)) ==> split_cursor_spec(text@) == Some((m, rest@)),
{
    let chars = chars_of(text);
    let n = chars.len();
    let mut i: usize = 0;
    while i < n
        invariant
            i <= n,
            n == chars@.len(),
            chars@ == text@,
            forall|j: int| 0 <= j < i ==> chars@[j] != ',',
        decreases n - i,
    {
        if chars[i] == ',' {
            proof {
                assert(is_first_comma(text@, i as int));
                assert forall|x: int| is_first_comma(text@, x) implies x == i by {
                    if x < i {
                        assert(chars@[x] != ',');
                    }
                }
                let c = choose|x: int| is_first_comma(text@, x);
                assert(c == i);
                assert(chars@.subrange(0, i as int) =~= text@.take(i as int));
            }
            let m = parse_i64(&chars, 0, i);
            match m {
                Some(m) => {
                    let rest = text.substring_char(i + 1, n);
                    assert(rest@ =~= text@.skip(i + 1));
                    return Some((m, rest));
                },
                None => {
                    return None;
                },
            }
        }
        i = i + 1;
    }
    proof {
        assert forall|x: int| !is_first_comma(text@, x) by {
            if 0 <= x < text@.len() {
                assert(chars@[x] != ',');
            }
        }
    }
    None
}

/// Reads a cursor from its bytes (the cursor after base64): UTF-8 text, an
/// `i64` instant before the first comma, a UUID after it, and an instant
/// that chrono represents. The bytes of a cursor text read back to its
/// position.
pub fn cursor_from_bytes(bytes: Vec<u8>) -> (r: Result<DecodedCursor, ApiError>)
    ensures
        r == cursor_result(cursor_from_bytes_spec(bytes@)),
        forall|m: i64, id: u128|
            bytes@ == encode_utf8(#[trigger] cursor_text(m, id)) && micros_in_chrono_range(m) ==> r
                == Ok::<DecodedCursor, ApiError>(DecodedCursor { created_at: m, id }),
{
    let ghost b = bytes@;
    proof {
        assert forall|m: i64, id: u128| b == encode_utf8(#[trigger] cursor_text(m, id)) implies {
            &&& valid_utf8(b)
            &&& decode_utf8(b) == cursor_text(m, id)
            &&& split_cursor_spec(decode_utf8(b)) == Some((m, uuid_text(id)))
        } by {
            encode_utf8_valid_utf8(cursor_text(m, id));
            encode_utf8_decode_utf8(cursor_text(m, id));
            lemma_cursor_text_split(m, id);
        }
    }
    let text = match crate::text::utf8_to_string(bytes) {
        Some(t) => t,
        None => {
            return Err(ApiError::InvalidCursor);
        },
    };
    let (m, rest) = match split_cursor_text(text.as_str()) {
        Some(p) => p,
        None => {
            return Err(ApiError::InvalidCursor);
        },
    };
    let id = match uuid_parse(rest) {
        Some(id) => id,
        None => {
            proof {
                assert forall|m2: i64, id2: u128|
                    !(b == encode_utf8(#[trigger] cursor_text(m2, id2))) by {
                    if b == encode_utf8(cursor_text(m2, id2)) {
                        assert(rest@ == uuid_text(id2));
                    }
                }
            }
            return Err(ApiError::InvalidCursor);
        },
    };
    if !micros_to_datetime_ok(m) {
        return Err(ApiError::InvalidCursor);
    }
    proof {
        assert forall|m2: i64, id2: u128|
            b == encode_utf8(#[trigger] cursor_text(m2, id2)) implies m2 == m && id2 == id by {
            assert(rest@ == uuid_text(id2));
        }
    }
    Ok(DecodedCursor { created_at: m, id })
}

/// Reads a listing cursor: canonical unpadded URL-safe base64 of UTF-8 text
/// `<i64 instant>,<UUID>` whose instant chrono represents; anything else is
/// refused with `InvalidCursor`. The cursor of every position whose instant
/// chrono represents reads back to that position.
pub fn decode_cursor(cursor: &str) -> (r: Result<DecodedCursor, ApiError>)
    ensures
        r == cursor_result(decode_cursor_spec(cursor@)),
        forall|m: i64, id: u128|
            cursor@ == #[trigger] encode_cursor_spec(m, id) && micros_in_chrono_range(m) ==> r
                == Ok::<DecodedCursor, ApiError>(DecodedCursor { created_at: m, id }),
{
    let bytes = match b64url_decode(cursor) {
        Some(b) => b,
        None => {
            return Err(ApiError::InvalidCursor);
        },
    };
    let ghost b = bytes@;
    let r = cursor_from_bytes(bytes);
    proof {
        assert forall|m: i64, id: u128|
            cursor@ == #[trigger] encode_cursor_spec(m, id) implies b == encode_utf8(
            cursor_text(m, id),
        ) by {
            assert(b64url_encode_spec(encode_utf8(cursor_text(m, id))) == cursor@);
        }
    }
    r
}

} // verus!
