//! Text encodings used by the service: lowercase hex, URL-safe base64
//! without padding, hyphenated UUIDs, microsecond timestamps and HTTP status
//! codes. Each outside call stands in one small function whose contract says
//! what the call returns.
use vstd::prelude::*;

use base64::Engine;

verus! {

/// The lowercase hexadecimal digit for `v` (`0 <= v < 16`).
pub open spec fn hex_digit(v: nat) -> char {
    if v < 10 {
        (48 + v) as char
    } else {
        (87 + v) as char
    }
}

/// Lowercase hex text of a byte string: two digits per byte, high nibble
/// first.
pub open spec fn hex_lower(data: Seq<u8>) -> Seq<char>
    decreases data.len(),
{
    if data.len() == 0 {
        seq![]
    } else {
        seq![hex_digit((data[0] / 16) as nat), hex_digit((data[0] % 16) as nat)] + hex_lower(
            data.skip(1),
        )
    }
}

/// Hex text has two digits for each byte.
pub proof fn lemma_hex_lower_len(data: Seq<u8>)
    ensures
        hex_lower(data).len() == 2 * data.len(),
    decreases data.len(),
{
    if data.len() > 0 {
        lemma_hex_lower_len(data.skip(1));
    }
}

/// Hex text gives each byte `i` at places `2i` and `2i + 1`: its high
/// nibble, then its low nibble, as lowercase digits `0-9a-f`.
pub proof fn lemma_hex_lower_digits(data: Seq<u8>)
    ensures
        hex_lower(data).len() == 2 * data.len(),
        forall|i: int|
            0 <= i < data.len() ==> {
                &&& #[trigger] hex_lower(data)[2 * i] == hex_digit((data[i] / 16) as nat)
                &&& hex_lower(data)[2 * i + 1] == hex_digit((data[i] % 16) as nat)
            },
        forall|v: nat| v < 10 ==> #[trigger] hex_digit(v) as int == 48 + v,
        forall|v: nat| 10 <= v < 16 ==> #[trigger] hex_digit(v) as int == 97 + (v - 10),
    decreases data.len(),
{
    lemma_hex_lower_len(data);
    if data.len() > 0 {
        lemma_hex_lower_digits(data.skip(1));
        let h = hex_lower(data);
        let r = hex_lower(data.skip(1));
        assert forall|i: int| 0 <= i < data.len() implies {
            &&& #[trigger] h[2 * i] == hex_digit((data[i] / 16) as nat)
            &&& h[2 * i + 1] == hex_digit((data[i] % 16) as nat)
        } by {
            if i > 0 {
                assert(data.skip(1)[i - 1] == data[i]);
                assert(h[2 * i] == r[2 * (i - 1)]);
                assert(h[2 * i + 1] == r[2 * (i - 1) + 1]);
            }
        }
    }
}

/// `hex::encode`: lowercase hex, two digits for each byte.
#[verifier::external_body]
pub(crate) fn hex_encode(data: &[u8]) -> (s: String)
    ensures
        s@ == hex_lower(data@),
{
    hex::encode(data)
}

/// The symbol of the URL-safe base64 alphabet (RFC 4648, section 5) for a
/// 6-bit value.
pub open spec fn b64url_symbol(v: nat) -> char {
    if v < 26 {
        (65 + v) as char
    } else if v < 52 {
        (71 + v) as char
    } else if v < 62 {
        (v - 4) as char
    } else if v == 62 {
        '-'
    } else {
        '_'
    }
}

/// URL-safe base64 of a byte string, without `=` padding: every 3 bytes
/// give 4 symbols, a final 1 or 2 bytes give 2 or 3 symbols.
pub open spec fn b64url_encode_spec(b: Seq<u8>) -> Seq<char>
    decreases b.len(),
{
    if b.len() == 0 {
        seq![]
    } else if b.len() == 1 {
        seq![b64url_symbol((b[0] / 4) as nat), b64url_symbol(((b[0] % 4) * 16) as nat)]
    } else if b.len() == 2 {
        seq![
            b64url_symbol((b[0] / 4) as nat),
            b64url_symbol(((b[0] % 4) * 16 + b[1] / 16) as nat),
            b64url_symbol(((b[1] % 16) * 4) as nat),
        ]
    } else {
        seq![
            b64url_symbol((b[0] / 4) as nat),
            b64url_symbol(((b[0] % 4) * 16 + b[1] / 16) as nat),
            b64url_symbol(((b[1] % 16) * 4 + b[2] / 64) as nat),
            b64url_symbol((b[2] % 64) as nat),
        ] + b64url_encode_spec(b.skip(3))
    }
}

/// What `URL_SAFE_NO_PAD.decode` gives for a text: the byte string whose
/// unpadded URL-safe encoding the text is, and `None` for any other text
/// (padding, symbols outside the alphabet, a length of 1 modulo 4, or
/// non-zero trailing bits are all refused). Encoding is one-to-one
/// (`lemma_b64url_encode_injective`), so the byte string is unique.
pub open spec fn b64url_decode_spec(text: Seq<char>) -> Option<Seq<u8>> {
    if exists|b: Seq<u8>| #[trigger] b64url_encode_spec(b) == text {
        Some(choose|b: Seq<u8>| #[trigger] b64url_encode_spec(b) == text)
    } else {
        None
    }
}

/// `base64::engine::general_purpose::URL_SAFE_NO_PAD.encode`. The crate
/// panics only when the output length overflows `usize`, which the bound on
/// the input rules out.
#[verifier::external_body]
pub(crate) fn b64url_encode(data: &[u8]) -> (s: String)
    requires
        data@.len() <= usize::MAX / 2,
    ensures
        s@ == b64url_encode_spec(data@),
{
    base64::engine::general_purpose::URL_SAFE_NO_PAD.encode(data)
}

/// `base64::engine::general_purpose::URL_SAFE_NO_PAD.decode` on the bytes of
/// a text. The engine refuses padding and non-zero trailing bits, so it
/// accepts exactly the canonical unpadded encodings: the result, when there
/// is one, encodes back to the text, and a text refused is no encoding.
#[verifier::external_body]
fn b64url_decode_raw(text: &str) -> (r: Option<Vec<u8>>)
    ensures
        r matches Some(v) ==> b64url_encode_spec(v@) == text@,
        r is None ==> forall|b: Seq<u8>| #[trigger] b64url_encode_spec(b) != text@,
{
    base64::engine::general_purpose::URL_SAFE_NO_PAD.decode(text).ok()
}

/// Decodes unpadded URL-safe base64.
pub fn b64url_decode(text: &str) -> (r: Option<Vec<u8>>)
    ensures
        r is None <==> b64url_decode_spec(text@) is None,
        r matches Some(v) ==> b64url_decode_spec(text@) == Some(v@),
        forall|b: Seq<u8>|
            #[trigger] b64url_encode_spec(b) == text@ ==> (r matches Some(v) && v@ == b),
{
    let r = b64url_decode_raw(text);
    proof {
        if r is Some {
            let v = r->0@;
            assert(b64url_encode_spec(v) == text@);
            let c = choose|b: Seq<u8>| #[trigger] b64url_encode_spec(b) == text@;
            lemma_b64url_encode_injective(c, v);
            assert forall|b: Seq<u8>| #[trigger] b64url_encode_spec(b) == text@ implies v == b by {
                lemma_b64url_encode_injective(b, v);
            }
        }
    }
    r
}

/// Distinct 6-bit values have distinct symbols.
pub proof fn lemma_b64url_symbol_injective(x: nat, y: nat)
    requires
        x < 64,
        y < 64,
        b64url_symbol(x) == b64url_symbol(y),
    ensures
        x == y,
{
    let cx = b64url_symbol(x) as u32;
    let cy = b64url_symbol(y) as u32;
    assert(cx == cy);
}

/// The symbols of an encoding.
pub open spec fn is_b64url_symbol(c: char) -> bool {
    ('A' <= c <= 'Z') || ('a' <= c <= 'z') || ('0' <= c <= '9') || c == '-' || c == '_'
}

/// An encoding uses only the URL-safe alphabet.
pub proof fn lemma_b64url_alphabet(b: Seq<u8>)
    ensures
        forall|i: int|
            0 <= i < b64url_encode_spec(b).len() ==> is_b64url_symbol(
                #[trigger] b64url_encode_spec(b)[i],
            ),
    decreases b.len(),
{
    let e = b64url_encode_spec(b);
    assert forall|v: nat| v < 64 implies is_b64url_symbol(#[trigger] b64url_symbol(v)) by {}
    if b.len() >= 3 {
        lemma_b64url_alphabet(b.skip(3));
        let r = b64url_encode_spec(b.skip(3));
        assert forall|i: int| 0 <= i < e.len() implies is_b64url_symbol(#[trigger] e[i]) by {
            if i >= 4 {
                assert(e[i] == r[i - 4]);
            }
        }
    }
}

/// The length of an encoding: 2 or 3 symbols for 1 or 2 bytes, at least 4
/// for more.
pub proof fn lemma_b64url_encode_len(b: Seq<u8>)
    ensures
        b.len() == 0 ==> b64url_encode_spec(b).len() == 0,
        b.len() == 1 ==> b64url_encode_spec(b).len() == 2,
        b.len() == 2 ==> b64url_encode_spec(b).len() == 3,
        b.len() >= 3 ==> b64url_encode_spec(b).len() >= 4,
{
}

/// Unpadded URL-safe base64 is one-to-one.
pub proof fn lemma_b64url_encode_injective(a: Seq<u8>, b: Seq<u8>)
    requires
        b64url_encode_spec(a) == b64url_encode_spec(b),
    ensures
        a == b,
    decreases a.len(),
{
    let e = b64url_encode_spec(a);
    lemma_b64url_encode_len(a);
    lemma_b64url_encode_len(b);
    if a.len() == 0 || b.len() == 0 {
        assert(a.len() == 0 && b.len() == 0);
        assert(a =~= b);
    } else if a.len() == 1 || a.len() == 2 || b.len() == 1 || b.len() == 2 {
        assert(a.len() == b.len());
        lemma_b64url_symbol_injective((a[0] / 4) as nat, (b[0] / 4) as nat);
        if a.len() == 1 {
            lemma_b64url_symbol_injective(((a[0] % 4) * 16) as nat, ((b[0] % 4) * 16) as nat);
            assert(a[0] == b[0]);
        } else {
            lemma_b64url_symbol_injective(
                ((a[0] % 4) * 16 + a[1] / 16) as nat,
                ((b[0] % 4) * 16 + b[1] / 16) as nat,
            );
            lemma_b64url_symbol_injective(((a[1] % 16) * 4) as nat, ((b[1] % 16) * 4) as nat);
            assert(a[0] == b[0]);
            assert(a[1] == b[1]);
        }
        assert(a =~= b);
    } else {
        let sa = seq![
            b64url_symbol((a[0] / 4) as nat),
            b64url_symbol(((a[0] % 4) * 16 + a[1] / 16) as nat),
            b64url_symbol(((a[1] % 16) * 4 + a[2] / 64) as nat),
            b64url_symbol((a[2] % 64) as nat),
        ];
        let sb = seq![
            b64url_symbol((b[0] / 4) as nat),
            b64url_symbol(((b[0] % 4) * 16 + b[1] / 16) as nat),
            b64url_symbol(((b[1] % 16) * 4 + b[2] / 64) as nat),
            b64url_symbol((b[2] % 64) as nat),
        ];
        assert(e == sa + b64url_encode_spec(a.skip(3)));
        assert(e == sb + b64url_encode_spec(b.skip(3)));
        assert(e[0] == sa[0] && e[0] == sb[0]);
        assert(e[1] == sa[1] && e[1] == sb[1]);
        assert(e[2] == sa[2] && e[2] == sb[2]);
        assert(e[3] == sa[3] && e[3] == sb[3]);
        lemma_b64url_symbol_injective((a[0] / 4) as nat, (b[0] / 4) as nat);
        lemma_b64url_symbol_injective(
            ((a[0] % 4) * 16 + a[1] / 16) as nat,
            ((b[0] % 4) * 16 + b[1] / 16) as nat,
        );
        lemma_b64url_symbol_injective(
            ((a[1] % 16) * 4 + a[2] / 64) as nat,
            ((b[1] % 16) * 4 + b[2] / 64) as nat,
        );
        lemma_b64url_symbol_injective((a[2] % 64) as nat, (b[2] % 64) as nat);
        assert(a[0] == b[0]);
        assert(a[1] == b[1]);
        assert(a[2] == b[2]);
        assert(b64url_encode_spec(a.skip(3)) =~= e.skip(4));
        assert(b64url_encode_spec(b.skip(3)) =~= e.skip(4));
        lemma_b64url_encode_injective(a.skip(3), b.skip(3));
        assert(a =~= b.take(3) + b.skip(3));
        assert(b =~= b.take(3) + b.skip(3));
    }
}

/// The `n` lowest hex digits of `v`, most significant first.
pub open spec fn hex_digits(v: nat, n: nat) -> Seq<char>
    decreases n,
{
    if n == 0 {
        seq![]
    } else {
        hex_digits(v / 16, (n - 1) as nat).push(hex_digit(v % 16))
    }
}

/// The hyphenated lowercase form of a UUID given as its 128-bit value:
/// 32 hex digits in groups of 8-4-4-4-12.
pub open spec fn uuid_text(id: u128) -> Seq<char> {
    let h = hex_digits(id as nat, 32);
    h.subrange(0, 8) + seq!['-'] + h.subrange(8, 12) + seq!['-'] + h.subrange(12, 16) + seq![
        '-',
    ] + h.subrange(16, 20) + seq!['-'] + h.subrange(20, 32)
}

/// `uuid::Uuid::from_u128(id).to_string()`: the hyphenated lowercase form.
#[verifier::external_body]
pub(crate) fn uuid_to_string(id: u128) -> (s: String)
    ensures
        s@ == uuid_text(id),
{
    uuid::Uuid::from_u128(id).to_string()
}

/// What `uuid::Uuid::parse_str` gives for a text that is not the
/// hyphenated lowercase form of any UUID (simple, braced, URN or uppercase
/// forms, or no UUID at all).
pub uninterp spec fn uuid_parse_other(text: Seq<char>) -> Option<u128>;

/// What `uuid::Uuid::parse_str` gives for a text, as the UUID's 128-bit
/// value: the hyphenated lowercase form of a UUID parses to that UUID (the
/// form is one-to-one, `lemma_uuid_text_injective`); other texts are left
/// to `uuid_parse_other`.
pub open spec fn uuid_parse_spec(text: Seq<char>) -> Option<u128> {
    if exists|id: u128| #[trigger] uuid_text(id) == text {
        Some(choose|id: u128| #[trigger] uuid_text(id) == text)
    } else {
        uuid_parse_other(text)
    }
}

/// `uuid::Uuid::parse_str`, giving the parsed UUID's 128-bit value. The
/// contract states, from the crate's documentation, that the hyphenated form
/// of a UUID parses back to it, and names the result for every other text.
#[verifier::external_body]
fn uuid_parse_raw(text: &str) -> (r: Option<u128>)
    ensures
        forall|id: u128| #[trigger] uuid_text(id) == text@ ==> r == Some(id),
        (forall|id: u128| #[trigger] uuid_text(id) != text@) ==> r == uuid_parse_other(text@),
{
    match uuid::Uuid::parse_str(text) {
        Ok(u) => Some(u.as_u128()),
        Err(_) => None,
    }
}

/// Parses a UUID.
pub fn uuid_parse(text: &str) -> (r: Option<u128>)
    ensures
        r == uuid_parse_spec(text@),
        forall|id: u128| #[trigger] uuid_text(id) == text@ ==> r == Some(id),
{
    uuid_parse_raw(text)
}

/// The hex digits of a value are ASCII and there are as many as asked.
pub proof fn lemma_hex_digits_ascii(v: nat, n: nat)
    ensures
        hex_digits(v, n).len() == n,
        forall|i: int| 0 <= i < n ==> '\0' <= #[trigger] hex_digits(v, n)[i] <= '\u{7f}',
    decreases n,
{
    if n > 0 {
        lemma_hex_digits_ascii(v / 16, (n - 1) as nat);
        let d = v % 16;
        assert('\0' <= hex_digit(d) <= '\u{7f}');
    }
}

/// `16` to the power `n`.
pub open spec fn pow16(n: nat) -> nat
    decreases n,
{
    if n == 0 {
        1
    } else {
        16 * pow16((n - 1) as nat)
    }
}

/// Distinct hex values have distinct digits.
pub proof fn lemma_hex_digit_injective(x: nat, y: nat)
    requires
        x < 16,
        y < 16,
        hex_digit(x) == hex_digit(y),
    ensures
        x == y,
{
    let cx = hex_digit(x) as u32;
    let cy = hex_digit(y) as u32;
    assert(cx == cy);
}

/// Below `16^n`, the `n` lowest hex digits determine the value.
pub proof fn lemma_hex_digits_injective(a: nat, b: nat, n: nat)
    requires
        a < pow16(n),
        b < pow16(n),
        hex_digits(a, n) == hex_digits(b, n),
    ensures
        a == b,
    decreases n,
{
    if n > 0 {
        let n1 = (n - 1) as nat;
        let ha = hex_digits(a, n);
        let hb = hex_digits(b, n);
        assert(ha.last() == hex_digit(a % 16));
        assert(hb.last() == hex_digit(b % 16));
        lemma_hex_digit_injective(a % 16, b % 16);
        assert(ha.drop_last() =~= hex_digits(a / 16, n1));
        assert(hb.drop_last() =~= hex_digits(b / 16, n1));
        assert(a / 16 < pow16(n1)) by (nonlinear_arith)
            requires
                a < 16 * pow16(n1),
        ;
        assert(b / 16 < pow16(n1)) by (nonlinear_arith)
            requires
                b < 16 * pow16(n1),
        ;
        lemma_hex_digits_injective(a / 16, b / 16, n1);
    }
}

/// The hyphenated form is one-to-one.
pub proof fn lemma_uuid_text_injective(a: u128, b: u128)
    requires
        uuid_text(a) == uuid_text(b),
    ensures
        a == b,
{
    let ha = hex_digits(a as nat, 32);
    let hb = hex_digits(b as nat, 32);
    lemma_hex_digits_ascii(a as nat, 32);
    lemma_hex_digits_ascii(b as nat, 32);
    let ua = uuid_text(a);
    let ub = uuid_text(b);
    assert forall|i: int| 0 <= i < 32 implies ha[i] == hb[i] by {
        let j = if i < 8 {
            i
        } else if i < 12 {
            i + 1
        } else if i < 16 {
            i + 2
        } else if i < 20 {
            i + 3
        } else {
            i + 4
        };
        assert(ua[j] == ha[i]);
        assert(ub[j] == hb[i]);
    }
    assert(ha =~= hb);
    assert(pow16(32) == 0x1_0000_0000_0000_0000_0000_0000_0000_0000) by {
        reveal_with_fuel(pow16, 33);
    }
    lemma_hex_digits_injective(a as nat, b as nat, 32);
}

/// Microseconds since the UNIX epoch of chrono's first instant,
/// -262143-01-01T00:00:00Z.
pub const CHRONO_MIN_MICROS: i64 = -8_334_601_228_800_000_000;

/// Microseconds since the UNIX epoch of chrono's last instant,
/// 262142-12-31T23:59:59.999999Z.
pub const CHRONO_MAX_MICROS: i64 = 8_210_266_876_799_999_999;

/// The counts of microseconds since the UNIX epoch that chrono represents:
/// those of every `DateTime<Utc>`.
pub open spec fn micros_in_chrono_range(micros: i64) -> bool {
    CHRONO_MIN_MICROS <= micros <= CHRONO_MAX_MICROS
}

/// `chrono::DateTime::<Utc>::from_timestamp_micros(micros).is_some()`. From
/// chrono's source: the instant is split into whole days and a time of day,
/// and the day must fall between `NaiveDate::MIN` (-262143-01-01) and
/// `NaiveDate::MAX` (262142-12-31).
#[verifier::external_body]
pub(crate) fn micros_to_datetime_ok(micros: i64) -> (ok: bool)
    ensures
        ok == micros_in_chrono_range(micros),
{
    chrono::DateTime::from_timestamp_micros(micros).is_some()
}

/// `actix_web::http::StatusCode::from_u16(code).is_ok()`: the codes from
/// 100 to 999 are accepted.
#[verifier::external_body]
pub(crate) fn status_code_is_valid(code: u16) -> (ok: bool)
    ensures
        ok == (100 <= code < 1000),
{
    actix_web::http::StatusCode::from_u16(code).is_ok()
}

} // verus!
