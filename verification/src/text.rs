//! Decimal text for integers, decimal parsing, and character-level helpers.
use vstd::prelude::*;
use vstd::utf8::*;

verus! {

/// The ASCII digit for `d` (`0 <= d < 10`).
pub open spec fn digit_byte(d: nat) -> u8 {
    (48 + d) as u8
}

/// Decimal digits of `n` as ASCII bytes, most significant first, without
/// leading zeros ("0" for zero).
pub open spec fn decimal_bytes(n: nat) -> Seq<u8>
    decreases n,
{
    if n < 10 {
        seq![digit_byte(n)]
    } else {
        decimal_bytes(n / 10).push(digit_byte(n % 10))
    }
}

/// Decimal text of an integer: a `-` before the digits of a negative value.
pub open spec fn signed_decimal_bytes(i: int) -> Seq<u8> {
    if i < 0 {
        seq![45u8] + decimal_bytes((-i) as nat)
    } else {
        decimal_bytes(i as nat)
    }
}

/// Every byte is ASCII.
pub open spec fn is_ascii_bytes(b: Seq<u8>) -> bool {
    forall|i: int| 0 <= i < b.len() ==> #[trigger] b[i] < 128
}

/// The characters of an ASCII byte sequence.
pub open spec fn ascii_text(b: Seq<u8>) -> Seq<char> {
    b.map_values(|x: u8| x as char)
}

/// Decimal text of a natural number.
pub open spec fn decimal_text(n: nat) -> Seq<char> {
    ascii_text(decimal_bytes(n))
}

/// Decimal text of an integer, with a leading `-` when negative.
pub open spec fn signed_decimal_text(i: int) -> Seq<char> {
    ascii_text(signed_decimal_bytes(i))
}

/// The digits of a decimal number are ASCII digits, and there is at least one.
pub proof fn lemma_decimal_bytes_digits(n: nat)
    ensures
        decimal_bytes(n).len() >= 1,
        forall|i: int|
            0 <= i < decimal_bytes(n).len() ==> 48 <= #[trigger] decimal_bytes(n)[i] <= 57,
    decreases n,
{
    if n >= 10 {
        lemma_decimal_bytes_digits(n / 10);
    }
}

/// Appends the decimal digits of `n` to `out`.
pub fn push_decimal(out: &mut Vec<u8>, n: u64)
    ensures
        final(out)@ == old(out)@ + decimal_bytes(n as nat),
    decreases n,
{
    if n >= 10 {
        push_decimal(out, n / 10);
    }
    let d: u8 = (n % 10) as u8;
    out.push(48 + d);
}

/// Text of a byte vector read as UTF-8 (`String::from_utf8`): `None` exactly
/// when the bytes are not valid UTF-8.
#[verifier::external_body]
pub(crate) fn utf8_to_string(bytes: Vec<u8>) -> (s: Option<String>)
    ensures
        s is Some <==> valid_utf8(bytes@),
        s matches Some(t) ==> t@ == decode_utf8(bytes@),
{
    String::from_utf8(bytes).ok()
}

/// The string whose characters are the given ASCII bytes.
pub fn ascii_string(bytes: Vec<u8>) -> (s: String)
    requires
        is_ascii_bytes(bytes@),
    ensures
        s@ == ascii_text(bytes@),
{
    let ghost chars = ascii_text(bytes@);
    proof {
        assert forall|i: int| 0 <= i < chars.len() implies '\0' <= #[trigger] chars[i] <= '\u{7f}' by {
            let b = bytes@[i];
            assert(b < 128);
            assert(chars[i] == b as char);
        }
        assert(is_ascii_chars(chars));
        is_ascii_chars_encode_utf8(chars);
        assert forall|i: int| 0 <= i < bytes@.len() implies encode_utf8(chars)[i] == bytes@[i] by {
            let b = bytes@[i];
            assert(chars[i] as u8 == encode_utf8(chars)[i]);
            assert(b < 128);
            assert((b as char) as u8 == b);
        }
        assert(encode_utf8(chars) =~= bytes@);
        encode_utf8_valid_utf8(chars);
        encode_utf8_decode_utf8(chars);
    }
    match utf8_to_string(bytes) {
        Some(s) => s,
        None => String::new(),
    }
}

/// Decimal text of an unsigned integer (what `to_string` gives).
pub fn u64_to_string(n: u64) -> (s: String)
    ensures
        s@ == decimal_text(n as nat),
{
    let mut bytes: Vec<u8> = Vec::new();
    push_decimal(&mut bytes, n);
    proof {
        lemma_decimal_bytes_digits(n as nat);
        assert(bytes@ =~= decimal_bytes(n as nat));
    }
    ascii_string(bytes)
}

/// Appends the decimal text of a signed integer to `out`.
pub fn push_signed_decimal(out: &mut Vec<u8>, i: i64)
    ensures
        final(out)@ == old(out)@ + signed_decimal_bytes(i as int),
{
    if i < 0 {
        out.push(45u8);
        let magnitude: u64 = (0i128 - i as i128) as u64;
        push_decimal(out, magnitude);
        assert(out@ =~= old(out)@ + signed_decimal_bytes(i as int));
    } else {
        push_decimal(out, i as u64);
    }
}

/// A decimal digit character.
pub open spec fn is_digit(c: char) -> bool {
    '0' <= c <= '9'
}

/// Every character is a decimal digit.
pub open spec fn all_digits(s: Seq<char>) -> bool {
    forall|i: int| 0 <= i < s.len() ==> is_digit(#[trigger] s[i])
}

/// The value of a digit character.
pub open spec fn digit_value(c: char) -> nat {
    (c as int - 48) as nat
}

/// The value of a string of decimal digits (0 for the empty string).
pub open spec fn digits_value(s: Seq<char>) -> nat
    decreases s.len(),
{
    if s.len() == 0 {
        0
    } else {
        digits_value(s.drop_last()) * 10 + digit_value(s.last())
    }
}

/// What `str::parse::<i64>` gives: an optional `+` or `-`, then one or more
/// decimal digits, whose value must fit in `i64`.
pub open spec fn parse_i64_spec(s: Seq<char>) -> Option<i64> {
    if s.len() == 0 {
        None
    } else {
        let signed = s[0] == '+' || s[0] == '-';
        let body = if signed { s.skip(1) } else { s };
        if body.len() == 0 || !all_digits(body) {
            None
        } else {
            let v: int = if s[0] == '-' { -digits_value(body) } else { digits_value(body) as int };
            if i64::MIN <= v <= i64::MAX {
                Some(v as i64)
            } else {
                None
            }
        }
    }
}

/// Extending a digit string never lowers its value.
pub proof fn lemma_digits_value_prefix(s: Seq<char>, k: int)
    requires
        0 <= k <= s.len(),
        all_digits(s),
    ensures
        digits_value(s.take(k)) <= digits_value(s),
    decreases s.len() - k,
{
    if k < s.len() {
        lemma_digits_value_prefix(s, k + 1);
        assert(s.take(k + 1).drop_last() =~= s.take(k));
    } else {
        assert(s.take(k) =~= s);
    }
}

/// Parses `s[start..end]` as in `str::parse::<i64>`.
#[verifier::loop_isolation(false)]
pub fn parse_i64(s: &Vec<char>, start: usize, end: usize) -> (r: Option<i64>)
    requires
        start <= end <= s@.len(),
    ensures
        r == parse_i64_spec(s@.subrange(start as int, end as int)),
{
    let ghost t = s@.subrange(start as int, end as int);
    if start == end {
        return None;
    }
    let first = s[start];
    let negative = first == '-';
    let body_start: usize = if first == '+' || first == '-' { start + 1 } else { start };
    let ghost body = s@.subrange(body_start as int, end as int);
    assert(body =~= if first == '+' || first == '-' { t.skip(1) } else { t });
    if body_start == end {
        return None;
    }
    // Magnitude accumulated so far; the bound is the largest magnitude an
    // `i64` can take.
    let bound: u64 = if negative { 9223372036854775808u64 } else { 9223372036854775807u64 };
    let mut acc: u64 = 0;
    let mut i: usize = body_start;
    while i < end
        invariant
            body_start <= i <= end <= s@.len(),
            body == s@.subrange(body_start as int, end as int),
            all_digits(s@.subrange(body_start as int, i as int)),
            acc as nat == digits_value(s@.subrange(body_start as int, i as int)),
            acc <= bound,
        decreases end - i,
    {
        let c = s[i];
        if !('0' <= c && c <= '9') {
            proof {
                let k = i - body_start;
                assert(body[k] == c);
                assert(!all_digits(body));
            }
            return None;
        }
        let d: u64 = (c as u32 - 48) as u64;
        assert(d <= 9);
        let ghost prev = s@.subrange(body_start as int, i as int);
        let ghost next = s@.subrange(body_start as int, i + 1);
        proof {
            assert(next.drop_last() =~= prev);
            assert(next.last() == c);
            assert(all_digits(next));
        }
        if acc > (bound - d) / 10 {
            proof {
                // acc * 10 + d > bound: the value already exceeds the range,
                // and any further digits only raise it.
                assert(acc * 10 + d > bound) by (nonlinear_arith)
                    requires
                        acc > (bound - d) / 10,
                        d <= 9,
                        d <= bound,
                ;
                if all_digits(body) {
                    lemma_digits_value_prefix(body, (i + 1 - body_start) as int);
                    assert(body.take((i + 1 - body_start) as int) =~= next);
                }
            }
            return None;
        }
        proof {
            assert(acc * 10 + d <= bound) by (nonlinear_arith)
                requires
                    acc <= (bound - d) / 10,
                    d <= 9,
                    d <= bound,
            ;
        }
        acc = acc * 10 + d;
        i = i + 1;
    }
    assert(s@.subrange(body_start as int, i as int) =~= body);
    if negative {
        if acc == 9223372036854775808u64 {
            Some(-9223372036854775807i64 - 1)
        } else {
            let m: i64 = acc as i64;
            Some(-m)
        }
    } else {
        Some(acc as i64)
    }
}

/// The decimal text of `n` is a digit string whose value is `n`.
pub proof fn lemma_decimal_text_value(n: nat)
    ensures
        decimal_text(n).len() >= 1,
        all_digits(decimal_text(n)),
        digits_value(decimal_text(n)) == n,
    decreases n,
{
    lemma_decimal_bytes_digits(n);
    let t = decimal_text(n);
    assert forall|i: int| 0 <= i < t.len() implies is_digit(#[trigger] t[i]) by {
        let b = decimal_bytes(n)[i];
        assert(48 <= b <= 57);
        assert(t[i] == b as char);
    }
    if n >= 10 {
        lemma_decimal_text_value(n / 10);
        assert(t.drop_last() =~= decimal_text(n / 10));
        let d = n % 10;
        assert(t.last() == ((48 + d) as u8) as char);
        assert(digit_value(t.last()) == d);
        assert((n / 10) * 10 + n % 10 == n) by (nonlinear_arith);
        assert(digits_value(t) == digits_value(t.drop_last()) * 10 + digit_value(t.last()));
    } else {
        assert(t.drop_last() =~= Seq::<char>::empty());
        assert(digit_value(t.last()) == n);
        assert(digits_value(t.drop_last()) == 0);
        assert(digits_value(t) == digits_value(t.drop_last()) * 10 + digit_value(t.last()));
    }
}

/// Printing an `i64` in decimal and parsing the text back gives the same
/// number.
pub proof fn lemma_parse_signed_decimal(i: i64)
    ensures
        parse_i64_spec(signed_decimal_text(i as int)) == Some(i),
{
    let s = signed_decimal_text(i as int);
    if i < 0 {
        let m: nat = (-i) as nat;
        lemma_decimal_text_value(m);
        assert(s =~= seq!['-'] + decimal_text(m));
        assert(s.skip(1) =~= decimal_text(m));
    } else {
        let m: nat = i as nat;
        lemma_decimal_text_value(m);
        assert(s =~= decimal_text(m));
        assert(is_digit(s[0]));
    }
}

/// `10` to the power `k`.
pub open spec fn pow10(k: nat) -> nat
    decreases k,
{
    if k == 0 {
        1
    } else {
        10 * pow10((k - 1) as nat)
    }
}

/// A number below `10^k` has at most `k` decimal digits.
pub proof fn lemma_decimal_bytes_len(n: nat, k: nat)
    requires
        k >= 1,
        n < pow10(k),
    ensures
        decimal_bytes(n).len() <= k,
    decreases n,
{
    if n >= 10 {
        let k1 = (k - 1) as nat;
        if k == 1 {
            assert(pow10(1) == 10 * pow10(0));
        }
        assert(k >= 2);
        assert(pow10(k) == 10 * pow10(k1));
        assert(n / 10 < pow10(k1)) by (nonlinear_arith)
            requires
                n < 10 * pow10(k1),
        ;
        lemma_decimal_bytes_len(n / 10, k1);
    }
}

/// The decimal text of an `i64` is ASCII and at most 20 characters long.
pub proof fn lemma_signed_decimal_ascii(i: i64)
    ensures
        is_ascii_bytes(signed_decimal_bytes(i as int)),
        signed_decimal_bytes(i as int).len() <= 20,
{
    let m: nat = if i < 0 { (-i) as nat } else { i as nat };
    lemma_decimal_bytes_digits(m);
    assert(pow10(19) == 10000000000000000000) by {
        reveal_with_fuel(pow10, 20);
    }
    lemma_decimal_bytes_len(m, 19);
    let b = signed_decimal_bytes(i as int);
    if i < 0 {
        assert(b == seq![45u8] + decimal_bytes(m));
        assert forall|j: int| 0 <= j < b.len() implies #[trigger] b[j] < 128 by {
            if j > 0 {
                assert(b[j] == decimal_bytes(m)[j - 1]);
            }
        }
    } else {
        assert forall|j: int| 0 <= j < b.len() implies #[trigger] b[j] < 128 by {
            assert(b[j] == decimal_bytes(m)[j]);
        }
    }
}

/// Decimal text of a signed integer (what `to_string` gives).
pub fn i64_to_string(i: i64) -> (s: String)
    ensures
        s@ == signed_decimal_text(i as int),
{
    let mut bytes: Vec<u8> = Vec::new();
    push_signed_decimal(&mut bytes, i);
    proof {
        lemma_signed_decimal_ascii(i);
        assert(bytes@ =~= signed_decimal_bytes(i as int));
    }
    ascii_string(bytes)
}

/// The characters of `s`, in order.
pub fn chars_of(s: &str) -> (v: Vec<char>)
    ensures
        v@ == s@,
{
    let mut v: Vec<char> = Vec::new();
    for c in it: s.chars()
        invariant
            v@ == it.seq().take(it.index() as int),
    {
        v.push(c);
    }
    v
}

} // verus!
