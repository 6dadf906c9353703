//! Transport encodings of scalar values: unsigned integers travel as decimal
//! strings, names as hexadecimal strings, and the arguments of a call in a
//! binary form of fixed width.

use crate::json::DecodeError;
use vstd::arithmetic::power2::pow2;
use vstd::prelude::*;
use vstd::slice::slice_subrange;
use vstd::string::*;
use vstd::utf8::{decode_utf8, encode_utf8, is_ascii_chars, valid_utf8};

verus! {

/// Whether `c` is one of the ten ASCII decimal digits.
pub open spec fn is_digit(c: char) -> bool {
    '0' <= c <= '9'
}

/// The value of the digit `c`.
pub open spec fn digit_value(c: char) -> nat {
    (c as nat - '0' as nat) as nat
}

/// Whether every character of `s` is a decimal digit.
pub open spec fn all_digits(s: Seq<char>) -> bool {
    forall|i: int| 0 <= i < s.len() ==> is_digit(#[trigger] s[i])
}

/// The number that the digit string `s` denotes, most significant digit first.
pub open spec fn digits_value(s: Seq<char>) -> nat
    decreases s.len(),
{
    if s.len() == 0 {
        0
    } else {
        digits_value(s.drop_last()) * 10 + digit_value(s.last())
    }
}

/// The text without a leading plus sign, if it has one.
pub open spec fn unsigned_body(s: Seq<char>) -> Seq<char> {
    if s.len() > 0 && s[0] == '+' {
        s.subrange(1, s.len() as int)
    } else {
        s
    }
}

/// What a decimal string denotes as an unsigned 64-bit integer: an optional
/// plus sign, then at least one digit, the whole not above `u64::MAX`.
pub open spec fn decimal_u64(s: Seq<char>) -> Option<u64> {
    let body = unsigned_body(s);
    if body.len() > 0 && all_digits(body) && digits_value(body) <= u64::MAX {
        Some(digits_value(body) as u64)
    } else {
        None
    }
}

/// A digit string is worth at least as much as each of its prefixes.
pub proof fn lemma_digits_value_prefix(s: Seq<char>, k: int)
    requires
        0 <= k <= s.len(),
    ensures
        digits_value(s.subrange(0, k)) <= digits_value(s),
    decreases s.len() - k,
{
    if k == s.len() {
        assert(s.subrange(0, k) =~= s);
    } else {
        lemma_digits_value_prefix(s, k + 1);
        let longer = s.subrange(0, k + 1);
        assert(longer.drop_last() =~= s.subrange(0, k));
    }
}

/// Reads an unsigned 64-bit integer from its decimal string.
pub fn parse_u64(s: &str) -> (r: Option<u64>)
    ensures
        r == decimal_u64(s@),
{
    broadcast use is_ascii_spec_bytes;

    if !s.is_ascii() {
        proof {
            let j = choose|j: int| 0 <= j < s@.len() && !('\0' <= #[trigger] s@[j] <= '\u{7f}');
            let body = unsigned_body(s@);
            if s@[0] == '+' {
                assert(j >= 1);
                assert(body[j - 1] == s@[j]);
            } else {
                assert(body[j] == s@[j]);
            }
        }
        return None;
    }
    let bytes = s.as_bytes();
    let n: usize = bytes.len();
    let start: usize = if n > 0 && bytes[0] == 43u8 { 1 } else { 0 };
    assert(unsigned_body(s@) =~= s@.subrange(start as int, n as int));
    if start == n {
        return None;
    }
    let ghost body = unsigned_body(s@);
    let mut acc: u64 = 0;
    let mut i: usize = start;
    while i < n
        invariant
            start <= i <= n,
            n == bytes@.len(),
            n == s@.len(),
            is_ascii_chars(s@),
            forall|k: int| 0 <= k < n ==> bytes@[k] == s@[k] as u8,
            body == s@.subrange(start as int, n as int),
            body == unsigned_body(s@),
            all_digits(body.subrange(0, i - start)),
            acc == digits_value(body.subrange(0, i - start)),
        decreases n - i,
    {
        let b: u8 = bytes[i];
        let ghost c = s@[i as int];
        assert(c == body[i - start]);
        assert('\0' <= c <= '\u{7f}');
        assert(b == c as u8);
        if b < 48u8 || b > 57u8 {
            assert(!is_digit(body[i - start]));
            return None;
        }
        let d: u64 = (b - 48u8) as u64;
        proof {
            let next = body.subrange(0, i - start + 1);
            assert(next.drop_last() =~= body.subrange(0, i - start));
            assert(next.last() == c);
            assert(digit_value(c) == d);
            assert(digits_value(next) == acc * 10 + d);
            lemma_digits_value_prefix(body, i - start + 1);
            assert forall|k: int| 0 <= k < next.len() implies is_digit(#[trigger] next[k]) by {
                if k < i - start {
                    assert(next[k] == body.subrange(0, i - start)[k]);
                }
            }
        }
        if acc > (u64::MAX - d) / 10 {
            assert(digits_value(body) > u64::MAX);
            return None;
        }
        acc = acc * 10 + d;
        i = i + 1;
    }
    assert(body.subrange(0, n - start) =~= body);
    Some(acc)
}

/// The value of the hexadecimal digit `c`, in either case; `None` for any
/// other character.
pub open spec fn hex_digit(c: char) -> Option<u8> {
    if '0' <= c <= '9' {
        Some((c as u8 - 48) as u8)
    } else if 'a' <= c <= 'f' {
        Some((c as u8 - 87) as u8)
    } else if 'A' <= c <= 'F' {
        Some((c as u8 - 55) as u8)
    } else {
        None
    }
}

/// Whether every character of `s` is a hexadecimal digit.
pub open spec fn all_hex(s: Seq<char>) -> bool {
    forall|i: int| 0 <= i < s.len() ==> hex_digit(#[trigger] s[i]).is_some()
}

/// The number that the hexadecimal digit string `s` denotes, most
/// significant digit first.
pub open spec fn hex_number(s: Seq<char>) -> nat
    decreases s.len(),
{
    if s.len() == 0 {
        0
    } else {
        hex_number(s.drop_last()) * 16 + match hex_digit(s.last()) {
            Some(d) => d as nat,
            None => 0,
        }
    }
}

/// Whether the bytes are ASCII hexadecimal digits, in either case, and even
/// in number.
pub open spec fn hex_pairs(data: Seq<u8>) -> bool {
    data.len() % 2 == 0 && forall|i: int|
        0 <= i < data.len() ==> hex_digit(#[trigger] data[i] as char).is_some()
}

/// The bytes that pairs of hexadecimal digits spell: of each pair the first
/// digit gives the high half of the byte and the second the low half.
pub open spec fn hex_bytes(data: Seq<u8>) -> Seq<u8> {
    Seq::new(
        data.len() / 2,
        |i: int|
            (hex_digit(data[2 * i] as char).unwrap() * 16 + hex_digit(
                data[2 * i + 1] as char,
            ).unwrap()) as u8,
    )
}

#[verifier::external_type_specification]
#[verifier::external_body]
pub struct ExFromHexError(hex::FromHexError);

/// Calls `hex::decode`. Trusted: the call succeeds exactly on an even number
/// of bytes that are all ASCII hexadecimal digits, in either case, and then
/// hands out one byte for each pair, the first digit of the pair being the
/// high half.
#[verifier::external_body]
fn hex_decode(data: &[u8]) -> (r: Result<Vec<u8>, hex::FromHexError>)
    ensures
        r is Ok <==> hex_pairs(data@),
        r is Ok ==> r->Ok_0@ == hex_bytes(data@),
{
    hex::decode(data)
}

/// Calls `String::from_utf8`. Trusted: the call succeeds exactly on bytes
/// that are valid UTF-8, and the string then holds the characters that the
/// bytes encode.
#[verifier::external_body]
fn string_from_utf8(bytes: Vec<u8>) -> (r: Option<String>)
    ensures
        r is Some <==> valid_utf8(bytes@),
        r is Some ==> r->Some_0@ == decode_utf8(bytes@),
{
    String::from_utf8(bytes).ok()
}

/// The bytes without the prefixes `0x` that they begin with, however many.
pub open spec fn strip_prefixes(data: Seq<u8>) -> Seq<u8>
    decreases data.len(),
{
    if data.len() >= 2 && data[0] == 48 && data[1] == 120 {
        strip_prefixes(data.skip(2))
    } else {
        data
    }
}

/// The name that a hexadecimal text spells: after any prefixes `0x`, pairs
/// of hexadecimal digits, which give the bytes of the name in UTF-8.
pub open spec fn name_of_hex(s: Seq<char>) -> Result<Seq<char>, DecodeError> {
    let digits = strip_prefixes(encode_utf8(s));
    if !hex_pairs(digits) {
        Err(DecodeError::BadHex)
    } else if !valid_utf8(hex_bytes(digits)) {
        Err(DecodeError::BadUtf8)
    } else {
        Ok(decode_utf8(hex_bytes(digits)))
    }
}

/// Reads a name from its hexadecimal text.
pub fn read_hex_name(s: &str) -> (r: Result<String, DecodeError>)
    ensures
        match r {
            Ok(name) => name_of_hex(s@) == Ok::<Seq<char>, DecodeError>(name@),
            Err(e) => name_of_hex(s@) == Err::<Seq<char>, DecodeError>(e),
        },
{
    let bytes = s.as_bytes();
    let n: usize = bytes.len();
    let mut k: usize = 0;
    assert(bytes@.skip(0) =~= bytes@);
    while n - k >= 2 && bytes[k] == 48u8 && bytes[k + 1] == 120u8
        invariant
            0 <= k <= n,
            n == bytes@.len(),
            strip_prefixes(bytes@) == strip_prefixes(bytes@.skip(k as int)),
        decreases n - k,
    {
        assert(bytes@.skip(k as int).skip(2) =~= bytes@.skip(k + 2));
        k = k + 2;
    }
    let digits = slice_subrange(bytes, k, n);
    assert(digits@ =~= bytes@.skip(k as int));
    match hex_decode(digits) {
        Err(_) => Err(DecodeError::BadHex),
        Ok(decoded) => match string_from_utf8(decoded) {
            None => Err(DecodeError::BadUtf8),
            Some(name) => Ok(name),
        },
    }
}

/// The character of the decimal digit `d`.
pub open spec fn digit_char(d: nat) -> char {
    (48 + d) as u8 as char
}

/// The decimal digits of `n`, most significant first, without zeros before
/// them; of zero, the one digit `0`.
pub open spec fn decimal_digits_of(n: nat) -> Seq<char>
    decreases n,
{
    if n < 10 {
        seq![digit_char(n)]
    } else {
        decimal_digits_of(n / 10).push(digit_char(n % 10))
    }
}

/// The decimal digits of a number are digits, at least one, and denote the
/// number.
pub proof fn lemma_decimal_digits(n: nat)
    ensures
        decimal_digits_of(n).len() > 0,
        all_digits(decimal_digits_of(n)),
        digits_value(decimal_digits_of(n)) == n,
    decreases n,
{
    let d = decimal_digits_of(n);
    if n < 10 {
        assert(d.drop_last() =~= Seq::<char>::empty());
        assert(d.last() == digit_char(n));
        assert(digits_value(d.drop_last()) == 0);
    } else {
        let front = decimal_digits_of(n / 10);
        lemma_decimal_digits(n / 10);
        assert(d.drop_last() =~= front);
        assert(d.last() == digit_char(n % 10));
        assert forall|i: int| 0 <= i < d.len() implies is_digit(#[trigger] d[i]) by {
            if i < front.len() {
                assert(d[i] == front[i]);
            }
        }
    }
}

/// What goes out as the decimal string of an integer reads back as that
/// integer.
pub proof fn lemma_decimal_round_trip(n: u64)
    ensures
        decimal_u64(decimal_digits_of(n as nat)) == Some(n),
{
    lemma_decimal_digits(n as nat);
    let d = decimal_digits_of(n as nat);
    assert(is_digit(d[0]));
    assert(unsigned_body(d) == d);
}

/// Calls `to_string` on an unsigned 64-bit integer. Trusted: the text is
/// the decimal digits of the number, without a sign and without zeros before
/// them.
#[verifier::external_body]
fn decimal_text(n: u64) -> (r: String)
    ensures
        r@ == decimal_digits_of(n as nat),
{
    n.to_string()
}

/// The decimal string as which an integer travels.
pub fn u64_to_str(value: &u64) -> (r: String)
    ensures
        r@ == decimal_digits_of(*value as nat),
{
    decimal_text(*value)
}

/// The decimal string as which an integer travels, where there is one.
pub fn u64_option_to_str(value: &Option<u64>) -> (r: Option<String>)
    ensures
        match value {
            Some(v) => r.is_some() && r.unwrap()@ == decimal_digits_of(*v as nat),
            None => r.is_none(),
        },
{
    match value {
        None => None,
        Some(v) => Some(decimal_text(*v)),
    }
}

/// The bytes of an unsigned 64-bit integer, least significant first.
pub open spec fn le_bytes_u64(v: u64) -> Seq<u8> {
    Seq::new(8, |i: int| ((v as nat / pow2((8 * i) as nat)) % 256) as u8)
}

/// The bytes of an unsigned 128-bit integer, most significant first.
pub open spec fn be_bytes_u128(v: u128) -> Seq<u8> {
    Seq::new(16, |i: int| ((v as nat / pow2((8 * (15 - i)) as nat)) % 256) as u8)
}

/// Calls `aptos_bcs::to_bytes` on an unsigned 8-bit integer. Trusted: the
/// call succeeds and hands out the one byte.
#[verifier::external_body]
pub(crate) fn bcs_u8(v: u8) -> (r: Option<Vec<u8>>)
    ensures
        r is Some,
        r->Some_0@ == seq![v],
{
    aptos_sdk::aptos_bcs::to_bytes(&v).ok()
}

/// Calls `aptos_bcs::to_bytes` on an unsigned 64-bit integer. Trusted: the
/// call succeeds and hands out the eight bytes of the number, least
/// significant first.
#[verifier::external_body]
pub(crate) fn bcs_u64(v: u64) -> (r: Option<Vec<u8>>)
    ensures
        r is Some,
        r->Some_0@ == le_bytes_u64(v),
{
    aptos_sdk::aptos_bcs::to_bytes(&v).ok()
}

/// Calls `aptos_bcs::to_bytes` on a truth value. Trusted: the call succeeds
/// and hands out one byte, 1 for true and 0 for false.
#[verifier::external_body]
pub(crate) fn bcs_bool(v: bool) -> (r: Option<Vec<u8>>)
    ensures
        r is Some,
        r->Some_0@ == seq![if v { 1u8 } else { 0u8 }],
{
    aptos_sdk::aptos_bcs::to_bytes(&v).ok()
}

} // verus!
