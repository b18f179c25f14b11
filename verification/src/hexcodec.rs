//! Byte-safe hex encoding of ciphertext, with an exact mathematical model:
//! encoding yields two lowercase digits per byte, decoding accepts both
//! cases and fails on an odd length or a non-digit.

use vstd::prelude::*;

verus! {

/// The sixteen lowercase hex digits, in value order.
pub open spec fn hex_digits() -> Seq<char> {
    seq!['0', '1', '2', '3', '4', '5', '6', '7', '8', '9', 'a', 'b', 'c', 'd', 'e', 'f']
}

/// The lowercase digit for a value below sixteen.
pub open spec fn hex_digit_char(n: u8) -> char
    recommends
        n < 16,
{
    hex_digits()[n as int]
}

/// A character that decoding accepts: a digit of either case.
pub open spec fn is_hex_digit(c: char) -> bool {
    ('0' <= c && c <= '9') || ('a' <= c && c <= 'f') || ('A' <= c && c <= 'F')
}

/// The value of an accepted digit.
pub open spec fn hex_val(c: char) -> u8
    recommends
        is_hex_digit(c),
{
    if '0' <= c && c <= '9' {
        (c as u32 - 48) as u8
    } else if 'a' <= c && c <= 'f' {
        (c as u32 - 87) as u8
    } else {
        (c as u32 - 55) as u8
    }
}

/// The hex encoding of a byte sequence: the high digit then the low digit
/// of each byte, in order.
pub open spec fn hex_encode_spec(data: Seq<u8>) -> Seq<char> {
    Seq::new(
        data.len() * 2,
        |i: int|
            if i % 2 == 0 {
                hex_digit_char(data[i / 2] / 16)
            } else {
                hex_digit_char(data[i / 2] % 16)
            },
    )
}

/// The hex decoding of a character sequence: defined exactly when the
/// length is even and every character is a digit of either case.
pub open spec fn hex_decode_spec(text: Seq<char>) -> Option<Seq<u8>> {
    if text.len() % 2 != 0 {
        None
    } else if exists|i: int| 0 <= i < text.len() && !is_hex_digit(text[i]) {
        None
    } else {
        Some(
            Seq::new(
                text.len() / 2,
                |i: int| (hex_val(text[2 * i]) * 16 + hex_val(text[2 * i + 1])) as u8,
            ),
        )
    }
}

/// Each digit round-trips: it is accepted by decoding and decodes to the
/// value it encodes.
proof fn lemma_hex_digit_round_trip(n: u8)
    requires
        n < 16,
    ensures
        is_hex_digit(hex_digit_char(n)),
        hex_val(hex_digit_char(n)) == n,
{
}

/// Decoding inverts encoding: the encoding of any byte sequence decodes,
/// and decodes to that sequence.
pub proof fn lemma_hex_round_trip(data: Seq<u8>)
    ensures
        hex_decode_spec(hex_encode_spec(data)) == Some(data),
{
    let text = hex_encode_spec(data);
    assert forall|i: int| 0 <= i < text.len() implies is_hex_digit(text[i]) by {
        if i % 2 == 0 {
            lemma_hex_digit_round_trip(data[i / 2] / 16);
        } else {
            lemma_hex_digit_round_trip(data[i / 2] % 16);
        }
    }
    let decoded = hex_decode_spec(text)->Some_0;
    assert forall|i: int| 0 <= i < decoded.len() implies decoded[i] == data[i] by {
        lemma_hex_digit_round_trip(data[i] / 16);
        lemma_hex_digit_round_trip(data[i] % 16);
        assert(text[2 * i] == hex_digit_char(data[i] / 16));
        assert(text[2 * i + 1] == hex_digit_char(data[i] % 16));
        assert(data[i] / 16 * 16 + data[i] % 16 == data[i]) by {
            vstd::arithmetic::div_mod::lemma_fundamental_div_mod(data[i] as int, 16);
        }
    }
    assert(decoded =~= data);
}

/// Relies on `hex::encode`: two hex digits per byte, high digit first,
/// lowercase.
#[verifier::external_body]
pub(crate) fn hex_encode(data: &Vec<u8>) -> (r: String)
    ensures
        r@ == hex_encode_spec(data@),
{
    hex::encode(data)
}

/// Relies on `hex::decode`: yields the bytes exactly when the input has
/// even length and holds only hex digits of either case, and fails
/// otherwise.
#[verifier::external_body]
pub(crate) fn hex_decode(text: &str) -> (r: Option<Vec<u8>>)
    ensures
        match r {
            Some(v) => hex_decode_spec(text@) == Some(v@),
            None => hex_decode_spec(text@) is None,
        },
{
    hex::decode(text.as_bytes()).ok()
}

} // verus!
