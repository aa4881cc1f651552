//! Percent-encoding of a query token.

use vstd::prelude::*;
use vstd::utf8::*;

verus! {

/// The bytes that stand for themselves: ASCII letters and digits, and `-`, `.`, `_`, `~`.
pub open spec fn is_unreserved(b: u8) -> bool {
    ||| 0x30 <= b <= 0x39
    ||| 0x41 <= b <= 0x5a
    ||| 0x61 <= b <= 0x7a
    ||| b == 0x2d
    ||| b == 0x2e
    ||| b == 0x5f
    ||| b == 0x7e
}

/// The ASCII digit of a half byte, in upper case.
pub open spec fn hex_digit(n: u8) -> u8
    recommends
        n < 16,
{
    if n < 10 {
        (0x30 + n) as u8
    } else {
        (0x37 + n) as u8
    }
}

/// The half byte that an ASCII hexadecimal digit stands for, in either case.
pub open spec fn hex_value(c: u8) -> Option<u8> {
    if 0x30 <= c <= 0x39 {
        Some((c - 0x30) as u8)
    } else if 0x41 <= c <= 0x46 {
        Some((c - 0x37) as u8)
    } else if 0x61 <= c <= 0x66 {
        Some((c - 0x57) as u8)
    } else {
        None
    }
}

/// One byte, encoded: itself, or `%` and its two hexadecimal digits.
pub open spec fn encoded_byte(b: u8) -> Seq<u8> {
    if is_unreserved(b) {
        seq![b]
    } else {
        seq![0x25u8, hex_digit(b / 16), hex_digit(b % 16)]
    }
}

/// Some bytes, encoded one after the other.
pub open spec fn percent_encoded_bytes(bytes: Seq<u8>) -> Seq<u8>
    decreases bytes.len(),
{
    if bytes.len() == 0 {
        Seq::empty()
    } else {
        encoded_byte(bytes[0]) + percent_encoded_bytes(bytes.skip(1))
    }
}

/// Some bytes, decoded: `%` and two hexadecimal digits give one byte, and
/// every other byte stands for itself.
pub open spec fn percent_decoded_bytes(bytes: Seq<u8>) -> Seq<u8>
    decreases bytes.len(),
{
    if bytes.len() == 0 {
        Seq::empty()
    } else if bytes[0] == 0x25 && bytes.len() >= 3 && hex_value(bytes[1]) is Some && hex_value(
        bytes[2],
    ) is Some {
        seq![(hex_value(bytes[1])->0 * 16 + hex_value(bytes[2])->0) as u8] + percent_decoded_bytes(
            bytes.skip(3),
        )
    } else {
        seq![bytes[0]] + percent_decoded_bytes(bytes.skip(1))
    }
}

/// ASCII bytes as characters.
pub open spec fn ascii_text(bytes: Seq<u8>) -> Seq<char> {
    Seq::new(bytes.len(), |i: int| bytes[i] as char)
}

/// A text, percent-encoded: the encoding of its UTF-8 bytes.
pub open spec fn percent_encoded(text: Seq<char>) -> Seq<char> {
    ascii_text(percent_encoded_bytes(encode_utf8(text)))
}

/// A percent-encoded text, decoded: its bytes decoded, read as UTF-8.
pub open spec fn percent_decoded(text: Seq<char>) -> Seq<char> {
    decode_utf8(percent_decoded_bytes(encode_utf8(text)))
}

/// `urlencoding::encode`. Trusted: every byte of the text's UTF-8 form but an
/// ASCII letter, a digit, `-`, `.`, `_` and `~` becomes `%` and two upper-case
/// hexadecimal digits, and those stand for themselves.
#[verifier::external_body]
pub(crate) fn encode(text: &str) -> (r: String)
    ensures
        r@ == percent_encoded(text@),
{
    urlencoding::encode(text).into_owned()
}

proof fn lemma_encoded_byte(b: u8)
    ensures
        forall|i: int|
            0 <= i < encoded_byte(b).len() ==> is_unreserved(#[trigger] encoded_byte(b)[i])
                || encoded_byte(b)[i] == 0x25,
        hex_value(hex_digit(b / 16)) == Some((b / 16) as u8),
        hex_value(hex_digit(b % 16)) == Some((b % 16) as u8),
        is_unreserved(b) ==> b != 0x25,
{
}

/// Encoded bytes are URL-safe, and decoding them gives the bytes back.
pub proof fn lemma_bytes_round_trip(bytes: Seq<u8>)
    ensures
        forall|i: int|
            0 <= i < percent_encoded_bytes(bytes).len() ==> is_unreserved(
                #[trigger] percent_encoded_bytes(bytes)[i],
            ) || percent_encoded_bytes(bytes)[i] == 0x25,
        percent_decoded_bytes(percent_encoded_bytes(bytes)) == bytes,
    decreases bytes.len(),
{
    if bytes.len() > 0 {
        let whole = percent_encoded_bytes(bytes);
        let tail = percent_encoded_bytes(bytes.skip(1));
        lemma_encoded_byte(bytes[0]);
        lemma_bytes_round_trip(bytes.skip(1));
        if is_unreserved(bytes[0]) {
            assert(whole.skip(1) =~= tail);
        } else {
            assert(whole.skip(3) =~= tail);
        }
    }
}

/// A token of unreserved characters alone is written as it is.
pub proof fn lemma_unreserved_token_is_kept(token: Seq<char>)
    requires
        forall|i: int|
            0 <= i < token.len() ==> '\0' <= #[trigger] token[i] <= '\u{7f}' && is_unreserved(
                token[i] as u8,
            ),
    ensures
        percent_encoded(token) == token,
{
    let bytes = encode_utf8(token);
    is_ascii_chars_encode_utf8(token);
    lemma_unreserved_bytes_are_kept(bytes);
}

proof fn lemma_unreserved_bytes_are_kept(bytes: Seq<u8>)
    requires
        forall|i: int| 0 <= i < bytes.len() ==> is_unreserved(#[trigger] bytes[i]),
    ensures
        percent_encoded_bytes(bytes) == bytes,
    decreases bytes.len(),
{
    if bytes.len() > 0 {
        lemma_unreserved_bytes_are_kept(bytes.skip(1));
    }
}

/// Decoding an encoded token recovers the token exactly, whatever characters
/// it holds; and the encoded form holds nothing but ASCII letters, digits,
/// `-`, `.`, `_`, `~` and `%`.
pub proof fn lemma_decode_recovers_token(token: Seq<char>)
    ensures
        percent_decoded(percent_encoded(token)) == token,
        forall|i: int|
            0 <= i < percent_encoded(token).len() ==> {
                let c = #[trigger] percent_encoded(token)[i];
                c as u32 <= 0x7f && (is_unreserved(c as u8) || c == '%')
            },
{
    let bytes = encode_utf8(token);
    let text = percent_encoded(token);
    lemma_bytes_round_trip(bytes);
    assert(is_ascii_chars(text));
    is_ascii_chars_encode_utf8(text);
    assert(encode_utf8(text) =~= percent_encoded_bytes(bytes));
    encode_utf8_decode_utf8(token);
}

} // verus!
