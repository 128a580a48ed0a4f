//! Hexadecimal text, as the interfaces carry byte strings. The conversion
//! itself is done by the `hex` crate; this module states what it does.

use vstd::prelude::*;
use vstd::string::StringExecFns;
use crate::text::{strip_0x, without_0x};

verus! {

/// The lower-case hexadecimal digit of a value below sixteen.
pub open spec fn hex_digit(v: int) -> char {
    if v < 10 {
        (48 + v) as u8 as char
    } else {
        (87 + v) as u8 as char
    }
}

/// The value of a hexadecimal digit of either case, or -1 for any other
/// character.
pub open spec fn hex_value(c: char) -> int {
    if '0' <= c <= '9' {
        c as int - 48
    } else if 'a' <= c <= 'f' {
        c as int - 87
    } else if 'A' <= c <= 'F' {
        c as int - 55
    } else {
        -1
    }
}

/// The hexadecimal text of `bytes`: two lower-case digits for each byte, the
/// high half first.
pub open spec fn hex_text(bytes: Seq<u8>) -> Seq<char> {
    Seq::new(
        2 * bytes.len(),
        |i: int|
            if i % 2 == 0 {
                hex_digit(bytes[i / 2] as int / 16)
            } else {
                hex_digit(bytes[i / 2] as int % 16)
            },
    )
}

/// Whether `s` is hexadecimal text: an even number of hexadecimal digits.
pub open spec fn is_hex_text(s: Seq<char>) -> bool {
    s.len() % 2 == 0 && forall|i: int| 0 <= i < s.len() ==> hex_value(#[trigger] s[i]) >= 0
}

/// The bytes that hexadecimal text stands for.
pub open spec fn hex_bytes(s: Seq<char>) -> Seq<u8> {
    Seq::new((s.len() / 2) as nat, |i: int| (16 * hex_value(s[2 * i]) + hex_value(s[2 * i + 1])) as u8)
}

/// `hex::encode`: the text has two lower-case hexadecimal digits for each
/// byte of `data`, in order, the high half of a byte first.
#[verifier::external_body]
fn encode(data: &Vec<u8>) -> (text: String)
    ensures
        text@ == hex_text(data@),
{
    hex::encode(data)
}

/// What the decoder says of text that is no hexadecimal data: the `Display`
/// text of the error that `hex::decode` returns for it.
pub uninterp spec fn decode_error_text(text: Seq<char>) -> Seq<char>;

/// `hex::decode`, and the `Display` of its error: succeeds exactly on an even
/// number of hexadecimal digits of either case, and then returns one byte
/// for each pair of digits, the first digit of a pair as the high half. On
/// any other text it returns the text of the error, which the text decoded
/// alone decides.
#[verifier::external_body]
fn decode(text: &str) -> (out: Result<Vec<u8>, String>)
    ensures
        out.is_ok() == is_hex_text(text@),
        out matches Ok(bytes) ==> bytes@ == hex_bytes(text@),
        out matches Err(said) ==> said@ == decode_error_text(text@),
{
    match hex::decode(text) {
        Ok(bytes) => Ok(bytes),
        Err(error) => Err(error.to_string()),
    }
}

/// The text of `bytes` as results carry it: `0x`, then the hexadecimal text.
pub open spec fn prefixed_hex_text(bytes: Seq<u8>) -> Seq<char> {
    "0x"@ + hex_text(bytes)
}

/// Writes `bytes` as `0x` and their hexadecimal text.
pub fn to_prefixed_hex(bytes: &Vec<u8>) -> (text: String)
    ensures
        text@ == prefixed_hex_text(bytes@),
{
    let digits = encode(bytes);
    let mut text = String::from_str("0x");
    text.append(digits.as_str());
    text
}

/// Writes `bytes` as hexadecimal text.
pub fn to_hex(bytes: &Vec<u8>) -> (text: String)
    ensures
        text@ == hex_text(bytes@),
{
    encode(bytes)
}

/// Reads hexadecimal text. On text that is none it returns what the decoder
/// says of it.
pub fn from_hex(text: &str) -> (out: Result<Vec<u8>, String>)
    ensures
        out.is_ok() == is_hex_text(text@),
        out matches Ok(bytes) ==> bytes@ == hex_bytes(text@),
        out matches Err(said) ==> said@ == decode_error_text(text@),
{
    decode(text)
}

/// Reads hexadecimal text that may have `0x` in front, any number of times.
/// On text that is none it returns what the decoder says of what follows the
/// `0x`.
pub fn from_prefixed_hex(text: &str) -> (out: Result<Vec<u8>, String>)
    ensures
        out.is_ok() == is_hex_text(without_0x(text@)),
        out matches Ok(bytes) ==> bytes@ == hex_bytes(without_0x(text@)),
        out matches Err(said) ==> said@ == decode_error_text(without_0x(text@)),
{
    from_hex(strip_0x(text))
}

/// Reading the text written for `bytes` gives `bytes` back.
pub proof fn law_hex_round_trip(bytes: Seq<u8>)
    ensures
        is_hex_text(hex_text(bytes)),
        hex_bytes(hex_text(bytes)) == bytes,
{
    let text = hex_text(bytes);
    assert forall|i: int| 0 <= i < text.len() implies hex_value(#[trigger] text[i]) >= 0 by {
        lemma_digit_value(bytes[i / 2] as int / 16);
        lemma_digit_value(bytes[i / 2] as int % 16);
    }
    assert forall|i: int| 0 <= i < bytes.len() implies #[trigger] hex_bytes(text)[i] == bytes[i] by {
        lemma_digit_value(bytes[i] as int / 16);
        lemma_digit_value(bytes[i] as int % 16);
        assert(text[2 * i] == hex_digit(bytes[i] as int / 16));
        assert(text[2 * i + 1] == hex_digit(bytes[i] as int % 16));
    }
    assert(hex_bytes(text) =~= bytes);
}

/// A digit written for a value reads as that value.
pub proof fn lemma_digit_value(v: int)
    requires
        0 <= v < 16,
    ensures
        hex_value(hex_digit(v)) == v,
{
}

} // verus!
