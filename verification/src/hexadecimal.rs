//! Payloads written as hexadecimal text.

use vstd::prelude::*;
use vstd::string::StringSliceAdditionalSpecFns;

verus! {

/// The error of the `hex` crate's decoder.
#[verifier::external_type_specification]
#[verifier::external_body]
pub struct ExFromHexError(hex::FromHexError);

/// The value of a hexadecimal digit, in either case.
pub open spec fn spec_hex_digit(c: u8) -> Option<u8> {
    if 48 <= c <= 57 {
        Some((c - 48) as u8)
    } else if 97 <= c <= 102 {
        Some((c - 87) as u8)
    } else if 65 <= c <= 70 {
        Some((c - 55) as u8)
    } else {
        None
    }
}

/// The byte that two hexadecimal digits spell, the high one first.
pub open spec fn spec_hex_byte(high: u8, low: u8) -> u8
    recommends
        spec_hex_digit(high) is Some,
        spec_hex_digit(low) is Some,
{
    (16 * spec_hex_digit(high).unwrap() + spec_hex_digit(low).unwrap()) as u8
}

/// The bytes that a hexadecimal text spells: one byte for each pair of
/// digits. A text of odd length, or with anything but digits, spells nothing.
pub open spec fn spec_hex_decode(text: Seq<u8>) -> Option<Seq<u8>> {
    if text.len() % 2 != 0 {
        None
    } else if exists|i: int| 0 <= i < text.len() && spec_hex_digit(#[trigger] text[i]) is None {
        None
    } else {
        Some(Seq::new(text.len() / 2, |i: int| spec_hex_byte(text[2 * i], text[2 * i + 1])))
    }
}

/// The value of decoded bytes.
pub open spec fn optional_bytes_view(bytes: Option<Vec<u8>>) -> Option<Seq<u8>> {
    match bytes {
        Some(bytes) => Some(bytes@),
        None => None,
    }
}

/// Calls `hex::decode` on the bytes of the text. Not proved: that it succeeds
/// exactly on texts of even length made of the digits `0-9`, `a-f` and `A-F`,
/// and that each byte that comes back is sixteen times the value of the first
/// digit of its pair plus the value of the second.
#[verifier::external_body]
fn hex_decode(text: &[u8]) -> (result: Result<Vec<u8>, hex::FromHexError>)
    ensures
        match result {
            Ok(bytes) => spec_hex_decode(text@) == Some(bytes@),
            Err(_) => spec_hex_decode(text@) is None,
        },
{
    hex::decode(text)
}

/// The bytes that a hexadecimal text spells, or nothing when the text is not
/// hexadecimal.
pub fn decode_hex(text: &str) -> (bytes: Option<Vec<u8>>)
    ensures
        optional_bytes_view(bytes) == spec_hex_decode(text.spec_bytes()),
{
    match hex_decode(text.as_bytes()) {
        Ok(bytes) => Some(bytes),
        Err(_) => None,
    }
}

} // verus!
