//! Hex encoding and decoding of key material, as the encryption examples
//! use it: a public key or ciphertext travels as a lowercase hex string.
//! The conversions themselves are made by the `hex` crate through trusted
//! wrappers with exact contracts; parsing a key argument is verified
//! against them.

use vstd::prelude::*;
use vstd::string::StringSliceAdditionalSpecFns;

verus! {

/// The lowercase hex digit for a value below 16.
pub open spec fn hex_digit_char(v: u8) -> char {
    if v == 0 {
        '0'
    } else if v == 1 {
        '1'
    } else if v == 2 {
        '2'
    } else if v == 3 {
        '3'
    } else if v == 4 {
        '4'
    } else if v == 5 {
        '5'
    } else if v == 6 {
        '6'
    } else if v == 7 {
        '7'
    } else if v == 8 {
        '8'
    } else if v == 9 {
        '9'
    } else if v == 10 {
        'a'
    } else if v == 11 {
        'b'
    } else if v == 12 {
        'c'
    } else if v == 13 {
        'd'
    } else if v == 14 {
        'e'
    } else {
        'f'
    }
}

/// The lowercase hex rendering of a byte sequence: two digits per byte,
/// high nibble first.
pub open spec fn spec_hex_encode(b: Seq<u8>) -> Seq<char> {
    Seq::new(b.len() * 2, |i: int|
        if i % 2 == 0 {
            hex_digit_char(b[i / 2] >> 4u8)
        } else {
            hex_digit_char(b[i / 2] & 0x0Fu8)
        },
    )
}

/// An ASCII hex digit, either case.
pub open spec fn is_hex_digit_byte(b: u8) -> bool {
    (48 <= b <= 57) || (97 <= b <= 102) || (65 <= b <= 70)
}

/// The value of an ASCII hex digit.
pub open spec fn hex_val(b: u8) -> u8
    recommends
        is_hex_digit_byte(b),
{
    if 48 <= b <= 57 {
        (b - 48) as u8
    } else if 97 <= b <= 102 {
        (b - 97 + 10) as u8
    } else {
        (b - 65 + 10) as u8
    }
}

/// A well-formed hex string as bytes: even length, hex digits throughout.
pub open spec fn spec_hex_wellformed(d: Seq<u8>) -> bool {
    d.len() % 2 == 0 && forall|i: int| 0 <= i < d.len() ==> is_hex_digit_byte(#[trigger] d[i])
}

/// The bytes encoded by a well-formed hex string.
pub open spec fn spec_hex_decode(d: Seq<u8>) -> Seq<u8>
    recommends
        spec_hex_wellformed(d),
{
    Seq::new(d.len() / 2, |i: int| (hex_val(d[2 * i]) << 4u8) | hex_val(d[2 * i + 1]))
}

/// Index of the first byte that is not a hex digit (`d.len()` if none).
pub open spec fn first_bad_hex_index(d: Seq<u8>) -> int
    decreases d.len(),
{
    if d.len() == 0 {
        0
    } else if !is_hex_digit_byte(d[0]) {
        0
    } else {
        1 + first_bad_hex_index(d.drop_first())
    }
}

/// Why a hex string failed to decode.
#[derive(Clone, Copy, Debug, PartialEq, Eq)]
pub enum HexError {
    /// A byte that is not a hex digit, at this position.
    InvalidChar { c: char, index: usize },
    /// Hex strings must pair their digits; this one has odd length.
    OddLength,
}

/// Relies on `hex::decode`: an even-length string of hex digits (either
/// case) decodes to its bytes, two digits per byte, high nibble first; an
/// odd length is reported before any digit check, and otherwise the first
/// byte that is no hex digit is reported with its position.
#[verifier::external_body]
fn hex_decode_bytes(data: &[u8]) -> (r: Result<Vec<u8>, HexError>)
    ensures
        r is Ok <==> spec_hex_wellformed(data@),
        r matches Ok(v) ==> v@ == spec_hex_decode(data@),
        r matches Err(e) ==> e == (if data@.len() % 2 != 0 {
            HexError::OddLength
        } else {
            HexError::InvalidChar {
                c: data@[first_bad_hex_index(data@)] as char,
                index: first_bad_hex_index(data@) as usize,
            }
        }),
{
    match hex::decode(data) {
        Ok(v) => Ok(v),
        Err(hex::FromHexError::OddLength) => Err(HexError::OddLength),
        Err(hex::FromHexError::InvalidHexCharacter { c, index }) => Err(
            HexError::InvalidChar { c, index },
        ),
        Err(hex::FromHexError::InvalidStringLength) => Err(HexError::OddLength),
    }
}

/// Relies on `hex::encode`: two lowercase digits per byte, high nibble
/// first.
#[verifier::external_body]
fn hex_encode_bytes(data: &[u8]) -> (r: String)
    ensures
        r@ == spec_hex_encode(data@),
{
    hex::encode(data)
}

/// Render key material as a lowercase hex string.
pub fn to_hex_string(data: &Vec<u8>) -> (r: String)
    ensures
        r@ == spec_hex_encode(data@),
{
    hex_encode_bytes(data.as_slice())
}

/// Parse a hex-encoded public key (or any hex-carried byte string) into
/// its bytes. The byte stream of the argument must be an even-length run
/// of hex digits; the error names the odd length or the first bad byte.
pub fn decode_public_key(public_key_hex: &str) -> (r: Result<Vec<u8>, HexError>)
    ensures
        r is Ok <==> spec_hex_wellformed(public_key_hex.spec_bytes()),
        r matches Ok(v) ==> v@ == spec_hex_decode(public_key_hex.spec_bytes()),
        r matches Err(e) ==> e == (if public_key_hex.spec_bytes().len() % 2 != 0 {
            HexError::OddLength
        } else {
            HexError::InvalidChar {
                c: public_key_hex.spec_bytes()[first_bad_hex_index(
                    public_key_hex.spec_bytes(),
                )] as char,
                index: first_bad_hex_index(public_key_hex.spec_bytes()) as usize,
            }
        }),
{
    hex_decode_bytes(public_key_hex.as_bytes())
}

} // verus!
