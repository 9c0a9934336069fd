//! Hex-to-text decoding: a hexadecimal string becomes the text its byte
//! pairs encode, with invalid UTF-8 sequences replaced as the lossy decoding
//! does.

use vstd::prelude::*;
use vstd::string::StrSliceExecFns;
use vstd::string::StringSliceAdditionalSpecFns;

verus! {

/// Error from the hex decoder.
#[derive(Clone, Copy, PartialEq, Eq, Structural, Debug)]
pub enum HexDecodeError {
    /// The input is not a whole sequence of hexadecimal digit pairs.
    InvalidInput,
}

/// Whether `b` is the ASCII code of a hexadecimal digit.
pub open spec fn is_hex_digit(b: u8) -> bool {
    (48 <= b && b <= 57) || (97 <= b && b <= 102) || (65 <= b && b <= 70)
}

/// The numeric value of the hexadecimal digit with ASCII code `b`.
pub open spec fn hex_digit_value(b: u8) -> u8
    recommends
        is_hex_digit(b),
{
    if 48 <= b && b <= 57 {
        (b - 48) as u8
    } else if 97 <= b && b <= 102 {
        (b - 87) as u8
    } else {
        (b - 55) as u8
    }
}

/// Whether `s` is a decodable hex input: a whole number of pairs, every byte
/// a hexadecimal digit.
pub open spec fn is_hex_input(s: Seq<u8>) -> bool {
    &&& s.len() % 2 == 0
    &&& forall|j: int| 0 <= j < s.len() ==> is_hex_digit(#[trigger] s[j])
}

/// The bytes a hex input encodes, one byte per digit pair.
pub open spec fn hex_bytes(s: Seq<u8>) -> Seq<u8>
    recommends
        is_hex_input(s),
{
    Seq::new(
        (s.len() / 2) as nat,
        |j: int| (hex_digit_value(s[2 * j]) * 16 + hex_digit_value(s[2 * j + 1])) as u8,
    )
}

/// What the lossy UTF-8 decoding of a byte sequence reads as: a function of
/// the bytes alone.
pub uninterp spec fn lossy_utf8_of(bytes: Seq<u8>) -> Seq<char>;

/// Relies on String::from_utf8_lossy: decodes the bytes as UTF-8, replacing
/// each invalid sequence with the replacement character; the result depends
/// on the bytes alone.
#[verifier::external_body]
fn lossy_utf8(bytes: &Vec<u8>) -> (r: String)
    ensures
        r@ == lossy_utf8_of(bytes@),
{
    String::from_utf8_lossy(bytes.as_slice()).into_owned()
}

/// The numeric value of one hexadecimal digit byte, or nothing when the byte
/// is no hexadecimal digit.
fn hex_digit(b: u8) -> (r: Option<u8>)
    ensures
        match r {
            Some(v) => is_hex_digit(b) && v == hex_digit_value(b) && v <= 15,
            None => !is_hex_digit(b),
        },
{
    if b >= 48 && b <= 57 {
        Some(b - 48)
    } else if b >= 97 && b <= 102 {
        Some(b - 87)
    } else if b >= 65 && b <= 70 {
        Some(b - 55)
    } else {
        None
    }
}

/// Decode a hexadecimal string to text: each pair of hexadecimal digits
/// gives one byte, and the bytes are read as UTF-8, lossily. An input that
/// is not a whole sequence of hexadecimal digit pairs is rejected.
pub fn decode_hex_to_utf8(text_to_decode: &str) -> (r: Result<String, HexDecodeError>)
    ensures
        match r {
            Ok(s) => is_hex_input(text_to_decode.spec_bytes()) && s@ == lossy_utf8_of(
                hex_bytes(text_to_decode.spec_bytes()),
            ),
            Err(e) => !is_hex_input(text_to_decode.spec_bytes()) && e
                == HexDecodeError::InvalidInput,
        },
{
    let bytes = text_to_decode.as_bytes_vec();
    let n = bytes.len();
    if n % 2 != 0 {
        return Err(HexDecodeError::InvalidInput);
    }
    let half = n / 2;
    let mut out: Vec<u8> = Vec::new();
    let mut k: usize = 0;
    while k < half
        invariant
            bytes@ == text_to_decode.spec_bytes(),
            n == bytes@.len(),
            n % 2 == 0,
            half == n / 2,
            k <= half,
            out@.len() == k,
            forall|j: int| 0 <= j < 2 * k ==> is_hex_digit(#[trigger] bytes@[j]),
            forall|j: int|
                0 <= j < k ==> #[trigger] out@[j] == (hex_digit_value(bytes@[2 * j]) * 16
                    + hex_digit_value(bytes@[2 * j + 1])) as u8,
        decreases half - k,
    {
        let hi = match hex_digit(bytes[2 * k]) {
            Some(v) => v,
            None => {
                return Err(HexDecodeError::InvalidInput);
            },
        };
        let lo = match hex_digit(bytes[2 * k + 1]) {
            Some(v) => v,
            None => {
                return Err(HexDecodeError::InvalidInput);
            },
        };
        out.push(hi * 16 + lo);
        k = k + 1;
    }
    proof {
        assert(out@ =~= hex_bytes(bytes@));
    }
    Ok(lossy_utf8(&out))
}

} // verus!
