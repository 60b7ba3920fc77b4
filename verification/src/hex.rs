//! Byte strings written in hexadecimal.

use vstd::prelude::*;
use crate::error::Error;

verus! {

/// The characters that are passed over when hexadecimal text is read.
pub open spec fn is_blank(c: char) -> bool {
    c == ' ' || c == '\r' || c == '\n' || c == '\t'
}

/// The value of a hexadecimal digit, in either case.
pub open spec fn digit_value(c: char) -> Option<u8> {
    let n = c as u32;
    if 48 <= n <= 57 {
        Some((n - 48) as u8)
    } else if 65 <= n <= 70 {
        Some((n - 55) as u8)
    } else if 97 <= n <= 102 {
        Some((n - 87) as u8)
    } else {
        None
    }
}

/// The text without its blanks.
pub open spec fn unblanked(s: Seq<char>) -> Seq<char> {
    s.filter(|c: char| !is_blank(c))
}

/// The bytes that a string of hexadecimal digits stands for, two digits to
/// a byte; nothing where a character is no digit or a digit is left over.
pub open spec fn digits_bytes(digits: Seq<char>) -> Option<Seq<u8>>
    decreases digits.len(),
{
    if digits.len() == 0 {
        Some(Seq::empty())
    } else if digits.len() == 1 {
        None
    } else {
        let n = digits.len() as int;
        match (
            digits_bytes(digits.subrange(0, n - 2)),
            digit_value(digits[n - 2]),
            digit_value(digits[n - 1]),
        ) {
            (Some(front), Some(high), Some(low)) => Some(front.push((high * 16 + low) as u8)),
            _ => None,
        }
    }
}

/// The bytes that hexadecimal text stands for, blanks passed over.
pub open spec fn text_bytes(s: Seq<char>) -> Option<Seq<u8>> {
    digits_bytes(unblanked(s))
}

/// The lower-case digit of a value below 16.
pub open spec fn digit_of(n: u8) -> char {
    seq!['0', '1', '2', '3', '4', '5', '6', '7', '8', '9', 'a', 'b', 'c', 'd', 'e', 'f'][n as int]
}

/// The lower-case hexadecimal text of a byte string, two digits to a byte.
pub open spec fn bytes_text(bytes: Seq<u8>) -> Seq<char>
    decreases bytes.len(),
{
    if bytes.len() == 0 {
        Seq::empty()
    } else {
        bytes_text(bytes.drop_last()).push(digit_of(bytes.last() / 16)).push(
            digit_of(bytes.last() % 16),
        )
    }
}

/// The error of `rustc_hex`, carried through unread.
#[verifier::external_type_specification]
#[verifier::external_body]
pub struct ExFromHexError(rustc_hex::FromHexError);

/// `rustc_hex::FromHex::from_hex` on a string. It passes over blanks, reads
/// two digits of either case to a byte, and fails on any other character
/// and on a digit left over.
#[verifier::external_body]
fn hex_to_bytes(s: &str) -> (out: Result<Vec<u8>, rustc_hex::FromHexError>)
    ensures
        out matches Ok(bytes) ==> text_bytes(s@) == Some(bytes@),
        out is Err ==> text_bytes(s@) is None,
{
    rustc_hex::FromHex::from_hex::<Vec<u8>>(s)
}

/// `rustc_hex::ToHex::to_hex` on a byte string: two lower-case digits to a
/// byte, in order.
#[verifier::external_body]
fn bytes_to_hex(bytes: &[u8]) -> (out: String)
    ensures
        out@ == bytes_text(bytes@),
{
    rustc_hex::ToHex::to_hex::<String>(bytes)
}

/// Reads hexadecimal text. Blanks are passed over; any other character
/// that is no digit, and an odd number of digits, make the text malformed.
pub fn decode_hex(s: &str) -> (out: Option<Vec<u8>>)
    ensures
        match text_bytes(s@) {
            Some(bytes) => out matches Some(v) && v@ == bytes,
            None => out is None,
        },
{
    match hex_to_bytes(s) {
        Ok(bytes) => Some(bytes),
        Err(_) => None,
    }
}

/// Writes a byte string as lower-case hexadecimal text.
pub fn encode_hex(bytes: &[u8]) -> (out: String)
    ensures
        out@ == bytes_text(bytes@),
{
    bytes_to_hex(bytes)
}

/// A byte string that is read from and shown as hexadecimal text.
pub struct HexBytes(Vec<u8>);

impl View for HexBytes {
    type V = Seq<u8>;

    closed spec fn view(&self) -> Seq<u8> {
        self.0@
    }
}

impl HexBytes {
    /// Reads hexadecimal text.
    pub fn from_str(s: &str) -> (out: Result<HexBytes, Error>)
        ensures
            match text_bytes(s@) {
                Some(bytes) => out matches Ok(h) && h@ == bytes,
                None => out matches Err(e) && e == Error::MalformedEncoding,
            },
    {
        match decode_hex(s) {
            Some(bytes) => Ok(HexBytes(bytes)),
            None => Err(Error::MalformedEncoding),
        }
    }

    /// The bytes.
    pub fn as_slice(&self) -> (out: &[u8])
        ensures
            out@ == self@,
    {
        self.0.as_slice()
    }

    /// The bytes as lower-case hexadecimal text.
    pub fn to_hex(&self) -> (out: String)
        ensures
            out@ == bytes_text(self@),
    {
        encode_hex(self.0.as_slice())
    }
}

} // verus!
