//! Amounts as they are written on a command line.

use vstd::prelude::*;
use crate::bigend::{lemma_value_bound, pow256};
use crate::hex::digit_value;
use crate::u256::U256;

verus! {

/// The number that a string of decimal digits stands for, zero for the
/// empty string; nothing where a character is no digit.
pub open spec fn decimal_value(digits: Seq<char>) -> Option<nat>
    decreases digits.len(),
{
    if digits.len() == 0 {
        Some(0)
    } else {
        let last = digits.last() as u32;
        match decimal_value(digits.drop_last()) {
            Some(front) => if 48 <= last <= 57 {
                Some(front * 10 + (last - 48) as nat)
            } else {
                None
            },
            None => None,
        }
    }
}

/// The number that a string of hexadecimal digits stands for, zero for the
/// empty string; nothing where a character is no digit.
pub open spec fn hex_value(digits: Seq<char>) -> Option<nat>
    decreases digits.len(),
{
    if digits.len() == 0 {
        Some(0)
    } else {
        match (hex_value(digits.drop_last()), digit_value(digits.last())) {
            (Some(front), Some(d)) => Some(front * 16 + d as nat),
            _ => None,
        }
    }
}

/// The text without its underscores.
pub open spec fn ungrouped(s: Seq<char>) -> Seq<char> {
    s.filter(|c: char| c != '_')
}

/// The text without an optional `+` in front.
pub open spec fn unsigned(s: Seq<char>) -> Seq<char> {
    if s.len() > 0 && s[0] == '+' {
        s.subrange(1, s.len() as int)
    } else {
        s
    }
}

/// Decimal text: an optional `+`, then decimal digits only, at least one.
pub open spec fn is_decimal(s: Seq<char>) -> bool {
    unsigned(s).len() > 0 && decimal_value(unsigned(s)) is Some
}

/// A hexadecimal number of 256 bits: an optional `0x`, then at most 64
/// digits of either case.
pub open spec fn hex_u256(s: Seq<char>) -> Option<nat> {
    let digits = if s.len() >= 2 && s[0] == '0' && s[1] == 'x' {
        s.subrange(2, s.len() as int)
    } else {
        s
    };
    if digits.len() > 64 {
        None
    } else {
        hex_value(digits)
    }
}

/// What a written amount stands for. Underscores are passed over. Decimal
/// text is its decimal number at every size below two to the 256th, and
/// nothing beyond. Any other text is read as hexadecimal.
pub open spec fn amount_of(s: Seq<char>) -> Option<nat> {
    let text = ungrouped(s);
    if is_decimal(text) {
        let n = decimal_value(unsigned(text))->0;
        if n < pow256(32) {
            Some(n)
        } else {
            None
        }
    } else {
        hex_u256(text)
    }
}

/// 16 to the power `k`.
pub open spec fn pow16(k: nat) -> nat
    decreases k,
{
    if k == 0 {
        1
    } else {
        16 * pow16((k - 1) as nat)
    }
}

/// Two hexadecimal digits make a byte: 16 to the `2k` is 256 to the `k`.
pub proof fn lemma_pow16_pow256(k: nat)
    ensures
        pow16(2 * k) == pow256(k),
    decreases k,
{
    if k > 0 {
        lemma_pow16_pow256((k - 1) as nat);
        assert(pow16(2 * k) == 16 * pow16((2 * k - 1) as nat));
        assert(pow16((2 * k - 1) as nat) == 16 * pow16((2 * k - 2) as nat));
        assert(2 * k - 2 == 2 * (k - 1));
    }
}

/// A larger exponent gives a power at least as large.
pub proof fn lemma_pow16_monotone(j: nat, k: nat)
    requires
        j <= k,
    ensures
        pow16(j) <= pow16(k),
    decreases k,
{
    if j < k {
        lemma_pow16_monotone(j, (k - 1) as nat);
    }
}

/// A decimal number of `k` digits is below 16 to the `k`.
pub proof fn lemma_decimal_bound(digits: Seq<char>)
    requires
        decimal_value(digits) is Some,
    ensures
        decimal_value(digits)->0 < pow16(digits.len()),
    decreases digits.len(),
{
    if digits.len() > 0 {
        lemma_decimal_bound(digits.drop_last());
    }
}

/// Decimal text of a number that does not fit in 256 bits is too long to
/// be read as hexadecimal.
pub proof fn lemma_large_decimal_is_no_hex(text: Seq<char>)
    requires
        is_decimal(text),
        decimal_value(unsigned(text))->0 >= pow256(32),
    ensures
        hex_u256(text) is None,
{
    let digits = unsigned(text);
    lemma_decimal_bound(digits);
    if digits.len() <= 64 {
        lemma_pow16_monotone(digits.len(), 64);
        lemma_pow16_pow256(32);
    }
    assert(digits.len() > 64);
    if text.len() >= 2 && text[0] == '0' && text[1] == 'x' {
        // an `x` is no decimal digit
        assert(digits == text);
        lemma_all_decimal(digits, 1);
    }
}

/// Every character of a string of decimal digits is a decimal digit.
pub proof fn lemma_all_decimal(digits: Seq<char>, i: int)
    requires
        decimal_value(digits) is Some,
        0 <= i < digits.len(),
    ensures
        48 <= digits[i] as u32 <= 57,
    decreases digits.len(),
{
    if i < digits.len() - 1 {
        lemma_all_decimal(digits.drop_last(), i);
    }
}

/// `str::replace` of `_` by nothing: the text without its underscores.
#[verifier::external_body]
fn strip_underscores(s: &str) -> (out: String)
    ensures
        out@ == ungrouped(s@),
{
    s.replace('_', "")
}

/// `ethereum_types::U256::from_dec_str`, followed by `U256::to_big_endian`:
/// the text is read as decimal digits only, without a sign; the empty text
/// is zero. It fails on any other character and on a number that does not
/// fit in 256 bits.
#[verifier::external_body]
fn parse_decimal(s: &str) -> (out: Option<U256>)
    ensures
        out matches Some(x) ==> decimal_value(s@) == Some(x@),
        out is None ==> !(decimal_value(s@) matches Some(n) && n < pow256(32)),
{
    match ethereum_types::U256::from_dec_str(s) {
        Ok(value) => {
            let mut bytes: [u8; 32] = [0u8; 32];
            value.to_big_endian(&mut bytes);
            Some(U256 { bytes })
        },
        Err(_) => None,
    }
}

/// `ethereum_types::U256::from_str`, followed by `U256::to_big_endian`:
/// the text is read as hexadecimal, with an optional `0x` in front and at
/// most 64 digits.
#[verifier::external_body]
fn parse_hex(s: &str) -> (out: Option<U256>)
    ensures
        out matches Some(x) ==> hex_u256(s@) == Some(x@),
        out is None ==> hex_u256(s@) is None,
{
    match <ethereum_types::U256 as std::str::FromStr>::from_str(s) {
        Ok(value) => {
            let mut bytes: [u8; 32] = [0u8; 32];
            value.to_big_endian(&mut bytes);
            Some(U256 { bytes })
        },
        Err(_) => None,
    }
}

/// Reads an amount as it is written on a command line: a decimal number
/// of up to 256 bits, with or without `+` and underscores, or else a
/// hexadecimal one.
pub fn parse_u256(s: &str) -> (out: Option<U256>)
    ensures
        match amount_of(s@) {
            Some(n) => out matches Some(x) && x@ == n,
            None => out is None,
        },
{
    let owned = strip_underscores(s);
    let text = owned.as_str();
    let len = text.unicode_len();
    let digits = if len > 0 && text.get_char(0) == '+' {
        text.substring_char(1, len)
    } else {
        text
    };
    if digits.unicode_len() == 0 {
        return parse_hex(text);
    }
    match parse_decimal(digits) {
        Some(x) => {
            proof {
                lemma_value_bound(x.bytes@);
            }
            Some(x)
        },
        None => {
            proof {
                if is_decimal(text@) {
                    lemma_large_decimal_is_no_hex(text@);
                }
            }
            parse_hex(text)
        },
    }
}

} // verus!
