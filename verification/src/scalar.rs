//! Text forms of scalar values: canonical decimal integers and UTF-8 bytes.

use vstd::prelude::*;

verus! {

/// The text form of a boolean.
pub open spec fn bool_text(b: bool) -> Seq<char> {
    if b {
        "true"@
    } else {
        "false"@
    }
}

/// The decimal digit character of `d`, for `0 <= d <= 9`.
pub open spec fn dec_digit(d: nat) -> char
    recommends
        d <= 9,
{
    ((0x30 + d) as u8) as char
}

/// The canonical decimal digits of `n`: minimal, no leading zeros.
pub open spec fn dec_nat(n: nat) -> Seq<char>
    decreases n,
{
    if n < 10 {
        seq![dec_digit(n)]
    } else {
        dec_nat(n / 10).push(dec_digit(n % 10))
    }
}

/// The canonical decimal text of `i`: minimal digits, a leading `-` for a
/// negative value, no leading zeros, no separators.
pub open spec fn dec_int(i: int) -> Seq<char> {
    if i < 0 {
        seq!['-'] + dec_nat((-i) as nat)
    } else {
        dec_nat(i as nat)
    }
}

/// Relies on `itoa::Buffer::format` for `i128`: the canonical decimal text
/// of the value, exactly as the standard `Display` form (itoa states its
/// implementation comes straight from libcore's integer formatting).
#[verifier::external_body]
pub(crate) fn format_i128(v: i128) -> (r: String)
    ensures
        r@ == dec_int(v as int),
{
    let mut buf = itoa::Buffer::new();
    buf.format(v).to_string()
}

/// Relies on `itoa::Buffer::format` for `u128`: the canonical decimal text
/// of the value, exactly as the standard `Display` form.
#[verifier::external_body]
pub(crate) fn format_u128(v: u128) -> (r: String)
    ensures
        r@ == dec_int(v as int),
{
    let mut buf = itoa::Buffer::new();
    buf.format(v).to_string()
}

/// The length in bytes of the longest prefix of `bytes` that is valid
/// UTF-8: whole scalar values are taken greedily until one is missing,
/// truncated or malformed.
pub open spec fn utf8_valid_prefix_len(bytes: Seq<u8>) -> int
    decreases bytes.len(),
{
    if bytes.len() == 0 {
        0
    } else if vstd::utf8::valid_first_scalar(bytes) {
        vstd::utf8::length_of_first_scalar(bytes) + utf8_valid_prefix_len(
            vstd::utf8::pop_first_scalar(bytes),
        )
    } else {
        0
    }
}

/// Relies on `core::str::from_utf8`: it succeeds exactly on valid UTF-8,
/// the returned text reads the same bytes, and on failure `valid_up_to`
/// is the length of the longest valid prefix (the standard library states
/// it as the maximum index up to which the input would decode).
#[verifier::external_body]
pub(crate) fn bytes_to_text(bytes: &Vec<u8>) -> (r: Result<String, crate::error::Utf8Detail>)
    ensures
        match r {
            Ok(s) => vstd::utf8::valid_utf8(bytes@) && s@ == vstd::utf8::decode_utf8(bytes@),
            Err(d) => !vstd::utf8::valid_utf8(bytes@) && d.valid_up_to as int
                == utf8_valid_prefix_len(bytes@),
        },
{
    match core::str::from_utf8(bytes.as_slice()) {
        Ok(s) => Ok(s.to_string()),
        Err(e) => Err(crate::error::Utf8Detail { valid_up_to: e.valid_up_to() }),
    }
}

/// Relies on `String::from` for `char`: a string holding that one character.
#[verifier::external_body]
pub(crate) fn char_to_string(c: char) -> (r: String)
    ensures
        r@ == seq![c],
{
    String::from(c)
}

} // verus!
