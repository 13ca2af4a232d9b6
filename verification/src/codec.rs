//! Bytes and ids as text.
use vstd::prelude::*;
use vstd::string::*;

use crate::number;

verus! {

/// The lower-case hexadecimal digit `d`.
pub open spec fn hex_digit(d: int) -> char {
    if d < 10 {
        number::digit(d)
    } else if d == 10 {
        'a'
    } else if d == 11 {
        'b'
    } else if d == 12 {
        'c'
    } else if d == 13 {
        'd'
    } else if d == 14 {
        'e'
    } else {
        'f'
    }
}

/// The upper-case hexadecimal digit `d`.
pub open spec fn upper_hex_digit(d: int) -> char {
    if d < 10 {
        number::digit(d)
    } else if d == 10 {
        'A'
    } else if d == 11 {
        'B'
    } else if d == 12 {
        'C'
    } else if d == 13 {
        'D'
    } else if d == 14 {
        'E'
    } else {
        'F'
    }
}

/// The last `width` hexadecimal digits of `n`.
pub open spec fn hex(n: int, width: nat) -> Seq<char>
    decreases width,
{
    if width == 0 {
        Seq::empty()
    } else {
        hex(n / 16, (width - 1) as nat).push(hex_digit(n % 16))
    }
}

/// Two lower-case hexadecimal digits for every byte.
pub open spec fn hex_encoded(bytes: Seq<u8>) -> Seq<char>
    decreases bytes.len(),
{
    if bytes.len() == 0 {
        Seq::empty()
    } else {
        hex_encoded(bytes.drop_last()) + hex(bytes.last() as int, 2)
    }
}

/// `hex::encode`: two lower-case hexadecimal digits for every byte, in order.
#[verifier::external_body]
pub(crate) fn hex_encode(bytes: &[u8]) -> (r: String)
    ensures
        r@ == hex_encoded(bytes@),
{
    hex::encode(bytes)
}

/// The byte stands for itself in a percent-encoded text.
pub open spec fn unreserved(b: u8) -> bool {
    0x30 <= b <= 0x39 || 0x41 <= b <= 0x5a || 0x61 <= b <= 0x7a
}

/// Every byte as it is where it is an ASCII letter or digit, else as `%` and two upper-case
/// hexadecimal digits.
pub open spec fn percent_encoded(bytes: Seq<u8>) -> Seq<char>
    decreases bytes.len(),
{
    if bytes.len() == 0 {
        Seq::empty()
    } else {
        let b = bytes.last();
        percent_encoded(bytes.drop_last()) + if unreserved(b) {
            seq![b as char]
        } else {
            seq!['%', upper_hex_digit(b as int / 16), upper_hex_digit(b as int % 16)]
        }
    }
}

/// `percent_encoding::utf8_percent_encode` with `NON_ALPHANUMERIC`: every byte of the UTF-8
/// form that is no ASCII letter or digit is written as `%` and two upper-case hexadecimal
/// digits.
#[verifier::external_body]
pub(crate) fn percent_encode(s: &str) -> (r: String)
    ensures
        r@ == percent_encoded(s.spec_bytes()),
{
    percent_encoding::utf8_percent_encode(s, percent_encoding::NON_ALPHANUMERIC).to_string()
}

/// A UUID in its hyphenated lower-case form.
pub open spec fn uuid_text(id: u128) -> Seq<char> {
    let digits = hex(id as int, 32);
    digits.subrange(0, 8) + "-"@ + digits.subrange(8, 12) + "-"@ + digits.subrange(12, 16) + "-"@
        + digits.subrange(16, 20) + "-"@ + digits.subrange(20, 32)
}

/// `uuid::Uuid::from_u128` and `to_string`: the number's 32 hexadecimal digits in lower case,
/// in groups of 8, 4, 4, 4 and 12 with hyphens between them.
#[verifier::external_body]
pub(crate) fn format_uuid(id: u128) -> (r: String)
    ensures
        r@ == uuid_text(id),
{
    uuid::Uuid::from_u128(id).to_string()
}

/// The number is a random UUID: its version is 4, and its variant is that of RFC 9562.
pub open spec fn is_random_uuid(id: u128) -> bool {
    &&& (id as int / 0x1000_0000_0000_0000_0000) % 16 == 4
    &&& (id as int / 0x4000_0000_0000_0000) % 4 == 2
}

/// `uuid::Uuid::new_v4`, as a number. It is drawn at random, but for the bits that tell its
/// version and its variant.
#[verifier::external_body]
pub(crate) fn random_uuid() -> (r: u128)
    ensures
        is_random_uuid(r),
{
    uuid::Uuid::new_v4().as_u128()
}

} // verus!
