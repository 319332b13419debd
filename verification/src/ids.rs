//! Identifiers. A UUID is held as its 128-bit value; the `uuid` crate parses
//! and prints it.
use vstd::prelude::*;

use crate::text::digit_char;

verus! {

/// The lower-case hexadecimal digit of `d` (`d < 16`).
pub open spec fn hex_digit(d: nat) -> char {
    if d < 10 {
        digit_char(d)
    } else if d == 10 {
        'a'
    } else if d == 11 {
        'b'
    } else if d == 12 {
        'c'
    } else if d == 13 {
        'd'
    } else if d == 14 {
        'e'
    } else {
        'f'
    }
}

/// The `n` lowest hexadecimal digits of `v`, most significant first.
pub open spec fn hex_digits(v: nat, n: nat) -> Seq<char>
    decreases n,
{
    if n == 0 {
        Seq::empty()
    } else {
        hex_digits(v / 16, (n - 1) as nat).push(hex_digit(v % 16))
    }
}

/// The hyphenated lower-case text of a UUID: its 32 hexadecimal digits in
/// groups of 8, 4, 4, 4 and 12.
pub open spec fn uuid_text_of(id: u128) -> Seq<char> {
    let h = hex_digits(id as nat, 32);
    h.subrange(0, 8) + seq!['-'] + h.subrange(8, 12) + seq!['-'] + h.subrange(12, 16) + seq!['-']
        + h.subrange(16, 20) + seq!['-'] + h.subrange(20, 32)
}

/// What `uuid::Uuid::parse_str` makes of `s`: the value of the UUID read, or
/// the text of the error.
pub uninterp spec fn uuid_from_str_of(s: Seq<char>) -> Result<u128, Seq<char>>;

/// The value of the UUID that `s` spells, if it spells one.
pub open spec fn uuid_parse_of(s: Seq<char>) -> Option<u128> {
    match uuid_from_str_of(s) {
        Ok(id) => Some(id),
        Err(_) => None,
    }
}

/// Prints `id` with `Display` of `uuid::Uuid`, which writes the hyphenated
/// lower-case form of the value's sixteen big-endian bytes.
///
/// Trusted: the text is `uuid_text_of(id)`, as the crate documents for
/// `Uuid::hyphenated`.
#[verifier::external_body]
pub(crate) fn uuid_text(id: u128) -> (r: String)
    ensures
        r@ == uuid_text_of(id),
{
    uuid::Uuid::from_u128(id).to_string()
}

/// Parses `s` with `uuid::Uuid::parse_str` (simple, hyphenated, braced and
/// URN forms) and returns the value of the UUID read, or the error's text.
///
/// Trusted: the result is a function of `s` alone, named `uuid_from_str_of`;
/// and, as the crate documents that every form it writes is read back, the
/// hyphenated text of a UUID reads as that UUID.
#[verifier::external_body]
pub(crate) fn uuid_from_str(s: &str) -> (r: Result<u128, String>)
    ensures
        match r {
            Ok(id) => uuid_from_str_of(s@) == Ok::<u128, Seq<char>>(id),
            Err(e) => uuid_from_str_of(s@) == Err::<u128, Seq<char>>(e@),
        },
        match r {
            Ok(x) => forall|id: u128| s@ == uuid_text_of(id) ==> x == id,
            Err(_) => forall|id: u128| s@ != uuid_text_of(id),
        },
{
    match uuid::Uuid::parse_str(s) {
        Ok(id) => Ok(id.as_u128()),
        Err(e) => Err(e.to_string()),
    }
}

/// The version field of a UUID: the high four bits of its seventh byte.
pub open spec fn uuid_version_of(id: u128) -> u128 {
    (id >> 76u128) & 15u128
}

/// Whether `uuid::Uuid::get_version` calls the UUID `id` a random one.
///
/// Trusted: `get_version` answers `Version::Random` exactly when the version
/// field, the high four bits of the seventh big-endian byte, is 4.
#[verifier::external_body]
pub(crate) fn uuid_is_random(id: u128) -> (r: bool)
    ensures
        r == (uuid_version_of(id) == 4),
{
    uuid::Uuid::from_u128(id).get_version() == Some(uuid::Version::Random)
}

/// The value of the UUID that `s` spells, if it spells one; the text that
/// `uuid_text` writes for a UUID reads back as that UUID.
pub fn parse_uuid_text(s: &str) -> (r: Option<u128>)
    ensures
        r == uuid_parse_of(s@),
        forall|id: u128| s@ == uuid_text_of(id) ==> r == Some(id),
{
    match uuid_from_str(s) {
        Ok(id) => Some(id),
        Err(_) => None,
    }
}

} // verus!
