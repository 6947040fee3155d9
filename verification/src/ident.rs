//! Identifiers: 128-bit values, drawn at random when a note is created and
//! written as text in the durable table.

use uuid::Uuid;
use vstd::arithmetic::power::pow;
use vstd::prelude::*;

verus! {

/// The character of a hexadecimal digit, in lower case.
pub open spec fn hex_char(digit: int) -> char {
    if digit < 10 {
        (('0' as u8) + digit) as char
    } else {
        (('a' as u8) + digit - 10) as char
    }
}

/// The hexadecimal digit of an identifier at the given place, where place 0
/// holds the most significant of the 32 digits.
pub open spec fn hex_digit(id: u128, place: int) -> int {
    (id as int / pow(16, (31 - place) as nat)) % 16
}

/// The number of hyphens that stand before the given place of the text of an
/// identifier.
pub open spec fn hyphens_before(place: int) -> int {
    if place < 8 {
        0
    } else if place < 13 {
        1
    } else if place < 18 {
        2
    } else if place < 23 {
        3
    } else {
        4
    }
}

/// The text of an identifier: its 32 hexadecimal digits in lower case, most
/// significant first, in groups of 8, 4, 4, 4 and 12 with a hyphen between
/// two groups.
pub open spec fn uuid_text(id: u128) -> Seq<char> {
    Seq::new(
        36,
        |place: int|
            if place == 8 || place == 13 || place == 18 || place == 23 {
                '-'
            } else {
                hex_char(hex_digit(id, place - hyphens_before(place)))
            },
    )
}

/// The bits of the identifier that `Uuid::parse_str` reads from a text, if it
/// reads one.
pub uninterp spec fn uuid_parsed(text: Seq<char>) -> Option<u128>;

/// Whether an identifier has the form of one drawn at random: its version is
/// 4 and its variant is the one of RFC 9562.
pub open spec fn is_random_form(id: u128) -> bool {
    id & 0x0000_0000_0000_f000_c000_0000_0000_0000 == 0x0000_0000_0000_4000_8000_0000_0000_0000
}

/// `Uuid::new_v4`, read as its 128 bits with `Uuid::as_u128`: an identifier
/// drawn at random. Of the value drawn nothing is claimed but its form.
#[verifier::external_body]
pub(crate) fn random_id() -> (id: u128)
    ensures
        is_random_form(id),
{
    Uuid::new_v4().as_u128()
}

/// `Uuid`'s `Display`, on the identifier that `Uuid::from_u128` makes of the
/// given bits: the hyphenated form in lower case.
#[verifier::external_body]
pub(crate) fn id_to_text(id: u128) -> (text: String)
    ensures
        text@ == uuid_text(id),
{
    Uuid::from_u128(id).to_string()
}

/// `Uuid::parse_str`, with the identifier read as its bits and the error
/// dropped: whether a text is read, and as which identifier, depends on the
/// text alone.
#[verifier::external_body]
pub(crate) fn id_from_text(text: &str) -> (id: Option<u128>)
    ensures
        id == uuid_parsed(text@),
{
    match Uuid::parse_str(text) {
        Ok(uuid) => Some(uuid.as_u128()),
        Err(_) => None,
    }
}

} // verus!
