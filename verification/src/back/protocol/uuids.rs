//! UUIDs, parsed and written out through the `uuid` crate.
//!
//! The library holds a UUID as the 128-bit number that the crate makes of it.

use vstd::arithmetic::power::pow;
use vstd::prelude::*;

verus! {

/// The digit of `id` at place `k`, counted from the most significant of its
/// 32 hexadecimal digits.
pub open spec fn hex_digit(id: u128, k: int) -> char {
    "0123456789abcdef"@[(id as int / pow(16, (31 - k) as nat)) % 16]
}

/// The text of a UUID in groups of 8, 4, 4, 4 and 12 lower-case hexadecimal
/// digits with hyphens between them.
pub open spec fn hyphenated(id: u128) -> Seq<char> {
    Seq::new(
        36,
        |i: int|
            if i == 8 || i == 13 || i == 18 || i == 23 {
                '-'
            } else if i < 8 {
                hex_digit(id, i)
            } else if i < 13 {
                hex_digit(id, i - 1)
            } else if i < 18 {
                hex_digit(id, i - 2)
            } else if i < 23 {
                hex_digit(id, i - 3)
            } else {
                hex_digit(id, i - 4)
            },
    )
}

/// What the crate's parser makes of `text`: the UUID as a number, or `None`
/// where it rejects the text.
pub uninterp spec fn uuid_parse(text: Seq<char>) -> Option<u128>;

/// `Uuid::parse_str`, with the error dropped, and `Uuid::as_u128` of what it
/// finds.
#[verifier::external_body]
pub(crate) fn parse_uuid(text: &str) -> (id: Option<u128>)
    ensures
        id == uuid_parse(text@),
{
    uuid::Uuid::parse_str(text).ok().map(|id| id.as_u128())
}

/// `Uuid::from_u128` and the text that the crate's `Display` writes for it:
/// the hyphenated form in lower case, which the crate's parser reads back.
#[verifier::external_body]
pub(crate) fn uuid_text(id: u128) -> (text: String)
    ensures
        text@ == hyphenated(id),
        uuid_parse(text@) == Some(id),
{
    uuid::Uuid::from_u128(id).to_string()
}

} // verus!
