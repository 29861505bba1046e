//! Session tokens: 128-bit identifiers that travel as UUID text.

use uuid::Uuid;
use vstd::prelude::*;

verus! {

/// The text of the identifier `token`: its 32 hexadecimal digits in lower
/// case, in five groups parted by hyphens.
pub uninterp spec fn uuid_text(token: u128) -> Seq<char>;

/// The identifier that `text` writes, where `text` is the text of one.
pub uninterp spec fn uuid_parse(text: Seq<char>) -> Option<u128>;

/// `Uuid::new_v4`: a fresh random identifier, of which nothing is known
/// beforehand.
#[verifier::external_body]
pub(crate) fn fresh_uuid() -> u128 {
    Uuid::new_v4().as_u128()
}

/// `Uuid`'s `to_string`: the text of the identifier, which `Uuid::parse_str`
/// reads back as the same identifier.
#[verifier::external_body]
pub(crate) fn uuid_to_string(token: u128) -> (text: String)
    ensures
        text@ == uuid_text(token),
        uuid_parse(text@) == Some(token),
{
    Uuid::from_u128(token).to_string()
}

/// `Uuid::parse_str`: the identifier that `text` writes, or nothing where
/// `text` is not the text of an identifier.
#[verifier::external_body]
pub(crate) fn uuid_from_str(text: &str) -> (token: Option<u128>)
    ensures
        token == uuid_parse(text@),
{
    match Uuid::parse_str(text) {
        Ok(id) => Some(id.as_u128()),
        Err(_) => None,
    }
}

} // verus!
