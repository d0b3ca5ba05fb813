//! User identifiers: the store keys users by UUID; the core carries the
//! 128-bit value and converts to and from the canonical hyphenated string
//! form at the token boundary.

use vstd::prelude::*;
use vstd::utf8::encode_utf8;

verus! {

/// The canonical hyphenated string form of a user id, as UTF-8 bytes. A
/// function of the id alone.
pub uninterp spec fn uuid_bytes(id: u128) -> Seq<u8>;

/// What parsing a byte string as a UUID yields, if anything. A function of
/// the bytes alone.
pub uninterp spec fn parsed_uuid(s: Seq<u8>) -> Option<u128>;

/// Relies on the uuid crate's `Display`: the canonical hyphenated rendering
/// of the id, which `Uuid::parse_str` parses back to the same id.
#[verifier::external_body]
pub(crate) fn user_id_string(id: u128) -> (r: String)
    ensures
        encode_utf8(r@) == uuid_bytes(id),
        parsed_uuid(encode_utf8(r@)) == Option::<u128>::Some(id),
{
    uuid::Uuid::from_u128(id).to_string()
}

/// Relies on `Uuid::parse_str`: a pure function of the string, giving the
/// parsed id or nothing.
#[verifier::external_body]
pub(crate) fn parse_user_id(s: &str) -> (r: Option<u128>)
    ensures
        r == parsed_uuid(encode_utf8(s@)),
{
    match uuid::Uuid::parse_str(s) {
        Ok(u) => Some(u.as_u128()),
        Err(_) => None,
    }
}

} // verus!
