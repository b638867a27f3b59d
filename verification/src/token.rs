//! Owner tokens: each lock name deterministically yields a version-5 UUID
//! that serves as the proof-of-ownership handle, carried here as its 128-bit
//! value; parsing and rendering of the wire form sit behind trusted wrappers
//! around the uuid crate.

use vstd::prelude::*;

verus! {

/// The owner token that version-5 UUID derivation assigns to a lock name: for
/// the fixed OID namespace it is a pure function of the name's characters.
pub uninterp spec fn token_of_name(name: Seq<char>) -> u128;

/// What UUID parsing yields on a string: `Some` of the token's value exactly
/// on the strings that are well-formed UUIDs, `None` on every other.
pub uninterp spec fn parsed_token(s: Seq<char>) -> Option<u128>;

/// The canonical hyphenated rendering of an owner token.
pub uninterp spec fn token_text(t: u128) -> Seq<char>;

/// Relies on uuid::Uuid::new_v5: a version-5 UUID is the SHA-1 hash of the
/// namespace and name bytes, so for a fixed namespace it depends on the name
/// alone.
#[verifier::external_body]
pub(crate) fn derive_token(name: &str) -> (r: u128)
    ensures
        r == token_of_name(name@),
{
    uuid::Uuid::new_v5(&uuid::Uuid::NAMESPACE_OID, name.as_bytes()).as_u128()
}

/// Relies on uuid::Uuid::try_parse: parsing depends on the input characters
/// alone and succeeds exactly on well-formed UUID strings. The error branch
/// carries the parser's own description of the failure.
#[verifier::external_body]
pub(crate) fn parse_token(s: &str) -> (r: Result<u128, String>)
    ensures
        r matches Ok(t) ==> parsed_token(s@) == Some(t),
        r is Err ==> parsed_token(s@) is None,
{
    match uuid::Uuid::try_parse(s) {
        Ok(u) => Ok(u.as_u128()),
        Err(e) => Err(format!("{}", e)),
    }
}

/// Relies on uuid's Display form: a UUID renders as its lowercase hyphenated
/// text, 36 characters, depending on its 128-bit value alone.
#[verifier::external_body]
pub(crate) fn render_token(t: u128) -> (r: String)
    ensures
        r@ == token_text(t),
        r@.len() == 36,
{
    uuid::Uuid::from_u128(t).to_string()
}

/// The deterministic owner token for a lock name, as the acquisition
/// protocol computes it.
pub fn owner_token_for(name: &str) -> (r: u128)
    ensures
        r == token_of_name(name@),
{
    derive_token(name)
}

} // verus!
