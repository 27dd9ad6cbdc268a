//! The calls into the `rand` and `uuid` crates.
//!
//! The functions here are the only ones of the library whose contracts are
//! taken on trust: each doc comment says what is claimed of the outside code.

use vstd::prelude::*;
use rand::Rng;
use uuid::Uuid;

verus! {

/// Whether `id`, read as the 128 bits of a UUID with its first byte on top,
/// carries version 4 (random) and the RFC 4122 variant.
pub open spec fn is_random_uuid(id: u128) -> bool {
    (id >> 76u128) & 0xf == 4 && (id >> 62u128) & 0x3 == 2
}

/// What `Uuid::parse_str` makes of a text: the 128 bits of the identifier it
/// reads, or `None` where it rejects the text.
pub uninterp spec fn parsed_uuid(text: Seq<char>) -> Option<u128>;

/// Draws a number with `rand::thread_rng().gen_range(low, high)`.
///
/// Trusted: the result lies in `low..high`. Nothing is claimed about which
/// number of the range comes out. `gen_range` panics on an empty range,
/// which the precondition leaves out.
#[verifier::external_body]
pub(crate) fn random_in(low: u64, high: u64) -> (n: u64)
    requires
        low < high,
    ensures
        low <= n < high,
{
    rand::thread_rng().gen_range(low, high)
}

/// Makes a new identifier with `Uuid::new_v4`, handed out as the 128 bits
/// that `Uuid::as_u128` gives.
///
/// Trusted: the identifier carries version 4 and the RFC 4122 variant, which
/// `new_v4` sets on the random bytes it draws. That two calls give different
/// identifiers is overwhelmingly likely, and not claimed. `new_v4` panics
/// when the operating system has no random bytes to give.
#[verifier::external_body]
pub(crate) fn fresh_id() -> (id: u128)
    ensures
        is_random_uuid(id),
{
    Uuid::new_v4().as_u128()
}

/// Reads an identifier with `Uuid::parse_str`, handed out as the 128 bits
/// that `Uuid::as_u128` gives.
///
/// Trusted: the result depends on the text alone, so it is given the name
/// [`parsed_uuid`]. Which texts are accepted is left to the `uuid` crate.
#[verifier::external_body]
pub(crate) fn parse_uuid(text: &str) -> (id: Option<u128>)
    ensures
        id == parsed_uuid(text@),
{
    match Uuid::parse_str(text) {
        Ok(uuid) => Some(uuid.as_u128()),
        Err(_) => None,
    }
}

} // verus!
