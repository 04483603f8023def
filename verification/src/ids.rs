//! Panel and workspace identifiers.
//!
//! Identifiers are random (version 4) UUIDs, held as their 128-bit value.

use vstd::prelude::*;

verus! {

/// The bits of a UUID that carry its version (4) and its variant (RFC 4122).
pub open spec fn is_v4_uuid(id: u128) -> bool {
    id & 0xF000C000000000000000u128 == 0x40008000000000000000u128
}

/// A fresh random identifier.
///
/// Calls `uuid::Uuid::new_v4` and takes its 128-bit value with
/// `Uuid::as_u128`. The value is random: the contract states only the
/// version and variant bits that `new_v4` sets on every outcome.
#[verifier::external_body]
pub(crate) fn fresh_id() -> (id: u128)
    ensures
        is_v4_uuid(id),
{
    uuid::Uuid::new_v4().as_u128()
}

} // verus!
