//! Identifiers of task records: the 128 bits of a random UUID.

use vstd::prelude::*;

verus! {

/// The bits of an identifier that hold the UUID version and variant.
pub const VERSION_VARIANT_MASK: u128 = 0x0000_0000_0000_f000_c000_0000_0000_0000;

/// What those bits hold in a random UUID: version 4, variant `10`.
pub const VERSION_VARIANT_RANDOM: u128 = 0x0000_0000_0000_4000_8000_0000_0000_0000;

/// `id` has the layout of a random (version 4) UUID.
pub open spec fn is_random_uuid(id: u128) -> bool {
    id & VERSION_VARIANT_MASK == VERSION_VARIANT_RANDOM
}

/// Draws a new identifier: `uuid::Uuid::new_v4`, read as a number with
/// `Uuid::as_u128`.
///
/// Trusted, not proved: that the version and variant bits of what comes back
/// are those of a random UUID. `new_v4` clears and sets exactly these bits,
/// and `as_u128` returns the number that the UUID was made from. The other
/// 122 bits come from the operating system's random source, so nothing is
/// claimed of them; two calls may return the same value. `new_v4` panics
/// where the operating system cannot supply random bytes.
#[verifier::external_body]
pub(crate) fn new_v4() -> (id: u128)
    ensures
        is_random_uuid(id),
{
    uuid::Uuid::new_v4().as_u128()
}

} // verus!
