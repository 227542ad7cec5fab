//! Identifiers of objects, layers and assets.
use vstd::prelude::*;

verus! {

/// A stable 128-bit identifier. Identifiers are only ever compared for
/// equality.
pub type ObjectId = u128;

/// The bits of an identifier that hold its version and its variant.
pub const VERSION_VARIANT_MASK: u128 = 0x0000_0000_0000_F000_C000_0000_0000_0000;

/// Those bits in a random identifier: version 4, variant `10`.
pub const RANDOM_VERSION_VARIANT: u128 = 0x0000_0000_0000_4000_8000_0000_0000_0000;

/// Draws a fresh random identifier with `uuid::Uuid::new_v4` and returns it
/// as the 128-bit number that `Uuid::as_u128` gives.
///
/// Trusted: the value is random, so all that is claimed is what `new_v4`
/// fixes in every identifier it makes, the version nibble `4` and the
/// variant bits `10`. `new_v4` panics if the operating system cannot supply
/// random bytes.
#[verifier::external_body]
pub(crate) fn fresh_id() -> (id: ObjectId)
    ensures
        id & VERSION_VARIANT_MASK == RANDOM_VERSION_VARIANT,
{
    uuid::Uuid::new_v4().as_u128()
}

} // verus!
