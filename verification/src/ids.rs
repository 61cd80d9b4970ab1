//! Fresh identifiers: what this library relies on from the `uuid` crate.
use vstd::prelude::*;

verus! {

/// Whether a number is a UUID of version 4: four bits say the version, two the variant, and the
/// others are random.
pub open spec fn is_random_uuid(id: u128) -> bool {
    &&& id / 0x1000_0000_0000_0000_0000 % 16 == 4
    &&& id / 0x4000_0000_0000_0000 % 4 == 2
}

/// `Uuid::new_v4`, as the number that `Uuid::as_u128` gives: a UUID of version 4. Nothing more
/// holds of it, as the rest is random.
#[verifier::external_body]
pub(crate) fn fresh_id() -> (r: u128)
    ensures
        is_random_uuid(r),
{
    uuid::Uuid::new_v4().as_u128()
}

} // verus!
