use vstd::prelude::*;

verus! {

/// Relies on uuid's `Uuid::new_v4` and `Uuid::as_u128`: a random version-4
/// identifier, read as one 128-bit integer. Its version nibble is 4 and its
/// variant bits are `10`; nothing else is promised of it. (It panics only
/// when the operating system's random source fails.)
#[verifier::external_body]
pub(crate) fn fresh_id() -> (r: u128)
    ensures
        (r >> 76u128) & 0xfu128 == 4,
        (r >> 62u128) & 0x3u128 == 2,
{
    uuid::Uuid::new_v4().as_u128()
}

} // verus!
