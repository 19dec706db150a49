//! The 128-bit identifier of a package list.
//!
//! The identifier is the `Guid` of the `uefi` crate. Verified code sees it only
//! as the sixteen bytes that `Guid::to_bytes` gives and `Guid::from_bytes`
//! takes; what is stated of the two is taken from their source and not proved
//! here.
use vstd::prelude::*;
use uefi::Guid;

verus! {

/// `uefi::Guid`, the identifier type of the `uefi` crate (defined in `uguid`).
/// Verified code carries it through and never looks inside.
#[verifier::external_type_specification]
#[verifier::external_body]
pub struct ExGuid(uefi::Guid);

/// The sixteen bytes that an identifier occupies in a buffer.
pub uninterp spec fn guid_bytes(g: Guid) -> Seq<u8>;

/// `Guid::to_bytes`: the sixteen bytes of the identifier, in the order in which
/// they stand in memory.
pub assume_specification[ uefi::Guid::to_bytes ](g: Guid) -> (bytes: [u8; 16])
    ensures
        bytes@ == guid_bytes(g),
;

/// `Guid::from_bytes`: the identifier that occupies the given sixteen bytes; no
/// byte changes its place.
pub assume_specification[ uefi::Guid::from_bytes ](bytes: [u8; 16]) -> (g: Guid)
    ensures
        guid_bytes(g) == bytes@,
;

} // verus!
