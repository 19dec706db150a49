//! The failures that decoding and building can report.
use vstd::prelude::*;

verus! {

/// Why a buffer could not be decoded or built.
///
/// A lookup that finds nothing is no failure: it is reported as `None`.
#[derive(Clone, Copy, Debug, PartialEq, Eq, Structural)]
pub enum HiiError {
    /// A length field holds a value that no record can have: it is below the
    /// size of the record's own header, or it does not fit the field it is
    /// meant for.
    InvalidLength,
    /// A record claims more bytes than remain in the range that holds it.
    TruncatedBuffer,
    /// The size of a package being built exceeds what the length field of its
    /// header can hold.
    LengthOverflow,
    /// A type tag matches none of the known constants.
    UnrecognizedType,
}

} // verus!
