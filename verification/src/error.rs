//! The decode failures a BD1 buffer can exhibit.

use vstd::prelude::*;

verus! {

/// Why a buffer failed to decode. Construction is all-or-nothing: the
/// first offending region determines the error and no partial result
/// is returned.
#[derive(Clone, Copy, Debug, PartialEq, Eq, Structural)]
pub enum FormatError {
    /// Fewer bytes remain than the region being read requires.
    TruncatedBuffer,
    /// A texture filename slot holds a byte that is not single-byte
    /// ASCII text.
    InvalidEncoding,
    /// The bytes after the texture table are not an exact multiple of
    /// one block record's width.
    MisalignedRecords,
}

} // verus!
