//! Errors of the codec layer.

use vstd::prelude::*;

verus! {

/// Why a codec call failed. Every failure is reported to the caller.
#[derive(Clone, Copy, Debug, PartialEq, Eq, Structural)]
pub enum CodecError {
    /// The selected algorithm is not available.
    UnsupportedAlgorithm,
    /// The codec does not handle values of this type.
    UnsupportedType,
    /// The byte count is not a multiple of the element width.
    LengthMismatch,
    /// The codec needs the decompressed length, and none was given.
    MissingExpectedLength,
    /// A frame announces more payload than the input holds.
    TruncatedFrame,
    /// The decompressor produced another length than announced.
    SizeMismatch,
    /// Bytes are left over after the last complete frame.
    UnconsumedInput,
    /// A frame announces more output than the expected length leaves room for.
    OutputTooSmall,
    /// The byte compressor itself reported a failure.
    BackendFailure,
}

} // verus!
