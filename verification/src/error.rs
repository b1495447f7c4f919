//! Error kinds shared by every decoding and encoding operation.

use vstd::prelude::*;

verus! {

/// A failure while reading a value from a byte buffer.
///
/// Reads never panic and never guess: every fallible read reports one of
/// these kinds to its caller, which decides how to recover.
#[derive(Clone, Copy, Debug, PartialEq, Eq)]
pub enum ReadError {
    /// Fewer bytes remain in the input than a read requires.  The missing
    /// bytes are never silently zero-filled.
    UnexpectedEof,
    /// The leading tag byte of an enum matched no declared variant.  The
    /// offending byte is carried along for diagnostics.
    UnrecognizedDiscriminant(u8),
}

/// A failure while writing a value into a byte buffer.
///
/// Writing into a growable in-memory buffer cannot fail, so the verified
/// writers always return `Ok`; the kind exists so that sinks with bounded
/// capacity can share the same result shape.
#[derive(Clone, Copy, Debug, PartialEq, Eq)]
pub enum WriteError {
    /// The sink had no room for the encoding.
    CapacityExceeded,
}

} // verus!
