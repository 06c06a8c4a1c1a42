//! Decode errors.

use vstd::prelude::*;

verus! {

/// The ways a decode can fail. The first failure aborts the whole decode;
/// no partial result is ever produced.
#[derive(Debug, Clone, Copy, PartialEq, Eq, Structural)]
pub enum DecodeError {
    /// A chunk declared more payload bytes than the buffer holds.
    Truncated,
    /// The four tag bytes of a chunk are not valid UTF-8.
    InvalidTag,
    /// A payload that should hold UTF-8 text does not.
    InvalidUtf8,
    /// A fixed-width field's payload has the wrong size; carries the
    /// expected width in bytes.
    FieldSizeMismatch(u32),
    /// A repeated-chunk list whose children cannot tile the declared
    /// payload length exactly.
    MalformedList,
}

} // verus!
