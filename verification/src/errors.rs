//! The errors that decoding reports.
use vstd::prelude::*;

verus! {

/// Why a buffer could not be decoded.
#[derive(Debug, Clone, Copy, PartialEq, Eq)]
pub enum DecodeError {
    /// The buffer is shorter than a fixed structure that must be read from it.
    Length { expected: usize, actual: usize },
    /// A field whose values form a closed set holds a value outside it.
    InvalidValue { value: u32 },
    /// The type code of a message is in no dispatch table.
    UnknownMessageType(u16),
    /// Text that is not NUL-terminated or not UTF-8, or an attribute whose
    /// declared length does not even cover its own header.
    Malformed,
}

} // verus!
