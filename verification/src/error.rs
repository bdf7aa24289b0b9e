//! Why an invocation is rejected.

use crate::instruction::DecodeError;
use vstd::prelude::*;

verus! {

/// The reason for which an invocation left the record as it was.
#[derive(Debug, Clone, Copy, PartialEq, Eq, Structural)]
pub enum CounterError {
    /// The instruction buffer denotes no instruction.
    Decode(DecodeError),
    /// The record buffer does not have the fixed four-byte layout.
    StateDeserializationError,
    /// The record buffer is too small to take the encoded record.
    StateSerializationError,
}

} // verus!
