use vstd::prelude::*;

verus! {

/// Encode varint error.
#[derive(Debug, Copy, Clone, PartialEq, Eq, Hash, Structural)]
pub enum EncodeError {
    /// The buffer does not have enough capacity to encode the value.
    Underflow {
        /// The number of bytes needed to encode the value.
        required: usize,
        /// The number of bytes remaining in the buffer.
        remaining: usize,
    },
}

impl EncodeError {
    /// Creates a new `EncodeError::Underflow` with the required and remaining bytes.
    pub fn underflow(required: usize, remaining: usize) -> (e: Self)
        ensures
            e == (EncodeError::Underflow { required, remaining }),
    {
        EncodeError::Underflow { required, remaining }
    }
}

/// Decoding varint error.
#[derive(Debug, Copy, Clone, PartialEq, Eq, Hash, Structural)]
pub enum DecodeError {
    /// The buffer does not contain a valid LEB128 encoding.
    Overflow,
    /// The buffer does not contain enough data to decode.
    Underflow,
}

} // verus!
