//! The two error kinds of the codec.

use vstd::prelude::*;

verus! {

/// An error while building a buffer.
///
/// `OutOfBound`: a primitive write was requested at an offset whose payload
/// would extend past the current logical buffer length.
/// `Overflow`: the buffer cannot grow to the requested length, because the
/// wire format's 32-bit relative pointers could no longer address it.
#[derive(Debug, Clone, Copy, PartialEq, Eq, Structural)]
pub enum BuilderError {
    OutOfBound,
    Overflow,
}

/// An error while decoding a buffer: any bounds-check failure, an odd string
/// size, a dangling relative pointer, or content that is not valid UTF-16.
#[derive(Debug, Clone, Copy, PartialEq, Eq, Structural)]
pub enum ReaderError {
    InvalidBuffer,
}

} // verus!
