//! The errors of reading and writing.
use vstd::prelude::*;

verus! {

/// An error while reading.
#[derive(Clone, Copy, Debug, PartialEq, Eq, Structural)]
pub enum ReadError {
    /// The input is an invalid file.
    InvalidFormat,
}

impl ReadError {
    /// A short description of the error.
    pub fn message(&self) -> &'static str {
        match self {
            ReadError::InvalidFormat => "the input is invalid",
        }
    }
}

/// An error while writing.
#[derive(Clone, Copy, Debug, PartialEq, Eq, Structural)]
pub enum WriteError {
    /// The records do not match the count that the header is to hold, or
    /// are more than it can hold.
    TooManyElements,
    /// The destination's length is not the size of the file.
    InvalidLength,
}

impl WriteError {
    /// A short description of the error.
    pub fn message(&self) -> &'static str {
        match self {
            WriteError::TooManyElements => "the elements is too many",
            WriteError::InvalidLength => "the destination has not the size of the file",
        }
    }
}

} // verus!
