//! Errors returned by protocol parsing, validation, and encoding.

use vstd::prelude::*;

verus! {

/// A semantic constraint violation in an otherwise decodable value.
#[derive(Debug, Clone, PartialEq, Eq)]
pub enum ValidationError {
    /// A required string contains no user-visible content.
    Empty { field: &'static str },
    /// A string or collection exceeds its protocol limit.
    TooLong { field: &'static str, maximum: usize, actual: usize },
    /// A collection contains fewer values than required.
    TooShort { field: &'static str, minimum: usize, actual: usize },
    /// A numeric value falls outside its inclusive range.
    OutOfRange { field: &'static str, minimum: u64, maximum: u64, actual: u64 },
    /// A string contains a character forbidden by the protocol.
    ControlCharacter { field: &'static str },
    /// A message contradicts another value in the same payload.
    Inconsistent { field: &'static str, reason: &'static str },
}

/// Failure while converting user input into a room code.
#[derive(Debug, Clone, Copy, PartialEq, Eq)]
pub enum RoomCodeParseError {
    /// The code does not contain exactly six bytes.
    InvalidLength { expected: usize, actual: usize },
    /// The code contains a character outside the room-code alphabet.
    InvalidCharacter { index: usize },
}

/// Failure while encoding an outgoing protocol frame.
#[derive(Debug, Clone, PartialEq, Eq)]
pub enum EncodeError {
    /// The message violates a protocol constraint.
    Validation(ValidationError),
    /// The payload serializer reported a failure, described by its message.
    Postcard(String),
    /// The final frame exceeds the frame-size limit.
    FrameTooLarge { maximum: usize, actual: usize },
}

/// Failure while decoding an incoming protocol frame.
#[derive(Debug, Clone, PartialEq, Eq)]
pub enum DecodeError {
    /// A frame is missing its version or opcode byte.
    FrameTooShort { actual: usize },
    /// A frame exceeds the hard allocation and processing limit.
    FrameTooLarge { maximum: usize, actual: usize },
    /// The peer speaks a different protocol version.
    UnsupportedVersion { expected: u8, received: u8 },
    /// The opcode is not assigned for the frame direction.
    UnknownOpcode { direction: &'static str, opcode: u8 },
    /// The payload deserializer reported a failure, described by its message.
    Postcard(String),
    /// Bytes remain after the expected payload.
    TrailingBytes { remaining: usize },
    /// The decoded message violates a protocol constraint.
    Validation(ValidationError),
}

} // verus!
