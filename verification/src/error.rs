use vstd::prelude::*;

verus! {

/// Everything that can go wrong while decoding bytes into a packet.
#[derive(Clone, Copy, Debug, PartialEq, Eq, Structural)]
pub enum DecodeError {
    /// The source ran out of bytes before a field's required count was available.
    UnexpectedEof,
    /// A variable-length integer's continuation chain exceeded the cap for its width.
    MalformedVarInt,
    /// A string field's declared byte length exceeds its character-count bound.
    StringTooLong,
    /// A string field's payload bytes are not valid UTF-8.
    InvalidUtf8,
    /// The connection-phase tag is outside the four defined values.
    InvalidIntention,
    /// No packet is registered under the given (phase, direction, id) triple.
    UnknownPacketId,
}

/// Everything that can go wrong while encoding a packet into bytes.
#[derive(Clone, Copy, Debug, PartialEq, Eq, Structural)]
pub enum EncodeError {
    /// A string field's UTF-8 byte length does not fit the length prefix.
    StringTooLong,
}

} // verus!
