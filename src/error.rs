use vstd::prelude::*;

verus! {

/// Errors raised while decoding packets.
#[derive(Debug, Clone, Copy, PartialEq, Eq, Structural)]
pub enum DecodeError {
    /// Packet type id not present in the dispatch table of the current state.
    UnknownPacketType { type_id: u8 },
    /// A string declared more bytes than its field allows.
    StringTooLong { length: usize, max_length: u16 },
    /// The input ended before the value was complete (a short read).
    UnexpectedEof,
    /// Embedded JSON text could not be parsed.
    JsonError,
    /// A string's bytes are not valid UTF-8.
    Utf8Error,
    /// A boolean byte other than 0 or 1.
    NonBoolValue,
    /// A textual UUID could not be parsed.
    UuidParseError,
    /// A VarInt-tagged enum carried an ordinal that names no variant.
    UnknownEnumType { type_id: usize },
    /// An NBT tag could not be decoded.
    TagDecodeError,
    /// A VarInt ran past its maximum width without a terminating byte.
    VarIntTooLong { max_bytes: usize },
    /// The server side sent data while the connection was still in the handshake state.
    DataSentDuringHandshake,
    /// A frame's declared length, or its declared uncompressed length, is inconsistent.
    InvalidPacketLength,
    /// A compressed payload is not a valid zlib stream.
    IOError,
}

impl DecodeError {
    /// True for the short-read error, which marks a normal end of stream.
    pub fn is_eof_error(&self) -> (r: bool)
        ensures
            r == (*self == DecodeError::UnexpectedEof),
    {
        match self {
            DecodeError::UnexpectedEof => true,
            _ => false,
        }
    }
}

/// Errors raised while encoding packets.
#[derive(Debug, Clone, Copy, PartialEq, Eq, Structural)]
pub enum EncodeError {
    /// A string is longer than its field allows.
    StringTooLong { length: usize, max_length: u16 },
    /// A length does not fit the VarInt that carries it.
    TooLarge,
    /// The compressor failed.
    IOError,
}

} // verus!
