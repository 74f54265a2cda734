//! What can go wrong on a connection.
use vstd::prelude::*;

verus! {

/// The broad class of an error: whether the peer sent bad data, stopped
/// early, or sent something this server does not handle.
#[derive(PartialEq, Eq, Structural, Clone, Copy, Debug)]
pub enum ErrorKind {
    InvalidData,
    UnexpectedEof,
    Unsupported,
    Other,
}

/// Why reading, decoding or handling a frame failed.
#[derive(PartialEq, Eq, Structural, Clone, Copy, Debug)]
pub enum ProtocolError {
    /// The input ended before the value or frame was complete.
    UnexpectedEof,
    /// A varint kept its continuation bit set through its fifth byte.
    VarIntTooBig,
    /// A length prefix was negative.
    NegativeLength,
    /// A string was not valid UTF-8.
    InvalidUtf8,
    /// A handshake named an intent other than status, login or transfer.
    UnknownIntent,
    /// A frame ended before its packet id or its body was complete.
    TruncatedBody,
    /// A frame would be longer than its varint length prefix can state.
    FrameTooLarge,
    /// A frame carried a packet id that the current phase does not accept.
    /// The whole frame was consumed; the connection may go on.
    UnknownPacket { id: i32 },
    /// A message arrived that the connection's state does not allow.
    UnexpectedMessage,
    /// The shared secret or the verify token could not be decrypted.
    DecryptFailed,
    /// The decrypted verify token differs from the one that was issued.
    InvalidVerifyToken,
    /// The stream cipher could not be built from the shared secret.
    CipherInit,
    /// A key pair or its public encoding could not be produced.
    KeyGeneration,
}

impl ProtocolError {
    pub open spec fn spec_kind(self) -> ErrorKind {
        match self {
            ProtocolError::UnexpectedEof => ErrorKind::UnexpectedEof,
            ProtocolError::UnknownPacket { .. } => ErrorKind::Unsupported,
            ProtocolError::KeyGeneration => ErrorKind::Other,
            _ => ErrorKind::InvalidData,
        }
    }

    pub fn kind(&self) -> (r: ErrorKind)
        ensures
            r == self.spec_kind(),
    {
        match self {
            ProtocolError::UnexpectedEof => ErrorKind::UnexpectedEof,
            ProtocolError::UnknownPacket { .. } => ErrorKind::Unsupported,
            ProtocolError::KeyGeneration => ErrorKind::Other,
            _ => ErrorKind::InvalidData,
        }
    }

    /// Whether the connection can go on after this error.
    pub fn is_recoverable(&self) -> (r: bool)
        ensures
            r == (self.spec_kind() == ErrorKind::Unsupported),
    {
        match self {
            ProtocolError::UnknownPacket { .. } => true,
            _ => false,
        }
    }

    /// A short human-readable description.
    pub open spec fn spec_message(self) -> &'static str {
        match self {
            ProtocolError::UnexpectedEof => "unexpected end of input",
            ProtocolError::VarIntTooBig => "VarInt too big",
            ProtocolError::NegativeLength => "negative length prefix",
            ProtocolError::InvalidUtf8 => "String is not valid UTF8",
            ProtocolError::UnknownIntent => "Unknown handshake intent",
            ProtocolError::TruncatedBody => "frame ended before its body was complete",
            ProtocolError::FrameTooLarge => "frame too large",
            ProtocolError::UnknownPacket { .. } => "Unknown packet ID",
            ProtocolError::UnexpectedMessage => "message not allowed in this state",
            ProtocolError::DecryptFailed => "Unable to decrypt shared secret or verify token",
            ProtocolError::InvalidVerifyToken => "invalid verify token",
            ProtocolError::CipherInit => "unable to build the stream cipher",
            ProtocolError::KeyGeneration => "Failed to generate a key.",
        }
    }

    pub fn message(&self) -> (r: &'static str)
        ensures
            r == self.spec_message(),
    {
        match self {
            ProtocolError::UnexpectedEof => "unexpected end of input",
            ProtocolError::VarIntTooBig => "VarInt too big",
            ProtocolError::NegativeLength => "negative length prefix",
            ProtocolError::InvalidUtf8 => "String is not valid UTF8",
            ProtocolError::UnknownIntent => "Unknown handshake intent",
            ProtocolError::TruncatedBody => "frame ended before its body was complete",
            ProtocolError::FrameTooLarge => "frame too large",
            ProtocolError::UnknownPacket { .. } => "Unknown packet ID",
            ProtocolError::UnexpectedMessage => "message not allowed in this state",
            ProtocolError::DecryptFailed => "Unable to decrypt shared secret or verify token",
            ProtocolError::InvalidVerifyToken => "invalid verify token",
            ProtocolError::CipherInit => "unable to build the stream cipher",
            ProtocolError::KeyGeneration => "Failed to generate a key.",
        }
    }
}

} // verus!
