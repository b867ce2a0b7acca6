//! Failures that the library reports, grouped by how a session reacts to them.

use vstd::prelude::*;

verus! {

/// How a session reacts to a failure.
#[derive(Debug, Clone, Copy, PartialEq, Eq, Structural)]
pub enum ErrorKind {
    /// The transport could not be used; the session ends.
    Connection,
    /// The peer broke the handshake rules; the session ends.
    Protocol,
    /// One frame or chunk is unusable; it is dropped and the session goes on.
    Decode,
}

/// A failure detected by the library.
#[derive(Debug, Clone, Copy, PartialEq, Eq, Structural)]
pub enum Error {
    /// A binary frame held no bytes at all.
    EmptyFrame,
    /// A binary frame was shorter than its nine byte prefix.
    FrameTooShort { len: usize },
    /// A binary frame carried a type byte that the parser does not accept.
    FrameType { type_id: u8 },
    /// The codec of a stream is not linear PCM.
    UnsupportedCodec,
    /// The PCM bit depth is neither 16 nor 24.
    UnsupportedBitDepth { bit_depth: u8 },
    /// A stream declared no channels, or no sample rate.
    UnsupportedFormat,
    /// A chunk does not hold a whole number of frames.
    PartialFrame { len: usize, frame_size: usize },
    /// An audio chunk arrived while no stream runs.
    NoStream,
    /// A text on the wire names a message type that is not known.
    UnknownMessageType,
    /// A text on the wire is not the record of a message.
    MalformedMessage,
    /// A message or a tree could not be written as text: it holds a number
    /// whose text is no number.
    Unencodable,
    /// Something other than the server's hello arrived during the handshake.
    UnexpectedMessage,
    /// The server activated a role that the client did not offer.
    RoleNotOffered,
    /// The server closed the transport during the handshake.
    ServerClosed,
    /// The transport ended before the server's hello arrived.
    NoServerHello,
    /// The transport reported a failure.
    Transport,
}

impl Error {
    /// The kind of a failure, as a specification.
    pub open spec fn spec_kind(self) -> ErrorKind {
        match self {
            Error::EmptyFrame
            | Error::FrameTooShort { .. }
            | Error::FrameType { .. }
            | Error::UnsupportedCodec
            | Error::UnsupportedBitDepth { .. }
            | Error::UnsupportedFormat
            | Error::PartialFrame { .. }
            | Error::NoStream
            | Error::UnknownMessageType => ErrorKind::Decode,
            Error::MalformedMessage
            | Error::Unencodable
            | Error::UnexpectedMessage
            | Error::RoleNotOffered => ErrorKind::Protocol,
            Error::ServerClosed | Error::NoServerHello | Error::Transport => ErrorKind::Connection,
        }
    }

    /// The kind of this failure.
    pub fn kind(&self) -> (k: ErrorKind)
        ensures
            k == self.spec_kind(),
    {
        match self {
            Error::EmptyFrame
            | Error::FrameTooShort { .. }
            | Error::FrameType { .. }
            | Error::UnsupportedCodec
            | Error::UnsupportedBitDepth { .. }
            | Error::UnsupportedFormat
            | Error::PartialFrame { .. }
            | Error::NoStream
            | Error::UnknownMessageType => ErrorKind::Decode,
            Error::MalformedMessage
            | Error::Unencodable
            | Error::UnexpectedMessage
            | Error::RoleNotOffered => ErrorKind::Protocol,
            Error::ServerClosed | Error::NoServerHello | Error::Transport => ErrorKind::Connection,
        }
    }

    /// Whether the session must end on this failure: every kind but `Decode`.
    pub fn is_fatal(&self) -> (fatal: bool)
        ensures
            fatal == (self.spec_kind() != ErrorKind::Decode),
    {
        match self.kind() {
            ErrorKind::Decode => false,
            _ => true,
        }
    }
}

} // verus!
