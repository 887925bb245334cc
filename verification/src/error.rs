//! Error values: the cursor and codec failures, and the application error
//! codes that travel on the wire when a connection is closed.

use vstd::prelude::*;

verus! {

/// A failure of the octet cursor or of the frame codec.
#[derive(Clone, Copy, Debug, PartialEq, Eq, Structural)]
pub enum Error {
    /// A read asked for more bytes than remain in the buffer.
    BufferUnderflow,
    /// A write needed more room than remains in the buffer.
    BufferOverflow,
    /// The frame type is unknown, or the frame cannot be laid out on the wire.
    InvalidFrame,
}

/// An HTTP/3 error, as signalled to the peer when a stream or the connection
/// is closed.
#[derive(Clone, Copy, Debug, PartialEq, Eq, Structural)]
pub enum H3Error {
    /// There is no error, just stream or connection close.
    NoError,
    /// A setting was sent in the wrong direction.
    WrongSettingDirection,
    /// The server attempted to push content that the client will not accept.
    PushRefused,
    /// Internal error in the HTTP/3 stack.
    InternalError,
    /// The server attempted to push something the client already has.
    PushAlreadyInCache,
    /// The client no longer needs the requested data.
    RequestCancelled,
    /// The request stream terminated before completing the request.
    IncompleteRequest,
    /// Forward connection failure for a CONNECT target.
    ConnectError,
    /// The peer is exhibiting behaviour that causes excessive load.
    ExcessiveLoad,
    /// The operation cannot be served over HTTP/3; retry over HTTP/1.1.
    VersionFallback,
    /// A frame was received on a stream where it is not permitted.
    WrongStream,
    /// A stream, push or placeholder id above the current maximum was used.
    LimitExceeded,
    /// A push id was used in two different stream headers.
    DuplicatePush,
    /// Unknown unidirectional stream type.
    UnknownStreamType,
    /// Too many unidirectional streams of one type were created.
    WrongStreamCount,
    /// A required critical stream was closed.
    ClosedCriticalStream,
    /// A unidirectional stream type was opened by a peer that may not open it.
    WrongStreamDirection,
    /// The remainder of the request is not needed.
    EarlyResponse,
    /// No SETTINGS frame at the beginning of the control stream.
    MissingSettings,
    /// A frame was received which is not permitted in the current state.
    UnexpectedFrame,
    /// The server rejected the request without any application processing.
    RequestRejected,
    /// The peer violated the protocol in a way no other code describes.
    GeneralProtocolError,
    /// A frame whose layout is broken.
    MalformedFrame,
    /// QPACK header block decompression failure.
    QpackDecompressionFailed,
    /// QPACK encoder stream error.
    QpackEncoderStreamError,
    /// QPACK decoder stream error.
    QpackDecoderStreamError,
}

impl H3Error {
    /// The 16-bit code that stands for this error on the wire.
    pub open spec fn wire_code(self) -> u16 {
        match self {
            H3Error::NoError => 0x0,
            H3Error::WrongSettingDirection => 0x1,
            H3Error::PushRefused => 0x2,
            H3Error::InternalError => 0x3,
            H3Error::PushAlreadyInCache => 0x4,
            H3Error::RequestCancelled => 0x5,
            H3Error::IncompleteRequest => 0x6,
            H3Error::ConnectError => 0x7,
            H3Error::ExcessiveLoad => 0x8,
            H3Error::VersionFallback => 0x9,
            H3Error::WrongStream => 0xA,
            H3Error::LimitExceeded => 0xB,
            H3Error::DuplicatePush => 0xC,
            H3Error::UnknownStreamType => 0xD,
            H3Error::WrongStreamCount => 0xE,
            H3Error::ClosedCriticalStream => 0xF,
            H3Error::WrongStreamDirection => 0x10,
            H3Error::EarlyResponse => 0x11,
            H3Error::MissingSettings => 0x12,
            H3Error::UnexpectedFrame => 0x13,
            H3Error::RequestRejected => 0x14,
            H3Error::GeneralProtocolError => 0xFF,
            H3Error::MalformedFrame => 0x10,
            H3Error::QpackDecompressionFailed => 0x20,
            H3Error::QpackEncoderStreamError => 0x21,
            H3Error::QpackDecoderStreamError => 0x22,
        }
    }

    /// Returns the wire code of this error.
    pub fn to_wire(&self) -> (code: u16)
        ensures
            code == self.wire_code(),
    {
        match self {
            H3Error::NoError => 0x0,
            H3Error::WrongSettingDirection => 0x1,
            H3Error::PushRefused => 0x2,
            H3Error::InternalError => 0x3,
            H3Error::PushAlreadyInCache => 0x4,
            H3Error::RequestCancelled => 0x5,
            H3Error::IncompleteRequest => 0x6,
            H3Error::ConnectError => 0x7,
            H3Error::ExcessiveLoad => 0x8,
            H3Error::VersionFallback => 0x9,
            H3Error::WrongStream => 0xA,
            H3Error::LimitExceeded => 0xB,
            H3Error::DuplicatePush => 0xC,
            H3Error::UnknownStreamType => 0xD,
            H3Error::WrongStreamCount => 0xE,
            H3Error::ClosedCriticalStream => 0xF,
            H3Error::WrongStreamDirection => 0x10,
            H3Error::EarlyResponse => 0x11,
            H3Error::MissingSettings => 0x12,
            H3Error::UnexpectedFrame => 0x13,
            H3Error::RequestRejected => 0x14,
            H3Error::GeneralProtocolError => 0xFF,
            H3Error::MalformedFrame => 0x10,
            H3Error::QpackDecompressionFailed => 0x20,
            H3Error::QpackEncoderStreamError => 0x21,
            H3Error::QpackDecoderStreamError => 0x22,
        }
    }
}

} // verus!
