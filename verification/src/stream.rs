//! Streams and their roles.
//!
//! The role of a stream is not stored: it follows from the stream's number
//! and, for a unidirectional stream, from the first byte received on it.

use vstd::prelude::*;

verus! {

/// First byte of a control stream.
pub const H3_CONTROL_STREAM_TYPE_ID: u8 = 0x43;

/// First byte of a push stream.
pub const H3_PUSH_STREAM_TYPE_ID: u8 = 0x50;

/// First byte of a QPACK encoder stream.
pub const QPACK_ENCODER_STREAM_TYPE_ID: u8 = 0x48;

/// First byte of a QPACK decoder stream.
pub const QPACK_DECODER_STREAM_TYPE_ID: u8 = 0x68;

/// What a stream is for.
#[derive(Clone, Copy, Debug, PartialEq, Eq, Structural)]
pub enum StreamRole {
    /// A bidirectional stream, which carries a request and its response.
    Request,
    /// The unidirectional stream that carries settings and control frames.
    Control,
    /// A unidirectional stream on which the server pushes a response.
    Push,
    /// The unidirectional stream of the QPACK encoder.
    QpackEncoder,
    /// The unidirectional stream of the QPACK decoder.
    QpackDecoder,
    /// A unidirectional stream of a type that is not known.
    Unknown,
}

/// Whether a stream number denotes a bidirectional stream: its second
/// lowest bit is clear.
pub open spec fn spec_is_bidi(stream_id: u64) -> bool {
    stream_id % 4 < 2
}

/// Whether a stream number denotes a stream that the server opened: its
/// lowest bit is set.
pub open spec fn spec_is_server_initiated(stream_id: u64) -> bool {
    stream_id % 2 == 1
}

/// The role of a unidirectional stream whose first byte is `tag`.
pub open spec fn spec_unidirectional_role(tag: u8) -> StreamRole {
    if tag == H3_CONTROL_STREAM_TYPE_ID {
        StreamRole::Control
    } else if tag == H3_PUSH_STREAM_TYPE_ID {
        StreamRole::Push
    } else if tag == QPACK_ENCODER_STREAM_TYPE_ID {
        StreamRole::QpackEncoder
    } else if tag == QPACK_DECODER_STREAM_TYPE_ID {
        StreamRole::QpackDecoder
    } else {
        StreamRole::Unknown
    }
}

/// The role of stream `stream_id` whose first byte, if it is unidirectional,
/// is `tag`.
pub open spec fn spec_stream_role(stream_id: u64, tag: u8) -> StreamRole {
    if spec_is_bidi(stream_id) {
        StreamRole::Request
    } else {
        spec_unidirectional_role(tag)
    }
}

/// Returns whether the stream is bidirectional.
#[verifier::when_used_as_spec(spec_is_bidi)]
pub fn is_bidi(stream_id: u64) -> (bidi: bool)
    ensures
        bidi == spec_is_bidi(stream_id),
{
    assert((stream_id & 0x2 == 0) == (stream_id % 4 < 2)) by (bit_vector);
    (stream_id & 0x2) == 0
}

/// Returns the role that the first byte of a unidirectional stream
/// announces.
#[verifier::when_used_as_spec(spec_unidirectional_role)]
pub fn unidirectional_role(tag: u8) -> (role: StreamRole)
    ensures
        role == spec_unidirectional_role(tag),
{
    match tag {
        0x43 => StreamRole::Control,
        0x50 => StreamRole::Push,
        0x48 => StreamRole::QpackEncoder,
        0x68 => StreamRole::QpackDecoder,
        _ => StreamRole::Unknown,
    }
}

/// Returns the role of stream `stream_id`, given the first byte received on
/// it.
#[verifier::when_used_as_spec(spec_stream_role)]
pub fn stream_role(stream_id: u64, tag: u8) -> (role: StreamRole)
    ensures
        role == spec_stream_role(stream_id, tag),
{
    if is_bidi(stream_id) {
        StreamRole::Request
    } else {
        unidirectional_role(tag)
    }
}

} // verus!
