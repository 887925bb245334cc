//! The state of one HTTP/3 connection and its transitions, as mathematics.
//!
//! Each operation on a connection is a function from the state before it to
//! a step: the state after it, and the actions that the owner of the
//! connection is to carry out on the transport, in order.

use crate::config::H3Config;
use crate::error::{Error, H3Error};
use crate::frame::{
    SETTINGS_MAX_HEADER_LIST_SIZE, SETTINGS_NUM_PLACEHOLDERS, SETTINGS_QPACK_BLOCKED_STREAMS,
    SETTINGS_QPACK_MAX_TABLE_CAPACITY,
};
use crate::request::{get_prefix, not_found_prefix, request_path};
use crate::stream::{
    is_bidi, unidirectional_role, StreamRole, H3_CONTROL_STREAM_TYPE_ID,
    QPACK_DECODER_STREAM_TYPE_ID, QPACK_ENCODER_STREAM_TYPE_ID,
};
use crate::varint::MAX_VARINT;
use crate::wire::{announced_settings, parse_all, parse_frame, setting_value, FrameView};
use vstd::prelude::*;

verus! {

/// How far the local side has come in opening its streams.
#[derive(Clone, Copy, Debug, PartialEq, Eq, Structural)]
pub enum LocalState {
    /// None of the local streams is open.
    Idle,
    /// Some, but not all, of the control stream and the two QPACK streams
    /// are open.
    ControlOpening,
    /// The control stream and both QPACK streams are open.
    Established,
    /// The connection was closed.
    Closed,
}

/// How far the peer has come in opening its streams.
#[derive(Clone, Copy, Debug, PartialEq, Eq, Structural)]
pub enum PeerState {
    /// The peer's settings have not arrived.
    PeerIdle,
    /// The peer's control stream is open and its settings have arrived.
    PeerControlSeen,
    /// The peer's control stream and both of its QPACK streams are open.
    PeerEstablished,
}

/// An action as a mathematical value.
pub enum ActionView {
    Send { stream_id: u64, data: Seq<u8>, fin: bool },
    Close { app: bool, code: u16, reason: Seq<u8> },
    Requested { stream_id: u64, path: Seq<u8> },
}

/// The state of a connection as a mathematical value.
pub struct ConnectionView {
    pub is_server: bool,
    pub root_dir: Seq<u8>,
    pub num_placeholders: u64,
    pub max_header_list_size: u64,
    pub qpack_max_table_capacity: u64,
    pub qpack_blocked_streams: u64,
    pub peer_num_placeholders: Option<u64>,
    pub peer_max_header_list_size: Option<u64>,
    pub peer_qpack_max_table_capacity: Option<u64>,
    pub peer_qpack_blocked_streams: Option<u64>,
    pub control_stream_open: bool,
    pub peer_control_stream_open: bool,
    pub qpack_encoder_stream_open: bool,
    pub peer_qpack_encoder_stream_open: bool,
    pub qpack_decoder_stream_open: bool,
    pub peer_qpack_decoder_stream_open: bool,
    pub closed: bool,
}

/// The outcome of one operation: the state it leaves and the actions it
/// asks for.
pub struct Step {
    pub next: ConnectionView,
    pub actions: Seq<ActionView>,
}

impl Step {
    /// This step and then `later`, which starts where this one ends.
    pub open spec fn followed_by(self, later: Step) -> Step {
        Step { next: later.next, actions: self.actions + later.actions }
    }
}

/// The reason given when a client sends the number of placeholders.
pub open spec fn wrong_direction_reason() -> Seq<u8> {
    vstd::utf8::encode_utf8("You sent me a num_placeholders."@)
}

/// The reason given when a control stream does not start with SETTINGS.
pub open spec fn missing_settings_reason() -> Seq<u8> {
    vstd::utf8::encode_utf8("Non-settings sent as first frame."@)
}

/// The reason given when the response has arrived and the connection is
/// done.
pub open spec fn done_reason() -> Seq<u8> {
    vstd::utf8::encode_utf8("kthxbye"@)
}

/// The status line of the response to a request that cannot be served: the
/// bytes `404 Not Found`.
pub open spec fn not_found_status() -> Seq<u8> {
    seq![
        0x34u8, 0x30u8, 0x34u8, 0x20u8, 0x4eu8, 0x6fu8, 0x74u8, 0x20u8, 0x46u8, 0x6fu8, 0x75u8,
        0x6eu8, 0x64u8,
    ]
}

/// The settings that an endpoint announces: a server its 16 placeholders,
/// and either side a header list of at most 1024 bytes.
pub open spec fn local_settings(is_server: bool) -> FrameView {
    FrameView::Settings {
        params: announced_settings(
            if is_server {
                Some(16u64)
            } else {
                None
            },
            Some(1024u64),
            None,
            None,
        ),
    }
}

/// A response on the wire: a HEADERS frame with the status line and, unless
/// the body is empty, a DATA frame with the body.
pub open spec fn response_wire(status_line: Seq<u8>, body: Seq<u8>) -> Seq<u8> {
    (FrameView::Headers { header_block: status_line }).wire() + if body.len() > 0 {
        (FrameView::Data { payload: body }).wire()
    } else {
        Seq::empty()
    }
}

/// Whether a block of `n` bytes can be framed: its length fits a
/// variable-length integer, and the frame fits in memory.
pub open spec fn fits_frame(n: nat) -> bool {
    n <= MAX_VARINT && n + 9 <= usize::MAX
}

impl ConnectionView {
    /// The number of the local control stream.
    pub open spec fn control_stream_id(self) -> u64 {
        if self.is_server {
            0x3
        } else {
            0x2
        }
    }

    /// The number of the local QPACK encoder stream.
    pub open spec fn encoder_stream_id(self) -> u64 {
        if self.is_server {
            0x7
        } else {
            0x6
        }
    }

    /// The number of the local QPACK decoder stream.
    pub open spec fn decoder_stream_id(self) -> u64 {
        if self.is_server {
            0xB
        } else {
            0xA
        }
    }

    /// Whether the control stream and both QPACK streams are open.
    pub open spec fn is_established(self) -> bool {
        self.control_stream_open && self.qpack_encoder_stream_open
            && self.qpack_decoder_stream_open
    }

    /// How far the local side has come.
    pub open spec fn local_state(self) -> LocalState {
        if self.closed {
            LocalState::Closed
        } else if self.is_established() {
            LocalState::Established
        } else if self.control_stream_open || self.qpack_encoder_stream_open
            || self.qpack_decoder_stream_open {
            LocalState::ControlOpening
        } else {
            LocalState::Idle
        }
    }

    /// How far the peer has come.
    pub open spec fn peer_state(self) -> PeerState {
        if !self.peer_control_stream_open {
            PeerState::PeerIdle
        } else if self.peer_qpack_encoder_stream_open && self.peer_qpack_decoder_stream_open {
            PeerState::PeerEstablished
        } else {
            PeerState::PeerControlSeen
        }
    }

    /// The state of a connection that was just created from `config`.
    pub open spec fn initial(config: H3Config, is_server: bool) -> ConnectionView {
        ConnectionView {
            is_server,
            root_dir: vstd::utf8::encode_utf8(config.root_dir@),
            num_placeholders: config.num_placeholders,
            max_header_list_size: config.max_header_list_size,
            qpack_max_table_capacity: config.qpack_max_table_capacity,
            qpack_blocked_streams: config.qpack_blocked_streams,
            peer_num_placeholders: None,
            peer_max_header_list_size: None,
            peer_qpack_max_table_capacity: None,
            peer_qpack_blocked_streams: None,
            control_stream_open: false,
            peer_control_stream_open: false,
            qpack_encoder_stream_open: false,
            peer_qpack_encoder_stream_open: false,
            qpack_decoder_stream_open: false,
            peer_qpack_decoder_stream_open: false,
            closed: false,
        }
    }

    /// Nothing happens.
    pub open spec fn stay(self) -> Step {
        Step { next: self, actions: Seq::empty() }
    }

    /// The connection is closed with `error`.
    pub open spec fn close_with(self, error: H3Error, reason: Seq<u8>) -> Step {
        Step {
            next: ConnectionView { closed: true, ..self },
            actions: seq![ActionView::Close { app: true, code: error.wire_code(), reason }],
        }
    }

    /// The control stream is opened, unless it is open or the connection is
    /// closed: its type byte is sent on it.
    pub open spec fn open_control_stream(self) -> Step {
        if self.closed || self.control_stream_open {
            self.stay()
        } else {
            Step {
                next: ConnectionView { control_stream_open: true, ..self },
                actions: seq![
                    ActionView::Send {
                        stream_id: self.control_stream_id(),
                        data: seq![H3_CONTROL_STREAM_TYPE_ID],
                        fin: false,
                    },
                ],
            }
        }
    }

    /// The QPACK encoder stream is opened, unless it is open or the
    /// connection is closed.
    pub open spec fn open_encoder_stream(self) -> Step {
        if self.closed || self.qpack_encoder_stream_open {
            self.stay()
        } else {
            Step {
                next: ConnectionView { qpack_encoder_stream_open: true, ..self },
                actions: seq![
                    ActionView::Send {
                        stream_id: self.encoder_stream_id(),
                        data: seq![QPACK_ENCODER_STREAM_TYPE_ID],
                        fin: false,
                    },
                ],
            }
        }
    }

    /// The QPACK decoder stream is opened, unless it is open or the
    /// connection is closed.
    pub open spec fn open_decoder_stream(self) -> Step {
        if self.closed || self.qpack_decoder_stream_open {
            self.stay()
        } else {
            Step {
                next: ConnectionView { qpack_decoder_stream_open: true, ..self },
                actions: seq![
                    ActionView::Send {
                        stream_id: self.decoder_stream_id(),
                        data: seq![QPACK_DECODER_STREAM_TYPE_ID],
                        fin: false,
                    },
                ],
            }
        }
    }

    /// Both QPACK streams are opened, the encoder stream first.
    pub open spec fn open_qpack_streams(self) -> Step {
        self.open_encoder_stream().followed_by(
            self.open_encoder_stream().next.open_decoder_stream(),
        )
    }

    /// The control stream is opened if it is not yet, and the local settings
    /// are sent on it.
    pub open spec fn send_settings(self) -> Step {
        if self.closed {
            self.stay()
        } else {
            self.open_control_stream().followed_by(
                Step {
                    next: self.open_control_stream().next,
                    actions: seq![
                        ActionView::Send {
                            stream_id: self.control_stream_id(),
                            data: local_settings(self.is_server).wire(),
                            fin: false,
                        },
                    ],
                },
            )
        }
    }

    /// A request without a body is sent on stream 0, which it finishes.
    pub open spec fn send_request(self, request: Seq<u8>) -> Step {
        if self.closed {
            self.stay()
        } else {
            Step {
                next: self,
                actions: seq![
                    ActionView::Send {
                        stream_id: 0,
                        data: (FrameView::Headers { header_block: request }).wire(),
                        fin: true,
                    },
                ],
            }
        }
    }

    /// A response is sent on `stream`, which it finishes.
    pub open spec fn send_response(self, stream: u64, status_line: Seq<u8>, body: Seq<u8>) -> Step {
        if self.closed {
            self.stay()
        } else {
            Step {
                next: self,
                actions: seq![
                    ActionView::Send {
                        stream_id: stream,
                        data: response_wire(status_line, body),
                        fin: true,
                    },
                ],
            }
        }
    }

    /// The first frame on the peer's control stream has arrived. It must be
    /// SETTINGS, and a client must not announce a number of placeholders:
    /// otherwise the connection is closed. The peer's settings are taken
    /// over, each as the last occurrence of its identifier gives it.
    pub open spec fn on_control_frame(self, frame: FrameView) -> Step {
        match frame {
            FrameView::Settings { params } => if self.is_server && setting_value(
                params,
                SETTINGS_NUM_PLACEHOLDERS,
            ) is Some {
                self.close_with(H3Error::WrongSettingDirection, wrong_direction_reason())
            } else {
                Step {
                    next: ConnectionView {
                        peer_num_placeholders: setting_value(params, SETTINGS_NUM_PLACEHOLDERS),
                        peer_max_header_list_size: setting_value(
                            params,
                            SETTINGS_MAX_HEADER_LIST_SIZE,
                        ),
                        peer_qpack_max_table_capacity: setting_value(
                            params,
                            SETTINGS_QPACK_MAX_TABLE_CAPACITY,
                        ),
                        peer_qpack_blocked_streams: setting_value(
                            params,
                            SETTINGS_QPACK_BLOCKED_STREAMS,
                        ),
                        peer_control_stream_open: true,
                        ..self
                    },
                    actions: Seq::empty(),
                }
            },
            _ => self.close_with(H3Error::MissingSettings, missing_settings_reason()),
        }
    }

    /// The first bytes of a unidirectional stream have arrived. The first of
    /// them tells the role of the stream. There is one control stream, one
    /// QPACK encoder stream and one QPACK decoder stream: a second one closes
    /// the connection. A control stream goes on with its first frame. A push
    /// stream, and a stream of unknown type, change nothing.
    pub open spec fn on_unidirectional(self, data: Seq<u8>) -> Result<Step, Error> {
        if data.len() == 0 {
            Ok(self.stay())
        } else {
            match unidirectional_role(data[0]) {
                StreamRole::Control => if self.peer_control_stream_open {
                    Ok(self.close_with(H3Error::WrongStreamCount, Seq::empty()))
                } else {
                    match parse_frame(data.skip(1)) {
                        Err(e) => Err(e),
                        Ok((frame, n)) => Ok(self.on_control_frame(frame)),
                    }
                },
                StreamRole::QpackEncoder => if self.peer_qpack_encoder_stream_open {
                    Ok(self.close_with(H3Error::WrongStreamCount, Seq::empty()))
                } else {
                    Ok(
                        Step {
                            next: ConnectionView { peer_qpack_encoder_stream_open: true, ..self },
                            actions: Seq::empty(),
                        },
                    )
                },
                StreamRole::QpackDecoder => if self.peer_qpack_decoder_stream_open {
                    Ok(self.close_with(H3Error::WrongStreamCount, Seq::empty()))
                } else {
                    Ok(
                        Step {
                            next: ConnectionView { peer_qpack_decoder_stream_open: true, ..self },
                            actions: Seq::empty(),
                        },
                    )
                },
                _ => Ok(self.stay()),
            }
        }
    }

    /// One frame has arrived on the bidirectional stream `stream`. A HEADERS
    /// frame that starts with `GET ` is a request: the file it names is
    /// noted, and the response that it was not found is sent. A HEADERS frame
    /// that starts with `404 ` is a response: if it ends the stream, the
    /// connection is closed without error. Any other frame changes nothing.
    pub open spec fn on_request_frame(self, stream: u64, frame: FrameView, fin: bool) -> Step {
        match frame {
            FrameView::Headers { header_block } => if get_prefix().is_prefix_of(header_block) {
                Step {
                    next: self,
                    actions: seq![
                        ActionView::Requested {
                            stream_id: stream,
                            path: request_path(self.root_dir, header_block.skip(4)),
                        },
                        ActionView::Send {
                            stream_id: stream,
                            data: response_wire(not_found_status(), Seq::empty()),
                            fin: true,
                        },
                    ],
                }
            } else if not_found_prefix().is_prefix_of(header_block) && fin {
                self.close_with(H3Error::NoError, done_reason())
            } else {
                self.stay()
            },
            _ => self.stay(),
        }
    }

    /// Frames have arrived on the bidirectional stream `stream`: each is
    /// dealt with in turn, until the connection is closed.
    pub open spec fn on_request_frames(self, stream: u64, frames: Seq<FrameView>, fin: bool) -> Step
        decreases frames.len(),
    {
        if frames.len() == 0 || self.closed {
            self.stay()
        } else {
            self.on_request_frame(stream, frames[0], fin).followed_by(
                self.on_request_frame(stream, frames[0], fin).next.on_request_frames(
                    stream,
                    frames.skip(1),
                    fin,
                ),
            )
        }
    }

    /// Bytes have arrived on `stream`: `data`, which stands at offset `off`
    /// of the stream, and `fin` tells whether the stream ends with it.
    ///
    /// A closed connection ignores them. On a unidirectional stream only the
    /// bytes at offset 0 count. On a bidirectional stream a single byte, or
    /// none, is passed over; more bytes are frames, which are all read before
    /// any is dealt with. If a frame cannot be read, that is the error, and
    /// nothing changes.
    pub open spec fn handle_stream(self, stream: u64, data: Seq<u8>, off: u64, fin: bool) -> Result<
        Step,
        Error,
    > {
        if self.closed {
            Ok(self.stay())
        } else if !is_bidi(stream) {
            if off == 0 {
                self.on_unidirectional(data)
            } else {
                Ok(self.stay())
            }
        } else if data.len() <= 1 {
            Ok(self.stay())
        } else {
            match parse_all(data) {
                Err(e) => Err(e),
                Ok(frames) => Ok(self.on_request_frames(stream, frames, fin)),
            }
        }
    }
}

/// What `later` keeps of `earlier`: the side, the root directory and the
/// local settings are the same, what was open is open, and what was closed
/// is closed.
pub open spec fn keeps(earlier: ConnectionView, later: ConnectionView) -> bool {
    &&& later.is_server == earlier.is_server
    &&& later.root_dir == earlier.root_dir
    &&& later.num_placeholders == earlier.num_placeholders
    &&& later.max_header_list_size == earlier.max_header_list_size
    &&& later.qpack_max_table_capacity == earlier.qpack_max_table_capacity
    &&& later.qpack_blocked_streams == earlier.qpack_blocked_streams
    &&& (earlier.control_stream_open ==> later.control_stream_open)
    &&& (earlier.peer_control_stream_open ==> later.peer_control_stream_open)
    &&& (earlier.qpack_encoder_stream_open ==> later.qpack_encoder_stream_open)
    &&& (earlier.peer_qpack_encoder_stream_open ==> later.peer_qpack_encoder_stream_open)
    &&& (earlier.qpack_decoder_stream_open ==> later.qpack_decoder_stream_open)
    &&& (earlier.peer_qpack_decoder_stream_open ==> later.peer_qpack_decoder_stream_open)
    &&& (earlier.closed ==> later.closed)
}

} // verus!
