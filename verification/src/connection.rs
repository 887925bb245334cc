//! One HTTP/3 connection: what it does when its owner opens streams, sends,
//! or hands it what arrived on a stream.
//!
//! The connection performs no input or output. Each operation changes the
//! state and returns the actions that its owner is to carry out on the
//! transport, in order.

use crate::config::H3Config;
use crate::error::{Error, H3Error};
use crate::frame::{
    find_setting, frame_views, H3Frame, SETTINGS_MAX_HEADER_LIST_SIZE, SETTINGS_NUM_PLACEHOLDERS,
    SETTINGS_QPACK_BLOCKED_STREAMS, SETTINGS_QPACK_MAX_TABLE_CAPACITY,
};
use crate::octets::{lemma_skip_rest, Octets};
use crate::request::{is_get_request, is_not_found_response, resolve_path};
use crate::state::{
    fits_frame, not_found_status, response_wire, ActionView, ConnectionView, LocalState, PeerState,
    Step,
};
use crate::stream::{
    is_bidi, unidirectional_role, StreamRole, H3_CONTROL_STREAM_TYPE_ID,
    QPACK_DECODER_STREAM_TYPE_ID, QPACK_ENCODER_STREAM_TYPE_ID,
};
use crate::wire::{lemma_params_bytes_bound, lemma_wire_len};
use vstd::prelude::*;

verus! {

/// What a connection asks of its owner.
#[derive(Clone, Debug, PartialEq, Eq)]
pub enum H3Action {
    /// Write `data` on stream `stream_id`, and finish the stream if `fin`.
    Send { stream_id: u64, data: Vec<u8>, fin: bool },
    /// Close the connection with an error code and a reason phrase; `app`
    /// tells that the code is an application error code.
    Close { app: bool, code: u16, reason: Vec<u8> },
    /// Take note that a request for the file `path` arrived on stream
    /// `stream_id`.
    Requested { stream_id: u64, path: Vec<u8> },
}

impl View for H3Action {
    type V = ActionView;

    open spec fn view(&self) -> ActionView {
        match *self {
            H3Action::Send { stream_id, data, fin } => ActionView::Send {
                stream_id,
                data: data@,
                fin,
            },
            H3Action::Close { app, code, reason } => ActionView::Close {
                app,
                code,
                reason: reason@,
            },
            H3Action::Requested { stream_id, path } => ActionView::Requested {
                stream_id,
                path: path@,
            },
        }
    }
}

/// The actions of a list, each as a mathematical value.
pub open spec fn action_views(actions: Seq<H3Action>) -> Seq<ActionView> {
    actions.map_values(|a: H3Action| a@)
}

/// What an operation owes: the actions of `step`, and its state.
pub open spec fn performed(step: Step, actions: Vec<H3Action>, after: ConnectionView) -> bool {
    action_views(actions@) == step.actions && after == step.next
}

/// What the handling of an event owes: where `expected` is a step, its
/// actions and its state; where it is an error, that error and the state
/// as it was.
pub open spec fn handled(
    before: ConnectionView,
    expected: Result<Step, Error>,
    r: Result<Vec<H3Action>, Error>,
    after: ConnectionView,
) -> bool {
    match expected {
        Ok(step) => r is Ok && performed(step, r->Ok_0, after),
        Err(e) => r is Err && r->Err_0 == e && after == before,
    }
}

/// An HTTP/3 connection.
#[derive(Clone, Debug)]
pub struct H3Connection {
    is_server: bool,
    root_dir: String,
    num_placeholders: u64,
    max_header_list_size: u64,
    qpack_max_table_capacity: u64,
    qpack_blocked_streams: u64,
    peer_num_placeholders: Option<u64>,
    peer_max_header_list_size: Option<u64>,
    peer_qpack_max_table_capacity: Option<u64>,
    peer_qpack_blocked_streams: Option<u64>,
    control_stream_open: bool,
    peer_control_stream_open: bool,
    qpack_encoder_stream_open: bool,
    peer_qpack_encoder_stream_open: bool,
    qpack_decoder_stream_open: bool,
    peer_qpack_decoder_stream_open: bool,
    closed: bool,
}

impl View for H3Connection {
    type V = ConnectionView;

    closed spec fn view(&self) -> ConnectionView {
        ConnectionView {
            is_server: self.is_server,
            root_dir: vstd::utf8::encode_utf8(self.root_dir@),
            num_placeholders: self.num_placeholders,
            max_header_list_size: self.max_header_list_size,
            qpack_max_table_capacity: self.qpack_max_table_capacity,
            qpack_blocked_streams: self.qpack_blocked_streams,
            peer_num_placeholders: self.peer_num_placeholders,
            peer_max_header_list_size: self.peer_max_header_list_size,
            peer_qpack_max_table_capacity: self.peer_qpack_max_table_capacity,
            peer_qpack_blocked_streams: self.peer_qpack_blocked_streams,
            control_stream_open: self.control_stream_open,
            peer_control_stream_open: self.peer_control_stream_open,
            qpack_encoder_stream_open: self.qpack_encoder_stream_open,
            peer_qpack_encoder_stream_open: self.peer_qpack_encoder_stream_open,
            qpack_decoder_stream_open: self.qpack_decoder_stream_open,
            peer_qpack_decoder_stream_open: self.peer_qpack_decoder_stream_open,
            closed: self.closed,
        }
    }
}

impl H3Connection {
    /// Creates the connection of a server or of a client, with the settings
    /// of `config`, nothing open and nothing heard from the peer.
    pub fn new(config: &H3Config, is_server: bool) -> (conn: H3Connection)
        ensures
            conn@ == ConnectionView::initial(*config, is_server),
    {
        H3Connection {
            is_server,
            root_dir: config.root_dir.clone(),
            num_placeholders: config.num_placeholders,
            max_header_list_size: config.max_header_list_size,
            qpack_max_table_capacity: config.qpack_max_table_capacity,
            qpack_blocked_streams: config.qpack_blocked_streams,
            peer_num_placeholders: None,
            peer_max_header_list_size: None,
            peer_qpack_max_table_capacity: None,
            peer_qpack_blocked_streams: None,
            control_stream_open: false,
            peer_control_stream_open: false,
            qpack_encoder_stream_open: false,
            peer_qpack_encoder_stream_open: false,
            qpack_decoder_stream_open: false,
            peer_qpack_decoder_stream_open: false,
            closed: false,
        }
    }

    /// Returns whether this is the connection of a server.
    pub fn is_server(&self) -> (server: bool)
        ensures
            server == self@.is_server,
    {
        self.is_server
    }

    /// Returns whether the connection was closed.
    pub fn is_closed(&self) -> (closed: bool)
        ensures
            closed == self@.closed,
    {
        self.closed
    }

    /// Returns whether the control stream and both QPACK streams are open.
    pub fn is_established(&self) -> (established: bool)
        ensures
            established == self@.is_established(),
    {
        self.control_stream_open && self.qpack_encoder_stream_open
            && self.qpack_decoder_stream_open
    }

    /// Returns how far the local side has come in opening its streams.
    pub fn local_state(&self) -> (state: LocalState)
        ensures
            state == self@.local_state(),
    {
        if self.closed {
            LocalState::Closed
        } else if self.is_established() {
            LocalState::Established
        } else if self.control_stream_open || self.qpack_encoder_stream_open
            || self.qpack_decoder_stream_open {
            LocalState::ControlOpening
        } else {
            LocalState::Idle
        }
    }

    /// Returns how far the peer has come in opening its streams.
    pub fn peer_state(&self) -> (state: PeerState)
        ensures
            state == self@.peer_state(),
    {
        if !self.peer_control_stream_open {
            PeerState::PeerIdle
        } else if self.peer_qpack_encoder_stream_open && self.peer_qpack_decoder_stream_open {
            PeerState::PeerEstablished
        } else {
            PeerState::PeerControlSeen
        }
    }

    /// Returns the number of placeholders that the connection was configured
    /// with.
    pub fn num_placeholders(&self) -> (value: u64)
        ensures
            value == self@.num_placeholders,
    {
        self.num_placeholders
    }

    /// Returns the largest header list that the connection was configured to
    /// accept.
    pub fn max_header_list_size(&self) -> (value: u64)
        ensures
            value == self@.max_header_list_size,
    {
        self.max_header_list_size
    }

    /// Returns the QPACK table capacity that the connection was configured
    /// with.
    pub fn qpack_max_table_capacity(&self) -> (value: u64)
        ensures
            value == self@.qpack_max_table_capacity,
    {
        self.qpack_max_table_capacity
    }

    /// Returns the number of QPACK blocked streams that the connection was
    /// configured with.
    pub fn qpack_blocked_streams(&self) -> (value: u64)
        ensures
            value == self@.qpack_blocked_streams,
    {
        self.qpack_blocked_streams
    }

    /// Returns the root directory that requested paths are resolved in.
    pub fn root_dir(&self) -> (root: &[u8])
        ensures
            root@ == self@.root_dir,
    {
        self.root_dir.as_str().as_bytes()
    }

    /// Returns the number of placeholders that the peer announced, if any.
    pub fn peer_num_placeholders(&self) -> (value: Option<u64>)
        ensures
            value == self@.peer_num_placeholders,
    {
        self.peer_num_placeholders
    }

    /// Returns the largest header list that the peer accepts, if announced.
    pub fn peer_max_header_list_size(&self) -> (value: Option<u64>)
        ensures
            value == self@.peer_max_header_list_size,
    {
        self.peer_max_header_list_size
    }

    /// Returns the QPACK table capacity that the peer announced, if any.
    pub fn peer_qpack_max_table_capacity(&self) -> (value: Option<u64>)
        ensures
            value == self@.peer_qpack_max_table_capacity,
    {
        self.peer_qpack_max_table_capacity
    }

    /// Returns the number of QPACK blocked streams that the peer announced,
    /// if any.
    pub fn peer_qpack_blocked_streams(&self) -> (value: Option<u64>)
        ensures
            value == self@.peer_qpack_blocked_streams,
    {
        self.peer_qpack_blocked_streams
    }

    /// Returns the number of the local control stream: 3 for a server, 2 for
    /// a client.
    pub fn get_control_stream_id(&self) -> (id: u64)
        ensures
            id == self@.control_stream_id(),
    {
        if self.is_server {
            0x3
        } else {
            0x2
        }
    }

    /// Returns the number of the local QPACK encoder stream: 7 for a server,
    /// 6 for a client.
    pub fn get_encoder_stream_id(&self) -> (id: u64)
        ensures
            id == self@.encoder_stream_id(),
    {
        if self.is_server {
            0x7
        } else {
            0x6
        }
    }

    /// Returns the number of the local QPACK decoder stream: 11 for a server,
    /// 10 for a client.
    pub fn get_decoder_stream_id(&self) -> (id: u64)
        ensures
            id == self@.decoder_stream_id(),
    {
        if self.is_server {
            0xB
        } else {
            0xA
        }
    }

    /// Opens the local control stream. The first call asks to send the type
    /// byte of a control stream on it; later calls ask for nothing.
    pub fn open_control_stream(&mut self) -> (actions: Vec<H3Action>)
        ensures
            performed(old(self)@.open_control_stream(), actions, final(self)@),
    {
        if self.closed || self.control_stream_open {
            no_actions()
        } else {
            let action: H3Action = send_type_byte(
                self.get_control_stream_id(),
                H3_CONTROL_STREAM_TYPE_ID,
            );
            self.control_stream_open = true;
            one_action(action)
        }
    }

    /// Opens the two local QPACK streams, the encoder stream first. Each is
    /// opened once: for one that is open, nothing is asked for.
    pub fn open_qpack_streams(&mut self) -> (actions: Vec<H3Action>)
        ensures
            performed(old(self)@.open_qpack_streams(), actions, final(self)@),
    {
        let mut actions: Vec<H3Action> = self.open_encoder_stream();
        let later: Vec<H3Action> = self.open_decoder_stream();
        add_actions(&mut actions, later);
        actions
    }

    /// Sends the local settings on the control stream, which is opened
    /// first if it is not open: a server announces 16 placeholders, and
    /// either side a header list of at most 1024 bytes.
    pub fn send_settings(&mut self) -> (actions: Vec<H3Action>)
        ensures
            performed(old(self)@.send_settings(), actions, final(self)@),
    {
        if self.closed {
            return no_actions();
        }
        let mut actions: Vec<H3Action> = self.open_control_stream();
        let num_placeholders: Option<u64> = if self.is_server {
            Some(16)
        } else {
            None
        };
        let frame: H3Frame = H3Frame::settings(num_placeholders, Some(1024), None, None);
        proof {
            lemma_params_bytes_bound(frame@->params);
            lemma_wire_len(frame@);
        }
        let data: Vec<u8> = match frame.to_vec() {
            Some(bytes) => bytes,
            None => Vec::new(),
        };
        let later: Vec<H3Action> = one_action(
            H3Action::Send { stream_id: self.get_control_stream_id(), data, fin: false },
        );
        add_actions(&mut actions, later);
        actions
    }

    /// Sends a request without a body: `request` in a HEADERS frame on
    /// stream 0, which it finishes.
    pub fn send_request(&mut self, request: String) -> (actions: Vec<H3Action>)
        requires
            fits_frame(vstd::utf8::encode_utf8(request@).len()),
        ensures
            performed(
                old(self)@.send_request(vstd::utf8::encode_utf8(request@)),
                actions,
                final(self)@,
            ),
    {
        if self.closed {
            return no_actions();
        }
        let frame: H3Frame = H3Frame::Headers {
            header_block: vstd::slice::slice_to_vec(request.as_str().as_bytes()),
        };
        proof {
            lemma_wire_len(frame@);
        }
        let data: Vec<u8> = match frame.to_vec() {
            Some(bytes) => bytes,
            None => Vec::new(),
        };
        one_action(H3Action::Send { stream_id: 0, data, fin: true })
    }

    /// Sends a response on `stream`, which it finishes: the status line in a
    /// HEADERS frame and, unless the body is empty, the body in a DATA frame
    /// behind it, both in one write.
    pub fn send_response(
        &mut self,
        stream: u64,
        status_line: String,
        body: String,
    ) -> (actions: Vec<H3Action>)
        requires
            fits_frame(vstd::utf8::encode_utf8(status_line@).len()),
            fits_frame(vstd::utf8::encode_utf8(body@).len()),
        ensures
            performed(
                old(self)@.send_response(
                    stream,
                    vstd::utf8::encode_utf8(status_line@),
                    vstd::utf8::encode_utf8(body@),
                ),
                actions,
                final(self)@,
            ),
    {
        if self.closed {
            return no_actions();
        }
        let data: Vec<u8> = response_bytes(
            status_line.as_str().as_bytes(),
            body.as_str().as_bytes(),
        );
        one_action(H3Action::Send { stream_id: stream, data, fin: true })
    }

    /// Deals with what arrived on a stream: `data`, which stands at offset
    /// `off` of stream `stream`, and `fin`, which tells whether the stream
    /// ends with it. Returns what is to be done on the transport.
    ///
    /// On a unidirectional stream the first byte of the stream tells its
    /// role, and only the control stream is read further: its first frame
    /// must be SETTINGS. On a bidirectional stream every frame in `data` is
    /// read, and each is dealt with in turn; a single byte is passed over. A
    /// frame that cannot be read is the error, and the connection is as it
    /// was.
    pub fn handle_stream(
        &mut self,
        stream: u64,
        data: &[u8],
        off: u64,
        fin: bool,
    ) -> (r: Result<Vec<H3Action>, Error>)
        ensures
            handled(old(self)@, old(self)@.handle_stream(stream, data@, off, fin), r, final(self)@),
    {
        if self.closed {
            return Ok(no_actions());
        }
        if !is_bidi(stream) {
            if off == 0 {
                self.on_unidirectional(data)
            } else {
                Ok(no_actions())
            }
        } else if data.len() <= 1 {
            Ok(no_actions())
        } else {
            let mut space: Vec<u8> = vstd::slice::slice_to_vec(data);
            let mut b = Octets::with_slice(space.as_mut_slice());
            assert(b@.rest() =~= data@);
            match H3Frame::all_from_bytes(&mut b) {
                Err(e) => Err(e),
                Ok(frames) => Ok(self.on_request_frames(stream, &frames, fin)),
            }
        }
    }

    /// Records that the transport reports the connection closed.
    pub fn on_transport_closed(&mut self)
        ensures
            final(self)@ == (ConnectionView { closed: true, ..old(self)@ }),
    {
        self.closed = true;
    }

    /// Opens the local QPACK encoder stream, once.
    fn open_encoder_stream(&mut self) -> (actions: Vec<H3Action>)
        ensures
            performed(old(self)@.open_encoder_stream(), actions, final(self)@),
    {
        if self.closed || self.qpack_encoder_stream_open {
            no_actions()
        } else {
            let action: H3Action = send_type_byte(
                self.get_encoder_stream_id(),
                QPACK_ENCODER_STREAM_TYPE_ID,
            );
            self.qpack_encoder_stream_open = true;
            one_action(action)
        }
    }

    /// Opens the local QPACK decoder stream, once.
    fn open_decoder_stream(&mut self) -> (actions: Vec<H3Action>)
        ensures
            performed(old(self)@.open_decoder_stream(), actions, final(self)@),
    {
        if self.closed || self.qpack_decoder_stream_open {
            no_actions()
        } else {
            let action: H3Action = send_type_byte(
                self.get_decoder_stream_id(),
                QPACK_DECODER_STREAM_TYPE_ID,
            );
            self.qpack_decoder_stream_open = true;
            one_action(action)
        }
    }

    /// Closes the connection with `error`.
    fn close_with(&mut self, error: H3Error, reason: &[u8]) -> (actions: Vec<H3Action>)
        ensures
            performed(old(self)@.close_with(error, reason@), actions, final(self)@),
    {
        self.closed = true;
        one_action(
            H3Action::Close {
                app: true,
                code: error.to_wire(),
                reason: vstd::slice::slice_to_vec(reason),
            },
        )
    }

    /// Deals with the first frame on the peer's control stream.
    fn on_control_frame(&mut self, frame: &H3Frame) -> (actions: Vec<H3Action>)
        ensures
            performed(old(self)@.on_control_frame(frame@), actions, final(self)@),
    {
        match frame {
            H3Frame::Settings { params } => {
                let num_placeholders: Option<u64> = find_setting(
                    params,
                    SETTINGS_NUM_PLACEHOLDERS,
                );
                if self.is_server && num_placeholders.is_some() {
                    self.close_with(
                        H3Error::WrongSettingDirection,
                        "You sent me a num_placeholders.".as_bytes(),
                    )
                } else {
                    self.peer_num_placeholders = num_placeholders;
                    self.peer_max_header_list_size = find_setting(
                        params,
                        SETTINGS_MAX_HEADER_LIST_SIZE,
                    );
                    self.peer_qpack_max_table_capacity = find_setting(
                        params,
                        SETTINGS_QPACK_MAX_TABLE_CAPACITY,
                    );
                    self.peer_qpack_blocked_streams = find_setting(
                        params,
                        SETTINGS_QPACK_BLOCKED_STREAMS,
                    );
                    self.peer_control_stream_open = true;
                    no_actions()
                }
            },
            _ => self.close_with(
                H3Error::MissingSettings,
                "Non-settings sent as first frame.".as_bytes(),
            ),
        }
    }

    /// Deals with the first bytes of a unidirectional stream.
    fn on_unidirectional(&mut self, data: &[u8]) -> (r: Result<Vec<H3Action>, Error>)
        ensures
            handled(old(self)@, old(self)@.on_unidirectional(data@), r, final(self)@),
    {
        if data.len() == 0 {
            return Ok(no_actions());
        }
        match unidirectional_role(data[0]) {
            StreamRole::Control => {
                if self.peer_control_stream_open {
                    let reason: Vec<u8> = Vec::new();
                    Ok(self.close_with(H3Error::WrongStreamCount, reason.as_slice()))
                } else {
                    let mut space: Vec<u8> = vstd::slice::slice_to_vec(data);
                    let mut b = Octets::with_slice(space.as_mut_slice());
                    let ghost start = b@;
                    b.get_u8()?;
                    proof {
                        lemma_skip_rest(start, 1);
                    }
                    match H3Frame::from_bytes(&mut b) {
                        Err(e) => Err(e),
                        Ok(frame) => Ok(self.on_control_frame(&frame)),
                    }
                }
            },
            StreamRole::QpackEncoder => {
                if self.peer_qpack_encoder_stream_open {
                    let reason: Vec<u8> = Vec::new();
                    Ok(self.close_with(H3Error::WrongStreamCount, reason.as_slice()))
                } else {
                    self.peer_qpack_encoder_stream_open = true;
                    Ok(no_actions())
                }
            },
            StreamRole::QpackDecoder => {
                if self.peer_qpack_decoder_stream_open {
                    let reason: Vec<u8> = Vec::new();
                    Ok(self.close_with(H3Error::WrongStreamCount, reason.as_slice()))
                } else {
                    self.peer_qpack_decoder_stream_open = true;
                    Ok(no_actions())
                }
            },
            _ => Ok(no_actions()),
        }
    }

    /// Deals with one frame on a bidirectional stream.
    fn on_request_frame(
        &mut self,
        stream: u64,
        frame: &H3Frame,
        fin: bool,
    ) -> (actions: Vec<H3Action>)
        ensures
            performed(old(self)@.on_request_frame(stream, frame@, fin), actions, final(self)@),
    {
        match frame {
            H3Frame::Headers { header_block } => {
                if is_get_request(header_block.as_slice()) {
                    let target: &[u8] = vstd::slice::slice_subrange(
                        header_block.as_slice(),
                        4,
                        header_block.len(),
                    );
                    let path: Vec<u8> = resolve_path(self.root_dir.as_str().as_bytes(), target);
                    let status: Vec<u8> = not_found_status_bytes();
                    let body: Vec<u8> = Vec::new();
                    let data: Vec<u8> = response_bytes(status.as_slice(), body.as_slice());
                    let mut actions: Vec<H3Action> = Vec::new();
                    actions.push(H3Action::Requested { stream_id: stream, path });
                    actions.push(H3Action::Send { stream_id: stream, data, fin: true });
                    assert(action_views(actions@) =~= seq![
                        ActionView::Requested { stream_id: stream, path: path@ },
                        ActionView::Send { stream_id: stream, data: data@, fin: true },
                    ]);
                    actions
                } else if is_not_found_response(header_block.as_slice()) && fin {
                    self.close_with(H3Error::NoError, "kthxbye".as_bytes())
                } else {
                    no_actions()
                }
            },
            _ => no_actions(),
        }
    }

    /// Deals with the frames that arrived on a bidirectional stream.
    fn on_request_frames(
        &mut self,
        stream: u64,
        frames: &Vec<H3Frame>,
        fin: bool,
    ) -> (actions: Vec<H3Action>)
        ensures
            performed(
                old(self)@.on_request_frames(stream, frame_views(frames@), fin),
                actions,
                final(self)@,
            ),
    {
        let ghost all = frame_views(frames@);
        let ghost first = self@;
        let mut actions: Vec<H3Action> = no_actions();
        let mut i: usize = 0;
        proof {
            assert(all.skip(0) =~= all);
        }
        while i < frames.len() && !self.closed
            invariant
                i <= frames@.len(),
                all == frame_views(frames@),
                first.on_request_frames(stream, all, fin).next == self@.on_request_frames(
                    stream,
                    all.skip(i as int),
                    fin,
                ).next,
                first.on_request_frames(stream, all, fin).actions == action_views(actions@)
                    + self@.on_request_frames(stream, all.skip(i as int), fin).actions,
            decreases frames@.len() - i,
        {
            let later: Vec<H3Action> = self.on_request_frame(stream, &frames[i], fin);
            proof {
                assert(all.skip(i as int).skip(1) =~= all.skip(i + 1));
            }
            add_actions(&mut actions, later);
            i = i + 1;
        }
        actions
    }
}

/// Creates the connection of a client.
pub fn connect(config: &H3Config) -> (conn: H3Connection)
    ensures
        conn@ == ConnectionView::initial(*config, false),
{
    H3Connection::new(config, false)
}

/// Creates the connection of a server.
pub fn accept(config: &H3Config) -> (conn: H3Connection)
    ensures
        conn@ == ConnectionView::initial(*config, true),
{
    H3Connection::new(config, true)
}

/// Returns the action that sends one byte on a stream without finishing it.
fn send_type_byte(stream_id: u64, type_byte: u8) -> (action: H3Action)
    ensures
        action@ == (ActionView::Send { stream_id, data: seq![type_byte], fin: false }),
{
    let mut data: Vec<u8> = Vec::new();
    data.push(type_byte);
    H3Action::Send { stream_id, data, fin: false }
}

/// Returns no actions.
fn no_actions() -> (actions: Vec<H3Action>)
    ensures
        action_views(actions@) == Seq::<ActionView>::empty(),
{
    let actions: Vec<H3Action> = Vec::new();
    actions
}

/// Returns the one action.
fn one_action(action: H3Action) -> (actions: Vec<H3Action>)
    ensures
        action_views(actions@) == seq![action@],
{
    let mut actions: Vec<H3Action> = Vec::new();
    actions.push(action);
    actions
}

/// Adds the actions of `later` to `actions`.
fn add_actions(actions: &mut Vec<H3Action>, later: Vec<H3Action>)
    ensures
        action_views(final(actions)@) == action_views(old(actions)@) + action_views(later@),
{
    let mut rest = later;
    actions.append(&mut rest);
}

/// Returns the bytes of the status line `404 Not Found`.
fn not_found_status_bytes() -> (status: Vec<u8>)
    ensures
        status@ == not_found_status(),
{
    let status: Vec<u8> = vec![
        0x34u8, 0x30u8, 0x34u8, 0x20u8, 0x4eu8, 0x6fu8, 0x74u8, 0x20u8, 0x46u8, 0x6fu8, 0x75u8,
        0x6eu8, 0x64u8,
    ];
    status
}

/// Returns a response as it stands on the wire.
fn response_bytes(status_line: &[u8], body: &[u8]) -> (data: Vec<u8>)
    requires
        fits_frame(status_line@.len()),
        fits_frame(body@.len()),
    ensures
        data@ == response_wire(status_line@, body@),
{
    let headers: H3Frame = H3Frame::Headers {
        header_block: vstd::slice::slice_to_vec(status_line),
    };
    proof {
        lemma_wire_len(headers@);
    }
    let mut data: Vec<u8> = match headers.to_vec() {
        Some(bytes) => bytes,
        None => Vec::new(),
    };
    if body.len() > 0 {
        let payload: H3Frame = H3Frame::Data { payload: vstd::slice::slice_to_vec(body) };
        proof {
            lemma_wire_len(payload@);
        }
        let mut more: Vec<u8> = match payload.to_vec() {
            Some(bytes) => bytes,
            None => Vec::new(),
        };
        data.append(&mut more);
    }
    data
}

} // verus!
