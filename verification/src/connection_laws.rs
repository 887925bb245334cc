//! The laws of the connection: what the protocol forbids closes the
//! connection with the code that stands for it, what is unknown is ignored,
//! and nothing that happened is undone.

use crate::error::{Error, H3Error};
use crate::frame::{SETTINGS_MAX_HEADER_LIST_SIZE, SETTINGS_NUM_PLACEHOLDERS};
use crate::frame_laws::{lemma_one_frame_is_read, lemma_round_trip};
use crate::request::{get_prefix, not_found_prefix, request_path};
use crate::state::{
    done_reason, keeps, local_settings, missing_settings_reason, not_found_status, response_wire,
    wrong_direction_reason, ActionView, ConnectionView, LocalState, PeerState, Step,
};
use crate::stream::{
    is_bidi, spec_is_server_initiated, H3_CONTROL_STREAM_TYPE_ID, QPACK_DECODER_STREAM_TYPE_ID,
    QPACK_ENCODER_STREAM_TYPE_ID,
};
use crate::varint::MAX_VARINT;
use crate::wire::{
    lemma_params_bytes_bound, lemma_wire_len, parse_all, parse_frame, setting_value, FrameView,
};
use vstd::prelude::*;

verus! {

/// A control stream must start with SETTINGS. Whenever the first frame on
/// the peer's control stream is any other frame, the connection is closed
/// with the code of `MissingSettings`, which is 0x12, and the control stream
/// is not taken to be open.
pub proof fn lemma_missing_settings(s: ConnectionView, stream: u64, data: Seq<u8>, fin: bool)
    requires
        !s.closed,
        !s.peer_control_stream_open,
        !is_bidi(stream),
        data.len() > 0,
        data[0] == H3_CONTROL_STREAM_TYPE_ID,
        parse_frame(data.skip(1)) is Ok,
        !(parse_frame(data.skip(1))->Ok_0.0 is Settings),
    ensures
        s.handle_stream(stream, data, 0, fin) == Ok::<Step, Error>(
            Step {
                next: ConnectionView { closed: true, ..s },
                actions: seq![
                    ActionView::Close { app: true, code: 0x12, reason: missing_settings_reason() },
                ],
            },
        ),
        H3Error::MissingSettings.wire_code() == 0x12,
{
}

/// There is one control stream, one QPACK encoder stream and one QPACK
/// decoder stream. Whenever a stream announces a role that another stream
/// of the peer already has, the connection is closed with the code of
/// `WrongStreamCount`, which is 0xE.
pub proof fn lemma_wrong_stream_count(s: ConnectionView, stream: u64, data: Seq<u8>, fin: bool)
    requires
        !s.closed,
        !is_bidi(stream),
        data.len() > 0,
        (data[0] == H3_CONTROL_STREAM_TYPE_ID && s.peer_control_stream_open) || (data[0]
            == QPACK_ENCODER_STREAM_TYPE_ID && s.peer_qpack_encoder_stream_open) || (data[0]
            == QPACK_DECODER_STREAM_TYPE_ID && s.peer_qpack_decoder_stream_open),
    ensures
        s.handle_stream(stream, data, 0, fin) == Ok::<Step, Error>(
            Step {
                next: ConnectionView { closed: true, ..s },
                actions: seq![
                    ActionView::Close { app: true, code: 0xE, reason: Seq::<u8>::empty() },
                ],
            },
        ),
        H3Error::WrongStreamCount.wire_code() == 0xE,
{
}

/// A repeated stream closes the connection. When two streams of the peer
/// both announce the QPACK encoder role, or both the QPACK decoder role,
/// then after the second the connection is closed, and all that was asked
/// for is one close with the code of `WrongStreamCount`.
pub proof fn lemma_repeated_stream(
    s: ConnectionView,
    first: u64,
    first_data: Seq<u8>,
    second: u64,
    second_data: Seq<u8>,
)
    requires
        !s.closed,
        !is_bidi(first),
        !is_bidi(second),
        first_data.len() > 0,
        second_data.len() > 0,
        first_data[0] == second_data[0],
        first_data[0] == QPACK_ENCODER_STREAM_TYPE_ID || first_data[0]
            == QPACK_DECODER_STREAM_TYPE_ID,
    ensures
        s.handle_stream(first, first_data, 0, false) is Ok,
        s.handle_stream(first, first_data, 0, false)->Ok_0.next.handle_stream(
            second,
            second_data,
            0,
            false,
        ) is Ok,
        ({
            let one = s.handle_stream(first, first_data, 0, false)->Ok_0;
            let two = one.next.handle_stream(second, second_data, 0, false)->Ok_0;
            two.next.closed && one.actions + two.actions == seq![
                ActionView::Close { app: true, code: 0xEu16, reason: Seq::<u8>::empty() },
            ]
        }),
{
}

/// A role is taken when its first stream is seen. On an open connection a
/// first QPACK stream marks its role as taken and asks for nothing, and so
/// does a first control stream that starts with SETTINGS which the peer may
/// send; the peer's settings are then known.
pub proof fn lemma_first_stream_takes_role(s: ConnectionView, stream: u64, data: Seq<u8>, fin: bool)
    requires
        !s.closed,
        !is_bidi(stream),
        data.len() > 0,
    ensures
        data[0] == QPACK_ENCODER_STREAM_TYPE_ID && !s.peer_qpack_encoder_stream_open
            ==> s.handle_stream(stream, data, 0, fin) == Ok::<Step, Error>(
            Step {
                next: ConnectionView { peer_qpack_encoder_stream_open: true, ..s },
                actions: Seq::empty(),
            },
        ),
        data[0] == QPACK_DECODER_STREAM_TYPE_ID && !s.peer_qpack_decoder_stream_open
            ==> s.handle_stream(stream, data, 0, fin) == Ok::<Step, Error>(
            Step {
                next: ConnectionView { peer_qpack_decoder_stream_open: true, ..s },
                actions: Seq::empty(),
            },
        ),
        data[0] == H3_CONTROL_STREAM_TYPE_ID && !s.peer_control_stream_open && parse_frame(
            data.skip(1),
        ) is Ok && parse_frame(data.skip(1))->Ok_0.0 is Settings && !(s.is_server && setting_value(
            parse_frame(data.skip(1))->Ok_0.0->params,
            SETTINGS_NUM_PLACEHOLDERS,
        ) is Some) ==> {
            let step = s.handle_stream(stream, data, 0, fin)->Ok_0;
            let params = parse_frame(data.skip(1))->Ok_0.0->params;
            &&& s.handle_stream(stream, data, 0, fin) is Ok
            &&& step.actions == Seq::<ActionView>::empty()
            &&& step.next.peer_control_stream_open
            &&& !step.next.closed
            &&& step.next.peer_state() != PeerState::PeerIdle
            &&& step.next.peer_max_header_list_size == setting_value(
                params,
                SETTINGS_MAX_HEADER_LIST_SIZE,
            )
        },
{
}

/// A client must not announce a number of placeholders. Whenever a server
/// finds that setting in the SETTINGS frame that starts the peer's control
/// stream, the connection is closed with the code of
/// `WrongSettingDirection`, which is 0x1, and no setting is taken over.
pub proof fn lemma_wrong_setting_direction(s: ConnectionView, stream: u64, data: Seq<u8>, fin: bool)
    requires
        s.is_server,
        !s.closed,
        !s.peer_control_stream_open,
        !is_bidi(stream),
        data.len() > 0,
        data[0] == H3_CONTROL_STREAM_TYPE_ID,
        parse_frame(data.skip(1)) is Ok,
        parse_frame(data.skip(1))->Ok_0.0 is Settings,
        setting_value(parse_frame(data.skip(1))->Ok_0.0->params, SETTINGS_NUM_PLACEHOLDERS) is Some,
    ensures
        s.handle_stream(stream, data, 0, fin) == Ok::<Step, Error>(
            Step {
                next: ConnectionView { closed: true, ..s },
                actions: seq![
                    ActionView::Close { app: true, code: 0x1, reason: wrong_direction_reason() },
                ],
            },
        ),
{
}

/// A stream of unknown type is ignored. Whatever first byte a
/// unidirectional stream has that is not the type of a control, push or
/// QPACK stream, the connection stays as it was, open, and nothing is asked
/// for; and so for a push stream.
pub proof fn lemma_unknown_stream_ignored(s: ConnectionView, stream: u64, data: Seq<u8>, fin: bool)
    requires
        !s.closed,
        !is_bidi(stream),
        data.len() > 0,
        data[0] != H3_CONTROL_STREAM_TYPE_ID,
        data[0] != QPACK_ENCODER_STREAM_TYPE_ID,
        data[0] != QPACK_DECODER_STREAM_TYPE_ID,
    ensures
        s.handle_stream(stream, data, 0, fin) == Ok::<Step, Error>(s.stay()),
{
}

/// Closed is final. On a closed connection no operation changes the state
/// or asks for anything.
pub proof fn lemma_closed_is_final(
    s: ConnectionView,
    stream: u64,
    data: Seq<u8>,
    off: u64,
    fin: bool,
    body: Seq<u8>,
)
    requires
        s.closed,
    ensures
        s.local_state() == LocalState::Closed,
        s.open_control_stream() == s.stay(),
        s.open_qpack_streams().next == s,
        s.open_qpack_streams().actions == Seq::<ActionView>::empty(),
        s.send_settings() == s.stay(),
        s.send_request(data) == s.stay(),
        s.send_response(stream, data, body) == s.stay(),
        s.handle_stream(stream, data, off, fin) == Ok::<Step, Error>(s.stay()),
{
}

/// Nothing is ever undone. Every operation keeps the side, the root
/// directory and the local settings of the connection; a stream that was
/// open stays open, and a closed connection stays closed.
pub proof fn lemma_nothing_undone(
    s: ConnectionView,
    stream: u64,
    data: Seq<u8>,
    off: u64,
    fin: bool,
    body: Seq<u8>,
)
    ensures
        keeps(s, s.open_control_stream().next),
        keeps(s, s.open_qpack_streams().next),
        keeps(s, s.send_settings().next),
        keeps(s, s.send_request(data).next),
        keeps(s, s.send_response(stream, data, body).next),
        s.handle_stream(stream, data, off, fin) is Ok ==> keeps(
            s,
            s.handle_stream(stream, data, off, fin)->Ok_0.next,
        ),
{
    if parse_all(data) is Ok {
        lemma_request_frames_keep(s, stream, parse_all(data)->Ok_0, fin);
    }
}

/// Frames on a bidirectional stream keep what the connection had.
proof fn lemma_request_frames_keep(
    s: ConnectionView,
    stream: u64,
    frames: Seq<FrameView>,
    fin: bool,
)
    ensures
        keeps(s, s.on_request_frames(stream, frames, fin).next),
    decreases frames.len(),
{
    if frames.len() > 0 && !s.closed {
        lemma_request_frames_keep(
            s.on_request_frame(stream, frames[0], fin).next,
            stream,
            frames.skip(1),
            fin,
        );
    }
}

/// Opening is idempotent: once the control stream is open, opening it again
/// changes nothing and asks for nothing, and so for the QPACK streams; and
/// after the three are opened the local side is established.
pub proof fn lemma_open_once(s: ConnectionView)
    ensures
        s.open_control_stream().next.open_control_stream() == s.open_control_stream().next.stay(),
        s.open_qpack_streams().next.open_qpack_streams().next == s.open_qpack_streams().next,
        s.open_qpack_streams().next.open_qpack_streams().actions == Seq::<ActionView>::empty(),
        !s.closed ==> s.open_control_stream().next.open_qpack_streams().next.is_established(),
        !s.closed ==> s.send_settings().next.open_qpack_streams().next.local_state()
            == LocalState::Established,
{
}

/// The three local streams are unidirectional, were opened by the local
/// side, and are three different streams.
pub proof fn lemma_local_stream_ids(s: ConnectionView)
    ensures
        !is_bidi(s.control_stream_id()),
        !is_bidi(s.encoder_stream_id()),
        !is_bidi(s.decoder_stream_id()),
        spec_is_server_initiated(s.control_stream_id()) == s.is_server,
        spec_is_server_initiated(s.encoder_stream_id()) == s.is_server,
        spec_is_server_initiated(s.decoder_stream_id()) == s.is_server,
        s.control_stream_id() != s.encoder_stream_id(),
        s.control_stream_id() != s.decoder_stream_id(),
        s.encoder_stream_id() != s.decoder_stream_id(),
{
}

/// A request is understood and answered. What a client sends as a request
/// that starts with `GET `, a server that is open takes as a request for the
/// file that the request names under the server's root, and answers on the
/// same stream with the response that it was not found; and when the client
/// is handed that response as the end of the stream, it closes the
/// connection without error.
pub proof fn lemma_request_is_answered(
    client: ConnectionView,
    server: ConnectionView,
    request: Seq<u8>,
)
    requires
        !client.closed,
        !server.closed,
        get_prefix().is_prefix_of(request),
        request.len() <= MAX_VARINT,
    ensures
        client.send_request(request).actions == seq![
            ActionView::Send {
                stream_id: 0,
                data: (FrameView::Headers { header_block: request }).wire(),
                fin: true,
            },
        ],
        server.handle_stream(0, (FrameView::Headers { header_block: request }).wire(), 0, true)
            == Ok::<Step, Error>(
            Step {
                next: server,
                actions: seq![
                    ActionView::Requested {
                        stream_id: 0,
                        path: request_path(server.root_dir, request.skip(4)),
                    },
                    ActionView::Send {
                        stream_id: 0,
                        data: response_wire(not_found_status(), Seq::empty()),
                        fin: true,
                    },
                ],
            },
        ),
        client.handle_stream(0, response_wire(not_found_status(), Seq::empty()), 0, true) == Ok::<
            Step,
            Error,
        >(client.close_with(H3Error::NoError, done_reason())),
{
    lemma_request_is_understood(server, request);
    lemma_response_is_understood(client);
}

/// A request that starts with `GET ` is noted and answered.
proof fn lemma_request_is_understood(server: ConnectionView, request: Seq<u8>)
    requires
        !server.closed,
        get_prefix().is_prefix_of(request),
        request.len() <= MAX_VARINT,
    ensures
        server.handle_stream(0, (FrameView::Headers { header_block: request }).wire(), 0, true)
            == Ok::<Step, Error>(
            server.on_request_frame(0, FrameView::Headers { header_block: request }, true),
        ),
{
    let asked = FrameView::Headers { header_block: request };
    lemma_wire_len(asked);
    lemma_one_frame_is_read(asked);
    lemma_one_step(server, 0, asked, true);
}

/// The response that a file was not found, as the end of the stream, closes
/// the connection of a client without error.
proof fn lemma_response_is_understood(client: ConnectionView)
    requires
        !client.closed,
    ensures
        client.handle_stream(0, response_wire(not_found_status(), Seq::empty()), 0, true) == Ok::<
            Step,
            Error,
        >(client.close_with(H3Error::NoError, done_reason())),
{
    let answered = FrameView::Headers { header_block: not_found_status() };
    lemma_wire_len(answered);
    lemma_one_frame_is_read(answered);
    assert(not_found_prefix().is_prefix_of(not_found_status()));
    assert(!get_prefix().is_prefix_of(not_found_status()));
    lemma_one_step(client, 0, answered, true);
}

/// Dealing with one frame is dealing with a list of that frame.
proof fn lemma_one_step(s: ConnectionView, stream: u64, frame: FrameView, fin: bool)
    requires
        !s.closed,
    ensures
        s.on_request_frames(stream, seq![frame], fin) == s.on_request_frame(stream, frame, fin),
{
    reveal_with_fuel(ConnectionView::on_request_frames, 2);
}

/// Settings are understood. What an endpoint writes on its control stream
/// when it sends its settings, the type byte and then the SETTINGS frame,
/// the other side takes as the start of the peer's control stream: it asks
/// for nothing, stays open, and knows the peer's settings. A client learns
/// of the server's 16 placeholders; a server is told of none, as it must
/// be.
pub proof fn lemma_settings_are_understood(sender: ConnectionView, receiver: ConnectionView)
    requires
        !sender.closed,
        !sender.control_stream_open,
        !receiver.closed,
        !receiver.peer_control_stream_open,
        sender.is_server != receiver.is_server,
    ensures
        sender.send_settings().actions == seq![
            ActionView::Send {
                stream_id: sender.control_stream_id(),
                data: seq![H3_CONTROL_STREAM_TYPE_ID],
                fin: false,
            },
            ActionView::Send {
                stream_id: sender.control_stream_id(),
                data: local_settings(sender.is_server).wire(),
                fin: false,
            },
        ],
        receiver.handle_stream(
            sender.control_stream_id(),
            seq![H3_CONTROL_STREAM_TYPE_ID] + local_settings(sender.is_server).wire(),
            0,
            false,
        ) == Ok::<Step, Error>(
            Step {
                next: ConnectionView {
                    peer_num_placeholders: if sender.is_server {
                        Some(16u64)
                    } else {
                        None
                    },
                    peer_max_header_list_size: Some(1024u64),
                    peer_qpack_max_table_capacity: None,
                    peer_qpack_blocked_streams: None,
                    peer_control_stream_open: true,
                    ..receiver
                },
                actions: Seq::empty(),
            },
        ),
{
    let settings = local_settings(sender.is_server);
    let params = settings->params;
    let data = seq![H3_CONTROL_STREAM_TYPE_ID] + settings.wire();
    reveal_with_fuel(setting_value, 4);
    lemma_params_bytes_bound(params);
    lemma_round_trip(settings, Seq::empty());
    assert(data.skip(1) =~= settings.wire() + Seq::<u8>::empty());
    lemma_local_stream_ids(sender);
}

} // verus!
