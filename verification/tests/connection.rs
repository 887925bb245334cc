use h3::config::H3Config;
use h3::connection::{accept, connect, H3Action, H3Connection};
use h3::state::{LocalState, PeerState};
use h3::error::{Error, H3Error};
use h3::frame::{H3Frame, SettingsParameter};

fn config_with_root(root: &str) -> H3Config {
    let mut config = H3Config::new(0xff00_0012).unwrap();
    config.set_root_dir(&String::from(root));
    config
}

fn server() -> H3Connection {
    accept(&config_with_root("/srv/www"))
}

fn client() -> H3Connection {
    connect(&config_with_root(""))
}

fn control_stream_with(frame: &H3Frame) -> Vec<u8> {
    let mut bytes = vec![0x43];
    bytes.extend_from_slice(&frame.to_vec().unwrap());
    bytes
}

fn headers(text: &str) -> Vec<u8> {
    H3Frame::Headers { header_block: text.as_bytes().to_vec() }.to_vec().unwrap()
}

fn close(error: H3Error, reason: &[u8]) -> H3Action {
    H3Action::Close { app: true, code: error.to_wire(), reason: reason.to_vec() }
}

#[test]
fn config_defaults_and_setters() {
    let mut config = H3Config::new(7).unwrap();
    assert_eq!(config.version, 7);
    assert_eq!(config.root_dir, "");
    assert_eq!(config.num_placeholders, 16);
    assert_eq!(config.max_header_list_size, 0);
    assert_eq!(config.qpack_max_table_capacity, 0);
    assert_eq!(config.qpack_blocked_streams, 0);

    config.set_root_dir(&String::from("/tmp/root"));
    config.set_num_placeholders(3);
    config.set_max_header_list_size(4);
    config.set_qpack_max_table_capacity(5);
    config.set_qpacked_blocked_streams(6);
    assert_eq!(config.version, 7);
    assert_eq!(config.root_dir, "/tmp/root");
    assert_eq!(config.num_placeholders, 3);
    assert_eq!(config.max_header_list_size, 4);
    assert_eq!(config.qpack_max_table_capacity, 5);
    assert_eq!(config.qpack_blocked_streams, 6);
}

#[test]
fn new_connection_is_idle() {
    let conn = H3Connection::new(&config_with_root("x"), true);
    assert!(conn.is_server());
    assert!(!conn.is_closed());
    assert!(!conn.is_established());
    assert_eq!(conn.local_state(), LocalState::Idle);
    assert_eq!(conn.peer_state(), PeerState::PeerIdle);
    assert_eq!(conn.peer_num_placeholders(), None);
    assert_eq!(conn.peer_max_header_list_size(), None);
    assert_eq!(conn.peer_qpack_max_table_capacity(), None);
    assert_eq!(conn.peer_qpack_blocked_streams(), None);
    assert_eq!(conn.root_dir(), b"x");
    assert_eq!(conn.num_placeholders(), 16);
    assert_eq!(conn.max_header_list_size(), 0);
    assert_eq!(conn.qpack_max_table_capacity(), 0);
    assert_eq!(conn.qpack_blocked_streams(), 0);

    let mut config = config_with_root("/r");
    config.set_num_placeholders(1);
    config.set_max_header_list_size(2);
    config.set_qpack_max_table_capacity(3);
    config.set_qpacked_blocked_streams(4);
    let conn = connect(&config);
    assert_eq!(conn.root_dir(), b"/r");
    assert_eq!(conn.num_placeholders(), 1);
    assert_eq!(conn.max_header_list_size(), 2);
    assert_eq!(conn.qpack_max_table_capacity(), 3);
    assert_eq!(conn.qpack_blocked_streams(), 4);
    assert!(!client().is_server());
    assert!(server().is_server());
}

#[test]
fn well_known_stream_ids() {
    let s = server();
    assert_eq!(s.get_control_stream_id(), 0x3);
    assert_eq!(s.get_encoder_stream_id(), 0x7);
    assert_eq!(s.get_decoder_stream_id(), 0xb);
    let c = client();
    assert_eq!(c.get_control_stream_id(), 0x2);
    assert_eq!(c.get_encoder_stream_id(), 0x6);
    assert_eq!(c.get_decoder_stream_id(), 0xa);
}

#[test]
fn streams_are_opened_once() {
    let mut conn = client();
    assert_eq!(
        conn.open_control_stream(),
        vec![H3Action::Send { stream_id: 2, data: vec![0x43], fin: false }]
    );
    assert_eq!(conn.local_state(), LocalState::ControlOpening);
    assert_eq!(conn.open_control_stream(), vec![]);
    assert!(!conn.is_established());
    assert_eq!(
        conn.open_qpack_streams(),
        vec![
            H3Action::Send { stream_id: 6, data: vec![0x48], fin: false },
            H3Action::Send { stream_id: 10, data: vec![0x68], fin: false },
        ]
    );
    assert!(conn.is_established());
    assert_eq!(conn.local_state(), LocalState::Established);
    assert_eq!(conn.open_qpack_streams(), vec![]);
    assert_eq!(conn.open_control_stream(), vec![]);

    let mut conn = server();
    assert_eq!(
        conn.open_qpack_streams(),
        vec![
            H3Action::Send { stream_id: 7, data: vec![0x48], fin: false },
            H3Action::Send { stream_id: 11, data: vec![0x68], fin: false },
        ]
    );
    assert_eq!(conn.local_state(), LocalState::ControlOpening);
    assert_eq!(
        conn.open_control_stream(),
        vec![H3Action::Send { stream_id: 3, data: vec![0x43], fin: false }]
    );
    assert!(conn.is_established());
}

#[test]
fn settings_are_sent_first_on_the_control_stream() {
    let mut conn = server();
    assert_eq!(
        conn.send_settings(),
        vec![
            H3Action::Send { stream_id: 3, data: vec![0x43], fin: false },
            H3Action::Send {
                stream_id: 3,
                data: vec![7, 0x04, 0, 8, 16, 0, 6, 0x44, 0x00],
                fin: false,
            },
        ]
    );
    assert_eq!(conn.local_state(), LocalState::ControlOpening);

    let mut conn = client();
    assert_eq!(conn.open_control_stream().len(), 1);
    assert_eq!(
        conn.send_settings(),
        vec![H3Action::Send {
            stream_id: 2,
            data: vec![4, 0x04, 0, 6, 0x44, 0x00],
            fin: false,
        }]
    );
}

#[test]
fn request_is_one_headers_frame_on_stream_zero() {
    let mut conn = client();
    assert_eq!(
        conn.send_request(String::from("GET /index.html\r\n")),
        vec![H3Action::Send {
            stream_id: 0,
            data: headers("GET /index.html\r\n"),
            fin: true,
        }]
    );
    let sent = conn.send_request(String::from("GET /"));
    assert_eq!(
        sent,
        vec![H3Action::Send {
            stream_id: 0,
            data: vec![5, 0x01, 71, 69, 84, 32, 47],
            fin: true,
        }]
    );
}

#[test]
fn response_is_headers_and_then_the_body() {
    let mut conn = server();
    assert_eq!(
        conn.send_response(4, String::from("200 OK"), String::from("hi")),
        vec![H3Action::Send {
            stream_id: 4,
            data: vec![6, 0x01, b'2', b'0', b'0', b' ', b'O', b'K', 2, 0x00, b'h', b'i'],
            fin: true,
        }]
    );
    assert_eq!(
        conn.send_response(8, String::from("404 Not Found"), String::from("")),
        vec![H3Action::Send { stream_id: 8, data: headers("404 Not Found"), fin: true }]
    );
}

#[test]
fn control_stream_must_start_with_settings() {
    let others = vec![
        H3Frame::Data { payload: vec![1] },
        H3Frame::Headers { header_block: vec![1] },
        H3Frame::CancelPush { push_id: 1 },
        H3Frame::PushPromise { push_id: 1, header_block: vec![] },
        H3Frame::GoAway { stream_id: 4 },
        H3Frame::MaxPushId { push_id: 9 },
        H3Frame::DuplicatePush { push_id: 9 },
    ];
    for frame in others.iter() {
        for mut conn in vec![server(), client()] {
            let stream = if conn.is_server() { 2 } else { 3 };
            let actions = conn.handle_stream(stream, &control_stream_with(frame), 0, false);
            assert_eq!(
                actions,
                Ok(vec![H3Action::Close {
                    app: true,
                    code: 0x12,
                    reason: b"Non-settings sent as first frame.".to_vec(),
                }])
            );
            assert!(conn.is_closed());
            assert_eq!(conn.local_state(), LocalState::Closed);
            assert_eq!(conn.peer_state(), PeerState::PeerIdle);
        }
    }
}

#[test]
fn second_control_stream_closes_the_connection() {
    let mut conn = server();
    let settings = H3Frame::settings(None, Some(1024), Some(0), None);
    assert_eq!(conn.handle_stream(2, &control_stream_with(&settings), 0, false), Ok(vec![]));
    assert!(!conn.is_closed());
    assert_eq!(conn.peer_state(), PeerState::PeerControlSeen);
    assert_eq!(conn.peer_num_placeholders(), None);
    assert_eq!(conn.peer_max_header_list_size(), Some(1024));
    assert_eq!(conn.peer_qpack_max_table_capacity(), Some(0));
    assert_eq!(conn.peer_qpack_blocked_streams(), None);

    assert_eq!(
        conn.handle_stream(6, &control_stream_with(&settings), 0, false),
        Ok(vec![H3Action::Close { app: true, code: 0xe, reason: vec![] }])
    );
    assert!(conn.is_closed());
}

#[test]
fn repeated_qpack_stream_closes_the_connection() {
    for tag in [0x48u8, 0x68u8] {
        let mut conn = server();
        assert_eq!(conn.handle_stream(6, &[tag], 0, false), Ok(vec![]));
        assert!(!conn.is_closed());
        assert_eq!(
            conn.handle_stream(10, &[tag, 1, 2], 0, false),
            Ok(vec![close(H3Error::WrongStreamCount, b"")])
        );
        assert!(conn.is_closed());
    }
}

#[test]
fn peer_is_established_after_its_three_streams() {
    let mut conn = client();
    let settings = H3Frame::settings(Some(16), Some(1024), None, None);
    assert_eq!(conn.handle_stream(7, &[0x48], 0, false), Ok(vec![]));
    assert_eq!(conn.peer_state(), PeerState::PeerIdle);
    assert_eq!(conn.handle_stream(3, &control_stream_with(&settings), 0, false), Ok(vec![]));
    assert_eq!(conn.peer_state(), PeerState::PeerControlSeen);
    assert_eq!(conn.peer_num_placeholders(), Some(16));
    assert_eq!(conn.handle_stream(11, &[0x68], 0, false), Ok(vec![]));
    assert_eq!(conn.peer_state(), PeerState::PeerEstablished);
    assert!(!conn.is_closed());
}

#[test]
fn client_must_not_announce_placeholders() {
    let mut conn = server();
    let settings = H3Frame::settings(Some(16), Some(1024), None, None);
    assert_eq!(
        conn.handle_stream(2, &control_stream_with(&settings), 0, false),
        Ok(vec![H3Action::Close {
            app: true,
            code: 0x1,
            reason: b"You sent me a num_placeholders.".to_vec(),
        }])
    );
    assert!(conn.is_closed());
    assert_eq!(conn.peer_state(), PeerState::PeerIdle);
    assert_eq!(conn.peer_num_placeholders(), None);
    assert_eq!(conn.peer_max_header_list_size(), None);
}

#[test]
fn last_occurrence_of_a_setting_is_taken_over() {
    let mut conn = server();
    let settings = H3Frame::Settings {
        params: vec![
            SettingsParameter { id: 0x6, value: 10 },
            SettingsParameter { id: 0x33, value: 1 },
            SettingsParameter { id: 0x7, value: 3 },
            SettingsParameter { id: 0x6, value: 20 },
        ],
    };
    assert_eq!(conn.handle_stream(2, &control_stream_with(&settings), 0, false), Ok(vec![]));
    assert_eq!(conn.peer_max_header_list_size(), Some(20));
    assert_eq!(conn.peer_qpack_blocked_streams(), Some(3));
    assert_eq!(conn.peer_qpack_max_table_capacity(), None);
}

#[test]
fn unknown_stream_type_is_ignored() {
    let mut conn = server();
    assert_eq!(conn.handle_stream(2, &[0x99], 0, false), Ok(vec![]));
    assert_eq!(conn.handle_stream(6, &[0x99, 1, 2, 3], 0, true), Ok(vec![]));
    assert_eq!(conn.handle_stream(10, &[0x50], 0, false), Ok(vec![]));
    assert!(!conn.is_closed());
    assert_eq!(conn.peer_state(), PeerState::PeerIdle);
    assert_eq!(conn.local_state(), LocalState::Idle);
}

#[test]
fn later_bytes_of_a_unidirectional_stream_are_not_a_type() {
    let mut conn = server();
    assert_eq!(conn.handle_stream(6, &[0x48], 0, false), Ok(vec![]));
    assert_eq!(conn.handle_stream(6, &[0x48], 1, false), Ok(vec![]));
    assert_eq!(conn.handle_stream(6, &[0x43, 0xff], 2, false), Ok(vec![]));
    assert_eq!(conn.handle_stream(2, &[], 0, false), Ok(vec![]));
    assert!(!conn.is_closed());
}

#[test]
fn get_request_is_answered_with_not_found() {
    let mut conn = server();
    let actions = conn.handle_stream(0, &headers("GET /index.html\r\n"), 0, true).unwrap();
    assert_eq!(actions.len(), 2);
    assert_eq!(
        actions[0],
        H3Action::Requested { stream_id: 0, path: b"/srv/www/index.html".to_vec() }
    );
    match &actions[1] {
        H3Action::Send { stream_id, data, fin } => {
            assert_eq!(*stream_id, 0);
            assert!(*fin);
            assert_eq!(data[0], 13);
            assert_eq!(data[1], 0x01);
            assert!(data[2..].starts_with(b"404 Not Found"));
            assert_eq!(data.len(), 15);
        }
        other => panic!("unexpected action {:?}", other),
    }
    assert!(!conn.is_closed());
}

#[test]
fn get_request_cannot_leave_the_root() {
    let mut conn = server();
    let actions = conn
        .handle_stream(4, &headers("GET /../../etc/./passwd\r\nHost: x\r\n"), 0, false)
        .unwrap();
    assert_eq!(
        actions[0],
        H3Action::Requested { stream_id: 4, path: b"/srv/www/etc/passwd".to_vec() }
    );
    assert_eq!(
        actions[1],
        H3Action::Send { stream_id: 4, data: headers("404 Not Found"), fin: true }
    );
}

#[test]
fn not_found_response_closes_when_the_stream_ends() {
    let mut conn = client();
    assert_eq!(conn.handle_stream(0, &headers("404 Not Found"), 0, false), Ok(vec![]));
    assert!(!conn.is_closed());
    assert_eq!(
        conn.handle_stream(0, &headers("404 Not Found"), 0, true),
        Ok(vec![H3Action::Close { app: true, code: 0x00, reason: b"kthxbye".to_vec() }])
    );
    assert!(conn.is_closed());
}

#[test]
fn other_frames_on_a_request_stream_change_nothing() {
    let mut conn = server();
    let mut bytes = H3Frame::Data { payload: vec![1, 2, 3] }.to_vec().unwrap();
    bytes.extend_from_slice(&headers("PUT /x"));
    bytes.extend_from_slice(&headers("GE"));
    bytes.extend_from_slice(&H3Frame::settings(Some(1), None, None, None).to_vec().unwrap());
    assert_eq!(conn.handle_stream(0, &bytes, 0, true), Ok(vec![]));
    assert_eq!(conn.handle_stream(4, &[], 0, true), Ok(vec![]));
    assert_eq!(conn.handle_stream(4, &[0x21], 0, true), Ok(vec![]));
    assert!(!conn.is_closed());
    assert_eq!(conn.peer_state(), PeerState::PeerIdle);
}

#[test]
fn every_frame_of_a_read_is_dealt_with() {
    let mut conn = server();
    let mut bytes = headers("GET /a\n");
    bytes.extend_from_slice(&H3Frame::Data { payload: vec![9] }.to_vec().unwrap());
    bytes.extend_from_slice(&headers("GET /b/c\r\n"));
    let actions = conn.handle_stream(8, &bytes, 0, false).unwrap();
    assert_eq!(
        actions,
        vec![
            H3Action::Requested { stream_id: 8, path: b"/srv/www/a".to_vec() },
            H3Action::Send { stream_id: 8, data: headers("404 Not Found"), fin: true },
            H3Action::Requested { stream_id: 8, path: b"/srv/www/b/c".to_vec() },
            H3Action::Send { stream_id: 8, data: headers("404 Not Found"), fin: true },
        ]
    );
}

#[test]
fn frames_after_the_close_are_not_dealt_with() {
    let mut conn = client();
    let mut bytes = headers("404 Not Found");
    bytes.extend_from_slice(&headers("GET /a\n"));
    assert_eq!(
        conn.handle_stream(0, &bytes, 0, true),
        Ok(vec![close(H3Error::NoError, b"kthxbye")])
    );
    assert!(conn.is_closed());
}

#[test]
fn frame_that_cannot_be_read_is_an_error_and_changes_nothing() {
    let mut conn = server();
    let mut bytes = headers("GET /a\n");
    bytes.extend_from_slice(&[0x05, 0x00, 1]);
    assert_eq!(conn.handle_stream(0, &bytes, 0, false), Err(Error::BufferUnderflow));
    assert_eq!(conn.handle_stream(0, &[0x00, 0x21], 0, false), Err(Error::InvalidFrame));
    assert_eq!(conn.handle_stream(0, &[0x05, 0x01], 0, false), Err(Error::BufferUnderflow));
    assert_eq!(conn.handle_stream(2, &[0x43], 0, false), Err(Error::BufferUnderflow));
    assert_eq!(conn.handle_stream(2, &[0x43, 0x00, 0x21], 0, false), Err(Error::InvalidFrame));
    assert!(!conn.is_closed());
    assert_eq!(conn.peer_state(), PeerState::PeerIdle);

    let settings = H3Frame::settings(None, None, None, None);
    assert_eq!(conn.handle_stream(2, &control_stream_with(&settings), 0, false), Ok(vec![]));
    assert_eq!(conn.peer_state(), PeerState::PeerControlSeen);
}

#[test]
fn closed_connection_does_nothing() {
    let mut conn = server();
    assert_eq!(conn.handle_stream(6, &[0x48], 0, false), Ok(vec![]));
    assert_eq!(conn.handle_stream(10, &[0x48], 0, false).unwrap().len(), 1);
    assert!(conn.is_closed());
    assert_eq!(conn.open_control_stream(), vec![]);
    assert_eq!(conn.open_qpack_streams(), vec![]);
    assert_eq!(conn.send_settings(), vec![]);
    assert_eq!(conn.send_request(String::from("GET /")), vec![]);
    assert_eq!(conn.send_response(0, String::from("404 Not Found"), String::from("x")), vec![]);
    assert_eq!(conn.handle_stream(0, &headers("GET /a\n"), 0, false), Ok(vec![]));
    assert_eq!(conn.handle_stream(0, &[0xff], 0, false), Ok(vec![]));
    assert_eq!(conn.handle_stream(14, &[0x43, 0xff], 0, false), Ok(vec![]));
    assert!(!conn.is_established());
    assert_eq!(conn.local_state(), LocalState::Closed);

    let mut conn = client();
    conn.on_transport_closed();
    assert!(conn.is_closed());
    assert_eq!(conn.send_settings(), vec![]);
}
