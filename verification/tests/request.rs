use h3::qpack::{DecoderError, NeedMore};
use h3::request::{is_get_request, is_not_found_response, resolve_path};
use h3::stream::{is_bidi, stream_role, unidirectional_role, StreamRole};

#[test]
fn path_is_resolved_under_the_root() {
    assert_eq!(resolve_path(b"/srv", b"/index.html\r\n"), b"/srv/index.html".to_vec());
    assert_eq!(resolve_path(b"/srv/", b"/index.html\n"), b"/srv/index.html".to_vec());
    assert_eq!(resolve_path(b"", b"/index.html"), b"index.html".to_vec());
    assert_eq!(resolve_path(b"root", b"a/b/c"), b"root/a/b/c".to_vec());
    assert_eq!(resolve_path(b"root", b""), b"root".to_vec());
    assert_eq!(resolve_path(b"root", b"/"), b"root".to_vec());
    assert_eq!(resolve_path(b"root", b"\r\n/x"), b"root".to_vec());
}

#[test]
fn path_drops_what_is_not_a_name() {
    assert_eq!(resolve_path(b"/srv", b"/../../etc/passwd"), b"/srv/etc/passwd".to_vec());
    assert_eq!(resolve_path(b"/srv", b"//a///b//"), b"/srv/a/b".to_vec());
    assert_eq!(resolve_path(b"/srv", b"./a/./b/."), b"/srv/a/b".to_vec());
    assert_eq!(resolve_path(b"/srv", b".."), b"/srv".to_vec());
    assert_eq!(resolve_path(b"/srv", b"..."), b"/srv/...".to_vec());
    assert_eq!(resolve_path(b"/srv", b".a/..b/c.."), b"/srv/.a/..b/c..".to_vec());
    assert_eq!(resolve_path(b"/", b"/../x"), b"/x".to_vec());
}

#[test]
fn path_ends_with_the_first_line() {
    assert_eq!(resolve_path(b"r", b"/a\r\n/b"), b"r/a".to_vec());
    assert_eq!(resolve_path(b"r", b"/a\n/b"), b"r/a".to_vec());
    assert_eq!(resolve_path(b"r", b"/a\r/b\n/c"), b"r/a\r/b".to_vec());
    assert_eq!(resolve_path(b"r", b"/a\r"), b"r/a\r".to_vec());
    assert_eq!(resolve_path(b"r", b"/a\r\r\n"), b"r/a\r".to_vec());
}

#[test]
fn textual_prefixes() {
    assert!(is_get_request(b"GET "));
    assert!(is_get_request(b"GET /index.html\r\n"));
    assert!(!is_get_request(b"GET"));
    assert!(!is_get_request(b"get /"));
    assert!(!is_get_request(b" GET /"));
    assert!(!is_get_request(b""));
    assert!(is_not_found_response(b"404 "));
    assert!(is_not_found_response(b"404 Not Found"));
    assert!(!is_not_found_response(b"404"));
    assert!(!is_not_found_response(b"200 OK"));
    assert!(!is_not_found_response(b""));
}

#[test]
fn stream_numbers() {
    for id in [0u64, 1, 4, 5, 8, 0xffff_ffff_ffff_fffc, 0xffff_ffff_ffff_fffd] {
        assert!(is_bidi(id));
    }
    for id in [2u64, 3, 6, 7, 10, 11, 0xffff_ffff_ffff_fffe, u64::MAX] {
        assert!(!is_bidi(id));
    }
}

#[test]
fn stream_roles() {
    assert_eq!(unidirectional_role(0x43), StreamRole::Control);
    assert_eq!(unidirectional_role(0x50), StreamRole::Push);
    assert_eq!(unidirectional_role(0x48), StreamRole::QpackEncoder);
    assert_eq!(unidirectional_role(0x68), StreamRole::QpackDecoder);
    assert_eq!(unidirectional_role(0x99), StreamRole::Unknown);
    assert_eq!(unidirectional_role(0x00), StreamRole::Unknown);
    assert_eq!(stream_role(0, 0x43), StreamRole::Request);
    assert_eq!(stream_role(4, 0x99), StreamRole::Request);
    assert_eq!(stream_role(2, 0x43), StreamRole::Control);
    assert_eq!(stream_role(3, 0x50), StreamRole::Push);
    assert_eq!(stream_role(6, 0x48), StreamRole::QpackEncoder);
    assert_eq!(stream_role(7, 0x68), StreamRole::QpackDecoder);
    assert_eq!(stream_role(10, 0x42), StreamRole::Unknown);
}

#[test]
fn decoder_errors_are_plain_values() {
    let error = DecoderError::NeedMore(NeedMore::IntegerUnderflow);
    let copy = error;
    assert_eq!(error, copy);
    assert_ne!(error, DecoderError::NeedMore(NeedMore::StringUnderflow));
    assert_ne!(error, DecoderError::NeedMore(NeedMore::UnexpectedEndOfStream));
    assert_ne!(DecoderError::InvalidUtf8, DecoderError::IntegerOverflow);
    assert_eq!(format!("{:?}", DecoderError::InvalidHuffmanCode), "InvalidHuffmanCode");
}
