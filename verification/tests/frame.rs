use h3::frame::H3Frame;
use h3::octets::Octets;

#[test]
fn data() {
    let mut d: [u8; 128] = [42; 128];

    let frame = H3Frame::Data {
        payload: vec![1, 2, 3, 4, 5, 6, 7, 8, 9, 10, 11, 12],
    };

    let wire_len = {
        let mut b = Octets::with_slice(&mut d);
        frame.to_bytes(&mut b).unwrap()
    };

    assert_eq!(wire_len, 14);

    {
        let mut b = Octets::with_slice(&mut d);
        assert_eq!(H3Frame::from_bytes(&mut b).unwrap(), frame);
    }
}

#[test]
fn headers() {
    let mut d: [u8; 128] = [42; 128];

    let frame = H3Frame::Headers {
        header_block: vec![71, 69, 84, 32, 47],
    };

    let wire_len = {
        let mut b = Octets::with_slice(&mut d);
        frame.to_bytes(&mut b).unwrap()
    };

    assert_eq!(wire_len, 7);

    {
        let mut b = Octets::with_slice(&mut d);
        assert_eq!(H3Frame::from_bytes(&mut b).unwrap(), frame);
    }
}

#[test]
fn cancel_push() {
    let mut d: [u8; 128] = [42; 128];

    let frame = H3Frame::CancelPush { push_id: 0 };

    let wire_len = {
        let mut b = Octets::with_slice(&mut d);
        frame.to_bytes(&mut b).unwrap()
    };

    assert_eq!(wire_len, 3);

    {
        let mut b = Octets::with_slice(&mut d);
        assert_eq!(H3Frame::from_bytes(&mut b).unwrap(), frame);
    }
}

#[test]
fn settings_all() {
    let mut d: [u8; 128] = [42; 128];

    let frame = H3Frame::settings(Some(16), Some(1024), Some(0), Some(0));

    let wire_len = {
        let mut b = Octets::with_slice(&mut d);
        frame.to_bytes(&mut b).unwrap()
    };

    assert_eq!(wire_len, 15);

    {
        let mut b = Octets::with_slice(&mut d);
        assert_eq!(H3Frame::from_bytes(&mut b).unwrap(), frame);
    }
}

#[test]
fn settings_h3_only() {
    let mut d: [u8; 128] = [42; 128];

    let frame = H3Frame::settings(Some(16), Some(1024), None, None);

    let wire_len = {
        let mut b = Octets::with_slice(&mut d);
        frame.to_bytes(&mut b).unwrap()
    };

    assert_eq!(wire_len, 9);

    {
        let mut b = Octets::with_slice(&mut d);
        assert_eq!(H3Frame::from_bytes(&mut b).unwrap(), frame);
    }
}

#[test]
fn settings_qpack_only() {
    let mut d: [u8; 128] = [42; 128];

    let frame = H3Frame::settings(None, None, Some(0), Some(0));

    let wire_len = {
        let mut b = Octets::with_slice(&mut d);
        frame.to_bytes(&mut b).unwrap()
    };

    assert_eq!(wire_len, 8);

    {
        let mut b = Octets::with_slice(&mut d);
        assert_eq!(H3Frame::from_bytes(&mut b).unwrap(), frame);
    }
}

#[test]
fn push_promise() {
    let mut d: [u8; 128] = [42; 128];

    let frame = H3Frame::PushPromise {
        push_id: 0,
        header_block: vec![71, 69, 84, 32, 47],
    };

    let wire_len = {
        let mut b = Octets::with_slice(&mut d);
        frame.to_bytes(&mut b).unwrap()
    };

    assert_eq!(wire_len, 8);

    {
        let mut b = Octets::with_slice(&mut d);
        assert_eq!(H3Frame::from_bytes(&mut b).unwrap(), frame);
    }
}

#[test]
fn goaway() {
    let mut d: [u8; 128] = [42; 128];

    let frame = H3Frame::GoAway { stream_id: 32 };

    let wire_len = {
        let mut b = Octets::with_slice(&mut d);
        frame.to_bytes(&mut b).unwrap()
    };

    assert_eq!(wire_len, 3);

    {
        let mut b = Octets::with_slice(&mut d);
        assert_eq!(H3Frame::from_bytes(&mut b).unwrap(), frame);
    }
}

#[test]
fn max_push_id() {
    let mut d: [u8; 128] = [42; 128];

    let frame = H3Frame::MaxPushId { push_id: 128 };

    let wire_len = {
        let mut b = Octets::with_slice(&mut d);
        frame.to_bytes(&mut b).unwrap()
    };

    assert_eq!(wire_len, 4);

    {
        let mut b = Octets::with_slice(&mut d);
        assert_eq!(H3Frame::from_bytes(&mut b).unwrap(), frame);
    }
}

#[test]
fn duplicate_push() {
    let mut d: [u8; 128] = [42; 128];

    let frame = H3Frame::DuplicatePush { push_id: 0 };

    let wire_len = {
        let mut b = Octets::with_slice(&mut d);
        frame.to_bytes(&mut b).unwrap()
    };

    assert_eq!(wire_len, 3);

    {
        let mut b = Octets::with_slice(&mut d);
        assert_eq!(H3Frame::from_bytes(&mut b).unwrap(), frame);
    }
}
