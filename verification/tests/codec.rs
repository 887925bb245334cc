use h3::error::{Error, H3Error};
use h3::frame::{
    find_setting, parse_priority_frame, parse_push_promise, parse_settings_frame,
    ElemDependencyType, H3Frame, PrioritizedElemType, SettingsParameter,
};
use h3::octets::Octets;

fn encode(frame: &H3Frame) -> Vec<u8> {
    let mut d: [u8; 256] = [42; 256];
    let n = {
        let mut b = Octets::with_slice(&mut d);
        frame.to_bytes(&mut b).unwrap()
    };
    d[..n].to_vec()
}

fn decode(bytes: &[u8]) -> Result<H3Frame, Error> {
    let mut copy = bytes.to_vec();
    let mut b = Octets::with_slice(&mut copy);
    H3Frame::from_bytes(&mut b)
}

fn priority(
    priority_elem: PrioritizedElemType,
    elem_dependency: ElemDependencyType,
    prioritized_element_id: u64,
    element_dependency_id: u64,
) -> H3Frame {
    H3Frame::Priority {
        priority_elem,
        elem_dependency,
        prioritized_element_id,
        element_dependency_id,
        weight: 16,
    }
}

#[test]
fn priority_round_trips_for_every_pair_of_types() {
    let elems = [
        PrioritizedElemType::RequestStream,
        PrioritizedElemType::PushStream,
        PrioritizedElemType::Placeholder,
        PrioritizedElemType::CurrentStream,
    ];
    let deps = [
        ElemDependencyType::RequestStream,
        ElemDependencyType::PushStream,
        ElemDependencyType::Placeholder,
        ElemDependencyType::RootOfTree,
    ];
    let mut seen = 0;
    for pt in elems.iter() {
        for dt in deps.iter() {
            let peid = if pt.is_peid_absent() { 0 } else { 70 };
            let edid = if dt.is_edid_absent() { 0 } else { 5 };
            let frame = priority(*pt, *dt, peid, edid);
            let wire = encode(&frame);
            let expected_len = 2
                + 2
                + if pt.is_peid_absent() { 0 } else { 2 }
                + if dt.is_edid_absent() { 0 } else { 1 };
            assert_eq!(wire.len(), expected_len);
            assert_eq!(wire[0] as usize, expected_len - 2);
            assert_eq!(wire[1], 0x02);
            assert_eq!(wire[2], (pt.to_bits() << 6) | (dt.to_bits() << 4));
            assert_eq!(decode(&wire), Ok(frame));
            seen += 1;
        }
    }
    assert_eq!(seen, 16);
}

#[test]
fn priority_exact_bytes() {
    let frame = priority(
        PrioritizedElemType::Placeholder,
        ElemDependencyType::PushStream,
        70,
        5,
    );
    assert_eq!(encode(&frame), vec![5, 0x02, 0x90, 0x40, 70, 5, 16]);

    let frame = priority(
        PrioritizedElemType::CurrentStream,
        ElemDependencyType::RootOfTree,
        0,
        0,
    );
    assert_eq!(encode(&frame), vec![2, 0x02, 0xf0, 16]);
    assert_eq!(decode(&[2, 0x02, 0xf0, 16]), Ok(frame));
}

#[test]
fn priority_leaves_out_each_id_on_its_own() {
    let only_dependency = priority(
        PrioritizedElemType::CurrentStream,
        ElemDependencyType::Placeholder,
        0,
        9,
    );
    assert_eq!(encode(&only_dependency), vec![3, 0x02, 0xe0, 9, 16]);

    let only_element = priority(
        PrioritizedElemType::RequestStream,
        ElemDependencyType::RootOfTree,
        8,
        0,
    );
    assert_eq!(encode(&only_element), vec![3, 0x02, 0x30, 8, 16]);
}

#[test]
fn priority_id_that_is_left_out_is_read_as_zero() {
    let frame = priority(
        PrioritizedElemType::CurrentStream,
        ElemDependencyType::RootOfTree,
        77,
        88,
    );
    let wire = encode(&frame);
    assert_eq!(wire, vec![2, 0x02, 0xf0, 16]);
    assert_eq!(
        decode(&wire),
        Ok(priority(
            PrioritizedElemType::CurrentStream,
            ElemDependencyType::RootOfTree,
            0,
            0,
        ))
    );
}

#[test]
fn priority_with_invalid_type_is_not_written() {
    let mut d: [u8; 16] = [42; 16];
    {
        let mut b = Octets::with_slice(&mut d);
        let frame = priority(
            PrioritizedElemType::Error,
            ElemDependencyType::RequestStream,
            0,
            1,
        );
        assert_eq!(frame.to_bytes(&mut b), Err(Error::InvalidFrame));
        assert_eq!(b.off(), 0);
        let frame = priority(
            PrioritizedElemType::RequestStream,
            ElemDependencyType::Error,
            1,
            0,
        );
        assert_eq!(frame.to_bytes(&mut b), Err(Error::InvalidFrame));
        assert_eq!(frame.payload_len(), None);
        assert_eq!(frame.wire_len(), None);
        assert_eq!(frame.to_vec(), None);
        assert_eq!(b.off(), 0);
    }
    assert_eq!(d, [42; 16]);
}

#[test]
fn type_codes() {
    assert_eq!(PrioritizedElemType::RequestStream.to_bits(), 0);
    assert_eq!(PrioritizedElemType::PushStream.to_bits(), 1);
    assert_eq!(PrioritizedElemType::Placeholder.to_bits(), 2);
    assert_eq!(PrioritizedElemType::CurrentStream.to_bits(), 3);
    assert_eq!(PrioritizedElemType::Error.to_bits(), 4);
    assert_eq!(ElemDependencyType::RequestStream.to_bits(), 0);
    assert_eq!(ElemDependencyType::PushStream.to_bits(), 1);
    assert_eq!(ElemDependencyType::Placeholder.to_bits(), 2);
    assert_eq!(ElemDependencyType::RootOfTree.to_bits(), 3);
    assert_eq!(ElemDependencyType::Error.to_bits(), 4);
    for bits in 0..=4u8 {
        assert_eq!(PrioritizedElemType::from_bits(bits).to_bits(), bits);
        assert_eq!(ElemDependencyType::from_bits(bits).to_bits(), bits);
    }
    assert_eq!(PrioritizedElemType::from_bits(9), PrioritizedElemType::Error);
    assert_eq!(ElemDependencyType::from_bits(255), ElemDependencyType::Error);
}

#[test]
fn absent_ids() {
    assert!(!PrioritizedElemType::RequestStream.is_peid_absent());
    assert!(!PrioritizedElemType::PushStream.is_peid_absent());
    assert!(!PrioritizedElemType::Placeholder.is_peid_absent());
    assert!(PrioritizedElemType::CurrentStream.is_peid_absent());
    assert!(PrioritizedElemType::Error.is_peid_absent());
    assert!(!ElemDependencyType::RequestStream.is_edid_absent());
    assert!(!ElemDependencyType::PushStream.is_edid_absent());
    assert!(!ElemDependencyType::Placeholder.is_edid_absent());
    assert!(ElemDependencyType::RootOfTree.is_edid_absent());
    assert!(ElemDependencyType::Error.is_edid_absent());
}

#[test]
fn empty_data_round_trips() {
    let frame = H3Frame::Data { payload: vec![] };
    let wire = encode(&frame);
    assert_eq!(wire, vec![0x00, 0x00]);
    assert_eq!(decode(&wire), Ok(frame));
}

#[test]
fn settings_without_parameters() {
    let frame = H3Frame::settings(None, None, None, None);
    assert_eq!(frame, H3Frame::Settings { params: vec![] });
    let wire = encode(&frame);
    assert_eq!(wire, vec![0x00, 0x04]);
    assert_eq!(decode(&wire), Ok(frame));
}

#[test]
fn settings_exact_bytes() {
    let frame = H3Frame::settings(Some(16), Some(1024), Some(0), Some(0));
    assert_eq!(
        frame,
        H3Frame::Settings {
            params: vec![
                SettingsParameter { id: 0x8, value: 16 },
                SettingsParameter { id: 0x6, value: 1024 },
                SettingsParameter { id: 0x1, value: 0 },
                SettingsParameter { id: 0x7, value: 0 },
            ],
        }
    );
    assert_eq!(
        encode(&frame),
        vec![13, 0x04, 0, 8, 16, 0, 6, 0x44, 0x00, 0, 1, 0, 0, 7, 0]
    );
}

#[test]
fn settings_keep_duplicates_and_unknown_ids_in_order() {
    let frame = H3Frame::Settings {
        params: vec![
            SettingsParameter { id: 0x6, value: 1 },
            SettingsParameter { id: 0x4a4a, value: 99 },
            SettingsParameter { id: 0x6, value: 2 },
            SettingsParameter { id: 0x1, value: 4_611_686_018_427_387_903 },
        ],
    };
    let wire = encode(&frame);
    assert_eq!(wire.len(), 2 + 3 + 4 + 3 + 10);
    assert_eq!(wire[0], 20);
    assert_eq!(decode(&wire), Ok(frame));
}

#[test]
fn settings_with_a_long_payload_round_trip() {
    let mut params = Vec::new();
    for i in 0..30u16 {
        params.push(SettingsParameter { id: i, value: i as u64 });
    }
    let frame = H3Frame::Settings { params };
    let wire = encode(&frame);
    assert_eq!(wire.len(), 2 + 1 + 90);
    assert_eq!(&wire[..3], &[0x40, 90, 0x04]);
    assert_eq!(decode(&wire), Ok(frame));
}

#[test]
fn last_setting_wins() {
    let params = vec![
        SettingsParameter { id: 0x6, value: 1 },
        SettingsParameter { id: 0x8, value: 7 },
        SettingsParameter { id: 0x6, value: 2 },
    ];
    assert_eq!(find_setting(&params, 0x6), Some(2));
    assert_eq!(find_setting(&params, 0x8), Some(7));
    assert_eq!(find_setting(&params, 0x1), None);
    assert_eq!(find_setting(&vec![], 0x6), None);
}

#[test]
fn length_prefix_counts_the_payload() {
    let frames = vec![
        H3Frame::Data { payload: vec![7; 70] },
        H3Frame::Headers { header_block: vec![1, 2, 3] },
        priority(
            PrioritizedElemType::PushStream,
            ElemDependencyType::Placeholder,
            16384,
            3,
        ),
        H3Frame::CancelPush { push_id: 64 },
        H3Frame::settings(Some(16), None, None, Some(5)),
        H3Frame::PushPromise { push_id: 16384, header_block: vec![9; 10] },
        H3Frame::GoAway { stream_id: 1_073_741_824 },
        H3Frame::MaxPushId { push_id: 1 },
        H3Frame::DuplicatePush { push_id: 63 },
    ];
    for frame in frames.iter() {
        let wire = encode(frame);
        let mut copy = wire.clone();
        let mut b = Octets::with_slice(&mut copy);
        let announced = b.get_varint().unwrap() as usize;
        let after_prefix = b.cap();
        assert_eq!(after_prefix, announced + 1);
        assert_eq!(Some(announced as u64), frame.payload_len());
        assert_eq!(Some(wire.len()), frame.wire_len());
        assert_eq!(Some(wire.clone()), frame.to_vec());
        assert_eq!(wire[wire.len() - after_prefix], frame.type_byte());
        assert_eq!(decode(&wire).as_ref(), Ok(frame));
    }
}

#[test]
fn type_bytes() {
    assert_eq!(H3Frame::Data { payload: vec![] }.type_byte(), 0x00);
    assert_eq!(H3Frame::Headers { header_block: vec![] }.type_byte(), 0x01);
    assert_eq!(
        priority(
            PrioritizedElemType::RequestStream,
            ElemDependencyType::RequestStream,
            0,
            0
        )
        .type_byte(),
        0x02
    );
    assert_eq!(H3Frame::CancelPush { push_id: 0 }.type_byte(), 0x03);
    assert_eq!(H3Frame::Settings { params: vec![] }.type_byte(), 0x04);
    assert_eq!(
        H3Frame::PushPromise { push_id: 0, header_block: vec![] }.type_byte(),
        0x05
    );
    assert_eq!(H3Frame::GoAway { stream_id: 0 }.type_byte(), 0x07);
    assert_eq!(H3Frame::MaxPushId { push_id: 0 }.type_byte(), 0x0d);
    assert_eq!(H3Frame::DuplicatePush { push_id: 0 }.type_byte(), 0x0e);
}

#[test]
fn frame_that_does_not_fit_is_not_written() {
    let mut d: [u8; 6] = [42; 6];
    {
        let mut b = Octets::with_slice(&mut d);
        let frame = H3Frame::Headers { header_block: vec![71, 69, 84, 32, 47] };
        assert_eq!(frame.to_bytes(&mut b), Err(Error::BufferOverflow));
        assert_eq!(b.off(), 0);
        let frame = H3Frame::Headers { header_block: vec![71, 69, 84, 32] };
        assert_eq!(frame.to_bytes(&mut b), Ok(6));
        assert_eq!(b.off(), 6);
        assert_eq!(
            H3Frame::Data { payload: vec![] }.to_bytes(&mut b),
            Err(Error::BufferOverflow)
        );
        assert_eq!(b.off(), 6);
    }
    assert_eq!(d, [4, 1, 71, 69, 84, 32]);
}

#[test]
fn value_too_large_for_the_wire() {
    let mut d: [u8; 32] = [42; 32];
    let mut b = Octets::with_slice(&mut d);
    let too_large = 4_611_686_018_427_387_904;
    assert_eq!(
        H3Frame::CancelPush { push_id: too_large }.to_bytes(&mut b),
        Err(Error::InvalidFrame)
    );
    assert_eq!(
        H3Frame::GoAway { stream_id: too_large }.to_bytes(&mut b),
        Err(Error::InvalidFrame)
    );
    assert_eq!(
        H3Frame::MaxPushId { push_id: u64::MAX }.to_bytes(&mut b),
        Err(Error::InvalidFrame)
    );
    assert_eq!(
        H3Frame::DuplicatePush { push_id: too_large }.to_bytes(&mut b),
        Err(Error::InvalidFrame)
    );
    assert_eq!(
        H3Frame::PushPromise { push_id: too_large, header_block: vec![] }.to_bytes(&mut b),
        Err(Error::InvalidFrame)
    );
    assert_eq!(
        H3Frame::Settings { params: vec![SettingsParameter { id: 1, value: too_large }] }
            .to_bytes(&mut b),
        Err(Error::InvalidFrame)
    );
    assert_eq!(
        priority(
            PrioritizedElemType::RequestStream,
            ElemDependencyType::RootOfTree,
            too_large,
            0
        )
        .to_bytes(&mut b),
        Err(Error::InvalidFrame)
    );
    assert_eq!(
        priority(
            PrioritizedElemType::CurrentStream,
            ElemDependencyType::RootOfTree,
            too_large,
            too_large
        )
        .to_bytes(&mut b),
        Ok(4)
    );
    assert_eq!(b.off(), 4);
}

#[test]
fn unknown_frame_type_is_invalid() {
    assert_eq!(decode(&[0x00, 0x06]), Err(Error::InvalidFrame));
    assert_eq!(decode(&[0x01, 0x0f, 0x00]), Err(Error::InvalidFrame));
    assert_eq!(decode(&[0x00, 0xff]), Err(Error::InvalidFrame));
}

#[test]
fn truncated_frames_underflow_and_leave_the_cursor() {
    let cases: Vec<Vec<u8>> = vec![
        vec![],
        vec![0x05],
        vec![0x40],
        vec![0x05, 0x00, 1, 2, 3, 4],
        vec![0x05, 0x01, 1, 2, 3, 4],
        vec![0x02, 0x02, 0x00, 0x01],
        vec![0x02, 0x02, 0x00, 0x01, 0x02],
        vec![0x02, 0x02],
        vec![0x01, 0x03],
        vec![0x03, 0x04, 0x00, 0x06],
        vec![0x03, 0x04, 0x00],
        vec![0x04, 0x04, 0x00, 0x06, 0x44],
        vec![0x06, 0x05, 0x01, 1, 2, 3, 4],
        vec![0x01, 0x07],
        vec![0x02, 0x0d, 0x40],
        vec![0x01, 0x0e],
    ];
    for case in cases.iter() {
        let mut bytes = vec![0xee];
        bytes.extend_from_slice(case);
        let mut b = Octets::with_slice(&mut bytes);
        assert_eq!(b.get_u8(), Ok(0xee));
        assert_eq!(H3Frame::from_bytes(&mut b), Err(Error::BufferUnderflow));
        assert_eq!(b.off(), 1);
    }
}

#[test]
fn frame_is_read_at_the_offset() {
    let frame = H3Frame::settings(None, Some(1024), None, None);
    let mut d: [u8; 32] = [42; 32];
    {
        let mut b = Octets::with_slice(&mut d);
        b.put_bytes(&[1, 2, 3, 4, 5, 6, 7, 8, 9]).unwrap();
        assert_eq!(frame.to_bytes(&mut b), Ok(6));
        assert_eq!(b.off(), 15);
    }
    let mut b = Octets::with_slice(&mut d);
    assert_eq!(b.get_bytes(9).unwrap().len(), 9);
    assert_eq!(H3Frame::from_bytes(&mut b), Ok(frame));
    assert_eq!(b.off(), 15);
}

#[test]
fn push_promise_with_a_length_too_short_is_invalid() {
    assert_eq!(decode(&[0x00, 0x05, 0x00]), Err(Error::InvalidFrame));
    assert_eq!(decode(&[0x01, 0x05, 0x40, 0x40]), Err(Error::InvalidFrame));
    assert_eq!(
        decode(&[0x01, 0x05, 0x00]),
        Ok(H3Frame::PushPromise { push_id: 0, header_block: vec![] })
    );
}

#[test]
fn payload_parsers() {
    let mut d: [u8; 5] = [0x90, 0x40, 70, 5, 16];
    let mut b = Octets::with_slice(&mut d);
    assert_eq!(
        parse_priority_frame(&mut b),
        Ok(priority(
            PrioritizedElemType::Placeholder,
            ElemDependencyType::PushStream,
            70,
            5
        ))
    );
    assert_eq!(b.off(), 5);

    let mut d: [u8; 3] = [0x90, 0x40, 70];
    let mut b = Octets::with_slice(&mut d);
    assert_eq!(parse_priority_frame(&mut b), Err(Error::BufferUnderflow));
    assert_eq!(b.off(), 0);

    let mut d: [u8; 7] = [0, 8, 16, 0, 6, 0x44, 0x00];
    let mut b = Octets::with_slice(&mut d);
    assert_eq!(
        parse_settings_frame(7, &mut b),
        Ok(H3Frame::settings(Some(16), Some(1024), None, None))
    );
    assert_eq!(b.off(), 7);

    let mut b = Octets::with_slice(&mut d);
    assert_eq!(
        parse_settings_frame(3, &mut b),
        Ok(H3Frame::settings(Some(16), None, None, None))
    );
    assert_eq!(b.off(), 3);

    let mut b = Octets::with_slice(&mut d);
    assert_eq!(parse_settings_frame(8, &mut b), Err(Error::BufferUnderflow));
    assert_eq!(b.off(), 0);

    let mut d: [u8; 4] = [0x07, 1, 2, 3];
    let mut b = Octets::with_slice(&mut d);
    assert_eq!(
        parse_push_promise(3, &mut b),
        Ok(H3Frame::PushPromise { push_id: 7, header_block: vec![1, 2] })
    );
    assert_eq!(b.off(), 3);

    let mut b = Octets::with_slice(&mut d);
    assert_eq!(parse_push_promise(5, &mut b), Err(Error::BufferUnderflow));
    assert_eq!(b.off(), 0);
}

#[test]
fn all_frames_of_a_buffer() {
    let first = H3Frame::Headers { header_block: vec![1, 2, 3] };
    let second = H3Frame::Data { payload: vec![4, 5] };
    let third = H3Frame::GoAway { stream_id: 4 };
    let mut bytes = encode(&first);
    bytes.extend_from_slice(&encode(&second));
    bytes.extend_from_slice(&encode(&third));
    {
        let mut b = Octets::with_slice(&mut bytes);
        assert_eq!(
            H3Frame::all_from_bytes(&mut b),
            Ok(vec![first.clone(), second.clone(), third])
        );
        assert_eq!(b.cap(), 0);
    }

    bytes.push(0x01);
    let mut b = Octets::with_slice(&mut bytes);
    assert_eq!(H3Frame::all_from_bytes(&mut b), Err(Error::BufferUnderflow));
    assert_eq!(b.off(), 0);

    let mut empty: [u8; 0] = [];
    let mut b = Octets::with_slice(&mut empty);
    assert_eq!(H3Frame::all_from_bytes(&mut b), Ok(vec![]));
}

#[test]
fn error_codes_on_the_wire() {
    assert_eq!(H3Error::NoError.to_wire(), 0x0);
    assert_eq!(H3Error::WrongSettingDirection.to_wire(), 0x1);
    assert_eq!(H3Error::PushRefused.to_wire(), 0x2);
    assert_eq!(H3Error::InternalError.to_wire(), 0x3);
    assert_eq!(H3Error::PushAlreadyInCache.to_wire(), 0x4);
    assert_eq!(H3Error::RequestCancelled.to_wire(), 0x5);
    assert_eq!(H3Error::IncompleteRequest.to_wire(), 0x6);
    assert_eq!(H3Error::ConnectError.to_wire(), 0x7);
    assert_eq!(H3Error::ExcessiveLoad.to_wire(), 0x8);
    assert_eq!(H3Error::VersionFallback.to_wire(), 0x9);
    assert_eq!(H3Error::WrongStream.to_wire(), 0xa);
    assert_eq!(H3Error::LimitExceeded.to_wire(), 0xb);
    assert_eq!(H3Error::DuplicatePush.to_wire(), 0xc);
    assert_eq!(H3Error::UnknownStreamType.to_wire(), 0xd);
    assert_eq!(H3Error::WrongStreamCount.to_wire(), 0xe);
    assert_eq!(H3Error::ClosedCriticalStream.to_wire(), 0xf);
    assert_eq!(H3Error::WrongStreamDirection.to_wire(), 0x10);
    assert_eq!(H3Error::EarlyResponse.to_wire(), 0x11);
    assert_eq!(H3Error::MissingSettings.to_wire(), 0x12);
    assert_eq!(H3Error::UnexpectedFrame.to_wire(), 0x13);
    assert_eq!(H3Error::RequestRejected.to_wire(), 0x14);
    assert_eq!(H3Error::GeneralProtocolError.to_wire(), 0xff);
    assert_eq!(H3Error::MalformedFrame.to_wire(), 0x10);
    assert_eq!(H3Error::QpackDecompressionFailed.to_wire(), 0x20);
    assert_eq!(H3Error::QpackEncoderStreamError.to_wire(), 0x21);
    assert_eq!(H3Error::QpackDecoderStreamError.to_wire(), 0x22);
}
