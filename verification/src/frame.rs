//! The HTTP/3 frames, and the functions that write them to a cursor and read
//! them from one.

use crate::error::Error;
use crate::octets::{
    lemma_put_put, lemma_put_shape, lemma_skip_rest, varint_len, Octets, OctetsView,
};
use crate::varint::{
    be_bytes, lemma_be_bytes_len, lemma_parse_varint_range, lemma_varint_bytes_shape, parse_varint,
    varint_bytes, MAX_VARINT,
};
use crate::wire::{
    after_frames, after_params, announced_settings, lemma_params_bytes_step, lemma_read_no_param,
    lemma_read_nothing, lemma_read_on, lemma_read_param_on, lemma_wire_len, optional_id_bytes,
    param_bytes, params_bytes, params_in_range, parse_all, parse_block, parse_frame, parse_id,
    parse_optional_id, parse_param, parse_params, parse_payload, parse_priority,
    parse_push_promise_payload, parse_settings, setting_value, FrameView,
};
use vstd::prelude::*;

verus! {

/// Frame type of DATA.
pub const DATA_FRAME_TYPE: u8 = 0x00;

/// Frame type of HEADERS.
pub const HEADERS_FRAME_TYPE: u8 = 0x01;

/// Frame type of PRIORITY.
pub const PRIORITY_FRAME_TYPE: u8 = 0x02;

/// Frame type of CANCEL_PUSH.
pub const CANCEL_PUSH_FRAME_TYPE: u8 = 0x03;

/// Frame type of SETTINGS.
pub const SETTINGS_FRAME_TYPE: u8 = 0x04;

/// Frame type of PUSH_PROMISE.
pub const PUSH_PROMISE_FRAME_TYPE: u8 = 0x05;

/// Frame type of GOAWAY.
pub const GOAWAY_FRAME_TYPE: u8 = 0x07;

/// Frame type of MAX_PUSH_ID.
pub const MAX_PUSH_ID_FRAME_TYPE: u8 = 0x0D;

/// Frame type of DUPLICATE_PUSH.
pub const DUPLICATE_PUSH_FRAME_TYPE: u8 = 0x0E;

/// Setting: the largest dynamic table the QPACK decoder accepts.
pub const SETTINGS_QPACK_MAX_TABLE_CAPACITY: u16 = 0x1;

/// Setting: the largest header list the endpoint accepts.
pub const SETTINGS_MAX_HEADER_LIST_SIZE: u16 = 0x6;

/// Setting: how many streams QPACK may block.
pub const SETTINGS_QPACK_BLOCKED_STREAMS: u16 = 0x7;

/// Setting: how many placeholders the server keeps in the priority tree.
pub const SETTINGS_NUM_PLACEHOLDERS: u16 = 0x8;

/// What a PRIORITY frame gives a priority to.
#[derive(Clone, Copy, Debug, PartialEq, Eq, Structural)]
pub enum PrioritizedElemType {
    RequestStream,
    PushStream,
    Placeholder,
    CurrentStream,
    Error,
}

impl PrioritizedElemType {
    /// Whether a PRIORITY frame with this type carries no prioritized element
    /// id: the current stream needs none, and an invalid type has none.
    pub open spec fn spec_is_peid_absent(&self) -> bool {
        *self is CurrentStream || *self is Error
    }

    /// The code of this type; 4 stands for the invalid type.
    pub open spec fn spec_to_bits(&self) -> u8 {
        match *self {
            PrioritizedElemType::RequestStream => 0,
            PrioritizedElemType::PushStream => 1,
            PrioritizedElemType::Placeholder => 2,
            PrioritizedElemType::CurrentStream => 3,
            PrioritizedElemType::Error => 4,
        }
    }

    /// The type that a code stands for; every code above 3 is invalid.
    pub open spec fn spec_from_bits(bits: u8) -> PrioritizedElemType {
        if bits == 0 {
            PrioritizedElemType::RequestStream
        } else if bits == 1 {
            PrioritizedElemType::PushStream
        } else if bits == 2 {
            PrioritizedElemType::Placeholder
        } else if bits == 3 {
            PrioritizedElemType::CurrentStream
        } else {
            PrioritizedElemType::Error
        }
    }

    /// Returns whether a PRIORITY frame with this type carries no prioritized
    /// element id.
    #[verifier::when_used_as_spec(spec_is_peid_absent)]
    pub fn is_peid_absent(&self) -> (absent: bool)
        ensures
            absent == self.spec_is_peid_absent(),
    {
        match *self {
            PrioritizedElemType::CurrentStream => true,
            PrioritizedElemType::Error => true,
            _ => false,
        }
    }

    /// Returns the code of this type.
    #[verifier::when_used_as_spec(spec_to_bits)]
    pub fn to_bits(&self) -> (bits: u8)
        ensures
            bits == self.spec_to_bits(),
    {
        match *self {
            PrioritizedElemType::RequestStream => 0x00,
            PrioritizedElemType::PushStream => 0x01,
            PrioritizedElemType::Placeholder => 0x02,
            PrioritizedElemType::CurrentStream => 0x03,
            PrioritizedElemType::Error => 0x04,
        }
    }

    /// Returns the type that a code stands for.
    #[verifier::when_used_as_spec(spec_from_bits)]
    pub fn from_bits(bits: u8) -> (t: PrioritizedElemType)
        ensures
            t == PrioritizedElemType::spec_from_bits(bits),
    {
        match bits {
            0x00 => PrioritizedElemType::RequestStream,
            0x01 => PrioritizedElemType::PushStream,
            0x02 => PrioritizedElemType::Placeholder,
            0x03 => PrioritizedElemType::CurrentStream,
            _ => PrioritizedElemType::Error,
        }
    }
}

/// What the prioritized element of a PRIORITY frame depends on.
#[derive(Clone, Copy, Debug, PartialEq, Eq, Structural)]
pub enum ElemDependencyType {
    RequestStream,
    PushStream,
    Placeholder,
    RootOfTree,
    Error,
}

impl ElemDependencyType {
    /// Whether a PRIORITY frame with this type carries no element dependency
    /// id: the root of the tree needs none, and an invalid type has none.
    pub open spec fn spec_is_edid_absent(&self) -> bool {
        *self is RootOfTree || *self is Error
    }

    /// The code of this type; 4 stands for the invalid type.
    pub open spec fn spec_to_bits(&self) -> u8 {
        match *self {
            ElemDependencyType::RequestStream => 0,
            ElemDependencyType::PushStream => 1,
            ElemDependencyType::Placeholder => 2,
            ElemDependencyType::RootOfTree => 3,
            ElemDependencyType::Error => 4,
        }
    }

    /// The type that a code stands for; every code above 3 is invalid.
    pub open spec fn spec_from_bits(bits: u8) -> ElemDependencyType {
        if bits == 0 {
            ElemDependencyType::RequestStream
        } else if bits == 1 {
            ElemDependencyType::PushStream
        } else if bits == 2 {
            ElemDependencyType::Placeholder
        } else if bits == 3 {
            ElemDependencyType::RootOfTree
        } else {
            ElemDependencyType::Error
        }
    }

    /// Returns whether a PRIORITY frame with this type carries no element
    /// dependency id.
    #[verifier::when_used_as_spec(spec_is_edid_absent)]
    pub fn is_edid_absent(&self) -> (absent: bool)
        ensures
            absent == self.spec_is_edid_absent(),
    {
        match *self {
            ElemDependencyType::RootOfTree => true,
            ElemDependencyType::Error => true,
            _ => false,
        }
    }

    /// Returns the code of this type.
    #[verifier::when_used_as_spec(spec_to_bits)]
    pub fn to_bits(&self) -> (bits: u8)
        ensures
            bits == self.spec_to_bits(),
    {
        match *self {
            ElemDependencyType::RequestStream => 0x00,
            ElemDependencyType::PushStream => 0x01,
            ElemDependencyType::Placeholder => 0x02,
            ElemDependencyType::RootOfTree => 0x03,
            ElemDependencyType::Error => 0x04,
        }
    }

    /// Returns the type that a code stands for.
    #[verifier::when_used_as_spec(spec_from_bits)]
    pub fn from_bits(bits: u8) -> (t: ElemDependencyType)
        ensures
            t == ElemDependencyType::spec_from_bits(bits),
    {
        match bits {
            0x00 => ElemDependencyType::RequestStream,
            0x01 => ElemDependencyType::PushStream,
            0x02 => ElemDependencyType::Placeholder,
            0x03 => ElemDependencyType::RootOfTree,
            _ => ElemDependencyType::Error,
        }
    }
}

/// Every type is the type of its own code, and every code up to 4 is the code
/// of its type.
pub proof fn lemma_type_bits_round_trip(pt: PrioritizedElemType, dt: ElemDependencyType, bits: u8)
    ensures
        PrioritizedElemType::from_bits(pt.to_bits()) == pt,
        ElemDependencyType::from_bits(dt.to_bits()) == dt,
        bits <= 4 ==> PrioritizedElemType::from_bits(bits).to_bits() == bits,
        bits <= 4 ==> ElemDependencyType::from_bits(bits).to_bits() == bits,
        pt.to_bits() <= 3 <==> !(pt is Error),
        dt.to_bits() <= 3 <==> !(dt is Error),
{
}

/// One entry of a SETTINGS frame: the identifier of a setting and its value.
#[derive(Clone, Copy, Debug, PartialEq, Eq, Structural)]
pub struct SettingsParameter {
    pub id: u16,
    pub value: u64,
}

/// An HTTP/3 frame.
#[derive(Clone, Debug, PartialEq, Eq)]
pub enum H3Frame {
    Data { payload: Vec<u8> },
    Headers { header_block: Vec<u8> },
    Priority {
        priority_elem: PrioritizedElemType,
        elem_dependency: ElemDependencyType,
        prioritized_element_id: u64,
        element_dependency_id: u64,
        weight: u8,
    },
    CancelPush { push_id: u64 },
    /// The parameters in the order in which they stand on the wire. An
    /// identifier may occur more than once, and need not be a known one.
    Settings { params: Vec<SettingsParameter> },
    PushPromise { push_id: u64, header_block: Vec<u8> },
    GoAway { stream_id: u64 },
    MaxPushId { push_id: u64 },
    DuplicatePush { push_id: u64 },
}

impl View for H3Frame {
    type V = FrameView;

    open spec fn view(&self) -> FrameView {
        match *self {
            H3Frame::Data { payload } => FrameView::Data { payload: payload@ },
            H3Frame::Headers { header_block } => FrameView::Headers {
                header_block: header_block@,
            },
            H3Frame::Priority {
                priority_elem,
                elem_dependency,
                prioritized_element_id,
                element_dependency_id,
                weight,
            } => FrameView::Priority {
                priority_elem,
                elem_dependency,
                prioritized_element_id,
                element_dependency_id,
                weight,
            },
            H3Frame::CancelPush { push_id } => FrameView::CancelPush { push_id },
            H3Frame::Settings { params } => FrameView::Settings { params: params@ },
            H3Frame::PushPromise { push_id, header_block } => FrameView::PushPromise {
                push_id,
                header_block: header_block@,
            },
            H3Frame::GoAway { stream_id } => FrameView::GoAway { stream_id },
            H3Frame::MaxPushId { push_id } => FrameView::MaxPushId { push_id },
            H3Frame::DuplicatePush { push_id } => FrameView::DuplicatePush { push_id },
        }
    }
}

/// The frames of a list, each as a mathematical value.
pub open spec fn frame_views(frames: Seq<H3Frame>) -> Seq<FrameView> {
    frames.map_values(|f: H3Frame| f@)
}

/// What a decoder owes: where `expected` is a frame of `n` bytes, that frame
/// and a cursor `n` bytes further; where it is an error, that error and the
/// cursor where it was.
pub open spec fn decodes(
    before: OctetsView,
    expected: Result<(FrameView, nat), Error>,
    r: Result<H3Frame, Error>,
    after: OctetsView,
) -> bool {
    match expected {
        Ok((f, n)) => r is Ok && r->Ok_0@ == f && after == before.skip(n),
        Err(e) => r is Err && r->Err_0 == e && after == before,
    }
}

impl H3Frame {
    /// Returns a SETTINGS frame with the given settings, each present or
    /// not, in the order in which an endpoint announces them: the number of
    /// placeholders, the largest header list, the QPACK table capacity, the
    /// QPACK blocked streams.
    pub fn settings(
        num_placeholders: Option<u64>,
        max_header_list_size: Option<u64>,
        qpack_max_table_capacity: Option<u64>,
        qpack_blocked_streams: Option<u64>,
    ) -> (f: H3Frame)
        ensures
            f@ == (FrameView::Settings {
                params: announced_settings(
                    num_placeholders,
                    max_header_list_size,
                    qpack_max_table_capacity,
                    qpack_blocked_streams,
                ),
            }),
    {
        let mut params: Vec<SettingsParameter> = Vec::new();
        if let Some(value) = num_placeholders {
            params.push(SettingsParameter { id: SETTINGS_NUM_PLACEHOLDERS, value });
        }
        if let Some(value) = max_header_list_size {
            params.push(SettingsParameter { id: SETTINGS_MAX_HEADER_LIST_SIZE, value });
        }
        if let Some(value) = qpack_max_table_capacity {
            params.push(SettingsParameter { id: SETTINGS_QPACK_MAX_TABLE_CAPACITY, value });
        }
        if let Some(value) = qpack_blocked_streams {
            params.push(SettingsParameter { id: SETTINGS_QPACK_BLOCKED_STREAMS, value });
        }
        assert(params@ =~= announced_settings(
            num_placeholders,
            max_header_list_size,
            qpack_max_table_capacity,
            qpack_blocked_streams,
        ));
        H3Frame::Settings { params }
    }

    /// Returns the byte that tells the type of the frame.
    pub fn type_byte(&self) -> (t: u8)
        ensures
            t == self@.frame_type(),
    {
        match self {
            H3Frame::Data { .. } => DATA_FRAME_TYPE,
            H3Frame::Headers { .. } => HEADERS_FRAME_TYPE,
            H3Frame::Priority { .. } => PRIORITY_FRAME_TYPE,
            H3Frame::CancelPush { .. } => CANCEL_PUSH_FRAME_TYPE,
            H3Frame::Settings { .. } => SETTINGS_FRAME_TYPE,
            H3Frame::PushPromise { .. } => PUSH_PROMISE_FRAME_TYPE,
            H3Frame::GoAway { .. } => GOAWAY_FRAME_TYPE,
            H3Frame::MaxPushId { .. } => MAX_PUSH_ID_FRAME_TYPE,
            H3Frame::DuplicatePush { .. } => DUPLICATE_PUSH_FRAME_TYPE,
        }
    }

    /// Returns the length of the payload, or `None` when the frame cannot be
    /// laid out on the wire.
    pub fn payload_len(&self) -> (r: Option<u64>)
        ensures
            match r {
                Some(n) => self@.encodable() && n == self@.payload().len(),
                None => !self@.encodable(),
            },
    {
        match self {
            H3Frame::Data { payload } => {
                if payload.len() as u64 > MAX_VARINT {
                    None
                } else {
                    Some(payload.len() as u64)
                }
            },
            H3Frame::Headers { header_block } => {
                if header_block.len() as u64 > MAX_VARINT {
                    None
                } else {
                    Some(header_block.len() as u64)
                }
            },
            H3Frame::Priority {
                priority_elem,
                elem_dependency,
                prioritized_element_id,
                element_dependency_id,
                weight,
            } => {
                if priority_elem.to_bits() > 3 || elem_dependency.to_bits() > 3 {
                    return None;
                }
                let mut length: u64 = 2;
                if !priority_elem.is_peid_absent() {
                    if *prioritized_element_id > MAX_VARINT {
                        return None;
                    }
                    proof {
                        lemma_varint_bytes_shape(*prioritized_element_id);
                    }
                    length = length + varint_len(*prioritized_element_id) as u64;
                }
                if !elem_dependency.is_edid_absent() {
                    if *element_dependency_id > MAX_VARINT {
                        return None;
                    }
                    proof {
                        lemma_varint_bytes_shape(*element_dependency_id);
                    }
                    length = length + varint_len(*element_dependency_id) as u64;
                }
                Some(length)
            },
            H3Frame::Settings { params } => settings_payload_len(params),
            H3Frame::PushPromise { push_id, header_block } => {
                if *push_id > MAX_VARINT {
                    return None;
                }
                proof {
                    lemma_varint_bytes_shape(*push_id);
                }
                let width: u64 = varint_len(*push_id) as u64;
                if header_block.len() as u64 > MAX_VARINT - width {
                    None
                } else {
                    Some(width + header_block.len() as u64)
                }
            },
            H3Frame::CancelPush { push_id } | H3Frame::MaxPushId { push_id }
            | H3Frame::DuplicatePush { push_id } => {
                if *push_id > MAX_VARINT {
                    return None;
                }
                proof {
                    lemma_varint_bytes_shape(*push_id);
                }
                Some(varint_len(*push_id) as u64)
            },
            H3Frame::GoAway { stream_id } => {
                if *stream_id > MAX_VARINT {
                    return None;
                }
                proof {
                    lemma_varint_bytes_shape(*stream_id);
                }
                Some(varint_len(*stream_id) as u64)
            },
        }
    }

    /// Returns the number of bytes the frame takes on the wire, or `None`
    /// when it cannot be laid out there, or takes more than `usize::MAX`.
    pub fn wire_len(&self) -> (r: Option<usize>)
        ensures
            match r {
                Some(n) => self@.encodable() && n == self@.wire().len(),
                None => !self@.encodable() || self@.wire().len() > usize::MAX,
            },
    {
        match self.payload_len() {
            None => None,
            Some(length) => {
                proof {
                    lemma_wire_len(self@);
                }
                let total: u64 = varint_len(length) as u64 + 1 + length;
                if total > usize::MAX as u64 {
                    None
                } else {
                    Some(total as usize)
                }
            },
        }
    }

    /// Writes the frame at the offset of `b` and returns the number of bytes
    /// written: the length of the payload, the type byte, then the payload.
    ///
    /// Nothing is written unless all of it can be: a frame that cannot be
    /// laid out on the wire is an `InvalidFrame`, one that does not fit the
    /// rest of the buffer a `BufferOverflow`.
    pub fn to_bytes(&self, b: &mut Octets) -> (r: Result<usize, Error>)
        ensures
            !self@.encodable() ==> r == Err::<usize, Error>(Error::InvalidFrame) && final(b)@
                == old(b)@,
            self@.encodable() && old(b)@.cap() < self@.wire().len() ==> r == Err::<usize, Error>(
                Error::BufferOverflow,
            ) && final(b)@ == old(b)@,
            self@.encodable() && old(b)@.cap() >= self@.wire().len() ==> r == Ok::<usize, Error>(
                self@.wire().len() as usize,
            ) && final(b)@ == old(b)@.put(self@.wire()),
    {
        let length: u64 = match self.payload_len() {
            None => {
                return Err(Error::InvalidFrame);
            },
            Some(length) => length,
        };
        let ghost start = b@;
        let ghost head = varint_bytes(length) + seq![self@.frame_type()];
        proof {
            use_type_invariant(&*b);
            lemma_wire_len(self@);
            lemma_varint_bytes_shape(length);
        }
        let total: u64 = varint_len(length) as u64 + 1 + length;
        if (b.cap() as u64) < total {
            return Err(Error::BufferOverflow);
        }
        b.put_varint(length)?;
        proof {
            lemma_put_shape(start, varint_bytes(length));
        }
        b.put_u8(self.type_byte())?;
        proof {
            lemma_put_put(start, varint_bytes(length), seq![self@.frame_type()]);
            lemma_put_shape(start, head);
        }
        self.put_payload(b)?;
        proof {
            lemma_put_put(start, head, self@.payload());
        }
        Ok(total as usize)
    }

    /// Returns the frame as it stands on the wire, or `None` when it cannot
    /// be laid out there or takes more than `usize::MAX` bytes.
    pub fn to_vec(&self) -> (r: Option<Vec<u8>>)
        ensures
            match r {
                Some(bytes) => self@.encodable() && bytes@ == self@.wire(),
                None => !self@.encodable() || self@.wire().len() > usize::MAX,
            },
    {
        let n: usize = match self.wire_len() {
            None => {
                return None;
            },
            Some(n) => n,
        };
        let mut space: Vec<u8> = vec![0u8; n];
        let mut b = Octets::with_slice(space.as_mut_slice());
        let ghost start = b@;
        match self.to_bytes(&mut b) {
            Ok(_) => {
                proof {
                    lemma_put_shape(start, self@.wire());
                }
                Some(vstd::slice::slice_to_vec(b.buf()))
            },
            Err(_) => None,
        }
    }

    /// Reads one frame at the offset of `b`: the length of the payload, the
    /// type byte, and the payload as the type lays it out. Too few bytes are
    /// a `BufferUnderflow`, a type that no frame has an `InvalidFrame`. On
    /// failure the cursor stays where it was.
    pub fn from_bytes(b: &mut Octets) -> (r: Result<H3Frame, Error>)
        ensures
            decodes(old(b)@, parse_frame(old(b)@.rest()), r, final(b)@),
    {
        let ghost before = b@;
        let ghost s = b@.rest();
        let start: usize = b.off();
        let payload_length: u64 = b.get_varint()?;
        let ghost n = parse_varint(s)->Some_0.1;
        proof {
            lemma_parse_varint_range(s);
            lemma_skip_rest(before, n);
        }
        let frame_type: u8 = match b.get_u8() {
            Ok(v) => v,
            Err(e) => {
                restore(b, start);
                return Err(e);
            },
        };
        proof {
            lemma_skip_rest(before, n + 1);
        }
        match get_payload(frame_type, payload_length, b) {
            Ok(frame) => Ok(frame),
            Err(e) => {
                restore(b, start);
                Err(e)
            },
        }
    }

    /// Reads frames at the offset of `b`, one after another, until the
    /// buffer is exhausted. If one of them cannot be read, that is the error,
    /// and the cursor stays where it was.
    pub fn all_from_bytes(b: &mut Octets) -> (r: Result<Vec<H3Frame>, Error>)
        ensures
            match parse_all(old(b)@.rest()) {
                Ok(frames) => r is Ok && frame_views(r->Ok_0@) == frames && final(b)@
                    == old(b)@.skip(old(b)@.cap()),
                Err(e) => r is Err && r->Err_0 == e && final(b)@ == old(b)@,
            },
    {
        let ghost before = b@;
        let ghost s = b@.rest();
        let start: usize = b.off();
        let mut frames: Vec<H3Frame> = Vec::new();
        proof {
            assert(s.skip(0) =~= s);
            lemma_read_nothing(parse_all(s));
        }
        while b.cap() > 0
            invariant
                before.wf(),
                before == old(b)@,
                s == before.rest(),
                start == before.off,
                before.off <= b@.off <= before.buf.len(),
                b@ == before.skip((b@.off - before.off) as nat),
                parse_all(s) == after_frames(
                    frame_views(frames@),
                    parse_all(s.skip(b@.off - before.off)),
                ),
            decreases b@.cap(),
        {
            let ghost consumed = (b@.off - before.off) as nat;
            let ghost read = frame_views(frames@);
            proof {
                lemma_skip_rest(before, consumed);
                lemma_read_on(s, read, consumed);
            }
            let frame: H3Frame = match H3Frame::from_bytes(b) {
                Ok(frame) => frame,
                Err(e) => {
                    restore(b, start);
                    return Err(e);
                },
            };
            frames.push(frame);
            proof {
                assert(frame_views(frames@) =~= read.push(frame@));
            }
        }
        Ok(frames)
    }

    /// Writes the payload of the frame.
    fn put_payload(&self, b: &mut Octets) -> (r: Result<(), Error>)
        requires
            self@.encodable(),
            old(b)@.cap() >= self@.payload().len(),
        ensures
            r is Ok,
            final(b)@ == old(b)@.put(self@.payload()),
    {
        let ghost start = b@;
        proof {
            use_type_invariant(&*b);
        }
        match self {
            H3Frame::Data { payload } => {
                b.put_bytes(payload.as_slice())?;
            },
            H3Frame::Headers { header_block } => {
                b.put_bytes(header_block.as_slice())?;
            },
            H3Frame::Priority {
                priority_elem,
                elem_dependency,
                prioritized_element_id,
                element_dependency_id,
                weight,
            } => {
                put_priority(
                    *priority_elem,
                    *elem_dependency,
                    *prioritized_element_id,
                    *element_dependency_id,
                    *weight,
                    b,
                )?;
            },
            H3Frame::Settings { params } => {
                put_settings(params, b)?;
            },
            H3Frame::PushPromise { push_id, header_block } => {
                proof {
                    lemma_varint_bytes_shape(*push_id);
                }
                b.put_varint(*push_id)?;
                proof {
                    lemma_put_shape(start, varint_bytes(*push_id));
                }
                b.put_bytes(header_block.as_slice())?;
                proof {
                    lemma_put_put(start, varint_bytes(*push_id), header_block@);
                }
            },
            H3Frame::CancelPush { push_id } | H3Frame::MaxPushId { push_id }
            | H3Frame::DuplicatePush { push_id } => {
                proof {
                    lemma_varint_bytes_shape(*push_id);
                }
                b.put_varint(*push_id)?;
            },
            H3Frame::GoAway { stream_id } => {
                proof {
                    lemma_varint_bytes_shape(*stream_id);
                }
                b.put_varint(*stream_id)?;
            },
        }
        Ok(())
    }
}

/// Reads the payload of a PRIORITY frame at the offset of `b`: the bitfield
/// with the two types, the identifiers that the types do not leave out, and
/// the weight. On failure the cursor stays where it was.
pub fn parse_priority_frame(b: &mut Octets) -> (r: Result<H3Frame, Error>)
    ensures
        decodes(old(b)@, parse_priority(old(b)@.rest()), r, final(b)@),
{
    let start: usize = b.off();
    match get_priority(b) {
        Ok(frame) => Ok(frame),
        Err(e) => {
            restore(b, start);
            Err(e)
        },
    }
}

/// Reads the payload of a SETTINGS frame whose length is `payload_length`:
/// one setting after another, each an identifier of two bytes and a value,
/// until that many bytes have been read. Every setting is kept, in order,
/// whether its identifier is known or not and however often it occurs. On
/// failure the cursor stays where it was.
pub fn parse_settings_frame(payload_length: u64, b: &mut Octets) -> (r: Result<H3Frame, Error>)
    ensures
        decodes(old(b)@, parse_settings(payload_length, old(b)@.rest()), r, final(b)@),
{
    let ghost before = b@;
    let ghost s = b@.rest();
    let start: usize = b.off();
    let mut params: Vec<SettingsParameter> = Vec::new();
    let mut consumed: usize = 0;
    proof {
        assert(s.skip(0) =~= s);
        lemma_read_no_param(parse_params(s, payload_length as int));
    }
    while (consumed as u64) < payload_length
        invariant
            before.wf(),
            before == old(b)@,
            s == before.rest(),
            start == before.off,
            before.off + consumed <= before.buf.len(),
            b@ == before.skip(consumed as nat),
            parse_params(s, payload_length as int) == after_params(
                params@,
                consumed as nat,
                parse_params(s.skip(consumed as int), payload_length - consumed),
            ),
        decreases before.buf.len() - before.off - consumed,
    {
        proof {
            lemma_skip_rest(before, consumed as nat);
            lemma_read_param_on(s, payload_length as int, params@, consumed as nat);
        }
        let param: SettingsParameter = match get_param(b) {
            Ok(param) => param,
            Err(e) => {
                restore(b, start);
                return Err(e);
            },
        };
        params.push(param);
        consumed = b.off() - start;
    }
    Ok(H3Frame::Settings { params })
}

/// Reads the payload of a PUSH_PROMISE frame whose length is
/// `payload_length`. A length too short for the push id is an
/// `InvalidFrame`. On failure the cursor stays where it was.
pub fn parse_push_promise(payload_length: u64, b: &mut Octets) -> (r: Result<H3Frame, Error>)
    ensures
        decodes(
            old(b)@,
            parse_push_promise_payload(payload_length, old(b)@.rest()),
            r,
            final(b)@,
        ),
{
    let ghost before = b@;
    let ghost s = b@.rest();
    let start: usize = b.off();
    let push_id: u64 = b.get_varint()?;
    let ghost n = parse_varint(s)->Some_0.1;
    proof {
        lemma_parse_varint_range(s);
        lemma_skip_rest(before, n);
    }
    let width: u64 = varint_len(push_id) as u64;
    if payload_length < width {
        restore(b, start);
        return Err(Error::InvalidFrame);
    }
    let header_block: Vec<u8> = match get_block(payload_length - width, b) {
        Ok(v) => v,
        Err(e) => {
            restore(b, start);
            return Err(e);
        },
    };
    proof {
        assert(s.skip(n as int).subrange(0, payload_length - width) =~= s.subrange(
            n as int,
            n + payload_length - width,
        ));
    }
    Ok(H3Frame::PushPromise { push_id, header_block })
}

/// Returns the value for `id` that `params` leave in force: where the
/// identifier occurs more than once, the last occurrence wins.
pub fn find_setting(params: &Vec<SettingsParameter>, id: u16) -> (value: Option<u64>)
    ensures
        value == setting_value(params@, id),
{
    let mut value: Option<u64> = None;
    let mut i: usize = 0;
    while i < params.len()
        invariant
            i <= params@.len(),
            value == setting_value(params@.take(i as int), id),
        decreases params@.len() - i,
    {
        assert(params@.take(i + 1).drop_last() =~= params@.take(i as int));
        if params[i].id == id {
            value = Some(params[i].value);
        }
        i = i + 1;
    }
    assert(params@.take(i as int) =~= params@);
    value
}

/// Reads one setting: its identifier in two bytes, then its value.
fn get_param(b: &mut Octets) -> (r: Result<SettingsParameter, Error>)
    ensures
        match parse_param(old(b)@.rest()) {
            Ok((param, n)) => r == Ok::<SettingsParameter, Error>(param) && 3 <= n
                && old(b)@.off + n <= old(b)@.buf.len() && final(b)@ == old(b)@.skip(n),
            Err(e) => r == Err::<SettingsParameter, Error>(e) && final(b)@ == old(b)@,
        },
{
    let ghost before = b@;
    let start: usize = b.off();
    let id: u16 = b.get_u16()?;
    proof {
        lemma_skip_rest(before, 2);
    }
    let value: u64 = match b.get_varint() {
        Ok(v) => v,
        Err(e) => {
            restore(b, start);
            return Err(e);
        },
    };
    proof {
        lemma_parse_varint_range(before.rest().skip(2));
    }
    Ok(SettingsParameter { id, value })
}

/// Returns the length of the bytes of `params`, or `None` when a value or
/// that length does not fit a variable-length integer.
fn settings_payload_len(params: &Vec<SettingsParameter>) -> (r: Option<u64>)
    ensures
        match r {
            Some(n) => params_in_range(params@) && n == params_bytes(params@).len() && n
                <= MAX_VARINT,
            None => !(params_in_range(params@) && params_bytes(params@).len() <= MAX_VARINT),
        },
{
    let mut total: u64 = 0;
    let mut i: usize = 0;
    assert(params@.skip(0) =~= params@);
    while i < params.len()
        invariant
            i <= params@.len(),
            total <= MAX_VARINT,
            forall|j: int| 0 <= j < i ==> (#[trigger] params@[j]).value <= MAX_VARINT,
            params_bytes(params@).len() == total + params_bytes(params@.skip(i as int)).len(),
        decreases params@.len() - i,
    {
        let p: SettingsParameter = params[i];
        if p.value > MAX_VARINT {
            return None;
        }
        proof {
            lemma_params_bytes_step(params@, i as int);
            lemma_varint_bytes_shape(p.value);
        }
        total = total + 2 + varint_len(p.value) as u64;
        if total > MAX_VARINT {
            return None;
        }
        i = i + 1;
    }
    Some(total)
}

/// Writes the settings from the offset on.
fn put_settings(params: &Vec<SettingsParameter>, b: &mut Octets) -> (r: Result<(), Error>)
    requires
        params_in_range(params@),
        old(b)@.cap() >= params_bytes(params@).len(),
    ensures
        r is Ok,
        final(b)@ == old(b)@.put(params_bytes(params@)),
{
    let ghost start = b@;
    let ghost mut written: Seq<u8> = Seq::empty();
    proof {
        use_type_invariant(&*b);
        assert(start.put(written).buf =~= start.buf);
        assert(params@.skip(0) =~= params@);
    }
    let mut i: usize = 0;
    while i < params.len()
        invariant
            i <= params@.len(),
            params_in_range(params@),
            start.wf(),
            start.cap() >= params_bytes(params@).len(),
            b@ == start.put(written),
            params_bytes(params@) == written + params_bytes(params@.skip(i as int)),
        decreases params@.len() - i,
    {
        let p: SettingsParameter = params[i];
        proof {
            lemma_params_bytes_step(params@, i as int);
            lemma_varint_bytes_shape(p.value);
            lemma_be_bytes_len(p.id as nat, 2);
            lemma_put_shape(start, written);
        }
        b.put_u16(p.id)?;
        b.put_varint(p.value)?;
        proof {
            lemma_put_put(start, written, be_bytes(p.id as nat, 2));
            lemma_put_put(start, written + be_bytes(p.id as nat, 2), varint_bytes(p.value));
            assert(written + be_bytes(p.id as nat, 2) + varint_bytes(p.value) =~= written
                + param_bytes(p));
            written = written + param_bytes(p);
        }
        i = i + 1;
    }
    Ok(())
}

/// Writes an identifier unless it is `absent`.
fn put_optional_id(absent: bool, id: u64, b: &mut Octets) -> (r: Result<(), Error>)
    requires
        !absent ==> id <= MAX_VARINT,
        old(b)@.cap() >= optional_id_bytes(absent, id).len(),
    ensures
        r is Ok,
        final(b)@ == old(b)@.put(optional_id_bytes(absent, id)),
{
    if !absent {
        proof {
            lemma_varint_bytes_shape(id);
        }
        b.put_varint(id)
    } else {
        proof {
            use_type_invariant(&*b);
            assert(b@.put(Seq::<u8>::empty()).buf =~= b@.buf);
        }
        Ok(())
    }
}

/// Writes the payload of a PRIORITY frame.
fn put_priority(
    priority_elem: PrioritizedElemType,
    elem_dependency: ElemDependencyType,
    prioritized_element_id: u64,
    element_dependency_id: u64,
    weight: u8,
    b: &mut Octets,
) -> (r: Result<(), Error>)
    requires
        (FrameView::Priority {
            priority_elem,
            elem_dependency,
            prioritized_element_id,
            element_dependency_id,
            weight,
        }).encodable(),
        old(b)@.cap() >= (FrameView::Priority {
            priority_elem,
            elem_dependency,
            prioritized_element_id,
            element_dependency_id,
            weight,
        }).payload().len(),
    ensures
        r is Ok,
        final(b)@ == old(b)@.put(
            (FrameView::Priority {
                priority_elem,
                elem_dependency,
                prioritized_element_id,
                element_dependency_id,
                weight,
            }).payload(),
        ),
{
    let ghost start = b@;
    let ghost peid = optional_id_bytes(priority_elem.is_peid_absent(), prioritized_element_id);
    let ghost edid = optional_id_bytes(elem_dependency.is_edid_absent(), element_dependency_id);
    let bitfield: u8 = priority_elem.to_bits() * 64 + elem_dependency.to_bits() * 16;
    proof {
        use_type_invariant(&*b);
    }
    b.put_u8(bitfield)?;
    proof {
        lemma_put_shape(start, seq![bitfield]);
    }
    put_optional_id(priority_elem.is_peid_absent(), prioritized_element_id, b)?;
    proof {
        lemma_put_put(start, seq![bitfield], peid);
        lemma_put_shape(start, seq![bitfield] + peid);
    }
    put_optional_id(elem_dependency.is_edid_absent(), element_dependency_id, b)?;
    proof {
        lemma_put_put(start, seq![bitfield] + peid, edid);
        lemma_put_shape(start, seq![bitfield] + peid + edid);
    }
    b.put_u8(weight)?;
    proof {
        lemma_put_put(start, seq![bitfield] + peid + edid, seq![weight]);
    }
    Ok(())
}

/// Moves the offset of `b` back to `start`.
fn restore(b: &mut Octets, start: usize)
    requires
        start <= old(b)@.off,
    ensures
        final(b)@ == (OctetsView { buf: old(b)@.buf, off: start as nat }),
{
    let back: usize = b.off() - start;
    match b.rewind(back) {
        Ok(()) => {},
        Err(_) => {},
    }
}

/// Reads an identifier, or takes it to be zero when it is `absent`.
fn get_optional_id(absent: bool, b: &mut Octets) -> (r: Result<u64, Error>)
    ensures
        match parse_optional_id(absent, old(b)@.rest()) {
            Some((id, n)) => r == Ok::<u64, Error>(id) && old(b)@.off + n <= old(b)@.buf.len()
                && final(b)@ == old(b)@.skip(n),
            None => r == Err::<u64, Error>(Error::BufferUnderflow) && final(b)@ == old(b)@,
        },
{
    proof {
        use_type_invariant(&*b);
    }
    if absent {
        Ok(0)
    } else {
        proof {
            if parse_varint(b@.rest()) is Some {
                lemma_parse_varint_range(b@.rest());
            }
        }
        b.get_varint()
    }
}

/// Reads the payload of a PRIORITY frame. On failure the cursor stands
/// somewhere behind where it was.
fn get_priority(b: &mut Octets) -> (r: Result<H3Frame, Error>)
    ensures
        match parse_priority(old(b)@.rest()) {
            Ok((f, n)) => r is Ok && r->Ok_0@ == f && final(b)@ == old(b)@.skip(n),
            Err(e) => r is Err && r->Err_0 == e && final(b)@.buf == old(b)@.buf && old(b)@.off
                <= final(b)@.off,
        },
{
    let ghost before = b@;
    let ghost s = b@.rest();
    proof {
        use_type_invariant(&*b);
    }
    let bitfield: u8 = b.get_u8()?;
    let priority_elem: PrioritizedElemType = PrioritizedElemType::from_bits(bitfield / 64);
    let elem_dependency: ElemDependencyType = ElemDependencyType::from_bits((bitfield / 16) % 4);
    proof {
        lemma_skip_rest(before, 1);
    }
    let prioritized_element_id: u64 = get_optional_id(priority_elem.is_peid_absent(), b)?;
    let ghost n1 = parse_optional_id(priority_elem.is_peid_absent(), s.skip(1))->Some_0.1;
    proof {
        lemma_skip_rest(before, 1 + n1);
    }
    let element_dependency_id: u64 = get_optional_id(elem_dependency.is_edid_absent(), b)?;
    let ghost n2 = parse_optional_id(
        elem_dependency.is_edid_absent(),
        s.skip((1 + n1) as int),
    )->Some_0.1;
    proof {
        lemma_skip_rest(before, 1 + n1 + n2);
    }
    let weight: u8 = b.get_u8()?;
    Ok(
        H3Frame::Priority {
            priority_elem,
            elem_dependency,
            prioritized_element_id,
            element_dependency_id,
            weight,
        },
    )
}

/// Reads `length` opaque bytes.
fn get_block(length: u64, b: &mut Octets) -> (r: Result<Vec<u8>, Error>)
    ensures
        match parse_block(length, old(b)@.rest()) {
            Ok((block, n)) => r is Ok && r->Ok_0@ == block && final(b)@ == old(b)@.skip(n),
            Err(e) => r is Err && r->Err_0 == e && final(b)@ == old(b)@,
        },
{
    if length > b.cap() as u64 {
        return Err(Error::BufferUnderflow);
    }
    b.get_bytes(length as usize)
}

/// Reads one identifier as a whole payload.
fn get_id(b: &mut Octets) -> (r: Result<u64, Error>)
    ensures
        match parse_id(old(b)@.rest()) {
            Ok((id, n)) => r == Ok::<u64, Error>(id) && final(b)@ == old(b)@.skip(n),
            Err(e) => r == Err::<u64, Error>(e) && final(b)@ == old(b)@,
        },
{
    b.get_varint()
}

/// Reads the payload of a frame of type `frame_type`.
fn get_payload(frame_type: u8, payload_length: u64, b: &mut Octets) -> (r: Result<H3Frame, Error>)
    ensures
        decodes(
            old(b)@,
            parse_payload(frame_type, payload_length, old(b)@.rest()),
            r,
            final(b)@,
        ),
{
    proof {
        reveal(parse_payload);
    }
    match frame_type {
        0x00 => match get_block(payload_length, b) {
            Ok(payload) => Ok(H3Frame::Data { payload }),
            Err(e) => Err(e),
        },
        0x01 => match get_block(payload_length, b) {
            Ok(header_block) => Ok(H3Frame::Headers { header_block }),
            Err(e) => Err(e),
        },
        0x02 => parse_priority_frame(b),
        0x03 => match get_id(b) {
            Ok(push_id) => Ok(H3Frame::CancelPush { push_id }),
            Err(e) => Err(e),
        },
        0x04 => parse_settings_frame(payload_length, b),
        0x05 => parse_push_promise(payload_length, b),
        0x07 => match get_id(b) {
            Ok(stream_id) => Ok(H3Frame::GoAway { stream_id }),
            Err(e) => Err(e),
        },
        0x0D => match get_id(b) {
            Ok(push_id) => Ok(H3Frame::MaxPushId { push_id }),
            Err(e) => Err(e),
        },
        0x0E => match get_id(b) {
            Ok(push_id) => Ok(H3Frame::DuplicatePush { push_id }),
            Err(e) => Err(e),
        },
        _ => Err(Error::InvalidFrame),
    }
}

} // verus!
