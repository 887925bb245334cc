//! The wire format of the HTTP/3 frames, as mathematics.
//!
//! A frame on the wire is the length of its payload as a variable-length
//! integer, one byte that tells its type, and the payload. This module says
//! what the bytes of a frame are, and what frame a sequence of bytes holds.

use crate::error::Error;
use crate::frame::{
    ElemDependencyType, PrioritizedElemType, SettingsParameter, CANCEL_PUSH_FRAME_TYPE,
    DATA_FRAME_TYPE, DUPLICATE_PUSH_FRAME_TYPE, GOAWAY_FRAME_TYPE, HEADERS_FRAME_TYPE,
    MAX_PUSH_ID_FRAME_TYPE, PRIORITY_FRAME_TYPE, PUSH_PROMISE_FRAME_TYPE, SETTINGS_FRAME_TYPE,
    SETTINGS_MAX_HEADER_LIST_SIZE, SETTINGS_NUM_PLACEHOLDERS, SETTINGS_QPACK_BLOCKED_STREAMS,
    SETTINGS_QPACK_MAX_TABLE_CAPACITY,
};
use crate::varint::{
    be_bytes, be_value, lemma_be_bytes_len, lemma_parse_varint_range, lemma_varint_bytes_shape,
    parse_varint, varint_bytes, varint_width, MAX_VARINT,
};
use vstd::prelude::*;

verus! {

/// A frame as a mathematical value.
pub enum FrameView {
    Data { payload: Seq<u8> },
    Headers { header_block: Seq<u8> },
    Priority {
        priority_elem: PrioritizedElemType,
        elem_dependency: ElemDependencyType,
        prioritized_element_id: u64,
        element_dependency_id: u64,
        weight: u8,
    },
    CancelPush { push_id: u64 },
    Settings { params: Seq<SettingsParameter> },
    PushPromise { push_id: u64, header_block: Seq<u8> },
    GoAway { stream_id: u64 },
    MaxPushId { push_id: u64 },
    DuplicatePush { push_id: u64 },
}

/// The bytes of one setting: its identifier in two bytes, then its value as a
/// variable-length integer.
pub open spec fn param_bytes(p: SettingsParameter) -> Seq<u8> {
    be_bytes(p.id as nat, 2) + varint_bytes(p.value)
}

/// The bytes of a list of settings, in order.
pub open spec fn params_bytes(ps: Seq<SettingsParameter>) -> Seq<u8>
    decreases ps.len(),
{
    if ps.len() == 0 {
        Seq::empty()
    } else {
        param_bytes(ps[0]) + params_bytes(ps.skip(1))
    }
}

/// Every value in the list fits a variable-length integer.
pub open spec fn params_in_range(ps: Seq<SettingsParameter>) -> bool {
    forall|i: int| 0 <= i < ps.len() ==> (#[trigger] ps[i]).value <= MAX_VARINT
}

/// One setting, or none.
pub open spec fn optional_setting(id: u16, value: Option<u64>) -> Seq<SettingsParameter> {
    match value {
        Some(v) => seq![SettingsParameter { id, value: v }],
        None => Seq::empty(),
    }
}

/// The settings that an endpoint announces, each present or not, in the
/// order in which they are written.
pub open spec fn announced_settings(
    num_placeholders: Option<u64>,
    max_header_list_size: Option<u64>,
    qpack_max_table_capacity: Option<u64>,
    qpack_blocked_streams: Option<u64>,
) -> Seq<SettingsParameter> {
    optional_setting(SETTINGS_NUM_PLACEHOLDERS, num_placeholders) + optional_setting(
        SETTINGS_MAX_HEADER_LIST_SIZE,
        max_header_list_size,
    ) + optional_setting(SETTINGS_QPACK_MAX_TABLE_CAPACITY, qpack_max_table_capacity)
        + optional_setting(SETTINGS_QPACK_BLOCKED_STREAMS, qpack_blocked_streams)
}

/// The value for `id` that a list of settings leaves in force: that of the
/// last setting with this identifier, if there is one.
pub open spec fn setting_value(params: Seq<SettingsParameter>, id: u16) -> Option<u64>
    decreases params.len(),
{
    if params.len() == 0 {
        None
    } else if params.last().id == id {
        Some(params.last().value)
    } else {
        setting_value(params.drop_last(), id)
    }
}

/// The first byte of a PRIORITY payload: the code of the prioritized element
/// type in the top two bits, the code of the dependency type in the next two.
pub open spec fn priority_bitfield(pt: PrioritizedElemType, dt: ElemDependencyType) -> u8
    recommends
        !(pt is Error),
        !(dt is Error),
{
    (pt.to_bits() * 64 + dt.to_bits() * 16) as u8
}

/// The bytes of an identifier that is left out when `absent`.
pub open spec fn optional_id_bytes(absent: bool, id: u64) -> Seq<u8> {
    if absent {
        Seq::empty()
    } else {
        varint_bytes(id)
    }
}

impl FrameView {
    /// The byte that tells the type of the frame.
    pub open spec fn frame_type(self) -> u8 {
        match self {
            FrameView::Data { .. } => DATA_FRAME_TYPE,
            FrameView::Headers { .. } => HEADERS_FRAME_TYPE,
            FrameView::Priority { .. } => PRIORITY_FRAME_TYPE,
            FrameView::CancelPush { .. } => CANCEL_PUSH_FRAME_TYPE,
            FrameView::Settings { .. } => SETTINGS_FRAME_TYPE,
            FrameView::PushPromise { .. } => PUSH_PROMISE_FRAME_TYPE,
            FrameView::GoAway { .. } => GOAWAY_FRAME_TYPE,
            FrameView::MaxPushId { .. } => MAX_PUSH_ID_FRAME_TYPE,
            FrameView::DuplicatePush { .. } => DUPLICATE_PUSH_FRAME_TYPE,
        }
    }

    /// The payload: what follows the type byte.
    pub open spec fn payload(self) -> Seq<u8> {
        match self {
            FrameView::Data { payload } => payload,
            FrameView::Headers { header_block } => header_block,
            FrameView::Priority {
                priority_elem,
                elem_dependency,
                prioritized_element_id,
                element_dependency_id,
                weight,
            } => seq![priority_bitfield(priority_elem, elem_dependency)] + optional_id_bytes(
                priority_elem.is_peid_absent(),
                prioritized_element_id,
            ) + optional_id_bytes(elem_dependency.is_edid_absent(), element_dependency_id)
                + seq![weight],
            FrameView::CancelPush { push_id } => varint_bytes(push_id),
            FrameView::Settings { params } => params_bytes(params),
            FrameView::PushPromise { push_id, header_block } => varint_bytes(push_id)
                + header_block,
            FrameView::GoAway { stream_id } => varint_bytes(stream_id),
            FrameView::MaxPushId { push_id } => varint_bytes(push_id),
            FrameView::DuplicatePush { push_id } => varint_bytes(push_id),
        }
    }

    /// Whether the frame can be laid out on the wire: every integer that is
    /// written fits a variable-length integer, the length of the payload
    /// included, and a PRIORITY frame names two valid types.
    pub open spec fn encodable(self) -> bool {
        match self {
            FrameView::Data { payload } => payload.len() <= MAX_VARINT,
            FrameView::Headers { header_block } => header_block.len() <= MAX_VARINT,
            FrameView::Priority {
                priority_elem,
                elem_dependency,
                prioritized_element_id,
                element_dependency_id,
                weight,
            } => {
                &&& !(priority_elem is Error)
                &&& !(elem_dependency is Error)
                &&& (!priority_elem.is_peid_absent() ==> prioritized_element_id <= MAX_VARINT)
                &&& (!elem_dependency.is_edid_absent() ==> element_dependency_id <= MAX_VARINT)
            },
            FrameView::CancelPush { push_id } => push_id <= MAX_VARINT,
            FrameView::Settings { params } => params_in_range(params) && params_bytes(
                params,
            ).len() <= MAX_VARINT,
            FrameView::PushPromise { push_id, header_block } => push_id <= MAX_VARINT
                && varint_width(push_id) + header_block.len() <= MAX_VARINT,
            FrameView::GoAway { stream_id } => stream_id <= MAX_VARINT,
            FrameView::MaxPushId { push_id } => push_id <= MAX_VARINT,
            FrameView::DuplicatePush { push_id } => push_id <= MAX_VARINT,
        }
    }

    /// Whether the frame is the one that its own encoding decodes to: an
    /// identifier that a PRIORITY frame leaves out is read back as zero.
    pub open spec fn canonical(self) -> bool {
        match self {
            FrameView::Priority {
                priority_elem,
                elem_dependency,
                prioritized_element_id,
                element_dependency_id,
                weight,
            } => {
                &&& (priority_elem.is_peid_absent() ==> prioritized_element_id == 0)
                &&& (elem_dependency.is_edid_absent() ==> element_dependency_id == 0)
            },
            _ => true,
        }
    }

    /// The frame on the wire: the length of the payload, the type byte, the
    /// payload.
    pub open spec fn wire(self) -> Seq<u8> {
        varint_bytes(self.payload().len() as u64) + seq![self.frame_type()] + self.payload()
    }
}

/// Reads an identifier from the front of `s`, or takes it to be zero without
/// reading anything when it is `absent`.
pub open spec fn parse_optional_id(absent: bool, s: Seq<u8>) -> Option<(u64, nat)> {
    if absent {
        Some((0, 0))
    } else {
        parse_varint(s)
    }
}

/// Reads the payload of a PRIORITY frame from the front of `s`: the
/// bitfield, each identifier that its type does not leave out, the weight.
pub open spec fn parse_priority(s: Seq<u8>) -> Result<(FrameView, nat), Error> {
    if s.len() < 1 {
        Err(Error::BufferUnderflow)
    } else {
        let priority_elem = PrioritizedElemType::from_bits(s[0] / 64);
        let elem_dependency = ElemDependencyType::from_bits((s[0] / 16) % 4);
        match parse_optional_id(priority_elem.is_peid_absent(), s.skip(1)) {
            None => Err(Error::BufferUnderflow),
            Some((prioritized_element_id, n1)) => match parse_optional_id(
                elem_dependency.is_edid_absent(),
                s.skip((1 + n1) as int),
            ) {
                None => Err(Error::BufferUnderflow),
                Some((element_dependency_id, n2)) => if s.len() < 1 + n1 + n2 + 1 {
                    Err(Error::BufferUnderflow)
                } else {
                    Ok(
                        (
                            FrameView::Priority {
                                priority_elem,
                                elem_dependency,
                                prioritized_element_id,
                                element_dependency_id,
                                weight: s[(1 + n1 + n2) as int],
                            },
                            1 + n1 + n2 + 1,
                        ),
                    )
                },
            },
        }
    }
}

/// Reads one setting from the front of `s`.
pub open spec fn parse_param(s: Seq<u8>) -> Result<(SettingsParameter, nat), Error> {
    if s.len() < 2 {
        Err(Error::BufferUnderflow)
    } else {
        match parse_varint(s.skip(2)) {
            None => Err(Error::BufferUnderflow),
            Some((value, n)) => Ok(
                (SettingsParameter { id: be_value(s.subrange(0, 2)) as u16, value }, 2 + n),
            ),
        }
    }
}

/// Reads settings from the front of `s` until `length` bytes or more have
/// been read.
pub open spec fn parse_params(s: Seq<u8>, length: int) -> Result<
    (Seq<SettingsParameter>, nat),
    Error,
>
    decreases (if length > 0 { length } else { 0 }),
{
    if length <= 0 {
        Ok((Seq::empty(), 0))
    } else {
        match parse_param(s) {
            Err(e) => Err(e),
            Ok((p, n)) => match parse_params(s.skip(n as int), length - n) {
                Err(e) => Err(e),
                Ok((ps, m)) => Ok((seq![p] + ps, n + m)),
            },
        }
    }
}

/// The result of reading settings after `params` were read in `consumed`
/// bytes, where `rest` is the result of reading on from there.
pub open spec fn after_params(
    params: Seq<SettingsParameter>,
    consumed: nat,
    rest: Result<(Seq<SettingsParameter>, nat), Error>,
) -> Result<(Seq<SettingsParameter>, nat), Error> {
    match rest {
        Err(e) => Err(e),
        Ok((ps, m)) => Ok((params + ps, consumed + m)),
    }
}

/// Reads the payload of a SETTINGS frame whose length is `length`.
pub open spec fn parse_settings(length: u64, s: Seq<u8>) -> Result<(FrameView, nat), Error> {
    match parse_params(s, length as int) {
        Err(e) => Err(e),
        Ok((params, n)) => Ok((FrameView::Settings { params }, n)),
    }
}

/// Reads the payload of a PUSH_PROMISE frame whose length is `length`: the
/// push id, then a header block that takes what the shortest encoding of the
/// push id leaves of `length`.
pub open spec fn parse_push_promise_payload(length: u64, s: Seq<u8>) -> Result<
    (FrameView, nat),
    Error,
> {
    match parse_varint(s) {
        None => Err(Error::BufferUnderflow),
        Some((push_id, n)) => if length < varint_width(push_id) {
            Err(Error::InvalidFrame)
        } else if s.len() - n < length - varint_width(push_id) {
            Err(Error::BufferUnderflow)
        } else {
            Ok(
                (
                    FrameView::PushPromise {
                        push_id,
                        header_block: s.subrange(n as int, n + length - varint_width(push_id)),
                    },
                    (n + length - varint_width(push_id)) as nat,
                ),
            )
        },
    }
}

/// Reads a payload that is `length` opaque bytes.
pub open spec fn parse_block(length: u64, s: Seq<u8>) -> Result<(Seq<u8>, nat), Error> {
    if s.len() < length {
        Err(Error::BufferUnderflow)
    } else {
        Ok((s.subrange(0, length as int), length as nat))
    }
}

/// Reads a payload that is one identifier.
pub open spec fn parse_id(s: Seq<u8>) -> Result<(u64, nat), Error> {
    match parse_varint(s) {
        None => Err(Error::BufferUnderflow),
        Some((id, n)) => Ok((id, n)),
    }
}

/// Reads the payload of a frame of type `frame_type` whose length is
/// `length` from the front of `s`. A type that no frame has is an
/// `InvalidFrame`.
#[verifier::opaque]
pub open spec fn parse_payload(frame_type: u8, length: u64, s: Seq<u8>) -> Result<
    (FrameView, nat),
    Error,
> {
    if frame_type == DATA_FRAME_TYPE {
        match parse_block(length, s) {
            Err(e) => Err(e),
            Ok((payload, n)) => Ok((FrameView::Data { payload }, n)),
        }
    } else if frame_type == HEADERS_FRAME_TYPE {
        match parse_block(length, s) {
            Err(e) => Err(e),
            Ok((header_block, n)) => Ok((FrameView::Headers { header_block }, n)),
        }
    } else if frame_type == PRIORITY_FRAME_TYPE {
        parse_priority(s)
    } else if frame_type == CANCEL_PUSH_FRAME_TYPE {
        match parse_id(s) {
            Err(e) => Err(e),
            Ok((push_id, n)) => Ok((FrameView::CancelPush { push_id }, n)),
        }
    } else if frame_type == SETTINGS_FRAME_TYPE {
        parse_settings(length, s)
    } else if frame_type == PUSH_PROMISE_FRAME_TYPE {
        parse_push_promise_payload(length, s)
    } else if frame_type == GOAWAY_FRAME_TYPE {
        match parse_id(s) {
            Err(e) => Err(e),
            Ok((stream_id, n)) => Ok((FrameView::GoAway { stream_id }, n)),
        }
    } else if frame_type == MAX_PUSH_ID_FRAME_TYPE {
        match parse_id(s) {
            Err(e) => Err(e),
            Ok((push_id, n)) => Ok((FrameView::MaxPushId { push_id }, n)),
        }
    } else if frame_type == DUPLICATE_PUSH_FRAME_TYPE {
        match parse_id(s) {
            Err(e) => Err(e),
            Ok((push_id, n)) => Ok((FrameView::DuplicatePush { push_id }, n)),
        }
    } else {
        Err(Error::InvalidFrame)
    }
}

/// Reads one frame from the front of `s`: the frame and the number of bytes
/// it occupies, or the reason why there is none.
pub open spec fn parse_frame(s: Seq<u8>) -> Result<(FrameView, nat), Error> {
    match parse_varint(s) {
        None => Err(Error::BufferUnderflow),
        Some((length, n)) => if s.len() < n + 1 {
            Err(Error::BufferUnderflow)
        } else {
            match parse_payload(s[n as int], length, s.skip((n + 1) as int)) {
                Err(e) => Err(e),
                Ok((f, m)) => Ok((f, n + 1 + m)),
            }
        },
    }
}

/// Reads one frame after another from `s` until nothing is left.
pub open spec fn parse_all(s: Seq<u8>) -> Result<Seq<FrameView>, Error>
    decreases s.len(),
    via parse_all_decreases
{
    if s.len() == 0 {
        Ok(Seq::empty())
    } else {
        match parse_frame(s) {
            Err(e) => Err(e),
            Ok((f, n)) => match parse_all(s.skip(n as int)) {
                Err(e) => Err(e),
                Ok(fs) => Ok(seq![f] + fs),
            },
        }
    }
}

#[via_fn]
proof fn parse_all_decreases(s: Seq<u8>) {
    if s.len() > 0 && parse_frame(s) is Ok {
        lemma_parse_frame_consumed(s);
    }
}

/// The result of reading frames after `frames` were read, where `rest` is
/// the result of reading on from there.
pub open spec fn after_frames(
    frames: Seq<FrameView>,
    rest: Result<Seq<FrameView>, Error>,
) -> Result<Seq<FrameView>, Error> {
    match rest {
        Err(e) => Err(e),
        Ok(fs) => Ok(frames + fs),
    }
}

/// The payload of an encodable frame has a length that can be written, and
/// the frame takes that length, the type byte and the width of the length.
pub proof fn lemma_wire_len(f: FrameView)
    requires
        f.encodable(),
    ensures
        f.payload().len() <= MAX_VARINT,
        f.wire().len() == varint_width(f.payload().len() as u64) + 1 + f.payload().len(),
{
    match f {
        FrameView::Priority {
            priority_elem,
            elem_dependency,
            prioritized_element_id,
            element_dependency_id,
            weight,
        } => {
            if !priority_elem.is_peid_absent() {
                lemma_varint_bytes_shape(prioritized_element_id);
            }
            if !elem_dependency.is_edid_absent() {
                lemma_varint_bytes_shape(element_dependency_id);
            }
        },
        FrameView::CancelPush { push_id } => {
            lemma_varint_bytes_shape(push_id);
        },
        FrameView::PushPromise { push_id, header_block } => {
            lemma_varint_bytes_shape(push_id);
        },
        FrameView::GoAway { stream_id } => {
            lemma_varint_bytes_shape(stream_id);
        },
        FrameView::MaxPushId { push_id } => {
            lemma_varint_bytes_shape(push_id);
        },
        FrameView::DuplicatePush { push_id } => {
            lemma_varint_bytes_shape(push_id);
        },
        _ => {},
    }
    lemma_varint_bytes_shape(f.payload().len() as u64);
}

/// The bytes of the settings from `i` on start with the bytes of setting `i`.
pub proof fn lemma_params_bytes_step(ps: Seq<SettingsParameter>, i: int)
    requires
        0 <= i < ps.len(),
    ensures
        params_bytes(ps.skip(i)) == param_bytes(ps[i]) + params_bytes(ps.skip(i + 1)),
        param_bytes(ps[i]).len() == 2 + varint_bytes(ps[i].value).len(),
{
    assert(ps.skip(i).skip(1) =~= ps.skip(i + 1));
    lemma_be_bytes_len(ps[i].id as nat, 2);
}

/// Each setting takes at most ten bytes.
pub proof fn lemma_params_bytes_bound(ps: Seq<SettingsParameter>)
    requires
        params_in_range(ps),
    ensures
        params_bytes(ps).len() <= 10 * ps.len(),
    decreases ps.len(),
{
    if ps.len() > 0 {
        lemma_params_bytes_bound(ps.skip(1));
        lemma_be_bytes_len(ps[0].id as nat, 2);
        lemma_varint_bytes_shape(ps[0].value);
    }
}

/// A frame that was read took at least two of the bytes, and no more than
/// there were.
pub proof fn lemma_parse_frame_consumed(s: Seq<u8>)
    requires
        parse_frame(s) is Ok,
    ensures
        2 <= parse_frame(s)->Ok_0.1 <= s.len(),
{
    let n = parse_varint(s)->Some_0.1;
    let length = parse_varint(s)->Some_0.0;
    let body = s.skip((n + 1) as int);
    lemma_parse_varint_range(s);
    lemma_parse_payload_consumed(s[n as int], length, body);
}

/// A payload that was read took no more bytes than there were.
proof fn lemma_parse_payload_consumed(frame_type: u8, length: u64, s: Seq<u8>)
    requires
        parse_payload(frame_type, length, s) is Ok,
    ensures
        parse_payload(frame_type, length, s)->Ok_0.1 <= s.len(),
{
    reveal(parse_payload);
    if frame_type == PRIORITY_FRAME_TYPE {
    } else if frame_type == SETTINGS_FRAME_TYPE {
        lemma_parse_params_consumed(s, length as int);
    } else if frame_type == PUSH_PROMISE_FRAME_TYPE {
        lemma_parse_varint_range(s);
    } else if frame_type == DATA_FRAME_TYPE || frame_type == HEADERS_FRAME_TYPE {
    } else {
        lemma_parse_varint_range(s);
    }
}

/// Settings that were read took no more bytes than there were.
proof fn lemma_parse_params_consumed(s: Seq<u8>, length: int)
    requires
        parse_params(s, length) is Ok,
    ensures
        parse_params(s, length)->Ok_0.1 <= s.len(),
    decreases (if length > 0 { length } else { 0 }),
{
    if length > 0 {
        let n = parse_param(s)->Ok_0.1;
        lemma_parse_varint_range(s.skip(2));
        lemma_parse_params_consumed(s.skip(n as int), length - n);
    }
}

/// Reading settings on from none read is reading them.
pub proof fn lemma_read_no_param(rest: Result<(Seq<SettingsParameter>, nat), Error>)
    ensures
        after_params(Seq::empty(), 0, rest) == rest,
{
}

/// Reading settings on after `read`, `consumed` bytes into `s` and short of
/// `length`: either the next setting cannot be read, and that is the result;
/// or it takes its bytes, and the result is that of reading on behind it.
pub proof fn lemma_read_param_on(
    s: Seq<u8>,
    length: int,
    read: Seq<SettingsParameter>,
    consumed: nat,
)
    requires
        consumed < length,
        consumed <= s.len(),
    ensures
        match parse_param(s.skip(consumed as int)) {
            Err(e) => after_params(
                read,
                consumed,
                parse_params(s.skip(consumed as int), length - consumed),
            ) == Err::<(Seq<SettingsParameter>, nat), Error>(e),
            Ok((param, n)) => after_params(
                read,
                consumed,
                parse_params(s.skip(consumed as int), length - consumed),
            ) == after_params(
                read.push(param),
                consumed + n,
                parse_params(s.skip((consumed + n) as int), length - (consumed + n)),
            ),
        },
{
    let here = s.skip(consumed as int);
    if parse_param(here) is Ok {
        let param = parse_param(here)->Ok_0.0;
        let n = parse_param(here)->Ok_0.1;
        lemma_parse_varint_range(here.skip(2));
        assert(here.skip(n as int) =~= s.skip((consumed + n) as int));
        let rest = parse_params(here.skip(n as int), length - consumed - n);
        if rest is Ok {
            assert(read + (seq![param] + rest->Ok_0.0) =~= read.push(param) + rest->Ok_0.0);
        }
    }
}

/// Reading on from nothing read is reading.
pub proof fn lemma_read_nothing(rest: Result<Seq<FrameView>, Error>)
    ensures
        after_frames(Seq::empty(), rest) == rest,
{
}

/// Reading on after `read`, `consumed` bytes into `s`: either the next frame
/// cannot be read, and that is the result; or it takes its bytes, and the
/// result is that of reading on behind it.
pub proof fn lemma_read_on(s: Seq<u8>, read: Seq<FrameView>, consumed: nat)
    requires
        consumed < s.len(),
    ensures
        match parse_frame(s.skip(consumed as int)) {
            Err(e) => after_frames(read, parse_all(s.skip(consumed as int))) == Err::<
                Seq<FrameView>,
                Error,
            >(e),
            Ok((f, n)) => 2 <= n && consumed + n <= s.len() && after_frames(
                read,
                parse_all(s.skip(consumed as int)),
            ) == after_frames(read.push(f), parse_all(s.skip((consumed + n) as int))),
        },
{
    let here = s.skip(consumed as int);
    if parse_frame(here) is Ok {
        let f = parse_frame(here)->Ok_0.0;
        let n = parse_frame(here)->Ok_0.1;
        lemma_parse_frame_consumed(here);
        assert(here.skip(n as int) =~= s.skip((consumed + n) as int));
        let rest = parse_all(here.skip(n as int));
        if rest is Ok {
            assert(read + (seq![f] + rest->Ok_0) =~= read.push(f) + rest->Ok_0);
        }
    }
}

} // verus!
