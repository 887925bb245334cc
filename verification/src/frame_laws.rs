//! The laws of the frame codec: reading inverts writing, and the length that
//! a frame announces is the length of its payload.

use crate::error::Error;
use crate::frame::{ElemDependencyType, PrioritizedElemType, SettingsParameter};
use crate::octets::OctetsView;
use crate::varint::{
    be_bytes, lemma_be_bytes_len, lemma_be_value_of_bytes, lemma_pow256_values,
    lemma_varint_bytes_shape, lemma_varint_round_trip, parse_varint, varint_bytes, varint_width,
    MAX_VARINT,
};
use crate::wire::{
    lemma_wire_len, optional_id_bytes, param_bytes, params_bytes, params_in_range, parse_all,
    parse_block, parse_frame, parse_id, parse_optional_id, parse_params, parse_payload,
    parse_priority, parse_push_promise_payload, priority_bitfield, FrameView,
};
use vstd::prelude::*;

verus! {

/// Decoding inverts encoding. For every frame that can be laid out on the
/// wire and that leaves no identifier out but as zero, reading a frame from
/// its encoding gives the frame back, every field as it was, and consumes
/// exactly the encoding, whatever bytes follow it.
pub proof fn lemma_round_trip(f: FrameView, tail: Seq<u8>)
    requires
        f.encodable(),
        f.canonical(),
    ensures
        parse_frame(f.wire() + tail) == Ok::<(FrameView, nat), Error>((f, f.wire().len())),
{
    let length = f.payload().len() as u64;
    let s = f.wire() + tail;
    let n = varint_width(length);
    lemma_wire_len(f);
    lemma_varint_bytes_shape(length);
    assert(s =~= varint_bytes(length) + (seq![f.frame_type()] + f.payload() + tail));
    lemma_varint_round_trip(length, seq![f.frame_type()] + f.payload() + tail);
    assert(s.skip((n + 1) as int) =~= f.payload() + tail);
    lemma_payload_round_trip(f, tail);
}

/// What was written is read back from the buffer. When a frame that can be
/// laid out on the wire, and leaves no identifier out but as zero, was
/// written at the offset of a cursor, a cursor that stands at that offset
/// in the buffer then reads the same frame.
pub proof fn lemma_written_frame_is_read(f: FrameView, v: OctetsView)
    requires
        f.encodable(),
        f.canonical(),
        v.wf(),
        v.cap() >= f.wire().len(),
    ensures
        parse_frame((OctetsView { buf: v.put(f.wire()).buf, off: v.off }).rest()) == Ok::<
            (FrameView, nat),
            Error,
        >((f, f.wire().len())),
{
    let after = OctetsView { buf: v.put(f.wire()).buf, off: v.off };
    let tail = v.buf.subrange((v.off + f.wire().len()) as int, v.buf.len() as int);
    assert(after.rest() =~= f.wire() + tail);
    lemma_round_trip(f, tail);
}

/// One frame on the wire, and nothing else, is read as that frame.
pub proof fn lemma_one_frame_is_read(f: FrameView)
    requires
        f.encodable(),
        f.canonical(),
    ensures
        parse_all(f.wire()) == Ok::<Seq<FrameView>, Error>(seq![f]),
{
    reveal_with_fuel(parse_all, 2);
    lemma_wire_len(f);
    lemma_round_trip(f, Seq::empty());
}

/// The length prefix is exact. The encoding of every frame that can be laid
/// out on the wire starts with the length of its payload as a
/// variable-length integer; after that prefix stand the type byte and then
/// the payload, which has exactly the length announced, and nothing else.
pub proof fn lemma_length_prefix_exact(f: FrameView)
    requires
        f.encodable(),
    ensures
        parse_varint(f.wire()) == Some(
            (f.payload().len() as u64, varint_width(f.payload().len() as u64)),
        ),
        f.wire().skip(varint_width(f.payload().len() as u64) as int) == seq![f.frame_type()]
            + f.payload(),
        f.wire().len() == varint_width(f.payload().len() as u64) + 1 + f.payload().len(),
{
    let length = f.payload().len() as u64;
    lemma_wire_len(f);
    lemma_varint_bytes_shape(length);
    assert(f.wire() =~= varint_bytes(length) + (seq![f.frame_type()] + f.payload()));
    lemma_varint_round_trip(length, seq![f.frame_type()] + f.payload());
}

/// Settings that were written are read back: for every list of settings
/// whose values fit a variable-length integer, reading as many bytes as the
/// list takes, from its bytes followed by `tail`, gives the list.
pub proof fn lemma_params_round_trip(ps: Seq<SettingsParameter>, tail: Seq<u8>)
    requires
        params_in_range(ps),
    ensures
        parse_params(params_bytes(ps) + tail, params_bytes(ps).len() as int) == Ok::<
            (Seq<SettingsParameter>, nat),
            Error,
        >((ps, params_bytes(ps).len())),
    decreases ps.len(),
{
    if ps.len() == 0 {
        assert(ps =~= Seq::<SettingsParameter>::empty());
    } else {
        let p = ps[0];
        let rest = ps.skip(1);
        let s = params_bytes(ps) + tail;
        let after = params_bytes(rest) + tail;
        lemma_be_bytes_len(p.id as nat, 2);
        lemma_pow256_values();
        lemma_be_value_of_bytes(p.id as nat, 2);
        lemma_varint_bytes_shape(p.value);
        lemma_varint_round_trip(p.value, after);
        assert(s.subrange(0, 2) =~= be_bytes(p.id as nat, 2));
        assert(s.skip(2) =~= varint_bytes(p.value) + after);
        let n = param_bytes(p).len();
        assert(s.skip(n as int) =~= after);
        lemma_params_round_trip(rest, tail);
        assert(seq![p] + rest =~= ps);
    }
}

/// The payload of any frame is read back under the type and length of the
/// frame.
proof fn lemma_payload_round_trip(f: FrameView, tail: Seq<u8>)
    requires
        f.encodable(),
        f.canonical(),
    ensures
        parse_payload(f.frame_type(), f.payload().len() as u64, f.payload() + tail) == Ok::<
            (FrameView, nat),
            Error,
        >((f, f.payload().len())),
{
    reveal(parse_payload);
    lemma_wire_len(f);
    match f {
        FrameView::Data { payload } => {
            lemma_block_round_trip(payload, tail);
        },
        FrameView::Headers { header_block } => {
            lemma_block_round_trip(header_block, tail);
        },
        FrameView::Priority { .. } => {
            lemma_priority_round_trip(f, tail);
        },
        FrameView::CancelPush { push_id } => {
            lemma_id_round_trip(push_id, tail);
        },
        FrameView::Settings { params } => {
            lemma_params_round_trip(params, tail);
        },
        FrameView::PushPromise { push_id, header_block } => {
            lemma_push_promise_round_trip(push_id, header_block, tail);
        },
        FrameView::GoAway { stream_id } => {
            lemma_id_round_trip(stream_id, tail);
        },
        FrameView::MaxPushId { push_id } => {
            lemma_id_round_trip(push_id, tail);
        },
        FrameView::DuplicatePush { push_id } => {
            lemma_id_round_trip(push_id, tail);
        },
    }
}

/// A payload of opaque bytes is read back.
proof fn lemma_block_round_trip(block: Seq<u8>, tail: Seq<u8>)
    requires
        block.len() <= MAX_VARINT,
    ensures
        parse_block(block.len() as u64, block + tail) == Ok::<(Seq<u8>, nat), Error>(
            (block, block.len()),
        ),
{
    assert((block + tail).subrange(0, block.len() as int) =~= block);
}

/// A payload of one identifier is read back.
proof fn lemma_id_round_trip(id: u64, tail: Seq<u8>)
    requires
        id <= MAX_VARINT,
    ensures
        varint_bytes(id).len() == varint_width(id),
        parse_id(varint_bytes(id) + tail) == Ok::<(u64, nat), Error>((id, varint_width(id))),
{
    lemma_varint_round_trip(id, tail);
    lemma_varint_bytes_shape(id);
}

/// The payload of a PUSH_PROMISE frame is read back.
proof fn lemma_push_promise_round_trip(push_id: u64, header_block: Seq<u8>, tail: Seq<u8>)
    requires
        push_id <= MAX_VARINT,
        varint_width(push_id) + header_block.len() <= MAX_VARINT,
    ensures
        parse_push_promise_payload(
            (varint_width(push_id) + header_block.len()) as u64,
            varint_bytes(push_id) + header_block + tail,
        ) == Ok::<(FrameView, nat), Error>(
            (
                FrameView::PushPromise { push_id, header_block },
                varint_width(push_id) + header_block.len(),
            ),
        ),
        varint_bytes(push_id).len() == varint_width(push_id),
{
    let n = varint_width(push_id);
    let s = varint_bytes(push_id) + header_block + tail;
    lemma_varint_bytes_shape(push_id);
    assert(s =~= varint_bytes(push_id) + (header_block + tail));
    lemma_varint_round_trip(push_id, header_block + tail);
    assert(s.subrange(n as int, (n + header_block.len()) as int) =~= header_block);
}

/// The payload of a PRIORITY frame is read back.
proof fn lemma_priority_round_trip(f: FrameView, tail: Seq<u8>)
    requires
        f is Priority,
        f.encodable(),
        f.canonical(),
    ensures
        parse_priority(f.payload() + tail) == Ok::<(FrameView, nat), Error>(
            (f, f.payload().len()),
        ),
{
    let pt = f->priority_elem;
    let dt = f->elem_dependency;
    lemma_bitfield_round_trip(pt, dt);
    lemma_priority_parts(
        priority_bitfield(pt, dt),
        pt.is_peid_absent(),
        f->prioritized_element_id,
        dt.is_edid_absent(),
        f->element_dependency_id,
        f->weight,
        tail,
    );
}

/// The parts of a PRIORITY payload are found where they were put: the
/// bitfield first, each identifier behind what precedes it, the weight last.
proof fn lemma_priority_parts(
    bitfield: u8,
    first_absent: bool,
    first: u64,
    second_absent: bool,
    second: u64,
    weight: u8,
    tail: Seq<u8>,
)
    requires
        first_absent ==> first == 0,
        !first_absent ==> first <= MAX_VARINT,
        second_absent ==> second == 0,
        !second_absent ==> second <= MAX_VARINT,
    ensures
        ({
            let a = optional_id_bytes(first_absent, first);
            let b = optional_id_bytes(second_absent, second);
            let s = seq![bitfield] + a + b + seq![weight] + tail;
            &&& s.len() == 1 + a.len() + b.len() + 1 + tail.len()
            &&& s[0] == bitfield
            &&& parse_optional_id(first_absent, s.skip(1)) == Some((first, a.len()))
            &&& parse_optional_id(second_absent, s.skip((1 + a.len()) as int)) == Some(
                (second, b.len()),
            )
            &&& s[(1 + a.len() + b.len()) as int] == weight
        }),
{
    let a = optional_id_bytes(first_absent, first);
    let b = optional_id_bytes(second_absent, second);
    let s = seq![bitfield] + a + b + seq![weight] + tail;
    assert(s.skip(1) =~= a + (b + seq![weight] + tail));
    lemma_optional_id_round_trip(first_absent, first, b + seq![weight] + tail);
    assert(s.skip((1 + a.len()) as int) =~= b + (seq![weight] + tail));
    lemma_optional_id_round_trip(second_absent, second, seq![weight] + tail);
}

/// The bitfield of two valid types gives both types back.
proof fn lemma_bitfield_round_trip(pt: PrioritizedElemType, dt: ElemDependencyType)
    requires
        !(pt is Error),
        !(dt is Error),
    ensures
        PrioritizedElemType::from_bits(priority_bitfield(pt, dt) / 64) == pt,
        ElemDependencyType::from_bits((priority_bitfield(pt, dt) / 16) % 4) == dt,
{
}

/// An identifier that was written, or left out as zero, is read back.
proof fn lemma_optional_id_round_trip(absent: bool, id: u64, tail: Seq<u8>)
    requires
        absent ==> id == 0,
        !absent ==> id <= MAX_VARINT,
    ensures
        parse_optional_id(absent, optional_id_bytes(absent, id) + tail) == Some(
            (id, optional_id_bytes(absent, id).len()),
        ),
{
    if !absent {
        lemma_varint_round_trip(id, tail);
        lemma_varint_bytes_shape(id);
    }
}

} // verus!
