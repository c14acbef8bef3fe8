//! The laws of the codec: round-trip and layout properties proved from the
//! contracts of the builder, the reader and the example schema.

use crate::align::{lemma_align_up_is_least, spec_align_up};
use crate::builder::{sb_object, sb_object_effect, sb_str, sb_write, spec_init_state,
    spec_serialize_enum, spec_serialize_struct, wf_state, BState, VossEnum, VossStruct,
    MAX_BUFFER_LEN};
use crate::error::{BuilderError, ReaderError};
use crate::hash::lemma_hash16_len;
use crate::reader::{sr_bytes, sr_i32, sr_oneof, sr_str, sr_u32, sr_u64, FromReader};
use crate::schema::{ClockMessage, FieldType, FieldTypeObjectReference, FieldTypePrimitive,
    FieldTypeV, HostIDMessage, Named, NamedV, Point, PointV, RPCMessage, RPCMessageV,
    TypespaceObject, TypespaceObjectField, TypespaceObjectFieldV, TypespaceObjectV};
use crate::utf16::{lemma_bytes_from_units, lemma_units_from_bytes, lemma_utf16_decode_encode,
    lemma_utf16_encode_decode, lemma_utf16_encode_len, lemma_utf16_le_bytes_len, utf16_decode,
    utf16_encode, utf16_le_bytes};
use crate::wire::{lemma_append_preserves, lemma_splice_disjoint, lemma_splice_subrange, splice,
    zeros};
use vstd::arithmetic::power2::pow2;
use vstd::bytes::{spec_u16_from_le_bytes, spec_u32_from_le_bytes, spec_u32_to_le_bytes,
    spec_u64_to_le_bytes};
use vstd::prelude::*;

verus! {

/// Law: primitive fields are little-endian. The value `0x01020304` written
/// as a 64-bit field serializes as the bytes `[0x04, 0x03, 0x02, 0x01, 0,
/// 0, 0, 0]`: the least significant byte comes first.
pub proof fn lemma_little_endian_bytes()
    ensures
        spec_u64_to_le_bytes(0x01020304) =~= seq![
            0x04u8,
            0x03u8,
            0x02u8,
            0x01u8,
            0u8,
            0u8,
            0u8,
            0u8,
        ],
{
    vstd::bytes::spec_u64_to_le_bytes_to_open(0x01020304);
    let x: u64 = 0x01020304;
    assert((x & 0xff) == 4 && ((x >> 8) & 0xff) == 3 && ((x >> 16) & 0xff) == 2 && ((x >> 24)
        & 0xff) == 1 && ((x >> 32) & 0xff) == 0 && ((x >> 40) & 0xff) == 0 && ((x >> 48) & 0xff)
        == 0 && ((x >> 56) & 0xff) == 0) by (bit_vector)
        requires x == 0x01020304;
}

/// Law: on a successful nested-object write of a record with positive size,
/// the stamped pointer field is non-zero and resolves, measured from the
/// pointer's own address, to a target that lies inside the buffer and is
/// aligned to the record's declared alignment.
///
/// The growth premise on `child` holds of every record the builder accepts:
/// `VossStruct::serialize` never shrinks the buffer, and `VossBuilder::object`
/// ensures these same facts directly on its result.
pub proof fn lemma_object_pointer_resolves(
    pre: BState,
    off: int,
    size: int,
    align: nat,
    child: spec_fn(BState) -> Result<BState, BuilderError>,
)
    requires
        wf_state(pre),
        0 <= off,
        size > 0,
        forall|s: BState| (#[trigger] child(s)) matches Ok(c) ==> c.data.len() >= s.data.len(),
        sb_object_effect(pre, off, size, align, child) is Ok,
    ensures
        (sb_object_effect(pre, off, size, align, child) matches Ok(fin) && {
            let ptr = pre.current + off;
            let rel = spec_u32_from_le_bytes(fin.data.subrange(ptr, ptr + 4)) as int;
            &&& 0 < rel
            &&& ptr + rel + size <= fin.data.len()
            &&& (ptr + rel) % (pow2(align) as int) == 0
        }),
{
    vstd::bytes::lemma_auto_spec_u32_to_from_le_bytes();
    lemma_align_up_is_least(pre.next as nat, align);
    let so = spec_align_up(pre.next as nat, align) as int;
    let ptr = pre.current + off;
    let grown = BState {
        data: pre.data + zeros((so + size - pre.data.len()) as nat),
        current: so,
        next: so + size,
    };
    let c = child(grown);
    assert(c is Ok);
    let cs = c.unwrap();
    assert(cs.data.len() >= grown.data.len());
    let le = spec_u32_to_le_bytes((so - ptr) as u32);
    lemma_splice_subrange(cs.data, ptr, le);
    let fin = sb_object_effect(pre, off, size, align, child).unwrap();
    assert(fin.data.subrange(ptr, ptr + 4) == le);
    assert(spec_u32_from_le_bytes(le) == (so - ptr) as u32);
    assert(so - ptr <= MAX_BUFFER_LEN);
    assert(ptr + 4 <= pre.data.len() <= so);
}

/// Law: a record with size 0 encoded as a nested object stamps pointer 0
/// and leaves the heap frontier where it was.
pub proof fn lemma_zero_sized_object_stamps_null(
    pre: BState,
    off: int,
    align: nat,
    child: spec_fn(BState) -> Result<BState, BuilderError>,
)
    requires
        wf_state(pre),
        0 <= off,
        pre.current + off + 4 <= pre.data.len(),
    ensures
        (sb_object_effect(pre, off, 0, align, child) matches Ok(fin) && {
            &&& spec_u32_from_le_bytes(
                fin.data.subrange(pre.current + off, pre.current + off + 4),
            ) == 0
            &&& fin.next == pre.next
            &&& fin.data.len() == pre.data.len()
        }),
{
    vstd::bytes::lemma_auto_spec_u32_to_from_le_bytes();
    lemma_splice_subrange(pre.data, pre.current + off, spec_u32_to_le_bytes(0));
}

/// Law: a serialized clock message deserializes to the same value.
pub proof fn lemma_clock_message_round_trip(m: ClockMessage)
    ensures
        (spec_serialize_struct(&m) matches Ok(bytes) && ClockMessage::spec_from(bytes, 0)
            == Ok::<u64, ReaderError>(m@)),
{
    vstd::bytes::lemma_auto_spec_u64_to_from_le_bytes();
    let init = spec_init_state(8);
    let le = spec_u64_to_le_bytes(m.timestamp);
    lemma_splice_subrange(init.data, 0, le);
}

/// Law: a serialized host-identifier message deserializes to the same value.
pub proof fn lemma_host_id_message_round_trip(m: HostIDMessage)
    ensures
        (spec_serialize_struct(&m) matches Ok(bytes) && HostIDMessage::spec_from(bytes, 0)
            == Ok::<u32, ReaderError>(m@)),
{
    vstd::bytes::lemma_auto_spec_u32_to_from_le_bytes();
    let init = spec_init_state(4);
    let le = spec_u32_to_le_bytes(m.value);
    lemma_splice_subrange(init.data, 0, le);
}

/// Law: a serialized object-reference field type deserializes to the same
/// value.
pub proof fn lemma_field_type_object_reference_round_trip(v: FieldTypeObjectReference)
    ensures
        (spec_serialize_struct(&v) matches Ok(bytes) && FieldTypeObjectReference::spec_from(
            bytes,
            0,
        ) == Ok::<Seq<u8>, ReaderError>(v@)),
{
    lemma_hash16_len(v.obj);
    let init = spec_init_state(16);
    lemma_splice_subrange(init.data, 0, v.obj@);
}

/// Law: a serialized point deserializes to the same value.
pub proof fn lemma_point_round_trip(v: Point)
    ensures
        (spec_serialize_struct(&v) matches Ok(bytes) && Point::spec_from(bytes, 0) == Ok::<
            PointV,
            ReaderError,
        >(v@)),
{
    vstd::bytes::lemma_auto_spec_u32_to_from_le_bytes();
    let init = spec_init_state(8);
    let xle = spec_u32_to_le_bytes(v.x);
    let yle = spec_u32_to_le_bytes(v.y);
    let d1 = splice(init.data, 0, xle);
    let d2 = splice(d1, 4, yle);
    lemma_splice_disjoint(d1, 4, yle, 0, 4);
    lemma_splice_subrange(init.data, 0, xle);
    lemma_splice_subrange(d1, 4, yle);
    assert(sr_u32(d2, 0, 0) == Ok::<u32, ReaderError>(v.x));
    assert(sr_u32(d2, 0, 4) == Ok::<u32, ReaderError>(v.y));
}

/// Law: a serialized named point deserializes to the same value, for every
/// name whose payload the buffer can hold. The nested point sits behind the
/// pointer at offset 4 and comes back intact.
pub proof fn lemma_named_round_trip(v: Named)
    requires
        24 + 2 * utf16_encode(v.name@).len() <= MAX_BUFFER_LEN,
    ensures
        (spec_serialize_struct(&v) matches Ok(bytes) && Named::spec_from(bytes, 0) == Ok::<
            NamedV,
            ReaderError,
        >(v@)),
{
    vstd::bytes::lemma_auto_spec_u32_to_from_le_bytes();
    vstd::arithmetic::power2::lemma2_to64();
    let init = spec_init_state(16);
    let rle = spec_u32_to_le_bytes(v.r);
    let d1 = splice(init.data, 0, rle);
    // The nested point goes to the aligned heap frontier, offset 16.
    lemma_align_up_is_least(16, 2);
    assert(pow2(2) == 4);
    assert(spec_align_up(16, 2) == 16);
    let grown = BState { data: d1 + zeros(8), current: 16, next: 24 };
    let xle = spec_u32_to_le_bytes(v.p.x);
    let yle = spec_u32_to_le_bytes(v.p.y);
    let pa = splice(grown.data, 16, xle);
    let pb = splice(pa, 20, yle);
    assert(v.p.spec_serialize(grown) matches Ok(c) && c.data == pb && c.next == 24);
    let relle = spec_u32_to_le_bytes(12);
    let d2data = splice(pb, 4, relle);
    assert(sb_object(BState { data: d1, current: 0, next: 16 }, 4, &v.p) matches Ok(s2)
        && s2.data == d2data && s2.current == 0 && s2.next == 24);
    let text = v.name@;
    if text.len() == 0 {
        let le0 = spec_u32_to_le_bytes(0);
        let d3 = splice(d2data, 8, le0);
        let d4 = splice(d3, 12, le0);
        assert(spec_serialize_struct(&v) == Ok::<Seq<u8>, BuilderError>(d4));
        // r at 0..4.
        lemma_splice_disjoint(d3, 12, le0, 0, 4);
        lemma_splice_disjoint(d2data, 8, le0, 0, 4);
        lemma_splice_disjoint(pb, 4, relle, 0, 4);
        lemma_splice_disjoint(pa, 20, yle, 0, 4);
        lemma_splice_disjoint(grown.data, 16, xle, 0, 4);
        lemma_append_preserves(d1, zeros(8), 0, 4);
        lemma_splice_subrange(init.data, 0, rle);
        assert(sr_u32(d4, 0, 0) == Ok::<u32, ReaderError>(v.r));
        // the pointer at 4..8.
        lemma_splice_disjoint(d3, 12, le0, 4, 8);
        lemma_splice_disjoint(d2data, 8, le0, 4, 8);
        lemma_splice_subrange(pb, 4, relle);
        assert(sr_u32(d4, 0, 4) == Ok::<u32, ReaderError>(12u32));
        // the point's fields at 16..24.
        lemma_splice_disjoint(d3, 12, le0, 16, 20);
        lemma_splice_disjoint(d2data, 8, le0, 16, 20);
        lemma_splice_disjoint(pb, 4, relle, 16, 20);
        lemma_splice_disjoint(pa, 20, yle, 16, 20);
        lemma_splice_subrange(grown.data, 16, xle);
        assert(sr_u32(d4, 16, 0) == Ok::<u32, ReaderError>(v.p.x));
        lemma_splice_disjoint(d3, 12, le0, 20, 24);
        lemma_splice_disjoint(d2data, 8, le0, 20, 24);
        lemma_splice_disjoint(pb, 4, relle, 20, 24);
        lemma_splice_subrange(pa, 20, yle);
        assert(sr_u32(d4, 16, 4) == Ok::<u32, ReaderError>(v.p.y));
        assert(Point::spec_from(d4, 16) == Ok::<PointV, ReaderError>(v.p@));
        // the empty name's {size, rel} pair at 8..16.
        lemma_splice_disjoint(d3, 12, le0, 8, 12);
        lemma_splice_subrange(d2data, 8, le0);
        assert(sr_u32(d4, 0, 8) == Ok::<u32, ReaderError>(0u32));
        lemma_splice_subrange(d3, 12, le0);
        assert(sr_u32(d4, 0, 12) == Ok::<u32, ReaderError>(0u32));
        assert(text =~= Seq::<char>::empty());
        assert(sr_str(d4, 0, 8) == Ok::<Seq<char>, ReaderError>(text));
    } else {
        let units = utf16_encode(text);
        lemma_utf16_encode_len(text);
        lemma_utf16_le_bytes_len(units);
        let size = 2 * units.len() as int;
        let wp = d2data + utf16_le_bytes(units);
        let szle = spec_u32_to_le_bytes(size as u32);
        let relle2 = spec_u32_to_le_bytes(16);
        let d3 = splice(wp, 8, szle);
        let d4 = splice(d3, 12, relle2);
        assert(spec_serialize_struct(&v) == Ok::<Seq<u8>, BuilderError>(d4));
        // r at 0..4.
        lemma_splice_disjoint(d3, 12, relle2, 0, 4);
        lemma_splice_disjoint(wp, 8, szle, 0, 4);
        lemma_append_preserves(d2data, utf16_le_bytes(units), 0, 4);
        lemma_splice_disjoint(pb, 4, relle, 0, 4);
        lemma_splice_disjoint(pa, 20, yle, 0, 4);
        lemma_splice_disjoint(grown.data, 16, xle, 0, 4);
        lemma_append_preserves(d1, zeros(8), 0, 4);
        lemma_splice_subrange(init.data, 0, rle);
        assert(sr_u32(d4, 0, 0) == Ok::<u32, ReaderError>(v.r));
        // the pointer at 4..8.
        lemma_splice_disjoint(d3, 12, relle2, 4, 8);
        lemma_splice_disjoint(wp, 8, szle, 4, 8);
        lemma_append_preserves(d2data, utf16_le_bytes(units), 4, 8);
        lemma_splice_subrange(pb, 4, relle);
        assert(sr_u32(d4, 0, 4) == Ok::<u32, ReaderError>(12u32));
        // the point's fields at 16..24.
        lemma_splice_disjoint(d3, 12, relle2, 16, 20);
        lemma_splice_disjoint(wp, 8, szle, 16, 20);
        lemma_append_preserves(d2data, utf16_le_bytes(units), 16, 20);
        lemma_splice_disjoint(pb, 4, relle, 16, 20);
        lemma_splice_disjoint(pa, 20, yle, 16, 20);
        lemma_splice_subrange(grown.data, 16, xle);
        assert(sr_u32(d4, 16, 0) == Ok::<u32, ReaderError>(v.p.x));
        lemma_splice_disjoint(d3, 12, relle2, 20, 24);
        lemma_splice_disjoint(wp, 8, szle, 20, 24);
        lemma_append_preserves(d2data, utf16_le_bytes(units), 20, 24);
        lemma_splice_disjoint(pb, 4, relle, 20, 24);
        lemma_splice_subrange(pa, 20, yle);
        assert(sr_u32(d4, 16, 4) == Ok::<u32, ReaderError>(v.p.y));
        assert(Point::spec_from(d4, 16) == Ok::<PointV, ReaderError>(v.p@));
        // the name's {size, rel} pair at 8..16.
        lemma_splice_disjoint(d3, 12, relle2, 8, 12);
        lemma_splice_subrange(wp, 8, szle);
        assert(sr_u32(d4, 0, 8) == Ok::<u32, ReaderError>(size as u32));
        lemma_splice_subrange(d3, 12, relle2);
        assert(sr_u32(d4, 0, 12) == Ok::<u32, ReaderError>(16u32));
        assert(size as u32 as int == size);
        // the payload at 24..24+size.
        lemma_splice_disjoint(d3, 12, relle2, 24, 24 + size);
        lemma_splice_disjoint(wp, 8, szle, 24, 24 + size);
        assert(wp.subrange(24, 24 + size) =~= utf16_le_bytes(units));
        assert(d4.subrange(24, 24 + size) == utf16_le_bytes(units));
        lemma_units_from_bytes(d4, 24, units);
        lemma_utf16_encode_decode(text);
        assert(sr_str(d4, 0, 8) == Ok::<Seq<char>, ReaderError>(text));
    }
}

/// Law: a serialized primitive field type deserializes to the same value,
/// for every provider text whose payload the buffer can hold.
pub proof fn lemma_field_type_primitive_round_trip(v: FieldTypePrimitive)
    requires
        8 + 2 * utf16_encode(v.provider@).len() <= MAX_BUFFER_LEN,
    ensures
        (spec_serialize_struct(&v) matches Ok(bytes) && FieldTypePrimitive::spec_from(bytes, 0)
            == Ok::<Seq<char>, ReaderError>(v@)),
{
    vstd::bytes::lemma_auto_spec_u32_to_from_le_bytes();
    let init = spec_init_state(8);
    let text = v.provider@;
    if text.len() == 0 {
        let le0 = spec_u32_to_le_bytes(0);
        let d1 = splice(init.data, 0, le0);
        let d2 = splice(d1, 4, le0);
        lemma_splice_disjoint(d1, 4, le0, 0, 4);
        lemma_splice_subrange(init.data, 0, le0);
        lemma_splice_subrange(d1, 4, le0);
        assert(sr_u32(d2, 0, 0) == Ok::<u32, ReaderError>(0u32));
        assert(sr_u32(d2, 0, 4) == Ok::<u32, ReaderError>(0u32));
        assert(text =~= Seq::<char>::empty());
        assert(sr_str(d2, 0, 0) == Ok::<Seq<char>, ReaderError>(text));
    } else {
        let units = utf16_encode(text);
        lemma_utf16_encode_len(text);
        lemma_utf16_le_bytes_len(units);
        let size = 2 * units.len() as int;
        let wp = init.data + utf16_le_bytes(units);
        let szle = spec_u32_to_le_bytes(size as u32);
        let relle = spec_u32_to_le_bytes(8);
        let d1 = splice(wp, 0, szle);
        let d2 = splice(d1, 4, relle);
        assert(spec_serialize_struct(&v) == Ok::<Seq<u8>, BuilderError>(d2));
        lemma_splice_disjoint(d1, 4, relle, 0, 4);
        lemma_splice_subrange(wp, 0, szle);
        assert(sr_u32(d2, 0, 0) == Ok::<u32, ReaderError>(size as u32));
        lemma_splice_subrange(d1, 4, relle);
        assert(sr_u32(d2, 0, 4) == Ok::<u32, ReaderError>(8u32));
        assert(size as u32 as int == size);
        lemma_splice_disjoint(d1, 4, relle, 8, 8 + size);
        lemma_splice_disjoint(wp, 0, szle, 8, 8 + size);
        assert(wp.subrange(8, 8 + size) =~= utf16_le_bytes(units));
        assert(d2.subrange(8, 8 + size) == utf16_le_bytes(units));
        lemma_units_from_bytes(d2, 8, units);
        lemma_utf16_encode_decode(text);
        assert(sr_str(d2, 0, 0) == Ok::<Seq<char>, ReaderError>(text));
    }
}

/// Law: a serialized type-space object deserializes to the same value, for
/// every title whose payload the buffer can hold.
pub proof fn lemma_typespace_object_round_trip(v: TypespaceObject)
    requires
        32 + 2 * utf16_encode(v.title@).len() <= MAX_BUFFER_LEN,
    ensures
        (spec_serialize_struct(&v) matches Ok(bytes) && TypespaceObject::spec_from(bytes, 0)
            == Ok::<TypespaceObjectV, ReaderError>(v@)),
{
    vstd::bytes::lemma_auto_spec_u32_to_from_le_bytes();
    lemma_hash16_len(v.uuid);
    let init = spec_init_state(32);
    let text = v.title@;
    let d_uuid = splice(init.data, 0, v.uuid@);
    let x = v.x;
    let y = v.y;
    let xle = spec_u32_to_le_bytes(x as u32);
    let yle = spec_u32_to_le_bytes(y as u32);
    assert((x as u32) as i32 == x) by (bit_vector);
    assert((y as u32) as i32 == y) by (bit_vector);
    if text.len() == 0 {
        let le0 = spec_u32_to_le_bytes(0);
        let d1 = splice(d_uuid, 16, le0);
        let d2 = splice(d1, 20, le0);
        let d3 = splice(d2, 24, xle);
        let d4 = splice(d3, 28, yle);
        assert(spec_serialize_struct(&v) == Ok::<Seq<u8>, BuilderError>(d4));
        // uuid at 0..16: every later write lands at 16 or beyond.
        lemma_splice_disjoint(d3, 28, yle, 0, 16);
        lemma_splice_disjoint(d2, 24, xle, 0, 16);
        lemma_splice_disjoint(d1, 20, le0, 0, 16);
        lemma_splice_disjoint(d_uuid, 16, le0, 0, 16);
        lemma_splice_subrange(init.data, 0, v.uuid@);
        assert(sr_bytes(d4, 0, 0, 16) == Ok::<Seq<u8>, ReaderError>(v.uuid@));
        // the empty string's {size, rel} pair at 16..24.
        lemma_splice_disjoint(d3, 28, yle, 16, 20);
        lemma_splice_disjoint(d2, 24, xle, 16, 20);
        lemma_splice_disjoint(d1, 20, le0, 16, 20);
        lemma_splice_subrange(d_uuid, 16, le0);
        assert(sr_u32(d4, 0, 16) == Ok::<u32, ReaderError>(0u32));
        lemma_splice_disjoint(d3, 28, yle, 20, 24);
        lemma_splice_disjoint(d2, 24, xle, 20, 24);
        lemma_splice_subrange(d1, 20, le0);
        assert(sr_u32(d4, 0, 20) == Ok::<u32, ReaderError>(0u32));
        assert(text =~= Seq::<char>::empty());
        assert(sr_str(d4, 0, 16) == Ok::<Seq<char>, ReaderError>(text));
        // x at 24..28 and y at 28..32.
        lemma_splice_disjoint(d3, 28, yle, 24, 28);
        lemma_splice_subrange(d2, 24, xle);
        assert(sr_i32(d4, 0, 24) == Ok::<i32, ReaderError>(v.x));
        lemma_splice_subrange(d3, 28, yle);
        assert(sr_i32(d4, 0, 28) == Ok::<i32, ReaderError>(v.y));
    } else {
        let units = utf16_encode(text);
        lemma_utf16_encode_len(text);
        lemma_utf16_le_bytes_len(units);
        let size = 2 * units.len() as int;
        let wp = d_uuid + utf16_le_bytes(units);
        let szle = spec_u32_to_le_bytes(size as u32);
        let relle = spec_u32_to_le_bytes(16);
        let d1 = splice(wp, 16, szle);
        let d2 = splice(d1, 20, relle);
        let d3 = splice(d2, 24, xle);
        let d4 = splice(d3, 28, yle);
        assert(spec_serialize_struct(&v) == Ok::<Seq<u8>, BuilderError>(d4));
        // uuid at 0..16.
        lemma_splice_disjoint(d3, 28, yle, 0, 16);
        lemma_splice_disjoint(d2, 24, xle, 0, 16);
        lemma_splice_disjoint(d1, 20, relle, 0, 16);
        lemma_splice_disjoint(wp, 16, szle, 0, 16);
        lemma_append_preserves(d_uuid, utf16_le_bytes(units), 0, 16);
        lemma_splice_subrange(init.data, 0, v.uuid@);
        assert(sr_bytes(d4, 0, 0, 16) == Ok::<Seq<u8>, ReaderError>(v.uuid@));
        // the string's {size, rel} pair at 16..24.
        lemma_splice_disjoint(d3, 28, yle, 16, 20);
        lemma_splice_disjoint(d2, 24, xle, 16, 20);
        lemma_splice_disjoint(d1, 20, relle, 16, 20);
        lemma_splice_subrange(wp, 16, szle);
        assert(sr_u32(d4, 0, 16) == Ok::<u32, ReaderError>(size as u32));
        lemma_splice_disjoint(d3, 28, yle, 20, 24);
        lemma_splice_disjoint(d2, 24, xle, 20, 24);
        lemma_splice_subrange(d1, 20, relle);
        assert(sr_u32(d4, 0, 20) == Ok::<u32, ReaderError>(16u32));
        assert(size as u32 as int == size);
        // the payload at 32..32+size is written once and never overwritten.
        lemma_splice_disjoint(d3, 28, yle, 32, 32 + size);
        lemma_splice_disjoint(d2, 24, xle, 32, 32 + size);
        lemma_splice_disjoint(d1, 20, relle, 32, 32 + size);
        lemma_splice_disjoint(wp, 16, szle, 32, 32 + size);
        assert(wp.subrange(32, 32 + size) =~= utf16_le_bytes(units));
        assert(d4.subrange(32, 32 + size) == utf16_le_bytes(units));
        lemma_units_from_bytes(d4, 32, units);
        lemma_utf16_encode_decode(text);
        assert(sr_str(d4, 0, 16) == Ok::<Seq<char>, ReaderError>(text));
        // x at 24..28 and y at 28..32.
        lemma_splice_disjoint(d3, 28, yle, 24, 28);
        lemma_splice_subrange(d2, 24, xle);
        assert(sr_i32(d4, 0, 24) == Ok::<i32, ReaderError>(v.x));
        lemma_splice_subrange(d3, 28, yle);
        assert(sr_i32(d4, 0, 28) == Ok::<i32, ReaderError>(v.y));
    }
}

/// Law: every successfully decoded string field has an even size, and the
/// decode is lossless: re-encoding the decoded characters as UTF-16
/// reproduces the payload bytes exactly.
pub proof fn lemma_string_decode_lossless(data: Seq<u8>, cur: int, off: int)
    requires
        0 <= cur,
        0 <= off,
        sr_str(data, cur, off) is Ok,
    ensures
        (sr_u32(data, cur, off) matches Ok(size) && size % 2 == 0 && (sr_str(data, cur, off)
            matches Ok(chars) && (size > 0 ==> (sr_u32(data, cur, off + 4) matches Ok(rel)
            && utf16_le_bytes(utf16_encode(chars)) == data.subrange(
            cur + off + rel,
            cur + off + rel + size,
        ))))),
{
    let size = sr_u32(data, cur, off).unwrap();
    let rel = sr_u32(data, cur, off + 4).unwrap();
    if size == 0 {
    } else {
        let p = cur + off + rel;
        let units = Seq::new(
            size as nat / 2,
            |i: int| spec_u16_from_le_bytes(data.subrange(p + 2 * i, p + 2 * i + 2)),
        );
        let chars = sr_str(data, cur, off).unwrap();
        assert(utf16_decode(units) == Some(chars));
        lemma_utf16_decode_encode(units);
        lemma_bytes_from_units(data, p, size as int / 2);
        assert(2 * (size as int / 2) == size);
    }
}

/// Law: a serialized object field deserializes to the same value, for
/// either embedded field type, and for every title and provider text whose
/// payloads the buffer can hold.
#[verifier::spinoff_prover]
#[verifier::rlimit(100)]
pub proof fn lemma_typespace_object_field_round_trip(v: TypespaceObjectField)
    requires
        64 + 2 * utf16_encode(v.title@).len() + (match v.field_type {
            FieldType::Primitive(p) => 2 * utf16_encode(p.provider@).len() as int,
            FieldType::ObjectReference(_) => 16int,
        }) <= MAX_BUFFER_LEN,
    ensures
        (spec_serialize_struct(&v) matches Ok(bytes) && TypespaceObjectField::spec_from(bytes, 0)
            == Ok::<TypespaceObjectFieldV, ReaderError>(v@)),
{
    vstd::bytes::lemma_auto_spec_u32_to_from_le_bytes();
    vstd::arithmetic::power2::lemma2_to64();
    lemma_hash16_len(v.uuid);
    lemma_hash16_len(v.owner);
    let init = spec_init_state(48);
    let d_uuid = splice(init.data, 0, v.uuid@);
    let text = v.title@;
    let units = utf16_encode(text);
    lemma_utf16_encode_len(text);
    lemma_utf16_le_bytes_len(units);
    let tsize = 2 * units.len() as int;
    // The state after the title write: its data and heap frontier.
    let s2data = if text.len() == 0 {
        splice(splice(d_uuid, 16, spec_u32_to_le_bytes(0)), 20, spec_u32_to_le_bytes(0))
    } else {
        splice(
            splice(d_uuid + utf16_le_bytes(units), 16, spec_u32_to_le_bytes(tsize as u32)),
            20,
            spec_u32_to_le_bytes(32),
        )
    };
    let heap: int = 48 + if text.len() == 0 { 0int } else { tsize };
    assert(sb_str(
        BState { data: d_uuid, current: 0, next: 48 },
        16,
        text,
    ) matches Ok(s2) && s2.data == s2data && s2.next == heap && s2.current == 0);
    assert(s2data.len() == heap);
    let d_owner = splice(s2data, 24, v.owner@);
    let tagle = spec_u32_to_le_bytes(v.field_type.spec_tag());
    let t1 = splice(d_owner, 40, tagle);
    let mid = BState { data: t1, current: 0, next: heap };
    let mut fin: Seq<u8> = Seq::empty();
    match v.field_type {
        FieldType::ObjectReference(o) => {
            lemma_hash16_len(o.obj);
            lemma_align_up_is_least(heap as nat, 0);
            assert(pow2(0) == 1);
            assert(spec_align_up(heap as nat, 0) == heap);
            let grown = BState { data: t1 + zeros(16), current: heap, next: heap + 16 };
            let o1 = splice(grown.data, heap, o.obj@);
            assert(o.spec_serialize(grown) matches Ok(c) && c.data == o1 && c.next == heap
                + 16);
            let relptr = spec_u32_to_le_bytes((heap - 44) as u32);
            fin = splice(o1, 44, relptr);
            assert(v.field_type.spec_payload(mid, 44) matches Ok(f) && f.data == fin
                && f.next == heap + 16);
            assert(fin.len() == heap + 16);
            // Everything the union writes lands at 44..48 or past the
            // heap frontier.
            lemma_splice_disjoint(o1, 44, relptr, 0, 44);
            lemma_splice_disjoint(grown.data, heap, o.obj@, 0, 44);
            lemma_append_preserves(t1, zeros(16), 0, 44);
            assert(fin.subrange(0, 44) == t1.subrange(0, 44));
            lemma_splice_disjoint(o1, 44, relptr, 48, heap);
            lemma_splice_disjoint(grown.data, heap, o.obj@, 48, heap);
            lemma_append_preserves(t1, zeros(16), 48, heap);
            assert(fin.subrange(48, heap) == t1.subrange(48, heap));
            // The union decodes back: tag, pointer, payload.
            assert(fin.subrange(40, 44) =~= fin.subrange(0, 44).subrange(40, 44));
            assert(t1.subrange(40, 44) =~= fin.subrange(40, 44));
            lemma_splice_subrange(d_owner, 40, tagle);
            assert(sr_u32(fin, 40, 0) == Ok::<u32, ReaderError>(v.field_type.spec_tag()));
            lemma_splice_subrange(o1, 44, relptr);
            assert(sr_u32(fin, 40, 4) == Ok::<u32, ReaderError>((heap - 44) as u32));
            assert(40 + 4 + (heap - 44) == heap);
            lemma_splice_disjoint(o1, 44, relptr, heap, heap + 16);
            lemma_splice_subrange(grown.data, heap, o.obj@);
            assert(sr_bytes(fin, heap, 0, 16) == Ok::<Seq<u8>, ReaderError>(o.obj@));
            assert(FieldType::spec_from(fin, 40) == Ok::<FieldTypeV, ReaderError>(
                v.field_type@,
            ));
        },
        FieldType::Primitive(p) => {
            let ptext = p.provider@;
            let punits = utf16_encode(ptext);
            lemma_utf16_encode_len(ptext);
            lemma_utf16_le_bytes_len(punits);
            let psize = 2 * punits.len() as int;
            lemma_align_up_is_least(heap as nat, 2);
            assert(pow2(2) == 4);
            let so = spec_align_up(heap as nat, 2) as int;
            assert(heap <= so < heap + 4);
            let grown = BState {
                data: t1 + zeros((so + 8 - heap) as nat),
                current: so,
                next: so + 8,
            };
            let relptr = spec_u32_to_le_bytes((so - 44) as u32);
            let pad = zeros((so + 8 - heap) as nat);
            if ptext.len() == 0 {
                let le0 = spec_u32_to_le_bytes(0);
                let pa = splice(grown.data, so, le0);
                let pb = splice(pa, so + 4, le0);
                assert(p.spec_serialize(grown) matches Ok(c) && c.data == pb && c.next == so
                    + 8);
                fin = splice(pb, 44, relptr);
                assert(v.field_type.spec_payload(mid, 44) matches Ok(f) && f.data == fin
                    && f.next == so + 8);
                assert(fin.len() == so + 8);
                lemma_splice_disjoint(pb, 44, relptr, 0, 44);
                lemma_splice_disjoint(pa, so + 4, le0, 0, 44);
                lemma_splice_disjoint(grown.data, so, le0, 0, 44);
                lemma_append_preserves(t1, pad, 0, 44);
                assert(fin.subrange(0, 44) == t1.subrange(0, 44));
                lemma_splice_disjoint(pb, 44, relptr, 48, heap);
                lemma_splice_disjoint(pa, so + 4, le0, 48, heap);
                lemma_splice_disjoint(grown.data, so, le0, 48, heap);
                lemma_append_preserves(t1, pad, 48, heap);
                assert(fin.subrange(48, heap) == t1.subrange(48, heap));
                // The union decodes back: tag, pointer, then the empty
                // provider at the aligned target.
                assert(fin.subrange(40, 44) =~= fin.subrange(0, 44).subrange(40, 44));
                assert(t1.subrange(40, 44) =~= fin.subrange(40, 44));
                lemma_splice_subrange(d_owner, 40, tagle);
                assert(sr_u32(fin, 40, 0) == Ok::<u32, ReaderError>(
                    v.field_type.spec_tag(),
                ));
                lemma_splice_subrange(pb, 44, relptr);
                assert(sr_u32(fin, 40, 4) == Ok::<u32, ReaderError>((so - 44) as u32));
                assert(40 + 4 + (so - 44) == so);
                lemma_splice_disjoint(pb, 44, relptr, so, so + 4);
                lemma_splice_disjoint(pa, so + 4, le0, so, so + 4);
                lemma_splice_subrange(grown.data, so, le0);
                assert(sr_u32(fin, so, 0) == Ok::<u32, ReaderError>(0u32));
                lemma_splice_disjoint(pb, 44, relptr, so + 4, so + 8);
                lemma_splice_subrange(pa, so + 4, le0);
                assert(sr_u32(fin, so, 4) == Ok::<u32, ReaderError>(0u32));
                assert(ptext =~= Seq::<char>::empty());
                assert(sr_str(fin, so, 0) == Ok::<Seq<char>, ReaderError>(ptext));
                assert(FieldType::spec_from(fin, 40) == Ok::<FieldTypeV, ReaderError>(
                    v.field_type@,
                ));
            } else {
                let wp2 = grown.data + utf16_le_bytes(punits);
                let szle = spec_u32_to_le_bytes(psize as u32);
                let rstr = spec_u32_to_le_bytes(8);
                let pa = splice(wp2, so, szle);
                let pb = splice(pa, so + 4, rstr);
                assert(p.spec_serialize(grown) matches Ok(c) && c.data == pb && c.next == so
                    + 8 + psize);
                fin = splice(pb, 44, relptr);
                assert(v.field_type.spec_payload(mid, 44) matches Ok(f) && f.data == fin
                    && f.next == so + 8 + psize);
                assert(fin.len() == so + 8 + psize);
                lemma_splice_disjoint(pb, 44, relptr, 0, 44);
                lemma_splice_disjoint(pa, so + 4, rstr, 0, 44);
                lemma_splice_disjoint(wp2, so, szle, 0, 44);
                lemma_append_preserves(grown.data, utf16_le_bytes(punits), 0, 44);
                lemma_append_preserves(t1, pad, 0, 44);
                assert(fin.subrange(0, 44) == t1.subrange(0, 44));
                lemma_splice_disjoint(pb, 44, relptr, 48, heap);
                lemma_splice_disjoint(pa, so + 4, rstr, 48, heap);
                lemma_splice_disjoint(wp2, so, szle, 48, heap);
                lemma_append_preserves(grown.data, utf16_le_bytes(punits), 48, heap);
                lemma_append_preserves(t1, pad, 48, heap);
                assert(fin.subrange(48, heap) == t1.subrange(48, heap));
                // The union decodes back: tag, pointer, then the
                // provider string at the aligned target.
                assert(fin.subrange(40, 44) =~= fin.subrange(0, 44).subrange(40, 44));
                assert(t1.subrange(40, 44) =~= fin.subrange(40, 44));
                lemma_splice_subrange(d_owner, 40, tagle);
                assert(sr_u32(fin, 40, 0) == Ok::<u32, ReaderError>(
                    v.field_type.spec_tag(),
                ));
                lemma_splice_subrange(pb, 44, relptr);
                assert(sr_u32(fin, 40, 4) == Ok::<u32, ReaderError>((so - 44) as u32));
                assert(40 + 4 + (so - 44) == so);
                lemma_splice_disjoint(pb, 44, relptr, so, so + 4);
                lemma_splice_disjoint(pa, so + 4, rstr, so, so + 4);
                lemma_splice_subrange(wp2, so, szle);
                assert(sr_u32(fin, so, 0) == Ok::<u32, ReaderError>(psize as u32));
                lemma_splice_disjoint(pb, 44, relptr, so + 4, so + 8);
                lemma_splice_subrange(pa, so + 4, rstr);
                assert(sr_u32(fin, so, 4) == Ok::<u32, ReaderError>(8u32));
                assert(psize as u32 as int == psize);
                // the provider payload at so+8..so+8+psize.
                lemma_splice_disjoint(pb, 44, relptr, so + 8, so + 8 + psize);
                lemma_splice_disjoint(pa, so + 4, rstr, so + 8, so + 8 + psize);
                lemma_splice_disjoint(wp2, so, szle, so + 8, so + 8 + psize);
                assert(wp2.subrange(so + 8, so + 8 + psize) =~= utf16_le_bytes(punits));
                assert(fin.subrange(so + 8, so + 8 + psize) == utf16_le_bytes(punits));
                lemma_units_from_bytes(fin, so + 8, punits);
                lemma_utf16_encode_decode(ptext);
                assert(sr_str(fin, so, 0) == Ok::<Seq<char>, ReaderError>(ptext));
                assert(FieldType::spec_from(fin, 40) == Ok::<FieldTypeV, ReaderError>(
                    v.field_type@,
                ));
            }
        },
    }
    assert(spec_serialize_struct(&v) == Ok::<Seq<u8>, BuilderError>(fin));
    assert(heap <= fin.len());
    // The shared inline fields sit below offset 44 and come back unchanged.
    assert(fin.subrange(0, 16) =~= fin.subrange(0, 44).subrange(0, 16));
    assert(fin.subrange(0, 16) =~= t1.subrange(0, 16));
    lemma_splice_disjoint(d_owner, 40, tagle, 0, 16);
    lemma_splice_disjoint(s2data, 24, v.owner@, 0, 16);
    if text.len() == 0 {
        let le0 = spec_u32_to_le_bytes(0);
        let e1 = splice(d_uuid, 16, le0);
        lemma_splice_disjoint(e1, 20, le0, 0, 16);
        lemma_splice_disjoint(d_uuid, 16, le0, 0, 16);
    } else {
        let wp = d_uuid + utf16_le_bytes(units);
        let f1 = splice(wp, 16, spec_u32_to_le_bytes(tsize as u32));
        lemma_splice_disjoint(f1, 20, spec_u32_to_le_bytes(32), 0, 16);
        lemma_splice_disjoint(wp, 16, spec_u32_to_le_bytes(tsize as u32), 0, 16);
        lemma_append_preserves(d_uuid, utf16_le_bytes(units), 0, 16);
    }
    lemma_splice_subrange(init.data, 0, v.uuid@);
    assert(sr_bytes(fin, 0, 0, 16) == Ok::<Seq<u8>, ReaderError>(v.uuid@));
    // The title's {size, rel} pair at 16..24 and its payload at 48 onwards.
    assert(fin.subrange(16, 20) =~= fin.subrange(0, 44).subrange(16, 20));
    assert(fin.subrange(16, 20) =~= t1.subrange(16, 20));
    assert(fin.subrange(20, 24) =~= fin.subrange(0, 44).subrange(20, 24));
    assert(fin.subrange(20, 24) =~= t1.subrange(20, 24));
    lemma_splice_disjoint(d_owner, 40, tagle, 16, 20);
    lemma_splice_disjoint(s2data, 24, v.owner@, 16, 20);
    lemma_splice_disjoint(d_owner, 40, tagle, 20, 24);
    lemma_splice_disjoint(s2data, 24, v.owner@, 20, 24);
    if text.len() == 0 {
        let le0 = spec_u32_to_le_bytes(0);
        let e1 = splice(d_uuid, 16, le0);
        lemma_splice_disjoint(e1, 20, le0, 16, 20);
        lemma_splice_subrange(e1, 20, le0);
        lemma_splice_subrange(d_uuid, 16, le0);
        assert(sr_u32(fin, 0, 16) == Ok::<u32, ReaderError>(0u32));
        assert(sr_u32(fin, 0, 20) == Ok::<u32, ReaderError>(0u32));
        assert(text =~= Seq::<char>::empty());
        assert(sr_str(fin, 0, 16) == Ok::<Seq<char>, ReaderError>(text));
    } else {
        let wp = d_uuid + utf16_le_bytes(units);
        let szle = spec_u32_to_le_bytes(tsize as u32);
        let relle = spec_u32_to_le_bytes(32);
        let f1 = splice(wp, 16, szle);
        lemma_splice_disjoint(f1, 20, relle, 16, 20);
        lemma_splice_subrange(wp, 16, szle);
        assert(sr_u32(fin, 0, 16) == Ok::<u32, ReaderError>(tsize as u32));
        lemma_splice_subrange(f1, 20, relle);
        assert(sr_u32(fin, 0, 20) == Ok::<u32, ReaderError>(32u32));
        assert(tsize as u32 as int == tsize);
        // the title payload at 48..heap is below every union write.
        assert(fin.subrange(48, heap) == t1.subrange(48, heap));
        lemma_splice_disjoint(d_owner, 40, tagle, 48, heap);
        lemma_splice_disjoint(s2data, 24, v.owner@, 48, heap);
        lemma_splice_disjoint(f1, 20, relle, 48, heap);
        lemma_splice_disjoint(wp, 16, szle, 48, heap);
        assert(wp.subrange(48, heap) =~= utf16_le_bytes(units));
        assert(fin.subrange(48, 48 + tsize) == utf16_le_bytes(units));
        lemma_units_from_bytes(fin, 48, units);
        lemma_utf16_encode_decode(text);
        assert(sr_str(fin, 0, 16) == Ok::<Seq<char>, ReaderError>(text));
    }
    // The owner at 24..40.
    assert(fin.subrange(24, 40) =~= fin.subrange(0, 44).subrange(24, 40));
    assert(fin.subrange(24, 40) =~= t1.subrange(24, 40));
    lemma_splice_disjoint(d_owner, 40, tagle, 24, 40);
    lemma_splice_subrange(s2data, 24, v.owner@);
    assert(sr_bytes(fin, 0, 24, 16) == Ok::<Seq<u8>, ReaderError>(v.owner@));
    assert(sr_oneof::<FieldType>(fin, 0, 40) == Ok::<FieldTypeV, ReaderError>(v.field_type@));
    assert(TypespaceObjectField::spec_from(fin, 0) == Ok::<TypespaceObjectFieldV, ReaderError>(
        v@,
    ));
}

/// Law: a serialized field type deserializes to the same value, for either
/// variant of the union, and for every provider text whose payload the
/// buffer can hold.
pub proof fn lemma_field_type_round_trip(u: FieldType)
    requires
        (u matches FieldType::Primitive(p) ==> 16 + 2 * utf16_encode(p.provider@).len()
            <= MAX_BUFFER_LEN),
    ensures
        (spec_serialize_enum(&u) matches Ok(bytes) && FieldType::spec_from(bytes, 0) == Ok::<
            FieldTypeV,
            ReaderError,
        >(u@)),
{
    vstd::bytes::lemma_auto_spec_u32_to_from_le_bytes();
    vstd::arithmetic::power2::lemma2_to64();
    let init = spec_init_state(8);
    let tagle = spec_u32_to_le_bytes(u.spec_tag());
    assert(sb_write(init, 0, tagle) is Ok);
    let s1 = sb_write(init, 0, tagle).unwrap();
    assert(s1.data == splice(init.data, 0, tagle) && s1.current == 0 && s1.next == 8);
    let relle = spec_u32_to_le_bytes(4);
    match u {
        FieldType::Primitive(p) => {
            lemma_align_up_is_least(8, 2);
            assert(pow2(2) == 4);
            assert(spec_align_up(8, 2) == 8);
            let grown = BState { data: s1.data + zeros(8), current: 8, next: 16 };
            let text = p.provider@;
            if text.len() == 0 {
                let le0 = spec_u32_to_le_bytes(0);
                let da = splice(grown.data, 8, le0);
                let db = splice(da, 12, le0);
                assert(p.spec_serialize(grown) matches Ok(c) && c.data == db && c.next == 16);
                let fin_data = splice(db, 4, relle);
                assert(u.spec_payload(s1, 4) matches Ok(fin) && fin.data == fin_data && fin.next
                    == 16);
                // the tag at 0..4.
                lemma_splice_disjoint(db, 4, relle, 0, 4);
                lemma_splice_disjoint(da, 12, le0, 0, 4);
                lemma_splice_disjoint(grown.data, 8, le0, 0, 4);
                lemma_append_preserves(s1.data, zeros(8), 0, 4);
                lemma_splice_subrange(init.data, 0, tagle);
                assert(sr_u32(fin_data, 0, 0) == Ok::<u32, ReaderError>(u.spec_tag()));
                // the pointer at 4..8.
                lemma_splice_subrange(db, 4, relle);
                assert(sr_u32(fin_data, 0, 4) == Ok::<u32, ReaderError>(4u32));
                // the empty string's {size, rel} pair at 8..16.
                lemma_splice_disjoint(db, 4, relle, 8, 12);
                lemma_splice_disjoint(da, 12, le0, 8, 12);
                lemma_splice_subrange(grown.data, 8, le0);
                assert(sr_u32(fin_data, 8, 0) == Ok::<u32, ReaderError>(0u32));
                lemma_splice_disjoint(db, 4, relle, 12, 16);
                lemma_splice_subrange(da, 12, le0);
                assert(sr_u32(fin_data, 8, 4) == Ok::<u32, ReaderError>(0u32));
                assert(text =~= Seq::<char>::empty());
                assert(sr_str(fin_data, 8, 0) == Ok::<Seq<char>, ReaderError>(text));
            } else {
                let units = utf16_encode(text);
                lemma_utf16_encode_len(text);
                lemma_utf16_le_bytes_len(units);
                let size = 2 * units.len() as int;
                let wp = grown.data + utf16_le_bytes(units);
                let szle = spec_u32_to_le_bytes(size as u32);
                let rstr = spec_u32_to_le_bytes(8);
                let da = splice(wp, 8, szle);
                let db = splice(da, 12, rstr);
                assert(p.spec_serialize(grown) matches Ok(c) && c.data == db && c.next == 16
                    + size);
                let fin_data = splice(db, 4, relle);
                assert(u.spec_payload(s1, 4) matches Ok(fin) && fin.data == fin_data && fin.next
                    == 16 + size);
                // the tag at 0..4.
                lemma_splice_disjoint(db, 4, relle, 0, 4);
                lemma_splice_disjoint(da, 12, rstr, 0, 4);
                lemma_splice_disjoint(wp, 8, szle, 0, 4);
                lemma_append_preserves(grown.data, utf16_le_bytes(units), 0, 4);
                lemma_append_preserves(s1.data, zeros(8), 0, 4);
                lemma_splice_subrange(init.data, 0, tagle);
                assert(sr_u32(fin_data, 0, 0) == Ok::<u32, ReaderError>(u.spec_tag()));
                // the pointer at 4..8.
                lemma_splice_subrange(db, 4, relle);
                assert(sr_u32(fin_data, 0, 4) == Ok::<u32, ReaderError>(4u32));
                // the string's {size, rel} pair at 8..16.
                lemma_splice_disjoint(db, 4, relle, 8, 12);
                lemma_splice_disjoint(da, 12, rstr, 8, 12);
                lemma_splice_subrange(wp, 8, szle);
                assert(sr_u32(fin_data, 8, 0) == Ok::<u32, ReaderError>(size as u32));
                lemma_splice_disjoint(db, 4, relle, 12, 16);
                lemma_splice_subrange(da, 12, rstr);
                assert(sr_u32(fin_data, 8, 4) == Ok::<u32, ReaderError>(8u32));
                assert(size as u32 as int == size);
                // the payload at 16..16+size is never overwritten.
                lemma_splice_disjoint(db, 4, relle, 16, 16 + size);
                lemma_splice_disjoint(da, 12, rstr, 16, 16 + size);
                lemma_splice_disjoint(wp, 8, szle, 16, 16 + size);
                assert(wp.subrange(16, 16 + size) =~= utf16_le_bytes(units));
                assert(fin_data.subrange(16, 16 + size) == utf16_le_bytes(units));
                lemma_units_from_bytes(fin_data, 16, units);
                lemma_utf16_encode_decode(text);
                assert(sr_str(fin_data, 8, 0) == Ok::<Seq<char>, ReaderError>(text));
            }
        },
        FieldType::ObjectReference(o) => {
            lemma_hash16_len(o.obj);
            lemma_align_up_is_least(8, 0);
            assert(pow2(0) == 1);
            assert(spec_align_up(8, 0) == 8);
            let grown = BState { data: s1.data + zeros(16), current: 8, next: 24 };
            let da = splice(grown.data, 8, o.obj@);
            assert(o.spec_serialize(grown) matches Ok(c) && c.data == da && c.next == 24);
            let fin_data = splice(da, 4, relle);
            assert(u.spec_payload(s1, 4) matches Ok(fin) && fin.data == fin_data && fin.next
                == 24);
            lemma_splice_disjoint(da, 4, relle, 0, 4);
            lemma_splice_disjoint(grown.data, 8, o.obj@, 0, 4);
            lemma_append_preserves(s1.data, zeros(16), 0, 4);
            lemma_splice_subrange(init.data, 0, tagle);
            assert(sr_u32(fin_data, 0, 0) == Ok::<u32, ReaderError>(u.spec_tag()));
            lemma_splice_subrange(da, 4, relle);
            assert(sr_u32(fin_data, 0, 4) == Ok::<u32, ReaderError>(4u32));
            lemma_splice_disjoint(da, 4, relle, 8, 24);
            lemma_splice_subrange(grown.data, 8, o.obj@);
            assert(sr_bytes(fin_data, 8, 0, 16) == Ok::<Seq<u8>, ReaderError>(o.obj@));
        },
    }
}

/// Law: a serialized session message deserializes to the same value, for
/// either variant of the union.
pub proof fn lemma_rpc_message_round_trip(m: RPCMessage)
    ensures
        (spec_serialize_enum(&m) matches Ok(bytes) && RPCMessage::spec_from(bytes, 0) == Ok::<
            RPCMessageV,
            ReaderError,
        >(m@)),
{
    vstd::bytes::lemma_auto_spec_u32_to_from_le_bytes();
    vstd::bytes::lemma_auto_spec_u64_to_from_le_bytes();
    vstd::arithmetic::power2::lemma2_to64();
    let init = spec_init_state(8);
    let tagle = spec_u32_to_le_bytes(m.spec_tag());
    assert(sb_write(init, 0, tagle) is Ok);
    let s1 = sb_write(init, 0, tagle).unwrap();
    assert(s1.data == splice(init.data, 0, tagle) && s1.current == 0 && s1.next == 8);
    match m {
        RPCMessage::Clock(cm) => {
            lemma_align_up_is_least(8, 3);
            assert(pow2(3) == 8);
            assert(spec_align_up(8, 3) == 8);
            let grown = BState { data: s1.data + zeros(8), current: 8, next: 16 };
            let tsle = spec_u64_to_le_bytes(cm.timestamp);
            assert(cm.spec_serialize(grown) is Ok);
            let cdata = splice(grown.data, 8, tsle);
            let relle = spec_u32_to_le_bytes(4);
            let fin_data = splice(cdata, 4, relle);
            assert(m.spec_payload(s1, 4) matches Ok(fin) && fin.data == fin_data && fin.next
                == 16);
            // Reading the tag back: every later write lands past offset 4.
            lemma_splice_disjoint(cdata, 4, relle, 0, 4);
            lemma_splice_disjoint(grown.data, 8, tsle, 0, 4);
            lemma_append_preserves(s1.data, zeros(8), 0, 4);
            lemma_splice_subrange(init.data, 0, tagle);
            assert(sr_u32(fin_data, 0, 0) == Ok::<u32, ReaderError>(m.spec_tag()));
            // Reading the pointer back: it was stamped last.
            lemma_splice_subrange(cdata, 4, relle);
            assert(sr_u32(fin_data, 0, 4) == Ok::<u32, ReaderError>(4u32));
            // The payload at offset 8 is the timestamp's bytes.
            lemma_splice_disjoint(cdata, 4, relle, 8, 16);
            lemma_splice_subrange(grown.data, 8, tsle);
            assert(sr_u64(fin_data, 8, 0) == Ok::<u64, ReaderError>(cm.timestamp));
            assert(ClockMessage::spec_from(fin_data, 8) == Ok::<u64, ReaderError>(cm@));
        },
        RPCMessage::HostID(hm) => {
            lemma_align_up_is_least(8, 2);
            assert(pow2(2) == 4);
            assert(spec_align_up(8, 2) == 8);
            let grown = BState { data: s1.data + zeros(4), current: 8, next: 12 };
            let vle = spec_u32_to_le_bytes(hm.value);
            assert(hm.spec_serialize(grown) is Ok);
            let cdata = splice(grown.data, 8, vle);
            let relle = spec_u32_to_le_bytes(4);
            let fin_data = splice(cdata, 4, relle);
            assert(m.spec_payload(s1, 4) matches Ok(fin) && fin.data == fin_data && fin.next
                == 12);
            lemma_splice_disjoint(cdata, 4, relle, 0, 4);
            lemma_splice_disjoint(grown.data, 8, vle, 0, 4);
            lemma_append_preserves(s1.data, zeros(4), 0, 4);
            lemma_splice_subrange(init.data, 0, tagle);
            assert(sr_u32(fin_data, 0, 0) == Ok::<u32, ReaderError>(m.spec_tag()));
            lemma_splice_subrange(cdata, 4, relle);
            assert(sr_u32(fin_data, 0, 4) == Ok::<u32, ReaderError>(4u32));
            lemma_splice_disjoint(cdata, 4, relle, 8, 12);
            lemma_splice_subrange(grown.data, 8, vle);
            assert(sr_u32(fin_data, 8, 0) == Ok::<u32, ReaderError>(hm.value));
            assert(HostIDMessage::spec_from(fin_data, 8) == Ok::<u32, ReaderError>(hm@));
        },
        RPCMessage::Ping(_) => {
            let le0 = spec_u32_to_le_bytes(0);
            let fin_data = splice(s1.data, 4, le0);
            assert(m.spec_payload(s1, 4) matches Ok(fin) && fin.data == fin_data && fin.next
                == 8);
            lemma_splice_disjoint(s1.data, 4, le0, 0, 4);
            lemma_splice_subrange(init.data, 0, tagle);
            assert(sr_u32(fin_data, 0, 0) == Ok::<u32, ReaderError>(m.spec_tag()));
            lemma_splice_subrange(s1.data, 4, le0);
            assert(sr_u32(fin_data, 0, 4) == Ok::<u32, ReaderError>(0u32));
        },
    }
}

} // verus!
