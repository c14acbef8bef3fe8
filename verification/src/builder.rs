//! The builder: lays structured values out into one contiguous byte buffer.
//!
//! A builder owns a growable buffer and two cursors: `current_offset`, the
//! base of the record being written, and `next_offset`, the frontier where
//! appended heap data (strings, nested records) begins. Nested writes save
//! the base on a stack, rebase to the nested record's start, and restore the
//! base afterwards, on success and on failure alike.
//!
//! Every write is specified exactly: the spec functions `sb_write`, `sb_str`,
//! `sb_object_effect` and `sb_oneof` map an abstract builder state to the
//! state after the operation, or to the error the operation must return.

use crate::align::{lemma_align_up_is_least, next_number_divisible_by_pow2, spec_align_up};
use crate::error::BuilderError;
use crate::hash::{HASH16, HASH20};
use crate::utf16::{encode_utf16_units, lemma_utf16_le_bytes_len, lemma_utf16_le_bytes_push,
    utf16_encode, utf16_le_bytes};
use crate::wire::{lemma_splice_subrange, splice, zeros};
use vstd::arithmetic::power2::pow2;
use vstd::bytes::{spec_u16_to_le_bytes, spec_u32_from_le_bytes, spec_u32_to_le_bytes,
    spec_u64_to_le_bytes};
use vstd::prelude::*;

verus! {

/// No buffer grows past this length: every relative pointer and every string
/// size must fit in an unsigned 32-bit field.
pub const MAX_BUFFER_LEN: u64 = 0xFFFF_FFFF;

/// The abstract state of a builder: its bytes and its two cursors.
pub struct BState {
    pub data: Seq<u8>,
    pub current: int,
    pub next: int,
}

/// A well-formed builder state: the buffer holds exactly the bytes up to the
/// heap frontier, the base lies inside it, and it is addressable by 32 bits.
pub open spec fn wf_state(s: BState) -> bool {
    &&& s.data.len() == s.next
    &&& 0 <= s.current <= s.data.len()
    &&& s.data.len() <= MAX_BUFFER_LEN
}

/// The state a fresh builder starts from: `size` zero bytes, base 0, and the
/// heap frontier right after the root record.
pub open spec fn spec_init_state(size: int) -> BState {
    BState { data: zeros(size as nat), current: 0, next: size }
}

/// Pairs an operation's result with the builder state after it, so that a
/// contract can equate both at once with the specified effect.
pub open spec fn step_result(r: Result<(), BuilderError>, s: BState) -> Result<
    BState,
    BuilderError,
> {
    match r {
        Ok(_) => Ok(s),
        Err(e) => Err(e),
    }
}

/// A primitive write of `bytes` at `off` from the current base: it fails with
/// `OutOfBound` unless the bytes fit inside the current logical length.
pub open spec fn sb_write(s: BState, off: int, bytes: Seq<u8>) -> Result<BState, BuilderError> {
    if 0 <= off && s.current + off + bytes.len() <= s.data.len() {
        Ok(BState { data: splice(s.data, s.current + off, bytes), ..s })
    } else {
        Err(BuilderError::OutOfBound)
    }
}

/// A string write at `off`: empty text stamps `{0, 0}`; otherwise the UTF-16
/// payload is appended at the heap frontier and `{size, relative}` is stamped
/// over the 8-byte pointer region, where `relative` is the distance from the
/// size field's own address to the payload.
pub open spec fn sb_str(s: BState, off: int, text: Seq<char>) -> Result<BState, BuilderError> {
    if text.len() == 0 {
        match sb_write(s, off, spec_u32_to_le_bytes(0)) {
            Ok(s1) => sb_write(s1, off + 4, spec_u32_to_le_bytes(0)),
            Err(e) => Err(e),
        }
    } else if s.current + off + 8 <= s.data.len() {
        let units = utf16_encode(text);
        let size = 2 * units.len();
        let heap = s.next;
        if heap + size > MAX_BUFFER_LEN {
            Err(BuilderError::Overflow)
        } else {
            let with_payload = BState {
                data: s.data + utf16_le_bytes(units),
                current: s.current,
                next: heap + size,
            };
            match sb_write(with_payload, off, spec_u32_to_le_bytes(size as u32)) {
                Ok(s1) => sb_write(
                    s1,
                    off + 4,
                    spec_u32_to_le_bytes((heap - (s.current + off)) as u32),
                ),
                Err(e) => Err(e),
            }
        }
    } else {
        Err(BuilderError::OutOfBound)
    }
}

/// A nested-object write at `off`, for a record of the given size and
/// alignment whose own writes are `child`. A zero-sized record stamps
/// pointer 0. Otherwise the record is placed at the aligned heap frontier,
/// `child` runs rebased there, and on success the parent's pointer field is
/// stamped with the distance from the pointer's own address to the record.
pub open spec fn sb_object_effect(
    pre: BState,
    off: int,
    size: int,
    align: nat,
    child: spec_fn(BState) -> Result<BState, BuilderError>,
) -> Result<BState, BuilderError> {
    if size == 0 {
        sb_write(pre, off, spec_u32_to_le_bytes(0))
    } else if 0 <= off && pre.current + off + 4 <= pre.data.len() {
        let so = spec_align_up(pre.next as nat, align) as int;
        if so + size > MAX_BUFFER_LEN {
            Err(BuilderError::Overflow)
        } else {
            let grown = BState {
                data: pre.data + zeros((so + size - pre.data.len()) as nat),
                current: so,
                next: so + size,
            };
            match child(grown) {
                Ok(c) => Ok(
                    BState {
                        data: splice(
                            c.data,
                            pre.current + off,
                            spec_u32_to_le_bytes((so - (pre.current + off)) as u32),
                        ),
                        current: pre.current,
                        next: c.next,
                    },
                ),
                Err(e) => Err(e),
            }
        }
    } else {
        Err(BuilderError::OutOfBound)
    }
}

/// A record that the schema compiler has taught the codec to lay out:
/// it declares its inline size, its alignment as a power-of-two exponent,
/// and a serialization procedure, and `spec_serialize` states exactly what
/// that procedure does to a builder state.
pub trait VossStruct {
    /// Byte size of the record's inline payload.
    spec fn spec_size(&self) -> usize;

    /// Power-of-two exponent of the record's alignment.
    spec fn spec_align(&self) -> usize;

    /// The exact effect of `serialize` on an abstract builder state.
    spec fn spec_serialize(&self, pre: BState) -> Result<BState, BuilderError>;

    fn size(&self) -> (r: usize)
        ensures
            r == self.spec_size(),
            r <= MAX_BUFFER_LEN,
    ;

    fn alignment_pow2(&self) -> (r: usize)
        ensures
            r == self.spec_align(),
            r < 32,
    ;

    fn serialize(&self, builder: &mut VossBuilder) -> (r: Result<(), BuilderError>)
        requires
            old(builder).wf(),
        ensures
            final(builder).current_offset() == old(builder).current_offset(),
            final(builder).stack() == old(builder).stack(),
            final(builder).model().data.len() >= old(builder).model().data.len(),
            r is Ok ==> final(builder).wf(),
            step_result(r, final(builder).model()) == self.spec_serialize(old(builder).model()),
    ;
}

/// A tagged union: a numeric tag and an active payload record.
/// `serialize_value` writes the payload as a nested object at the given
/// pointer offset; `spec_payload` states that write's exact effect.
pub trait VossEnum {
    /// The active variant's numeric tag.
    spec fn spec_tag(&self) -> u32;

    /// The exact effect of `serialize_value` on an abstract builder state.
    spec fn spec_payload(&self, pre: BState, off: int) -> Result<BState, BuilderError>;

    fn get_type(&self) -> (r: u32)
        ensures
            r == self.spec_tag(),
    ;

    fn serialize_value(&self, builder: &mut VossBuilder, offset: usize) -> (r: Result<
        (),
        BuilderError,
    >)
        requires
            old(builder).wf(),
        ensures
            final(builder).current_offset() == old(builder).current_offset(),
            final(builder).stack() == old(builder).stack(),
            final(builder).model().data.len() >= old(builder).model().data.len(),
            r is Ok ==> final(builder).wf(),
            step_result(r, final(builder).model()) == self.spec_payload(
                old(builder).model(),
                offset as int,
            ),
    ;
}

/// The nested-object write of one record: `sb_object_effect` applied to the
/// record's declared size, alignment and serialization procedure.
pub open spec fn sb_object<T: VossStruct>(pre: BState, off: int, value: &T) -> Result<
    BState,
    BuilderError,
> {
    sb_object_effect(
        pre,
        off,
        value.spec_size() as int,
        value.spec_align() as nat,
        |s: BState| value.spec_serialize(s),
    )
}

/// A tagged-union write: the tag at `off`, then the payload as a nested
/// object behind the pointer at `off + 4`.
pub open spec fn sb_oneof<E: VossEnum>(pre: BState, off: int, value: &E) -> Result<
    BState,
    BuilderError,
> {
    match sb_write(pre, off, spec_u32_to_le_bytes(value.spec_tag())) {
        Ok(s1) => value.spec_payload(s1, off + 4),
        Err(e) => Err(e),
    }
}

/// The bytes `serialize_struct` must produce for `value`, or the error it
/// must return.
pub open spec fn spec_serialize_struct<T: VossStruct>(value: &T) -> Result<Seq<u8>, BuilderError> {
    match value.spec_serialize(spec_init_state(value.spec_size() as int)) {
        Ok(fin) => Ok(fin.data),
        Err(e) => Err(e),
    }
}

/// The bytes `serialize_enum` must produce for `value`: an 8-byte root of
/// `{tag, pointer}` followed by the payload record.
pub open spec fn spec_serialize_enum<E: VossEnum>(value: &E) -> Result<Seq<u8>, BuilderError> {
    match sb_write(spec_init_state(8), 0, spec_u32_to_le_bytes(value.spec_tag())) {
        Ok(s1) => match value.spec_payload(s1, 4) {
            Ok(fin) => Ok(fin.data),
            Err(e) => Err(e),
        },
        Err(e) => Err(e),
    }
}

/// The builder. See the module documentation.
pub struct VossBuilder {
    offset_stack: Vec<usize>,
    next_offset: usize,
    current_offset: usize,
    data: Vec<u8>,
}

impl VossBuilder {
    /// The abstract state: buffer bytes and the two cursors.
    pub closed spec fn model(&self) -> BState {
        BState {
            data: self.data@,
            current: self.current_offset as int,
            next: self.next_offset as int,
        }
    }

    /// The current base cursor.
    pub closed spec fn current_offset(&self) -> int {
        self.current_offset as int
    }

    /// The saved bases of the records this builder is nested inside.
    pub closed spec fn stack(&self) -> Seq<usize> {
        self.offset_stack@
    }

    pub open spec fn wf(&self) -> bool {
        wf_state(self.model())
    }

    /// A fresh builder for a root record of `root_size` bytes: the buffer
    /// holds `root_size` zeros, the base is 0, and the heap frontier sits
    /// right after the root record.
    pub fn new(root_size: usize) -> (r: VossBuilder)
        requires
            root_size <= MAX_BUFFER_LEN,
        ensures
            r.wf(),
            r.model() == spec_init_state(root_size as int),
            r.stack() == Seq::<usize>::empty(),
    {
        let mut data: Vec<u8> = Vec::with_capacity(256);
        let mut i: usize = 0;
        while i < root_size
            invariant
                i <= root_size,
                data@ == zeros(i as nat),
            decreases root_size - i,
        {
            data.push(0);
            proof {
                assert(data@ =~= zeros((i + 1) as nat));
            }
            i += 1;
        }
        VossBuilder { offset_stack: Vec::new(), next_offset: root_size, current_offset: 0, data }
    }

    /// Serializes one record into an owned byte buffer: the record's inline
    /// payload at offset 0, followed by its heap data. On success the
    /// returned bytes are exactly the specified serialization, and their
    /// length equals the builder's final heap frontier.
    pub fn serialize_struct<T: VossStruct>(object: &T) -> (r: Result<Vec<u8>, BuilderError>)
        ensures
            match r {
                Ok(bytes) => {
                    &&& spec_serialize_struct(object) == Ok::<Seq<u8>, BuilderError>(bytes@)
                    &&& (object.spec_serialize(spec_init_state(object.spec_size() as int))
                        matches Ok(fin) && fin.data == bytes@ && fin.next == bytes@.len())
                },
                Err(e) => spec_serialize_struct(object) == Err::<Seq<u8>, BuilderError>(e),
            },
    {
        let size = object.size();
        let mut builder = VossBuilder::new(size);
        match object.serialize(&mut builder) {
            Ok(()) => Ok(builder.data),
            Err(e) => Err(e),
        }
    }

    /// Serializes one tagged-union value: an 8-byte `{tag, pointer}` root,
    /// then the payload record. On success the returned bytes are exactly
    /// the specified serialization, and their length equals the builder's
    /// final heap frontier.
    pub fn serialize_enum<E: VossEnum>(value: &E) -> (r: Result<Vec<u8>, BuilderError>)
        ensures
            match r {
                Ok(bytes) => {
                    &&& spec_serialize_enum(value) == Ok::<Seq<u8>, BuilderError>(bytes@)
                    &&& bytes@.len() <= MAX_BUFFER_LEN
                    &&& (sb_write(spec_init_state(8), 0, spec_u32_to_le_bytes(value.spec_tag()))
                        matches Ok(s1) && value.spec_payload(s1, 4) matches Ok(fin) && fin.data
                        == bytes@ && fin.next == bytes@.len())
                },
                Err(e) => spec_serialize_enum(value) == Err::<Seq<u8>, BuilderError>(e),
            },
    {
        let mut builder = VossBuilder::new(8);
        match builder.u32(0, value.get_type()) {
            Ok(()) => {},
            Err(e) => {
                return Err(e);
            },
        }
        match value.serialize_value(&mut builder, 4) {
            Ok(()) => Ok(builder.data),
            Err(e) => Err(e),
        }
    }

    /// Consumes the builder and hands out its buffer.
    pub fn finish(self) -> (r: Vec<u8>)
        ensures
            r@ == self.model().data,
    {
        self.data
    }

    /// `Ok` exactly when `size` bytes at `offset` from the current base lie
    /// inside the current logical buffer length.
    fn bound_check(&self, offset: usize, size: usize) -> (r: Result<(), BuilderError>)
        ensures
            r is Ok <==> self.model().current + offset + size <= self.model().data.len(),
            r is Err ==> r == Err::<(), BuilderError>(BuilderError::OutOfBound),
    {
        let len = self.data.len();
        if size <= len && offset <= len - size && self.current_offset <= len - size - offset {
            Ok(())
        } else {
            Err(BuilderError::OutOfBound)
        }
    }

    /// Grows the buffer (zero-filled) so that the logical length and the
    /// heap frontier both become `next_offset`, or reports `Overflow` when
    /// that exceeds what 32-bit pointers can address.
    fn set_next_offset(&mut self, next_offset: u64) -> (r: Result<(), BuilderError>)
        requires
            old(self).wf(),
            next_offset >= old(self).model().data.len(),
        ensures
            final(self).current_offset() == old(self).current_offset(),
            final(self).stack() == old(self).stack(),
            match r {
                Ok(()) => {
                    &&& next_offset <= MAX_BUFFER_LEN
                    &&& final(self).wf()
                    &&& final(self).model() == (BState {
                        data: old(self).model().data + zeros(
                            (next_offset - old(self).model().data.len()) as nat,
                        ),
                        current: old(self).model().current,
                        next: next_offset as int,
                    })
                },
                Err(e) => {
                    &&& e == BuilderError::Overflow
                    &&& next_offset > MAX_BUFFER_LEN
                    &&& *final(self) == *old(self)
                },
            },
    {
        if next_offset > MAX_BUFFER_LEN {
            return Err(BuilderError::Overflow);
        }
        let target = next_offset as usize;
        while self.data.len() < target
            invariant
                self.data@.len() <= target,
                self.data@ == old(self).model().data + zeros(
                    (self.data@.len() - old(self).model().data.len()) as nat,
                ),
                self.next_offset == old(self).next_offset,
                self.current_offset == old(self).current_offset,
                self.offset_stack == old(self).offset_stack,
            decreases target - self.data.len(),
        {
            self.data.push(0);
            proof {
                assert(self.data@ =~= old(self).model().data + zeros(
                    (self.data@.len() - old(self).model().data.len()) as nat,
                ));
            }
        }
        self.next_offset = target;
        proof {
            assert(self.data@.len() == target);
        }
        Ok(())
    }

    /// Writes `raw` at the absolute position `at`.
    fn write_abs(&mut self, at: usize, raw: &[u8])
        requires
            at + raw@.len() <= old(self).model().data.len(),
        ensures
            final(self).model() == (BState {
                data: splice(old(self).model().data, at as int, raw@),
                ..old(self).model()
            }),
            final(self).current_offset() == old(self).current_offset(),
            final(self).stack() == old(self).stack(),
    {
        let n = raw.len();
        let dlen = self.data.len();
        let mut i: usize = 0;
        proof {
            assert(self.data@ =~= splice(old(self).model().data, at as int, raw@.take(0)));
        }
        while i < n
            invariant
                i <= n,
                n == raw@.len(),
                at + n <= self.data@.len(),
                self.data@.len() == dlen,
                self.data@ == splice(old(self).model().data, at as int, raw@.take(i as int)),
                self.next_offset == old(self).next_offset,
                self.current_offset == old(self).current_offset,
                self.offset_stack == old(self).offset_stack,
            decreases n - i,
        {
            self.data[at + i] = raw[i];
            proof {
                assert(self.data@ =~= splice(
                    old(self).model().data,
                    at as int,
                    raw@.take(i + 1),
                ));
            }
            i += 1;
        }
        proof {
            assert(raw@.take(n as int) =~= raw@);
        }
    }

    /// Bound-checks and writes `raw` at `offset` from the current base.
    fn put(&mut self, offset: usize, raw: &[u8]) -> (r: Result<(), BuilderError>)
        requires
            old(self).wf(),
        ensures
            final(self).wf(),
            final(self).current_offset() == old(self).current_offset(),
            final(self).stack() == old(self).stack(),
            final(self).model().next == old(self).model().next,
            final(self).model().data.len() == old(self).model().data.len(),
            r is Err ==> *final(self) == *old(self),
            step_result(r, final(self).model()) == sb_write(
                old(self).model(),
                offset as int,
                raw@,
            ),
    {
        match self.bound_check(offset, raw.len()) {
            Ok(()) => {},
            Err(e) => {
                return Err(e);
            },
        }
        self.write_abs(self.current_offset + offset, raw);
        Ok(())
    }

    /// Writes one byte at `offset`.
    pub fn u8(&mut self, offset: usize, value: u8) -> (r: Result<(), BuilderError>)
        requires
            old(self).wf(),
        ensures
            final(self).wf(),
            final(self).current_offset() == old(self).current_offset(),
            final(self).stack() == old(self).stack(),
            final(self).model().next == old(self).model().next,
            r is Err ==> *final(self) == *old(self),
            step_result(r, final(self).model()) == sb_write(
                old(self).model(),
                offset as int,
                seq![value],
            ),
    {
        let raw: [u8; 1] = [value];
        proof {
            assert(raw@ =~= seq![value]);
        }
        self.put(offset, raw.as_slice())
    }

    /// Writes a little-endian 16-bit unsigned value at `offset`.
    pub fn u16(&mut self, offset: usize, value: u16) -> (r: Result<(), BuilderError>)
        requires
            old(self).wf(),
        ensures
            final(self).wf(),
            final(self).current_offset() == old(self).current_offset(),
            final(self).stack() == old(self).stack(),
            final(self).model().next == old(self).model().next,
            r is Err ==> *final(self) == *old(self),
            step_result(r, final(self).model()) == sb_write(
                old(self).model(),
                offset as int,
                spec_u16_to_le_bytes(value),
            ),
    {
        let raw = vstd::bytes::u16_to_le_bytes(value);
        self.put(offset, raw.as_slice())
    }

    /// Writes a little-endian 32-bit unsigned value at `offset`.
    pub fn u32(&mut self, offset: usize, value: u32) -> (r: Result<(), BuilderError>)
        requires
            old(self).wf(),
        ensures
            final(self).wf(),
            final(self).current_offset() == old(self).current_offset(),
            final(self).stack() == old(self).stack(),
            final(self).model().next == old(self).model().next,
            r is Err ==> *final(self) == *old(self),
            step_result(r, final(self).model()) == sb_write(
                old(self).model(),
                offset as int,
                spec_u32_to_le_bytes(value),
            ),
    {
        let raw = vstd::bytes::u32_to_le_bytes(value);
        self.put(offset, raw.as_slice())
    }

    /// Writes an 8-bit signed value at `offset`, two's complement.
    pub fn i8(&mut self, offset: usize, value: i8) -> (r: Result<(), BuilderError>)
        requires
            old(self).wf(),
        ensures
            final(self).wf(),
            final(self).current_offset() == old(self).current_offset(),
            final(self).stack() == old(self).stack(),
            final(self).model().next == old(self).model().next,
            r is Err ==> *final(self) == *old(self),
            step_result(r, final(self).model()) == sb_write(
                old(self).model(),
                offset as int,
                seq![value as u8],
            ),
    {
        self.u8(offset, #[verifier::truncate] (value as u8))
    }

    /// Writes a little-endian 16-bit signed value at `offset`, two's
    /// complement.
    pub fn i16(&mut self, offset: usize, value: i16) -> (r: Result<(), BuilderError>)
        requires
            old(self).wf(),
        ensures
            final(self).wf(),
            final(self).current_offset() == old(self).current_offset(),
            final(self).stack() == old(self).stack(),
            final(self).model().next == old(self).model().next,
            r is Err ==> *final(self) == *old(self),
            step_result(r, final(self).model()) == sb_write(
                old(self).model(),
                offset as int,
                spec_u16_to_le_bytes(value as u16),
            ),
    {
        self.u16(offset, #[verifier::truncate] (value as u16))
    }

    /// Writes a little-endian 32-bit signed value at `offset`, two's
    /// complement.
    pub fn i32(&mut self, offset: usize, value: i32) -> (r: Result<(), BuilderError>)
        requires
            old(self).wf(),
        ensures
            final(self).wf(),
            final(self).current_offset() == old(self).current_offset(),
            final(self).stack() == old(self).stack(),
            final(self).model().next == old(self).model().next,
            r is Err ==> *final(self) == *old(self),
            step_result(r, final(self).model()) == sb_write(
                old(self).model(),
                offset as int,
                spec_u32_to_le_bytes(value as u32),
            ),
    {
        self.u32(offset, #[verifier::truncate] (value as u32))
    }

    /// Writes a 32-bit float field at `offset`: the value travels as its
    /// IEEE-754 bit pattern, little-endian.
    pub fn float32(&mut self, offset: usize, value_bits: u32) -> (r: Result<(), BuilderError>)
        requires
            old(self).wf(),
        ensures
            final(self).wf(),
            final(self).current_offset() == old(self).current_offset(),
            final(self).stack() == old(self).stack(),
            final(self).model().next == old(self).model().next,
            r is Err ==> *final(self) == *old(self),
            step_result(r, final(self).model()) == sb_write(
                old(self).model(),
                offset as int,
                spec_u32_to_le_bytes(value_bits),
            ),
    {
        self.u32(offset, value_bits)
    }

    /// Writes a 64-bit float field at `offset`: the value travels as its
    /// IEEE-754 bit pattern, little-endian.
    pub fn float64(&mut self, offset: usize, value_bits: u64) -> (r: Result<(), BuilderError>)
        requires
            old(self).wf(),
        ensures
            final(self).wf(),
            final(self).current_offset() == old(self).current_offset(),
            final(self).stack() == old(self).stack(),
            final(self).model().next == old(self).model().next,
            r is Err ==> *final(self) == *old(self),
            step_result(r, final(self).model()) == sb_write(
                old(self).model(),
                offset as int,
                spec_u64_to_le_bytes(value_bits),
            ),
    {
        let raw = vstd::bytes::u64_to_le_bytes(value_bits);
        self.put(offset, raw.as_slice())
    }

    /// Writes a 16-byte hash inline at `offset`.
    pub fn hash16(&mut self, offset: usize, value: &HASH16) -> (r: Result<(), BuilderError>)
        requires
            old(self).wf(),
        ensures
            final(self).wf(),
            final(self).current_offset() == old(self).current_offset(),
            final(self).stack() == old(self).stack(),
            final(self).model().next == old(self).model().next,
            r is Err ==> *final(self) == *old(self),
            step_result(r, final(self).model()) == sb_write(
                old(self).model(),
                offset as int,
                value@,
            ),
    {
        self.put(offset, value.raw())
    }

    /// Writes a 20-byte hash inline at `offset`.
    pub fn hash20(&mut self, offset: usize, value: &HASH20) -> (r: Result<(), BuilderError>)
        requires
            old(self).wf(),
        ensures
            final(self).wf(),
            final(self).current_offset() == old(self).current_offset(),
            final(self).stack() == old(self).stack(),
            final(self).model().next == old(self).model().next,
            r is Err ==> *final(self) == *old(self),
            step_result(r, final(self).model()) == sb_write(
                old(self).model(),
                offset as int,
                value@,
            ),
    {
        self.put(offset, value.raw())
    }

    /// Writes a 16-byte identifier inline at `offset`.
    pub fn uuid(&mut self, offset: usize, value: [u8; 16]) -> (r: Result<(), BuilderError>)
        requires
            old(self).wf(),
        ensures
            final(self).wf(),
            final(self).current_offset() == old(self).current_offset(),
            final(self).stack() == old(self).stack(),
            final(self).model().next == old(self).model().next,
            r is Err ==> *final(self) == *old(self),
            step_result(r, final(self).model()) == sb_write(
                old(self).model(),
                offset as int,
                value@,
            ),
    {
        self.put(offset, value.as_slice())
    }

    /// Writes a boolean as one byte at `offset`: 0 for `true`, 1 for
    /// `false`, the wire format's inherited convention.
    pub fn bool(&mut self, offset: usize, value: bool) -> (r: Result<(), BuilderError>)
        requires
            old(self).wf(),
        ensures
            final(self).wf(),
            final(self).current_offset() == old(self).current_offset(),
            final(self).stack() == old(self).stack(),
            final(self).model().next == old(self).model().next,
            r is Err ==> *final(self) == *old(self),
            step_result(r, final(self).model()) == sb_write(
                old(self).model(),
                offset as int,
                seq![if value { 0u8 } else { 1u8 }],
            ),
    {
        self.u8(offset, if value { 0 } else { 1 })
    }

    /// Writes a string field at `offset`: empty text stamps `{0, 0}` over
    /// the 8-byte pointer region; otherwise the UTF-16 payload goes to the
    /// heap frontier and `{payload size, relative}` is stamped, where
    /// `relative` is measured from the size field's own address.
    pub fn str(&mut self, offset: usize, value: &String) -> (r: Result<(), BuilderError>)
        requires
            old(self).wf(),
        ensures
            final(self).wf(),
            final(self).current_offset() == old(self).current_offset(),
            final(self).stack() == old(self).stack(),
            final(self).model().data.len() >= old(self).model().data.len(),
            step_result(r, final(self).model()) == sb_str(
                old(self).model(),
                offset as int,
                value@,
            ),
    {
        proof {
            vstd::bytes::lemma_auto_spec_u32_to_from_le_bytes();
        }
        let s = value.as_str();
        if s.is_empty() {
            match self.u32(offset, 0) {
                Ok(()) => {},
                Err(e) => {
                    return Err(e);
                },
            }
            return self.u32(offset + 4, 0);
        }
        match self.bound_check(offset, 8) {
            Ok(()) => {},
            Err(e) => {
                return Err(e);
            },
        }
        let units = encode_utf16_units(s);
        let mut payload: Vec<u8> = Vec::new();
        let m = units.len();
        let mut j: usize = 0;
        proof {
            assert(units@.take(0) =~= Seq::<u16>::empty());
        }
        while j < m
            invariant
                j <= m,
                m == units@.len(),
                payload@ == utf16_le_bytes(units@.take(j as int)),
            decreases m - j,
        {
            let raw = vstd::bytes::u16_to_le_bytes(units[j]);
            payload.push(raw[0]);
            payload.push(raw[1]);
            proof {
                lemma_utf16_le_bytes_push(units@.take(j as int), units@[j as int]);
                assert(units@.take(j + 1) =~= units@.take(j as int).push(units@[j as int]));
                assert(payload@ =~= utf16_le_bytes(units@.take(j + 1)));
            }
            j += 1;
        }
        proof {
            assert(units@.take(m as int) =~= units@);
            lemma_utf16_le_bytes_len(units@);
        }
        let heap = self.next_offset;
        let psize = payload.len();
        if psize as u64 > MAX_BUFFER_LEN {
            return Err(BuilderError::Overflow);
        }
        let relative = heap - (self.current_offset + offset);
        match self.set_next_offset(heap as u64 + psize as u64) {
            Ok(()) => {},
            Err(e) => {
                return Err(e);
            },
        }
        self.write_abs(heap, payload.as_slice());
        proof {
            assert(self.model().data =~= old(self).model().data + utf16_le_bytes(
                utf16_encode(value@),
            ));
        }
        match self.u32(offset, psize as u32) {
            Ok(()) => {},
            Err(e) => {
                return Err(e);
            },
        }
        self.u32(offset + 4, relative as u32)
    }

    /// Writes `value` as a nested record behind the pointer field at
    /// `offset`. A zero-sized record stamps pointer 0 and writes nothing
    /// else. Otherwise the record is placed at the heap frontier rounded up
    /// to its alignment, serialized there, and on success the pointer field
    /// receives the distance from its own address to the record, which
    /// therefore always resolves to an in-range, aligned target; on failure
    /// the frontier is rewound and the pointer is not stamped.
    pub fn object<T: VossStruct>(&mut self, offset: usize, value: &T) -> (r: Result<
        (),
        BuilderError,
    >)
        requires
            old(self).wf(),
        ensures
            final(self).current_offset() == old(self).current_offset(),
            final(self).stack() == old(self).stack(),
            final(self).model().data.len() >= old(self).model().data.len(),
            r is Ok ==> final(self).wf(),
            r is Err ==> final(self).model().next == old(self).model().next,
            step_result(r, final(self).model()) == sb_object(old(self).model(), offset as int, value),
            (r is Ok && value.spec_size() == 0) ==> spec_u32_from_le_bytes(
                final(self).model().data.subrange(
                    old(self).current_offset() + offset,
                    old(self).current_offset() + offset + 4,
                ),
            ) == 0,
            (r is Ok && value.spec_size() > 0) ==> ({
                let ptr = old(self).current_offset() + offset;
                let p = spec_u32_from_le_bytes(final(self).model().data.subrange(ptr, ptr + 4))
                    as int;
                &&& 0 < p
                &&& ptr + p + value.spec_size() <= final(self).model().data.len()
                &&& (ptr + p) % (pow2(value.spec_align() as nat) as int) == 0
            }),
    {
        proof {
            vstd::bytes::lemma_auto_spec_u32_to_from_le_bytes();
        }
        let size = value.size();
        if size == 0 {
            let r0 = self.u32(offset, 0);
            proof {
                if r0 is Ok {
                    lemma_splice_subrange(
                        old(self).model().data,
                        old(self).current_offset() + offset,
                        spec_u32_to_le_bytes(0),
                    );
                }
            }
            return r0;
        }
        match self.bound_check(offset, 4) {
            Ok(()) => {},
            Err(e) => {
                return Err(e);
            },
        }
        let align = value.alignment_pow2();
        let saved_next = self.next_offset;
        proof {
            vstd::arithmetic::power2::lemma_pow2_strictly_increases(align as nat, 32);
            vstd::arithmetic::power2::lemma2_to64();
        }
        let so64 = next_number_divisible_by_pow2(saved_next as u64, align as u64);
        proof {
            lemma_align_up_is_least(saved_next as nat, align as nat);
        }
        match self.set_next_offset(so64 + size as u64) {
            Ok(()) => {},
            Err(e) => {
                return Err(e);
            },
        }
        let so = so64 as usize;
        self.offset_stack.push(self.current_offset);
        let parent_base = self.current_offset;
        self.current_offset = so;
        proof {
            assert(self.stack() =~= old(self).stack().push(parent_base));
        }
        let result = value.serialize(self);
        let popped = self.offset_stack.pop();
        self.current_offset = popped.unwrap();
        proof {
            assert(old(self).stack().push(parent_base).drop_last() =~= old(self).stack());
            assert(self.current_offset() == old(self).current_offset());
        }
        match result {
            Err(e) => {
                self.next_offset = saved_next;
                Err(e)
            },
            Ok(()) => {
                let relative = so - (parent_base + offset);
                let ghost pre_stamp = self.model();
                let r2 = self.u32(offset, relative as u32);
                proof {
                    if r2 is Ok {
                        let ptr = old(self).current_offset() + offset;
                        lemma_splice_subrange(
                            pre_stamp.data,
                            ptr,
                            spec_u32_to_le_bytes(relative as u32),
                        );
                        assert((so64 as nat) % pow2(align as nat) == 0);
                    }
                }
                r2
            },
        }
    }

    /// Writes a tagged-union field: the variant's tag at `offset`, then the
    /// payload record behind the pointer at `offset + 4`.
    pub fn oneof<E: VossEnum>(&mut self, offset: usize, value: &E) -> (r: Result<
        (),
        BuilderError,
    >)
        requires
            old(self).wf(),
        ensures
            final(self).current_offset() == old(self).current_offset(),
            final(self).stack() == old(self).stack(),
            final(self).model().data.len() >= old(self).model().data.len(),
            r is Ok ==> final(self).wf(),
            step_result(r, final(self).model()) == sb_oneof(old(self).model(), offset as int, value),
    {
        proof {
            vstd::bytes::lemma_auto_spec_u32_to_from_le_bytes();
        }
        match self.u32(offset, value.get_type()) {
            Ok(()) => {},
            Err(e) => {
                return Err(e);
            },
        }
        value.serialize_value(self, offset + 4)
    }
}

} // verus!
