//! The reader: dereferences a serialized buffer in place.
//!
//! A reader borrows a byte slice and keeps a `current_offset` base cursor.
//! Primitive reads decode little-endian values at offsets from that base,
//! after a bounds check; nested-object and tagged-union reads temporarily
//! rebase the cursor and restore it afterwards. Every read is specified
//! exactly by the `sr_*` spec functions: each returns `InvalidBuffer`
//! precisely when a bounds check fails, a string's size is odd, its
//! `{size, relative}` pair is inconsistent, or its payload is not UTF-16.

use crate::error::ReaderError;
use crate::hash::{HASH16, HASH20};
use crate::utf16::{decode_utf16_units, utf16_decode};
use vstd::bytes::{spec_u16_from_le_bytes, spec_u32_from_le_bytes, spec_u64_from_le_bytes};
use vstd::prelude::*;

verus! {

/// The `n` bytes at `off` from the base `cur`, when they lie inside `data`.
pub open spec fn sr_bytes(data: Seq<u8>, cur: int, off: int, n: int) -> Result<
    Seq<u8>,
    ReaderError,
> {
    if 0 <= off && cur + off + n <= data.len() {
        Ok(data.subrange(cur + off, cur + off + n))
    } else {
        Err(ReaderError::InvalidBuffer)
    }
}

pub open spec fn sr_u8(data: Seq<u8>, cur: int, off: int) -> Result<u8, ReaderError> {
    match sr_bytes(data, cur, off, 1) {
        Ok(b) => Ok(b[0]),
        Err(e) => Err(e),
    }
}

pub open spec fn sr_u16(data: Seq<u8>, cur: int, off: int) -> Result<u16, ReaderError> {
    match sr_bytes(data, cur, off, 2) {
        Ok(b) => Ok(spec_u16_from_le_bytes(b)),
        Err(e) => Err(e),
    }
}

pub open spec fn sr_u32(data: Seq<u8>, cur: int, off: int) -> Result<u32, ReaderError> {
    match sr_bytes(data, cur, off, 4) {
        Ok(b) => Ok(spec_u32_from_le_bytes(b)),
        Err(e) => Err(e),
    }
}

pub open spec fn sr_u64(data: Seq<u8>, cur: int, off: int) -> Result<u64, ReaderError> {
    match sr_bytes(data, cur, off, 8) {
        Ok(b) => Ok(spec_u64_from_le_bytes(b)),
        Err(e) => Err(e),
    }
}

pub open spec fn sr_i8(data: Seq<u8>, cur: int, off: int) -> Result<i8, ReaderError> {
    match sr_u8(data, cur, off) {
        Ok(v) => Ok(v as i8),
        Err(e) => Err(e),
    }
}

pub open spec fn sr_i16(data: Seq<u8>, cur: int, off: int) -> Result<i16, ReaderError> {
    match sr_u16(data, cur, off) {
        Ok(v) => Ok(v as i16),
        Err(e) => Err(e),
    }
}

pub open spec fn sr_i32(data: Seq<u8>, cur: int, off: int) -> Result<i32, ReaderError> {
    match sr_u32(data, cur, off) {
        Ok(v) => Ok(v as i32),
        Err(e) => Err(e),
    }
}

/// A string read at `off`: `{size, relative}` is read first; `{0, 0}` is the
/// empty string, `{0, rel != 0}` and odd sizes are invalid, and otherwise
/// the payload's UTF-16 code units are decoded.
pub open spec fn sr_str(data: Seq<u8>, cur: int, off: int) -> Result<Seq<char>, ReaderError> {
    match sr_u32(data, cur, off) {
        Err(e) => Err(e),
        Ok(size) => match sr_u32(data, cur, off + 4) {
            Err(e) => Err(e),
            Ok(rel) => {
                if size == 0 {
                    if rel != 0 {
                        Err(ReaderError::InvalidBuffer)
                    } else {
                        Ok(Seq::empty())
                    }
                } else if size % 2 == 1 {
                    Err(ReaderError::InvalidBuffer)
                } else if cur + off + rel + size <= data.len() {
                    let units = Seq::new(
                        size as nat / 2,
                        |i: int|
                            spec_u16_from_le_bytes(
                                data.subrange(
                                    cur + off + rel + 2 * i,
                                    cur + off + rel + 2 * i + 2,
                                ),
                            ),
                    );
                    match utf16_decode(units) {
                        Some(chars) => Ok(chars),
                        None => Err(ReaderError::InvalidBuffer),
                    }
                } else {
                    Err(ReaderError::InvalidBuffer)
                }
            },
        },
    }
}

/// A value of a record type that knows how to read itself from a buffer.
/// `spec_from` states exactly which value `from_reader` returns, or which
/// error, as a function of the buffer bytes and the base cursor. The value
/// is pinned through its view, the type's mathematical model.
pub trait FromReader: Sized + View {
    /// The exact result of `from_reader` on the given buffer and base.
    spec fn spec_from(data: Seq<u8>, cur: int) -> Result<Self::V, ReaderError>;

    fn from_reader(reader: &mut VossReader) -> (r: Result<Self, ReaderError>)
        ensures
            final(reader).buf() == old(reader).buf(),
            final(reader).cur() == old(reader).cur(),
            match r {
                Ok(v) => Self::spec_from(old(reader).buf(), old(reader).cur()) == Ok::<
                    Self::V,
                    ReaderError,
                >(v@),
                Err(e) => Self::spec_from(old(reader).buf(), old(reader).cur()) == Err::<
                    Self::V,
                    ReaderError,
                >(e),
            },
    ;
}

/// A nested-object read at `off`: the relative pointer is read there, the
/// target `cur + off + rel` (measured from the pointer field's own address)
/// must lie inside the buffer, and the record is read with the cursor
/// rebased to the target.
pub open spec fn sr_object<T: FromReader>(data: Seq<u8>, cur: int, off: int) -> Result<
    T::V,
    ReaderError,
> {
    match sr_u32(data, cur, off) {
        Err(e) => Err(e),
        Ok(rel) => {
            if cur + off + rel >= data.len() {
                Err(ReaderError::InvalidBuffer)
            } else {
                T::spec_from(data, cur + off + rel)
            }
        },
    }
}

/// A tagged-union read at `off`: the record is read with the cursor moved
/// forward by `off`; an offset past the address space is invalid.
pub open spec fn sr_oneof<T: FromReader>(data: Seq<u8>, cur: int, off: int) -> Result<
    T::V,
    ReaderError,
> {
    if cur + off <= usize::MAX {
        T::spec_from(data, cur + off)
    } else {
        Err(ReaderError::InvalidBuffer)
    }
}

/// The reader. See the module documentation.
pub struct VossReader<'a> {
    current_offset: usize,
    data: &'a [u8],
}

impl<'a> VossReader<'a> {
    /// The borrowed buffer's bytes.
    pub closed spec fn buf(&self) -> Seq<u8> {
        self.data@
    }

    /// The current base cursor.
    pub closed spec fn cur(&self) -> int {
        self.current_offset as int
    }

    /// The base cursor is never negative, whoever built the reader.
    pub proof fn lemma_cur_nonneg(&self)
        ensures
            0 <= self.cur(),
    {
    }

    /// Binds a reader over `data` with the base cursor at 0.
    pub fn new(data: &'a [u8]) -> (r: VossReader<'a>)
        ensures
            r.buf() == data@,
            r.cur() == 0,
    {
        VossReader { current_offset: 0, data }
    }

    /// `Ok` exactly when `size` bytes at `offset` from the base lie inside
    /// the buffer.
    fn bound_check(&self, offset: usize, size: usize) -> (r: Result<(), ReaderError>)
        ensures
            r is Ok <==> self.cur() + offset + size <= self.buf().len(),
            self.buf().len() <= usize::MAX,
            r is Err ==> r == Err::<(), ReaderError>(ReaderError::InvalidBuffer),
    {
        let len = self.data.len();
        if size <= len && offset <= len - size && self.current_offset <= len - size - offset {
            Ok(())
        } else {
            Err(ReaderError::InvalidBuffer)
        }
    }

    /// Reads one byte at `offset`.
    pub fn u8(&self, offset: usize) -> (r: Result<u8, ReaderError>)
        ensures
            r == sr_u8(self.buf(), self.cur(), offset as int),
    {
        match self.bound_check(offset, 1) {
            Ok(()) => {},
            Err(e) => {
                return Err(e);
            },
        }
        let b = self.data[self.current_offset + offset];
        proof {
            let at = self.cur() + offset;
            assert(self.buf().subrange(at, at + 1)[0] == self.buf()[at]);
        }
        Ok(b)
    }

    /// Reads a little-endian 16-bit unsigned value at `offset`.
    pub fn u16(&self, offset: usize) -> (r: Result<u16, ReaderError>)
        ensures
            r == sr_u16(self.buf(), self.cur(), offset as int),
    {
        match self.bound_check(offset, 2) {
            Ok(()) => {},
            Err(e) => {
                return Err(e);
            },
        }
        let start = self.current_offset + offset;
        Ok(vstd::bytes::u16_from_le_bytes(&self.data[start..start + 2]))
    }

    /// Reads a little-endian 32-bit unsigned value at `offset`.
    pub fn u32(&self, offset: usize) -> (r: Result<u32, ReaderError>)
        ensures
            r == sr_u32(self.buf(), self.cur(), offset as int),
    {
        match self.bound_check(offset, 4) {
            Ok(()) => {},
            Err(e) => {
                return Err(e);
            },
        }
        let start = self.current_offset + offset;
        Ok(vstd::bytes::u32_from_le_bytes(&self.data[start..start + 4]))
    }

    /// Reads an 8-bit signed value at `offset`, two's complement.
    pub fn i8(&self, offset: usize) -> (r: Result<i8, ReaderError>)
        ensures
            r == sr_i8(self.buf(), self.cur(), offset as int),
    {
        match self.u8(offset) {
            Ok(v) => Ok(#[verifier::truncate] (v as i8)),
            Err(e) => Err(e),
        }
    }

    /// Reads a little-endian 16-bit signed value at `offset`, two's
    /// complement.
    pub fn i16(&self, offset: usize) -> (r: Result<i16, ReaderError>)
        ensures
            r == sr_i16(self.buf(), self.cur(), offset as int),
    {
        match self.u16(offset) {
            Ok(v) => Ok(#[verifier::truncate] (v as i16)),
            Err(e) => Err(e),
        }
    }

    /// Reads a little-endian 32-bit signed value at `offset`, two's
    /// complement.
    pub fn i32(&self, offset: usize) -> (r: Result<i32, ReaderError>)
        ensures
            r == sr_i32(self.buf(), self.cur(), offset as int),
    {
        match self.u32(offset) {
            Ok(v) => Ok(#[verifier::truncate] (v as i32)),
            Err(e) => Err(e),
        }
    }

    /// Reads a 32-bit float field at `offset`, as its IEEE-754 bit pattern.
    pub fn float32(&self, offset: usize) -> (r: Result<u32, ReaderError>)
        ensures
            r == sr_u32(self.buf(), self.cur(), offset as int),
    {
        self.u32(offset)
    }

    /// Reads a 64-bit float field at `offset`, as its IEEE-754 bit pattern.
    pub fn float64(&self, offset: usize) -> (r: Result<u64, ReaderError>)
        ensures
            r == sr_u64(self.buf(), self.cur(), offset as int),
    {
        match self.bound_check(offset, 8) {
            Ok(()) => {},
            Err(e) => {
                return Err(e);
            },
        }
        let start = self.current_offset + offset;
        Ok(vstd::bytes::u64_from_le_bytes(&self.data[start..start + 8]))
    }

    /// Reads a 16-byte hash inline at `offset`.
    pub fn hash16(&self, offset: usize) -> (r: Result<HASH16, ReaderError>)
        ensures
            match r {
                Ok(h) => sr_bytes(self.buf(), self.cur(), offset as int, 16) == Ok::<
                    Seq<u8>,
                    ReaderError,
                >(h@),
                Err(e) => sr_bytes(self.buf(), self.cur(), offset as int, 16) == Err::<
                    Seq<u8>,
                    ReaderError,
                >(e),
            },
    {
        match self.bound_check(offset, 16) {
            Ok(()) => {},
            Err(e) => {
                return Err(e);
            },
        }
        let p = self.current_offset + offset;
        let h = HASH16::from_array(
            [
                self.data[p],
                self.data[p + 1],
                self.data[p + 2],
                self.data[p + 3],
                self.data[p + 4],
                self.data[p + 5],
                self.data[p + 6],
                self.data[p + 7],
                self.data[p + 8],
                self.data[p + 9],
                self.data[p + 10],
                self.data[p + 11],
                self.data[p + 12],
                self.data[p + 13],
                self.data[p + 14],
                self.data[p + 15],
            ],
        );
        proof {
            assert(h@ =~= self.buf().subrange(p as int, p + 16));
        }
        Ok(h)
    }

    /// Reads a 20-byte hash inline at `offset`.
    pub fn hash20(&self, offset: usize) -> (r: Result<HASH20, ReaderError>)
        ensures
            match r {
                Ok(h) => sr_bytes(self.buf(), self.cur(), offset as int, 20) == Ok::<
                    Seq<u8>,
                    ReaderError,
                >(h@),
                Err(e) => sr_bytes(self.buf(), self.cur(), offset as int, 20) == Err::<
                    Seq<u8>,
                    ReaderError,
                >(e),
            },
    {
        match self.bound_check(offset, 20) {
            Ok(()) => {},
            Err(e) => {
                return Err(e);
            },
        }
        let p = self.current_offset + offset;
        let h = HASH20::from_array(
            [
                self.data[p],
                self.data[p + 1],
                self.data[p + 2],
                self.data[p + 3],
                self.data[p + 4],
                self.data[p + 5],
                self.data[p + 6],
                self.data[p + 7],
                self.data[p + 8],
                self.data[p + 9],
                self.data[p + 10],
                self.data[p + 11],
                self.data[p + 12],
                self.data[p + 13],
                self.data[p + 14],
                self.data[p + 15],
                self.data[p + 16],
                self.data[p + 17],
                self.data[p + 18],
                self.data[p + 19],
            ],
        );
        proof {
            assert(h@ =~= self.buf().subrange(p as int, p + 20));
        }
        Ok(h)
    }

    /// Reads a string field at `offset`.
    pub fn str(&self, offset: usize) -> (r: Result<String, ReaderError>)
        ensures
            match r {
                Ok(s) => sr_str(self.buf(), self.cur(), offset as int) == Ok::<
                    Seq<char>,
                    ReaderError,
                >(s@),
                Err(e) => sr_str(self.buf(), self.cur(), offset as int) == Err::<
                    Seq<char>,
                    ReaderError,
                >(e),
            },
    {
        let dlen = self.data.len();
        let size32 = match self.u32(offset) {
            Ok(v) => v,
            Err(e) => {
                return Err(e);
            },
        };
        let rel32 = match self.u32(offset + 4) {
            Ok(v) => v,
            Err(e) => {
                return Err(e);
            },
        };
        if size32 == 0 {
            if rel32 != 0 {
                return Err(ReaderError::InvalidBuffer);
            }
            return Ok(String::new());
        }
        if size32 % 2 == 1 {
            return Err(ReaderError::InvalidBuffer);
        }
        let rel = rel32 as usize;
        let size = size32 as usize;
        if rel > dlen {
            return Err(ReaderError::InvalidBuffer);
        }
        if offset > dlen - rel {
            return Err(ReaderError::InvalidBuffer);
        }
        let so = offset + rel;
        match self.bound_check(so, size) {
            Ok(()) => {},
            Err(e) => {
                return Err(e);
            },
        }
        let start = self.current_offset + so;
        let count = size / 2;
        let ghost spec_units = Seq::new(
            size as nat / 2,
            |i: int|
                spec_u16_from_le_bytes(
                    self.buf().subrange(start + 2 * i, start + 2 * i + 2),
                ),
        );
        let mut units: Vec<u16> = Vec::new();
        let mut k: usize = 0;
        proof {
            assert(units@ =~= spec_units.take(0));
        }
        while k < count
            invariant
                k <= count,
                2 * count == size,
                start + size <= self.buf().len() <= usize::MAX,
                units@ == spec_units.take(k as int),
                spec_units == Seq::new(
                    size as nat / 2,
                    |i: int|
                        spec_u16_from_le_bytes(
                            self.buf().subrange(start + 2 * i, start + 2 * i + 2),
                        ),
                ),
                count == spec_units.len(),
            decreases count - k,
        {
            let a = start + 2 * k;
            let u = vstd::bytes::u16_from_le_bytes(&self.data[a..a + 2]);
            units.push(u);
            proof {
                assert(units@ =~= spec_units.take(k + 1));
            }
            k += 1;
        }
        proof {
            assert(units@ =~= spec_units);
        }
        match decode_utf16_units(&units) {
            Some(s) => Ok(s),
            None => Err(ReaderError::InvalidBuffer),
        }
    }

    /// Reads the record `T` behind the relative pointer at `offset`: the
    /// pointer, measured from its own address, must resolve inside the
    /// buffer, and the record is read with the cursor rebased to the target.
    pub fn object<T: FromReader>(&mut self, offset: usize) -> (r: Result<T, ReaderError>)
        ensures
            final(self).buf() == old(self).buf(),
            final(self).cur() == old(self).cur(),
            match r {
                Ok(v) => sr_object::<T>(old(self).buf(), old(self).cur(), offset as int) == Ok::<
                    T::V,
                    ReaderError,
                >(v@),
                Err(e) => sr_object::<T>(old(self).buf(), old(self).cur(), offset as int) == Err::<
                    T::V,
                    ReaderError,
                >(e),
            },
    {
        let rel32 = match self.u32(offset) {
            Ok(v) => v,
            Err(e) => {
                return Err(e);
            },
        };
        let rel = rel32 as usize;
        let dlen = self.data.len();
        if rel >= dlen {
            return Err(ReaderError::InvalidBuffer);
        }
        if offset >= dlen - rel {
            return Err(ReaderError::InvalidBuffer);
        }
        if self.current_offset >= dlen - rel - offset {
            return Err(ReaderError::InvalidBuffer);
        }
        let target = self.current_offset + offset + rel;
        let saved = self.current_offset;
        self.current_offset = target;
        let result = T::from_reader(self);
        self.current_offset = saved;
        result
    }

    /// Reads the union `T` whose `{tag, pointer}` header sits at `offset`
    /// from the base: the cursor moves forward by `offset` while `T` reads
    /// its tag and payload, and is restored afterwards.
    pub fn oneof<T: FromReader>(&mut self, offset: usize) -> (r: Result<T, ReaderError>)
        ensures
            final(self).buf() == old(self).buf(),
            final(self).cur() == old(self).cur(),
            match r {
                Ok(v) => sr_oneof::<T>(old(self).buf(), old(self).cur(), offset as int) == Ok::<
                    T::V,
                    ReaderError,
                >(v@),
                Err(e) => sr_oneof::<T>(old(self).buf(), old(self).cur(), offset as int) == Err::<
                    T::V,
                    ReaderError,
                >(e),
            },
    {
        if offset > usize::MAX - self.current_offset {
            return Err(ReaderError::InvalidBuffer);
        }
        let new_base = self.current_offset + offset;
        let saved = self.current_offset;
        self.current_offset = new_base;
        let result = T::from_reader(self);
        self.current_offset = saved;
        result
    }

    /// Decodes one record of type `T` from the start of `buffer`.
    pub fn deserialize_struct<T: FromReader>(buffer: &'a [u8]) -> (r: Result<T, ReaderError>)
        ensures
            match r {
                Ok(v) => T::spec_from(buffer@, 0) == Ok::<T::V, ReaderError>(v@),
                Err(e) => T::spec_from(buffer@, 0) == Err::<T::V, ReaderError>(e),
            },
    {
        let mut reader = VossReader { current_offset: 0, data: buffer };
        T::from_reader(&mut reader)
    }

    /// Decodes one tagged-union value of type `T` from the start of
    /// `buffer`, whose first 8 bytes are the `{tag, pointer}` root.
    pub fn deserialize_enum<T: FromReader>(buffer: &'a [u8]) -> (r: Result<T, ReaderError>)
        ensures
            match r {
                Ok(v) => T::spec_from(buffer@, 0) == Ok::<T::V, ReaderError>(v@),
                Err(e) => T::spec_from(buffer@, 0) == Err::<T::V, ReaderError>(e),
            },
    {
        let mut reader = VossReader { current_offset: 0, data: buffer };
        reader.oneof(0)
    }
}

} // verus!
