//! An example schema: the per-type glue a schema compiler emits, written by
//! hand for a handful of record and union types. Each record declares its
//! inline size and alignment and how its fields are laid out; each union
//! declares a tag per variant. The spec functions state, field by field,
//! exactly which bytes a value serializes to and which value a buffer
//! decodes to.

use crate::builder::{sb_object, sb_oneof, sb_str, sb_write, BState, VossBuilder, VossEnum,
    VossStruct};
use crate::error::{BuilderError, ReaderError};
use crate::hash::HASH16;
use crate::reader::{sr_bytes, sr_i32, sr_oneof, sr_str, sr_u32, sr_u64, sr_object, FromReader,
    VossReader};
use vstd::bytes::{spec_u32_to_le_bytes, spec_u64_to_le_bytes};
use vstd::prelude::*;

verus! {

/// A clock sample: one 64-bit float timestamp (as its bit pattern) at
/// offset 0. Size 8, alignment 8.
#[derive(PartialEq, Eq, Debug, Clone, Copy)]
pub struct ClockMessage {
    pub timestamp: u64,
}

impl View for ClockMessage {
    type V = u64;

    open spec fn view(&self) -> u64 {
        self.timestamp
    }
}

impl VossStruct for ClockMessage {
    open spec fn spec_size(&self) -> usize {
        8
    }

    open spec fn spec_align(&self) -> usize {
        3
    }

    open spec fn spec_serialize(&self, pre: BState) -> Result<BState, BuilderError> {
        sb_write(pre, 0, spec_u64_to_le_bytes(self.timestamp))
    }

    fn size(&self) -> usize {
        8
    }

    fn alignment_pow2(&self) -> usize {
        3
    }

    fn serialize(&self, builder: &mut VossBuilder) -> Result<(), BuilderError> {
        builder.float64(0, self.timestamp)
    }
}

impl FromReader for ClockMessage {
    open spec fn spec_from(data: Seq<u8>, cur: int) -> Result<u64, ReaderError> {
        sr_u64(data, cur, 0)
    }

    fn from_reader(reader: &mut VossReader) -> Result<Self, ReaderError> {
        match reader.float64(0) {
            Ok(timestamp) => Ok(ClockMessage { timestamp }),
            Err(e) => Err(e),
        }
    }
}

/// The identifier a connecting peer is assigned: one 32-bit value at
/// offset 0. Size 4, alignment 4.
#[derive(PartialEq, Eq, Debug, Clone, Copy)]
pub struct HostIDMessage {
    pub value: u32,
}

impl View for HostIDMessage {
    type V = u32;

    open spec fn view(&self) -> u32 {
        self.value
    }
}

impl VossStruct for HostIDMessage {
    open spec fn spec_size(&self) -> usize {
        4
    }

    open spec fn spec_align(&self) -> usize {
        2
    }

    open spec fn spec_serialize(&self, pre: BState) -> Result<BState, BuilderError> {
        sb_write(pre, 0, spec_u32_to_le_bytes(self.value))
    }

    fn size(&self) -> usize {
        4
    }

    fn alignment_pow2(&self) -> usize {
        2
    }

    fn serialize(&self, builder: &mut VossBuilder) -> Result<(), BuilderError> {
        builder.u32(0, self.value)
    }
}

impl FromReader for HostIDMessage {
    open spec fn spec_from(data: Seq<u8>, cur: int) -> Result<u32, ReaderError> {
        sr_u32(data, cur, 0)
    }

    fn from_reader(reader: &mut VossReader) -> Result<Self, ReaderError> {
        match reader.u32(0) {
            Ok(value) => Ok(HostIDMessage { value }),
            Err(e) => Err(e),
        }
    }
}

/// A ping: a record with no fields at all. Size 0, so a nested-object write
/// of it stamps pointer 0 and appends nothing.
#[derive(PartialEq, Eq, Debug, Clone, Copy)]
pub struct PingMessage {
}

impl View for PingMessage {
    type V = ();

    open spec fn view(&self) -> () {
        ()
    }
}

impl VossStruct for PingMessage {
    open spec fn spec_size(&self) -> usize {
        0
    }

    open spec fn spec_align(&self) -> usize {
        0
    }

    open spec fn spec_serialize(&self, pre: BState) -> Result<BState, BuilderError> {
        Ok(pre)
    }

    fn size(&self) -> usize {
        0
    }

    fn alignment_pow2(&self) -> usize {
        0
    }

    fn serialize(&self, _builder: &mut VossBuilder) -> Result<(), BuilderError> {
        Ok(())
    }
}

impl FromReader for PingMessage {
    open spec fn spec_from(data: Seq<u8>, cur: int) -> Result<(), ReaderError> {
        Ok(())
    }

    fn from_reader(_reader: &mut VossReader) -> Result<Self, ReaderError> {
        Ok(PingMessage {  })
    }
}

/// The messages exchanged over a session, as a tagged union.
#[derive(PartialEq, Eq, Debug, Clone, Copy)]
pub enum RPCMessage {
    Clock(ClockMessage),
    HostID(HostIDMessage),
    Ping(PingMessage),
}

/// The model of an [`RPCMessage`]: the active variant and its payload.
pub enum RPCMessageV {
    Clock(u64),
    HostID(u32),
    Ping,
}

pub const TAG_CLOCK: u32 = 7;

pub const TAG_HOST_ID: u32 = 8;

pub const TAG_PING: u32 = 9;

impl View for RPCMessage {
    type V = RPCMessageV;

    open spec fn view(&self) -> RPCMessageV {
        match self {
            RPCMessage::Clock(m) => RPCMessageV::Clock(m.timestamp),
            RPCMessage::HostID(m) => RPCMessageV::HostID(m.value),
            RPCMessage::Ping(_) => RPCMessageV::Ping,
        }
    }
}

impl VossEnum for RPCMessage {
    open spec fn spec_tag(&self) -> u32 {
        match self {
            RPCMessage::Clock(_) => TAG_CLOCK,
            RPCMessage::HostID(_) => TAG_HOST_ID,
            RPCMessage::Ping(_) => TAG_PING,
        }
    }

    open spec fn spec_payload(&self, pre: BState, off: int) -> Result<BState, BuilderError> {
        match self {
            RPCMessage::Clock(m) => sb_object(pre, off, m),
            RPCMessage::HostID(m) => sb_object(pre, off, m),
            RPCMessage::Ping(m) => sb_object(pre, off, m),
        }
    }

    fn get_type(&self) -> u32 {
        match self {
            RPCMessage::Clock(_) => TAG_CLOCK,
            RPCMessage::HostID(_) => TAG_HOST_ID,
            RPCMessage::Ping(_) => TAG_PING,
        }
    }

    fn serialize_value(&self, builder: &mut VossBuilder, offset: usize) -> Result<
        (),
        BuilderError,
    > {
        match self {
            RPCMessage::Clock(m) => builder.object(offset, m),
            RPCMessage::HostID(m) => builder.object(offset, m),
            RPCMessage::Ping(m) => builder.object(offset, m),
        }
    }
}

impl FromReader for RPCMessage {
    open spec fn spec_from(data: Seq<u8>, cur: int) -> Result<RPCMessageV, ReaderError> {
        match sr_u32(data, cur, 0) {
            Err(e) => Err(e),
            Ok(tag) => {
                if tag == TAG_CLOCK {
                    match sr_object::<ClockMessage>(data, cur, 4) {
                        Ok(v) => Ok(RPCMessageV::Clock(v)),
                        Err(e) => Err(e),
                    }
                } else if tag == TAG_HOST_ID {
                    match sr_object::<HostIDMessage>(data, cur, 4) {
                        Ok(v) => Ok(RPCMessageV::HostID(v)),
                        Err(e) => Err(e),
                    }
                } else if tag == TAG_PING {
                    match sr_object::<PingMessage>(data, cur, 4) {
                        Ok(_) => Ok(RPCMessageV::Ping),
                        Err(e) => Err(e),
                    }
                } else {
                    Err(ReaderError::InvalidBuffer)
                }
            },
        }
    }

    fn from_reader(reader: &mut VossReader) -> Result<Self, ReaderError> {
        let tag = match reader.u32(0) {
            Ok(t) => t,
            Err(e) => {
                return Err(e);
            },
        };
        if tag == TAG_CLOCK {
            match reader.object::<ClockMessage>(4) {
                Ok(m) => Ok(RPCMessage::Clock(m)),
                Err(e) => Err(e),
            }
        } else if tag == TAG_HOST_ID {
            match reader.object::<HostIDMessage>(4) {
                Ok(m) => Ok(RPCMessage::HostID(m)),
                Err(e) => Err(e),
            }
        } else if tag == TAG_PING {
            match reader.object::<PingMessage>(4) {
                Ok(m) => Ok(RPCMessage::Ping(m)),
                Err(e) => Err(e),
            }
        } else {
            Err(ReaderError::InvalidBuffer)
        }
    }
}

/// A field type that names a primitive provider: one string at offset 0.
/// Size 8, alignment 4.
#[derive(PartialEq, Eq, Debug, Clone)]
pub struct FieldTypePrimitive {
    pub provider: String,
}

impl View for FieldTypePrimitive {
    type V = Seq<char>;

    open spec fn view(&self) -> Seq<char> {
        self.provider@
    }
}

impl VossStruct for FieldTypePrimitive {
    open spec fn spec_size(&self) -> usize {
        8
    }

    open spec fn spec_align(&self) -> usize {
        2
    }

    open spec fn spec_serialize(&self, pre: BState) -> Result<BState, BuilderError> {
        sb_str(pre, 0, self.provider@)
    }

    fn size(&self) -> usize {
        8
    }

    fn alignment_pow2(&self) -> usize {
        2
    }

    fn serialize(&self, builder: &mut VossBuilder) -> Result<(), BuilderError> {
        builder.str(0, &self.provider)
    }
}

impl FromReader for FieldTypePrimitive {
    open spec fn spec_from(data: Seq<u8>, cur: int) -> Result<Seq<char>, ReaderError> {
        sr_str(data, cur, 0)
    }

    fn from_reader(reader: &mut VossReader) -> Result<Self, ReaderError> {
        match reader.str(0) {
            Ok(provider) => Ok(FieldTypePrimitive { provider }),
            Err(e) => Err(e),
        }
    }
}

/// A field type that references another object by identifier: one 16-byte
/// hash at offset 0. Size 16, byte-aligned.
#[derive(PartialEq, Eq, Debug, Clone, Copy)]
pub struct FieldTypeObjectReference {
    pub obj: HASH16,
}

impl View for FieldTypeObjectReference {
    type V = Seq<u8>;

    open spec fn view(&self) -> Seq<u8> {
        self.obj@
    }
}

impl VossStruct for FieldTypeObjectReference {
    open spec fn spec_size(&self) -> usize {
        16
    }

    open spec fn spec_align(&self) -> usize {
        0
    }

    open spec fn spec_serialize(&self, pre: BState) -> Result<BState, BuilderError> {
        sb_write(pre, 0, self.obj@)
    }

    fn size(&self) -> usize {
        16
    }

    fn alignment_pow2(&self) -> usize {
        0
    }

    fn serialize(&self, builder: &mut VossBuilder) -> Result<(), BuilderError> {
        builder.hash16(0, &self.obj)
    }
}

impl FromReader for FieldTypeObjectReference {
    open spec fn spec_from(data: Seq<u8>, cur: int) -> Result<Seq<u8>, ReaderError> {
        sr_bytes(data, cur, 0, 16)
    }

    fn from_reader(reader: &mut VossReader) -> Result<Self, ReaderError> {
        match reader.hash16(0) {
            Ok(obj) => Ok(FieldTypeObjectReference { obj }),
            Err(e) => Err(e),
        }
    }
}

/// The type of a schema field, as a tagged union over the two field-type
/// records.
#[derive(PartialEq, Eq, Debug, Clone)]
pub enum FieldType {
    Primitive(FieldTypePrimitive),
    ObjectReference(FieldTypeObjectReference),
}

/// The model of a [`FieldType`]: the active variant and its payload.
pub enum FieldTypeV {
    Primitive(Seq<char>),
    ObjectReference(Seq<u8>),
}

pub const TAG_PRIMITIVE: u32 = 1;

pub const TAG_OBJECT_REFERENCE: u32 = 2;

impl View for FieldType {
    type V = FieldTypeV;

    open spec fn view(&self) -> FieldTypeV {
        match self {
            FieldType::Primitive(p) => FieldTypeV::Primitive(p.provider@),
            FieldType::ObjectReference(o) => FieldTypeV::ObjectReference(o.obj@),
        }
    }
}

impl VossEnum for FieldType {
    open spec fn spec_tag(&self) -> u32 {
        match self {
            FieldType::Primitive(_) => TAG_PRIMITIVE,
            FieldType::ObjectReference(_) => TAG_OBJECT_REFERENCE,
        }
    }

    open spec fn spec_payload(&self, pre: BState, off: int) -> Result<BState, BuilderError> {
        match self {
            FieldType::Primitive(p) => sb_object(pre, off, p),
            FieldType::ObjectReference(o) => sb_object(pre, off, o),
        }
    }

    fn get_type(&self) -> u32 {
        match self {
            FieldType::Primitive(_) => TAG_PRIMITIVE,
            FieldType::ObjectReference(_) => TAG_OBJECT_REFERENCE,
        }
    }

    fn serialize_value(&self, builder: &mut VossBuilder, offset: usize) -> Result<
        (),
        BuilderError,
    > {
        match self {
            FieldType::Primitive(p) => builder.object(offset, p),
            FieldType::ObjectReference(o) => builder.object(offset, o),
        }
    }
}

impl FromReader for FieldType {
    open spec fn spec_from(data: Seq<u8>, cur: int) -> Result<FieldTypeV, ReaderError> {
        match sr_u32(data, cur, 0) {
            Err(e) => Err(e),
            Ok(tag) => {
                if tag == TAG_PRIMITIVE {
                    match sr_object::<FieldTypePrimitive>(data, cur, 4) {
                        Ok(v) => Ok(FieldTypeV::Primitive(v)),
                        Err(e) => Err(e),
                    }
                } else if tag == TAG_OBJECT_REFERENCE {
                    match sr_object::<FieldTypeObjectReference>(data, cur, 4) {
                        Ok(v) => Ok(FieldTypeV::ObjectReference(v)),
                        Err(e) => Err(e),
                    }
                } else {
                    Err(ReaderError::InvalidBuffer)
                }
            },
        }
    }

    fn from_reader(reader: &mut VossReader) -> Result<Self, ReaderError> {
        let tag = match reader.u32(0) {
            Ok(t) => t,
            Err(e) => {
                return Err(e);
            },
        };
        if tag == TAG_PRIMITIVE {
            match reader.object::<FieldTypePrimitive>(4) {
                Ok(p) => Ok(FieldType::Primitive(p)),
                Err(e) => Err(e),
            }
        } else if tag == TAG_OBJECT_REFERENCE {
            match reader.object::<FieldTypeObjectReference>(4) {
                Ok(o) => Ok(FieldType::ObjectReference(o)),
                Err(e) => Err(e),
            }
        } else {
            Err(ReaderError::InvalidBuffer)
        }
    }
}

/// A point: two 32-bit float fields (as their bit patterns) at offsets 0
/// and 4. Size 8, alignment 4.
#[derive(PartialEq, Eq, Debug, Clone, Copy)]
pub struct Point {
    pub x: u32,
    pub y: u32,
}

/// The model of a [`Point`].
#[derive(PartialEq, Eq, Structural)]
pub struct PointV {
    pub x: u32,
    pub y: u32,
}

impl View for Point {
    type V = PointV;

    open spec fn view(&self) -> PointV {
        PointV { x: self.x, y: self.y }
    }
}

impl VossStruct for Point {
    open spec fn spec_size(&self) -> usize {
        8
    }

    open spec fn spec_align(&self) -> usize {
        2
    }

    open spec fn spec_serialize(&self, pre: BState) -> Result<BState, BuilderError> {
        match sb_write(pre, 0, spec_u32_to_le_bytes(self.x)) {
            Err(e) => Err(e),
            Ok(s1) => sb_write(s1, 4, spec_u32_to_le_bytes(self.y)),
        }
    }

    fn size(&self) -> usize {
        8
    }

    fn alignment_pow2(&self) -> usize {
        2
    }

    fn serialize(&self, builder: &mut VossBuilder) -> Result<(), BuilderError> {
        match builder.float32(0, self.x) {
            Ok(()) => {},
            Err(e) => {
                return Err(e);
            },
        }
        builder.float32(4, self.y)
    }
}

impl FromReader for Point {
    open spec fn spec_from(data: Seq<u8>, cur: int) -> Result<PointV, ReaderError> {
        match sr_u32(data, cur, 0) {
            Err(e) => Err(e),
            Ok(x) => match sr_u32(data, cur, 4) {
                Err(e) => Err(e),
                Ok(y) => Ok(PointV { x, y }),
            },
        }
    }

    fn from_reader(reader: &mut VossReader) -> Result<Self, ReaderError> {
        let x = match reader.float32(0) {
            Ok(v) => v,
            Err(e) => {
                return Err(e);
            },
        };
        let y = match reader.float32(4) {
            Ok(v) => v,
            Err(e) => {
                return Err(e);
            },
        };
        Ok(Point { x, y })
    }
}

/// A named point: a 32-bit float field at 0, a nested [`Point`] behind the
/// pointer at 4, and a name string at 8. Size 16, alignment 4.
#[derive(PartialEq, Eq, Debug, Clone)]
pub struct Named {
    pub r: u32,
    pub p: Point,
    pub name: String,
}

/// The model of a [`Named`].
pub struct NamedV {
    pub r: u32,
    pub p: PointV,
    pub name: Seq<char>,
}

impl View for Named {
    type V = NamedV;

    open spec fn view(&self) -> NamedV {
        NamedV { r: self.r, p: self.p@, name: self.name@ }
    }
}

impl VossStruct for Named {
    open spec fn spec_size(&self) -> usize {
        16
    }

    open spec fn spec_align(&self) -> usize {
        2
    }

    open spec fn spec_serialize(&self, pre: BState) -> Result<BState, BuilderError> {
        match sb_write(pre, 0, spec_u32_to_le_bytes(self.r)) {
            Err(e) => Err(e),
            Ok(s1) => match sb_object(s1, 4, &self.p) {
                Err(e) => Err(e),
                Ok(s2) => sb_str(s2, 8, self.name@),
            },
        }
    }

    fn size(&self) -> usize {
        16
    }

    fn alignment_pow2(&self) -> usize {
        2
    }

    fn serialize(&self, builder: &mut VossBuilder) -> Result<(), BuilderError> {
        match builder.float32(0, self.r) {
            Ok(()) => {},
            Err(e) => {
                return Err(e);
            },
        }
        match builder.object(4, &self.p) {
            Ok(()) => {},
            Err(e) => {
                return Err(e);
            },
        }
        builder.str(8, &self.name)
    }
}

impl FromReader for Named {
    open spec fn spec_from(data: Seq<u8>, cur: int) -> Result<NamedV, ReaderError> {
        match sr_u32(data, cur, 0) {
            Err(e) => Err(e),
            Ok(r) => match sr_object::<Point>(data, cur, 4) {
                Err(e) => Err(e),
                Ok(p) => match sr_str(data, cur, 8) {
                    Err(e) => Err(e),
                    Ok(name) => Ok(NamedV { r, p, name }),
                },
            },
        }
    }

    fn from_reader(reader: &mut VossReader) -> Result<Self, ReaderError> {
        let r = match reader.float32(0) {
            Ok(v) => v,
            Err(e) => {
                return Err(e);
            },
        };
        let p = match reader.object::<Point>(4) {
            Ok(v) => v,
            Err(e) => {
                return Err(e);
            },
        };
        let name = match reader.str(8) {
            Ok(v) => v,
            Err(e) => {
                return Err(e);
            },
        };
        Ok(Named { r, p, name })
    }
}

/// An object of the type space: identifier, title and a position.
/// Layout: uuid at 0, title at 16, x at 24, y at 28; size 32, alignment 4.
#[derive(PartialEq, Eq, Debug, Clone)]
pub struct TypespaceObject {
    pub uuid: HASH16,
    pub title: String,
    pub x: i32,
    pub y: i32,
}

/// The model of a [`TypespaceObject`].
pub struct TypespaceObjectV {
    pub uuid: Seq<u8>,
    pub title: Seq<char>,
    pub x: i32,
    pub y: i32,
}

impl View for TypespaceObject {
    type V = TypespaceObjectV;

    open spec fn view(&self) -> TypespaceObjectV {
        TypespaceObjectV { uuid: self.uuid@, title: self.title@, x: self.x, y: self.y }
    }
}

impl VossStruct for TypespaceObject {
    open spec fn spec_size(&self) -> usize {
        32
    }

    open spec fn spec_align(&self) -> usize {
        2
    }

    open spec fn spec_serialize(&self, pre: BState) -> Result<BState, BuilderError> {
        match sb_write(pre, 0, self.uuid@) {
            Err(e) => Err(e),
            Ok(s1) => match sb_str(s1, 16, self.title@) {
                Err(e) => Err(e),
                Ok(s2) => match sb_write(s2, 24, spec_u32_to_le_bytes(self.x as u32)) {
                    Err(e) => Err(e),
                    Ok(s3) => sb_write(s3, 28, spec_u32_to_le_bytes(self.y as u32)),
                },
            },
        }
    }

    fn size(&self) -> usize {
        32
    }

    fn alignment_pow2(&self) -> usize {
        2
    }

    fn serialize(&self, builder: &mut VossBuilder) -> Result<(), BuilderError> {
        match builder.hash16(0, &self.uuid) {
            Ok(()) => {},
            Err(e) => {
                return Err(e);
            },
        }
        match builder.str(16, &self.title) {
            Ok(()) => {},
            Err(e) => {
                return Err(e);
            },
        }
        match builder.i32(24, self.x) {
            Ok(()) => {},
            Err(e) => {
                return Err(e);
            },
        }
        builder.i32(28, self.y)
    }
}

impl FromReader for TypespaceObject {
    open spec fn spec_from(data: Seq<u8>, cur: int) -> Result<TypespaceObjectV, ReaderError> {
        match sr_bytes(data, cur, 0, 16) {
            Err(e) => Err(e),
            Ok(uuid) => match sr_str(data, cur, 16) {
                Err(e) => Err(e),
                Ok(title) => match sr_i32(data, cur, 24) {
                    Err(e) => Err(e),
                    Ok(x) => match sr_i32(data, cur, 28) {
                        Err(e) => Err(e),
                        Ok(y) => Ok(TypespaceObjectV { uuid, title, x, y }),
                    },
                },
            },
        }
    }

    fn from_reader(reader: &mut VossReader) -> Result<Self, ReaderError> {
        let uuid = match reader.hash16(0) {
            Ok(v) => v,
            Err(e) => {
                return Err(e);
            },
        };
        let title = match reader.str(16) {
            Ok(v) => v,
            Err(e) => {
                return Err(e);
            },
        };
        let x = match reader.i32(24) {
            Ok(v) => v,
            Err(e) => {
                return Err(e);
            },
        };
        let y = match reader.i32(28) {
            Ok(v) => v,
            Err(e) => {
                return Err(e);
            },
        };
        Ok(TypespaceObject { uuid, title, x, y })
    }
}

/// A field of a type-space object: identifier, title, owning object, and
/// the field's type as an embedded tagged union.
/// Layout: uuid at 0, title at 16, owner at 24, field type's `{tag,
/// pointer}` at 40; size 48, alignment 4.
#[derive(PartialEq, Eq, Debug, Clone)]
pub struct TypespaceObjectField {
    pub uuid: HASH16,
    pub title: String,
    pub owner: HASH16,
    pub field_type: FieldType,
}

/// The model of a [`TypespaceObjectField`].
pub struct TypespaceObjectFieldV {
    pub uuid: Seq<u8>,
    pub title: Seq<char>,
    pub owner: Seq<u8>,
    pub field_type: FieldTypeV,
}

impl View for TypespaceObjectField {
    type V = TypespaceObjectFieldV;

    open spec fn view(&self) -> TypespaceObjectFieldV {
        TypespaceObjectFieldV {
            uuid: self.uuid@,
            title: self.title@,
            owner: self.owner@,
            field_type: self.field_type@,
        }
    }
}

impl VossStruct for TypespaceObjectField {
    open spec fn spec_size(&self) -> usize {
        48
    }

    open spec fn spec_align(&self) -> usize {
        2
    }

    open spec fn spec_serialize(&self, pre: BState) -> Result<BState, BuilderError> {
        match sb_write(pre, 0, self.uuid@) {
            Err(e) => Err(e),
            Ok(s1) => match sb_str(s1, 16, self.title@) {
                Err(e) => Err(e),
                Ok(s2) => match sb_write(s2, 24, self.owner@) {
                    Err(e) => Err(e),
                    Ok(s3) => sb_oneof(s3, 40, &self.field_type),
                },
            },
        }
    }

    fn size(&self) -> usize {
        48
    }

    fn alignment_pow2(&self) -> usize {
        2
    }

    fn serialize(&self, builder: &mut VossBuilder) -> Result<(), BuilderError> {
        match builder.hash16(0, &self.uuid) {
            Ok(()) => {},
            Err(e) => {
                return Err(e);
            },
        }
        match builder.str(16, &self.title) {
            Ok(()) => {},
            Err(e) => {
                return Err(e);
            },
        }
        match builder.hash16(24, &self.owner) {
            Ok(()) => {},
            Err(e) => {
                return Err(e);
            },
        }
        builder.oneof(40, &self.field_type)
    }
}

impl FromReader for TypespaceObjectField {
    open spec fn spec_from(data: Seq<u8>, cur: int) -> Result<TypespaceObjectFieldV, ReaderError> {
        match sr_bytes(data, cur, 0, 16) {
            Err(e) => Err(e),
            Ok(uuid) => match sr_str(data, cur, 16) {
                Err(e) => Err(e),
                Ok(title) => match sr_bytes(data, cur, 24, 16) {
                    Err(e) => Err(e),
                    Ok(owner) => match sr_oneof::<FieldType>(data, cur, 40) {
                        Err(e) => Err(e),
                        Ok(field_type) => Ok(
                            TypespaceObjectFieldV { uuid, title, owner, field_type },
                        ),
                    },
                },
            },
        }
    }

    fn from_reader(reader: &mut VossReader) -> Result<Self, ReaderError> {
        let uuid = match reader.hash16(0) {
            Ok(v) => v,
            Err(e) => {
                return Err(e);
            },
        };
        let title = match reader.str(16) {
            Ok(v) => v,
            Err(e) => {
                return Err(e);
            },
        };
        let owner = match reader.hash16(24) {
            Ok(v) => v,
            Err(e) => {
                return Err(e);
            },
        };
        let field_type = match reader.oneof::<FieldType>(40) {
            Ok(v) => v,
            Err(e) => {
                return Err(e);
            },
        };
        Ok(TypespaceObjectField { uuid, title, owner, field_type })
    }
}

} // verus!
