use voss::builder::VossBuilder;
use voss::error::ReaderError;
use voss::hash::HASH16;
use voss::reader::VossReader;
use voss::schema::{ClockMessage, FieldType, FieldTypeObjectReference, FieldTypePrimitive,
    HostIDMessage, Named, PingMessage, Point, RPCMessage, TypespaceObject, TypespaceObjectField};

#[test]
fn point_serializes_to_eight_bytes() {
    let p = Point { x: 0.5f32.to_bits(), y: 0.25f32.to_bits() };
    let bytes = VossBuilder::serialize_struct(&p).unwrap();
    assert_eq!(bytes, vec![0x00, 0x00, 0x00, 0x3F, 0x00, 0x00, 0x80, 0x3E]);
    let back: Point = VossReader::deserialize_struct(&bytes).unwrap();
    assert_eq!(back, p);
    assert_eq!(f32::from_bits(back.x), 0.5);
    assert_eq!(f32::from_bits(back.y), 0.25);
}

#[test]
fn named_nests_a_point_behind_a_pointer() {
    let v = Named {
        r: 1.0f32.to_bits(),
        p: Point { x: 0.5f32.to_bits(), y: 0.25f32.to_bits() },
        name: String::new(),
    };
    let bytes = VossBuilder::serialize_struct(&v).unwrap();
    assert_eq!(bytes.len(), 24);
    // The empty name encodes as {0, 0} at offsets 8..16.
    assert_eq!(&bytes[8..16], &[0u8; 8]);
    // The pointer at offset 4 resolves to the point written at offset 16.
    assert_eq!(&bytes[4..8], &[12, 0, 0, 0]);
    assert_eq!(&bytes[16..20], &0.5f32.to_le_bytes());
    assert_eq!(&bytes[20..24], &0.25f32.to_le_bytes());
    let back: Named = VossReader::deserialize_struct(&bytes).unwrap();
    assert_eq!(back, v);
}

#[test]
fn clock_enum_root_has_tag_pointer_and_payload() {
    let m = RPCMessage::Clock(ClockMessage { timestamp: 123456.8f64.to_bits() });
    let bytes = VossBuilder::serialize_enum(&m).unwrap();
    assert_eq!(bytes.len(), 16);
    assert_eq!(&bytes[0..4], &[7, 0, 0, 0]);
    assert_eq!(&bytes[4..8], &[4, 0, 0, 0]);
    assert_eq!(&bytes[8..16], &123456.8f64.to_le_bytes());
    let back: RPCMessage = VossReader::deserialize_enum(&bytes).unwrap();
    assert_eq!(back, m);
}

#[test]
fn string_field_in_eight_byte_record() {
    let v = FieldTypePrimitive { provider: String::from("AB") };
    let bytes = VossBuilder::serialize_struct(&v).unwrap();
    assert_eq!(bytes.len(), 12);
    assert_eq!(&bytes[0..4], &[4, 0, 0, 0]);
    assert_eq!(&bytes[4..8], &[8, 0, 0, 0]);
    assert_eq!(&bytes[8..12], &[0x41, 0x00, 0x42, 0x00]);
    let back: FieldTypePrimitive = VossReader::deserialize_struct(&bytes).unwrap();
    assert_eq!(back, v);
}

#[test]
fn short_buffer_is_an_invalid_record() {
    let bytes = [1u8, 2, 3];
    let r: Result<HostIDMessage, ReaderError> = VossReader::deserialize_struct(&bytes);
    assert!(matches!(r, Err(ReaderError::InvalidBuffer)));
}

#[test]
fn dangling_union_pointer_is_invalid() {
    let bytes = [7u8, 0, 0, 0, 0x40, 0, 0, 0];
    let r: Result<RPCMessage, ReaderError> = VossReader::deserialize_enum(&bytes);
    assert!(matches!(r, Err(ReaderError::InvalidBuffer)));
}

#[test]
fn unknown_union_tag_is_invalid() {
    let bytes = [99u8, 0, 0, 0, 4, 0, 0, 0, 0, 0, 0, 0];
    let r: Result<RPCMessage, ReaderError> = VossReader::deserialize_enum(&bytes);
    assert!(matches!(r, Err(ReaderError::InvalidBuffer)));
}

#[test]
fn host_id_round_trips() {
    let m = RPCMessage::HostID(HostIDMessage { value: 0x01020304 });
    let bytes = VossBuilder::serialize_enum(&m).unwrap();
    assert_eq!(bytes.len(), 12);
    assert_eq!(&bytes[0..4], &[8, 0, 0, 0]);
    assert_eq!(&bytes[8..12], &[0x04, 0x03, 0x02, 0x01]);
    let back: RPCMessage = VossReader::deserialize_enum(&bytes).unwrap();
    assert_eq!(back, m);
}

#[test]
fn zero_sized_payload_stamps_null_pointer() {
    let m = RPCMessage::Ping(PingMessage {});
    let bytes = VossBuilder::serialize_enum(&m).unwrap();
    assert_eq!(bytes, vec![9, 0, 0, 0, 0, 0, 0, 0]);
    let back: RPCMessage = VossReader::deserialize_enum(&bytes).unwrap();
    assert_eq!(back, m);
}

#[test]
fn typespace_object_round_trips_with_unicode_title() {
    let v = TypespaceObject {
        uuid: HASH16::new("00112233445566778899aabbccddeeff"),
        title: String::from("h\u{E9}llo \u{1D11E}"),
        x: -5,
        y: 7,
    };
    let bytes = VossBuilder::serialize_struct(&v).unwrap();
    // 7 characters make 8 UTF-16 code units: 16 payload bytes after the
    // 32-byte inline record.
    assert_eq!(bytes.len(), 48);
    assert_eq!(&bytes[16..20], &[16, 0, 0, 0]);
    assert_eq!(&bytes[20..24], &[16, 0, 0, 0]);
    let back: TypespaceObject = VossReader::deserialize_struct(&bytes).unwrap();
    assert_eq!(back, v);
}

#[test]
fn typespace_object_with_empty_title_round_trips() {
    let v = TypespaceObject {
        uuid: HASH16::new("ffeeddccbbaa99887766554433221100"),
        title: String::new(),
        x: i32::MIN,
        y: i32::MAX,
    };
    let bytes = VossBuilder::serialize_struct(&v).unwrap();
    assert_eq!(bytes.len(), 32);
    let back: TypespaceObject = VossReader::deserialize_struct(&bytes).unwrap();
    assert_eq!(back, v);
}

#[test]
fn object_reference_record_round_trips() {
    let v = FieldTypeObjectReference { obj: HASH16::new("0123456789abcdef0123456789abcdef") };
    let bytes = VossBuilder::serialize_struct(&v).unwrap();
    assert_eq!(bytes.len(), 16);
    let back: FieldTypeObjectReference = VossReader::deserialize_struct(&bytes).unwrap();
    assert_eq!(back, v);
}

#[test]
fn field_type_union_object_reference_round_trips() {
    let u = FieldType::ObjectReference(FieldTypeObjectReference {
        obj: HASH16::new("0123456789abcdef0123456789abcdef"),
    });
    let bytes = VossBuilder::serialize_enum(&u).unwrap();
    assert_eq!(&bytes[0..4], &[2, 0, 0, 0]);
    let back: FieldType = VossReader::deserialize_enum(&bytes).unwrap();
    assert_eq!(back, u);
}

#[test]
fn field_type_union_empty_primitive_round_trips() {
    let u = FieldType::Primitive(FieldTypePrimitive { provider: String::new() });
    let bytes = VossBuilder::serialize_enum(&u).unwrap();
    assert_eq!(&bytes[0..4], &[1, 0, 0, 0]);
    let back: FieldType = VossReader::deserialize_enum(&bytes).unwrap();
    assert_eq!(back, u);
}

#[test]
fn field_type_union_primitive_with_text_round_trips() {
    let u = FieldType::Primitive(FieldTypePrimitive { provider: String::from("AB") });
    let bytes = VossBuilder::serialize_enum(&u).unwrap();
    // Root {tag, pointer}, then the 8-byte record at offset 8, then the
    // payload at offset 16: its relative offset, measured from the size
    // field's own address at 8, is 8.
    assert_eq!(bytes.len(), 20);
    assert_eq!(&bytes[0..4], &[1, 0, 0, 0]);
    assert_eq!(&bytes[4..8], &[4, 0, 0, 0]);
    assert_eq!(&bytes[8..12], &[4, 0, 0, 0]);
    assert_eq!(&bytes[12..16], &[8, 0, 0, 0]);
    assert_eq!(&bytes[16..20], &[0x41, 0x00, 0x42, 0x00]);
    let back: FieldType = VossReader::deserialize_enum(&bytes).unwrap();
    assert_eq!(back, u);
}

#[test]
fn object_field_with_embedded_union_round_trips() {
    let v = TypespaceObjectField {
        uuid: HASH16::new("00112233445566778899aabbccddeeff"),
        title: String::from("F"),
        owner: HASH16::new("ffeeddccbbaa99887766554433221100"),
        field_type: FieldType::ObjectReference(FieldTypeObjectReference {
            obj: HASH16::new("0123456789abcdef0123456789abcdef"),
        }),
    };
    let bytes = VossBuilder::serialize_struct(&v).unwrap();
    // 48 inline + 2 title payload + 16 nested record.
    assert_eq!(bytes.len(), 66);
    // The title's payload lands at the heap frontier, offset 48.
    assert_eq!(&bytes[16..20], &[2, 0, 0, 0]);
    assert_eq!(&bytes[20..24], &[32, 0, 0, 0]);
    assert_eq!(&bytes[48..50], &[0x46, 0x00]);
    // The embedded union: tag at 40, pointer at 44 to the record at 50.
    assert_eq!(&bytes[40..44], &[2, 0, 0, 0]);
    assert_eq!(&bytes[44..48], &[6, 0, 0, 0]);
    let back: TypespaceObjectField = VossReader::deserialize_struct(&bytes).unwrap();
    assert_eq!(back, v);
}

#[test]
fn object_field_with_nested_string_round_trips() {
    let v = TypespaceObjectField {
        uuid: HASH16::new("00112233445566778899aabbccddeeff"),
        title: String::from("width"),
        owner: HASH16::new("ffeeddccbbaa99887766554433221100"),
        field_type: FieldType::Primitive(FieldTypePrimitive {
            provider: String::from("i32"),
        }),
    };
    let bytes = VossBuilder::serialize_struct(&v).unwrap();
    let back: TypespaceObjectField = VossReader::deserialize_struct(&bytes).unwrap();
    assert_eq!(back, v);
}

#[test]
fn clock_message_as_root_struct_round_trips() {
    let m = ClockMessage { timestamp: 0.0f64.to_bits() };
    let bytes = VossBuilder::serialize_struct(&m).unwrap();
    assert_eq!(bytes.len(), 8);
    let back: ClockMessage = VossReader::deserialize_struct(&bytes).unwrap();
    assert_eq!(back, m);
}
