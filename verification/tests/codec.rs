use voss::align::next_number_divisible_by_pow2;
use voss::builder::VossBuilder;
use voss::error::{BuilderError, ReaderError};
use voss::hash::{HASH16, HASH20};
use voss::reader::VossReader;

#[test]
fn primitive_writes_are_little_endian() {
    let mut b = VossBuilder::new(32);
    b.u8(0, 0xAB).unwrap();
    b.u16(2, 0x1122).unwrap();
    b.u32(4, 0x01020304).unwrap();
    b.i8(8, -1).unwrap();
    b.i16(10, -2).unwrap();
    b.i32(12, -3).unwrap();
    b.float32(16, 1.0f32.to_bits()).unwrap();
    b.float64(20, (-2.5f64).to_bits()).unwrap();
    b.bool(28, true).unwrap();
    b.bool(29, false).unwrap();
    let data = b.finish();
    assert_eq!(data.len(), 32);
    assert_eq!(data[0], 0xAB);
    assert_eq!(&data[2..4], &[0x22, 0x11]);
    assert_eq!(&data[4..8], &[0x04, 0x03, 0x02, 0x01]);
    assert_eq!(data[8], 0xFF);
    assert_eq!(&data[10..12], &(-2i16).to_le_bytes());
    assert_eq!(&data[12..16], &(-3i32).to_le_bytes());
    assert_eq!(&data[16..20], &1.0f32.to_le_bytes());
    assert_eq!(&data[20..28], &(-2.5f64).to_le_bytes());
    // The wire's inherited convention: true is byte 0, false is byte 1.
    assert_eq!(data[28], 0);
    assert_eq!(data[29], 1);
}

#[test]
fn out_of_bound_write_is_rejected() {
    let mut b = VossBuilder::new(4);
    assert!(b.u32(0, 1).is_ok());
    assert!(matches!(b.u32(1, 1), Err(BuilderError::OutOfBound)));
    assert!(matches!(b.u8(4, 1), Err(BuilderError::OutOfBound)));
    assert!(matches!(b.float64(0, 0), Err(BuilderError::OutOfBound)));
    assert!(matches!(b.u16(3, 1), Err(BuilderError::OutOfBound)));
}

#[test]
fn hash_fields_are_written_inline() {
    let h16 = HASH16::new("000102030405060708090a0b0c0d0e0f");
    let h20 = HASH20::new("000102030405060708090A0B0C0D0E0F10111213");
    let mut b = VossBuilder::new(36);
    b.hash16(0, &h16).unwrap();
    b.hash20(16, &h20).unwrap();
    let data = b.finish();
    let expected16: Vec<u8> = (0u8..16).collect();
    let expected20: Vec<u8> = (0u8..20).collect();
    assert_eq!(&data[0..16], &expected16[..]);
    assert_eq!(&data[16..36], &expected20[..]);
}

#[test]
fn uuid_is_written_inline() {
    let mut b = VossBuilder::new(16);
    b.uuid(0, [9u8; 16]).unwrap();
    assert_eq!(b.finish(), vec![9u8; 16]);
}

#[test]
fn string_write_reserves_heap_and_stamps_pointer() {
    let mut b = VossBuilder::new(8);
    b.str(0, &String::from("AB")).unwrap();
    let data = b.finish();
    assert_eq!(data.len(), 12);
    assert_eq!(&data[0..4], &[4, 0, 0, 0]);
    assert_eq!(&data[4..8], &[8, 0, 0, 0]);
    assert_eq!(&data[8..12], &[0x41, 0x00, 0x42, 0x00]);
}

#[test]
fn empty_string_stamps_zero_pair() {
    let mut b = VossBuilder::new(8);
    b.str(0, &String::new()).unwrap();
    let data = b.finish();
    assert_eq!(data, vec![0u8; 8]);
}

#[test]
fn primitive_reads_decode_little_endian() {
    let data = [0x04u8, 0x03, 0x02, 0x01, 0x22, 0x11, 0xFF, 0xFE];
    let r = VossReader::new(&data);
    assert_eq!(r.u32(0).unwrap(), 0x01020304);
    assert_eq!(r.u16(4).unwrap(), 0x1122);
    assert_eq!(r.u8(6).unwrap(), 0xFF);
    assert_eq!(r.i8(6).unwrap(), -1);
    assert_eq!(r.i16(6).unwrap(), -257);
    assert_eq!(r.i32(0).unwrap(), 0x01020304);
}

#[test]
fn float_reads_decode_bit_patterns() {
    let mut data = Vec::new();
    data.extend_from_slice(&0.5f32.to_le_bytes());
    data.extend_from_slice(&123456.8f64.to_le_bytes());
    let r = VossReader::new(&data);
    assert_eq!(f32::from_bits(r.float32(0).unwrap()), 0.5);
    assert_eq!(f64::from_bits(r.float64(4).unwrap()), 123456.8);
}

#[test]
fn hash_reads_decode_inline_bytes() {
    let mut data: Vec<u8> = (0u8..16).collect();
    data.extend(0u8..20);
    let r = VossReader::new(&data);
    assert_eq!(r.hash16(0).unwrap(), HASH16::new("000102030405060708090a0b0c0d0e0f"));
    assert_eq!(r.hash20(16).unwrap(), HASH20::new("000102030405060708090a0b0c0d0e0f10111213"));
}

#[test]
fn read_past_end_is_invalid() {
    let data = [1u8, 2, 3];
    let r = VossReader::new(&data);
    assert!(matches!(r.u32(0), Err(ReaderError::InvalidBuffer)));
    assert!(matches!(r.u8(3), Err(ReaderError::InvalidBuffer)));
    assert!(matches!(r.u16(2), Err(ReaderError::InvalidBuffer)));
    assert!(matches!(r.float64(0), Err(ReaderError::InvalidBuffer)));
    assert!(matches!(r.hash16(0), Err(ReaderError::InvalidBuffer)));
    assert!(matches!(r.hash20(0), Err(ReaderError::InvalidBuffer)));
}

#[test]
fn valid_string_reads_back() {
    let data = [4u8, 0, 0, 0, 8, 0, 0, 0, 0x41, 0x00, 0x42, 0x00];
    let r = VossReader::new(&data);
    assert_eq!(r.str(0).unwrap(), "AB");
}

#[test]
fn surrogate_pair_string_reads_back() {
    // U+1D11E as the surrogate pair D834 DD1E, little-endian.
    let data = [4u8, 0, 0, 0, 8, 0, 0, 0, 0x34, 0xD8, 0x1E, 0xDD];
    let r = VossReader::new(&data);
    assert_eq!(r.str(0).unwrap(), "\u{1D11E}");
}

#[test]
fn odd_string_size_is_invalid() {
    let data = [3u8, 0, 0, 0, 8, 0, 0, 0, 0x41, 0x00, 0x42, 0x00];
    let r = VossReader::new(&data);
    assert!(matches!(r.str(0), Err(ReaderError::InvalidBuffer)));
}

#[test]
fn zero_size_string_with_offset_is_invalid() {
    let data = [0u8, 0, 0, 0, 8, 0, 0, 0];
    let r = VossReader::new(&data);
    assert!(matches!(r.str(0), Err(ReaderError::InvalidBuffer)));
}

#[test]
fn zero_size_string_with_zero_offset_is_empty() {
    let data = [0u8; 8];
    let r = VossReader::new(&data);
    assert_eq!(r.str(0).unwrap(), "");
}

#[test]
fn string_payload_past_end_is_invalid() {
    let data = [4u8, 0, 0, 0, 8, 0, 0, 0];
    let r = VossReader::new(&data);
    assert!(matches!(r.str(0), Err(ReaderError::InvalidBuffer)));
}

#[test]
fn unpaired_surrogate_is_invalid() {
    let data = [2u8, 0, 0, 0, 8, 0, 0, 0, 0x00, 0xD8];
    let r = VossReader::new(&data);
    assert!(matches!(r.str(0), Err(ReaderError::InvalidBuffer)));
}

#[test]
fn align_up_is_the_next_multiple() {
    assert_eq!(next_number_divisible_by_pow2(0, 3), 0);
    assert_eq!(next_number_divisible_by_pow2(5, 2), 8);
    assert_eq!(next_number_divisible_by_pow2(8, 2), 8);
    assert_eq!(next_number_divisible_by_pow2(9, 0), 9);
    assert_eq!(next_number_divisible_by_pow2(17, 4), 32);
    assert_eq!(next_number_divisible_by_pow2(0xFFFF_FFFF, 1), 0x1_0000_0000);
}

#[test]
fn hex_hashes_parse_case_insensitively() {
    let lower = HASH16::new("deadbeefdeadbeefdeadbeefdeadbeef");
    let upper = HASH16::new("DEADBEEFDEADBEEFDEADBEEFDEADBEEF");
    assert_eq!(lower, upper);
}

#[test]
fn hashes_format_back_to_lower_case_hex() {
    let h16 = HASH16::new("DEADBEEF00112233445566778899aabb");
    assert_eq!(h16.to_hex(), "deadbeef00112233445566778899aabb");
    let h20 = HASH20::new("0123456789abcdef0123456789abcdef01234567");
    assert_eq!(h20.to_hex(), "0123456789abcdef0123456789abcdef01234567");
}
