use rompatcher::hashing::HashingReader;
use rompatcher::stream::PositionTracker;
use rompatcher::varint::{encode_byuu, encode_vcd};

#[test]
pub fn test_read_number() {
    let mut reader = HashingReader::new(vec![0x0E, 0xB0, 0x80, 0x00u8]);
    let offset = reader.read_varint().unwrap();
    // Expected value obtained from the RomPatcher.js implementation.
    assert_eq!(offset, 6286);
    assert_eq!(reader.position(), 2);
}

#[test]
pub fn byuu_small_values_encode_to_one_byte() {
    assert_eq!(encode_byuu(0), vec![0x80]);
    assert_eq!(encode_byuu(1), vec![0x81]);
    assert_eq!(encode_byuu(127), vec![0xFF]);
    assert_eq!(encode_byuu(128), vec![0x00, 0x80]);
}

#[test]
pub fn byuu_round_trips_through_decoder() {
    let values = [
        0u64,
        1,
        127,
        128,
        6286,
        0xFFFF_FFFF,
        0x7FFF_FFFF_FFFF_FFFF,
        u64::MAX,
    ];
    for &v in values.iter() {
        let enc = encode_byuu(v);
        let n = enc.len() as u64;
        let mut reader = HashingReader::new(enc);
        assert_eq!(reader.read_varint(), Some(v));
        assert_eq!(reader.position(), n);
    }
}

#[test]
pub fn byuu_truncated_varint_fails() {
    // No terminator byte with the high bit set.
    let mut reader = HashingReader::new(vec![0x00, 0x00, 0x00u8]);
    assert_eq!(reader.read_varint(), None);
}

#[test]
pub fn byuu_overflowing_varint_fails() {
    // Ten continuation bytes push the value far past 64 bits.
    let mut reader = HashingReader::new(vec![0x00; 16]);
    assert_eq!(reader.read_varint(), None);
}

#[test]
pub fn vcdiff_round_trips_at_the_32_bit_boundary() {
    let enc = encode_vcd(u32::MAX as u64);
    let n = enc.len();
    let mut reader = PositionTracker::from_start(enc);
    assert_eq!(reader.read_vcdiff_u32(), Some(u32::MAX));
    assert_eq!(reader.position() as usize, n);
}

#[test]
pub fn vcdiff_one_past_the_32_bit_boundary_fails() {
    let beyond = u32::MAX as u64 + 1;
    let enc = encode_vcd(beyond);
    let mut narrow = PositionTracker::from_start(enc.clone());
    assert_eq!(narrow.read_vcdiff_u32(), None);
    // The same bytes decode fine into a wider integer.
    let mut wide = PositionTracker::from_start(enc);
    assert_eq!(wide.read_vcdiff_u64(), Some(beyond));
}

#[test]
pub fn vcdiff_examples_from_the_rfc() {
    // 123456789 encodes to 3A DE 68 B1 in big-endian base 128.
    assert_eq!(encode_vcd(123456789), vec![0xBA, 0xEF, 0x9A, 0x15]);
    let mut reader = PositionTracker::from_start(vec![0xBA, 0xEF, 0x9A, 0x15]);
    assert_eq!(reader.read_vcdiff_u32(), Some(123456789));
}

#[test]
pub fn signed_varint_splits_sign_and_magnitude() {
    // An unsigned value of 2k encodes +k; 2k + 1 encodes -k.
    let mut reader = HashingReader::new(encode_byuu(10));
    assert_eq!(reader.read_signed_varint(), Some(5));
    let mut reader = HashingReader::new(encode_byuu(11));
    assert_eq!(reader.read_signed_varint(), Some(-5));
}
