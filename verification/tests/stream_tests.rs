use rompatcher::crc::{WithCrc32, crc32};
use rompatcher::hashing::{HashingReader, HashingWriter, MonotonicHashingReader};
use rompatcher::repeat::RepeatSlice;
use rompatcher::stream::PositionTracker;

#[test]
pub fn copy_to_slice_multiple_reads() {
    let mut cursor = PositionTracker::from_start(vec![1u8, 2, 3, 4, 5]);
    let mut buf = vec![0u8; 5];
    let bytes_copied = cursor.copy_to_slice(&mut buf);
    assert_eq!(bytes_copied as usize, buf.len());
    assert_eq!(cursor.get_ref().as_slice(), &buf[..]);
}

#[test]
pub fn copy_to_slice_stops_at_eof() {
    let mut cursor = PositionTracker::from_start(vec![2u8, 3, 5, 7, 11]);
    let mut buf = vec![13u8; 6];
    let bytes_copied = cursor.copy_to_slice(&mut buf);
    assert_eq!(bytes_copied, 5);
    assert_eq!(&buf[..], &[2, 3, 5, 7, 11, 13]);
    assert_eq!(cursor.position(), 5);
}

#[test]
pub fn test_repeat_slice() {
    let mut repeat = RepeatSlice::new(vec![1u8, 2, 3]);
    let mut buf = vec![0u8; 2];
    repeat.read(&mut buf);
    assert_eq!(&buf[..], &[1, 2]);
    repeat.read(&mut buf);
    assert_eq!(&buf[..], &[3, 1]);
    repeat.read(&mut buf);
    assert_eq!(&buf[..], &[2, 3]);
}

#[test]
pub fn repeat_slice_single_byte() {
    let mut repeat = RepeatSlice::new(vec![0x55u8]);
    let mut buf = vec![0u8; 3];
    repeat.read(&mut buf);
    assert_eq!(&buf[..], &[0x55, 0x55, 0x55]);
}

#[test]
pub fn position_tracker_number_readers() {
    let mut t = PositionTracker::from_start(vec![0x12u8, 0x34, 0x56, 0x78, 0x9A]);
    assert_eq!(t.read_u16_be(), Some(0x1234));
    assert_eq!(t.read_u24_be(), Some(0x56789A));
    assert_eq!(t.read_u8(), None);
    let ok = t.seek_to(1);
    assert!(ok);
    assert_eq!(t.read_u32_le(), Some(0x9A785634));
}

#[test]
pub fn hashing_reader_matches_whole_file_crc() {
    let data = vec![0xDEu8, 0xAD, 0xBE, 0xEF, 0x42];
    let (expected, len) = crc32(&data);
    assert_eq!(len, 5);
    let mut r = HashingReader::new(data);
    while r.read_u8().is_some() {}
    assert_eq!(r.hasher().finish().value(), expected.value());
}

#[test]
pub fn hashing_writer_matches_whole_file_crc() {
    let data = vec![1u8, 2, 3, 4, 5, 6];
    let (expected, _) = crc32(&data);
    let mut w = HashingWriter::new();
    w.write_all(&data[..3]);
    w.write_u8(data[3]);
    w.write_all(&data[4..]);
    assert_eq!(w.position(), 6);
    assert_eq!(w.hasher().finish().value(), expected.value());
    assert_eq!(w.into_inner(), data);
}

#[test]
pub fn monotonic_reader_hashes_each_byte_once() {
    // Read and seek back and forth; the final checksum must still be the
    // whole-file CRC-32, with every byte hashed exactly once.
    let data = vec![9u8, 8, 7, 6, 5, 4, 3, 2, 1, 0];
    let (expected, _) = crc32(&data);
    let mut r = MonotonicHashingReader::new(data);
    assert_eq!(r.read_u8(), Some(9));
    assert!(r.seek_to(6));
    assert_eq!(r.read_u8(), Some(3));
    assert!(r.seek_to(2));
    assert_eq!(r.read_u8(), Some(7));
    assert!(!r.seek_to(11));
    let hashed_before = r.position();
    assert_eq!(hashed_before, 7);
    let _ = r.hash_remainder();
    assert_eq!(r.position(), 10);
    assert_eq!(r.hasher().finish().value(), expected.value());
}

#[test]
pub fn with_crc32_holds_checksum_and_length() {
    let data = vec![0x10u8, 0x20, 0x30];
    let (expected, _) = crc32(&data);
    let wrapped = WithCrc32::new(data.clone());
    assert_eq!(wrapped.crc32().value(), expected.value());
    assert_eq!(wrapped.eof(), 3);
    assert_eq!(wrapped.into_inner(), data);
}
