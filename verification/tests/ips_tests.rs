use rompatcher::hashing::{HashingReader, HashingWriter, MonotonicHashingReader};
use rompatcher::patch::ips::{PatchingError, patch};

fn apply(source: Vec<u8>, patch_bytes: Vec<u8>) -> Result<(Vec<u8>, u64), PatchingError> {
    let mut rom = MonotonicHashingReader::new(source);
    let mut pr = HashingReader::new(patch_bytes);
    let mut output = HashingWriter::new();
    let size = patch(&mut rom, &mut pr, &mut output)?;
    Ok((output.into_inner(), size))
}

#[test]
pub fn identity_plus_one_byte() {
    // Replace the byte at offset 2 with FF.
    let source = vec![0x00u8, 0x01, 0x02, 0x03, 0x04];
    let patch_bytes = vec![
        b'P', b'A', b'T', b'C', b'H', 0x00, 0x00, 0x02, 0x00, 0x01, 0xFF, b'E', b'O', b'F',
    ];
    let (out, size) = apply(source, patch_bytes).unwrap();
    assert_eq!(out, vec![0x00, 0x01, 0xFF, 0x03, 0x04]);
    assert_eq!(size, 5);
}

#[test]
pub fn rle_hunk() {
    // A run-length record: three copies of 55 at offset 1.
    let source = vec![0xAAu8, 0xAA, 0xAA, 0xAA];
    let patch_bytes = vec![
        b'P', b'A', b'T', b'C', b'H', 0x00, 0x00, 0x01, 0x00, 0x00, 0x00, 0x03, 0x55, b'E', b'O',
        b'F',
    ];
    let (out, _) = apply(source, patch_bytes).unwrap();
    assert_eq!(out, vec![0xAA, 0x55, 0x55, 0x55]);
}

#[test]
pub fn truncate() {
    // Two replaced bytes, then a trailer bounding the output at four bytes.
    let source = vec![0x11u8, 0x22, 0x33, 0x44, 0x55, 0x66, 0x77, 0x88];
    let patch_bytes = vec![
        b'P', b'A', b'T', b'C', b'H', 0x00, 0x00, 0x00, 0x00, 0x02, 0xAA, 0xBB, b'E', b'O', b'F',
        0x00, 0x00, 0x04,
    ];
    let (out, size) = apply(source, patch_bytes).unwrap();
    assert_eq!(out, vec![0xAA, 0xBB, 0x33, 0x44]);
    assert_eq!(size, 4);
}

#[test]
pub fn whole_source_replacement_with_trailer() {
    // A single record covering the whole source, with a trailer equal to
    // the new length: the output is exactly the replacement.
    let source = vec![0x01u8, 0x02, 0x03];
    let replacement = [0x99u8, 0x98, 0x97, 0x96];
    let mut patch_bytes = vec![b'P', b'A', b'T', b'C', b'H', 0x00, 0x00, 0x00, 0x00, 0x04];
    patch_bytes.extend_from_slice(&replacement);
    patch_bytes.extend_from_slice(&[b'E', b'O', b'F', 0x00, 0x00, 0x04]);
    let (out, size) = apply(source, patch_bytes).unwrap();
    assert_eq!(out, replacement.to_vec());
    assert_eq!(size, 4);
}

#[test]
pub fn record_list_without_records_is_rejected() {
    let source = vec![0x11u8, 0x22];
    let patch_bytes = vec![b'P', b'A', b'T', b'C', b'H', b'E', b'O', b'F'];
    assert_eq!(apply(source, patch_bytes), Err(PatchingError::BadPatch));
}

#[test]
pub fn junk_after_trailer_is_rejected() {
    let source = vec![0x11u8, 0x22];
    let patch_bytes = vec![
        b'P', b'A', b'T', b'C', b'H', 0x00, 0x00, 0x00, 0x00, 0x01, 0xAA, b'E', b'O', b'F', 0x00,
        0x00, 0x02, 0xFF,
    ];
    assert_eq!(apply(source, patch_bytes), Err(PatchingError::BadPatch));
}

#[test]
pub fn ips_bad_magic_is_rejected() {
    let source = vec![0x11u8];
    let patch_bytes = vec![b'P', b'A', b'T', b'C', b'X', b'E', b'O', b'F'];
    assert_eq!(apply(source, patch_bytes), Err(PatchingError::BadPatch));
}

#[test]
pub fn source_too_small_for_record_offset() {
    // The record starts at offset 4 but the source holds only two bytes.
    let source = vec![0x11u8, 0x22];
    let patch_bytes = vec![
        b'P', b'A', b'T', b'C', b'H', 0x00, 0x00, 0x04, 0x00, 0x01, 0xAA, b'E', b'O', b'F',
    ];
    assert_eq!(
        apply(source, patch_bytes),
        Err(PatchingError::InputFileTooSmall)
    );
}

#[test]
pub fn zero_length_rle_is_rejected() {
    let source = vec![0x11u8, 0x22];
    let patch_bytes = vec![
        b'P', b'A', b'T', b'C', b'H', 0x00, 0x00, 0x00, 0x00, 0x00, 0x00, 0x00, 0x55, b'E', b'O',
        b'F',
    ];
    assert_eq!(apply(source, patch_bytes), Err(PatchingError::BadPatch));
}
