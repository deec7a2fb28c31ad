use rompatcher::hashing::{HashingReader, HashingWriter, MonotonicHashingReader};
use rompatcher::patch::ppf::{FooterBodyLengthType, ImageType, PatchingError, RomOffsetType, patch};

fn apply(source: Vec<u8>, patch_bytes: Vec<u8>, strict: bool) -> Result<Vec<u8>, PatchingError> {
    let mut rom = MonotonicHashingReader::new(source);
    let mut pr = HashingReader::new(patch_bytes);
    let mut output = HashingWriter::new();
    patch(&mut rom, &mut pr, &mut output, strict)?;
    Ok(output.into_inner())
}

/// A version 1 header: magic, version byte, and a blank description.
fn v1_header() -> Vec<u8> {
    let mut v = vec![b'P', b'P', b'F', b'1', b'0', 0x00];
    v.extend_from_slice(&[0x20u8; 50]);
    v
}

/// A version 3 header with no block check.
fn v3_header(undo: u8) -> Vec<u8> {
    let mut v = vec![b'P', b'P', b'F', b'3', b'0', 0x02];
    v.extend_from_slice(&[0x20u8; 50]);
    v.extend_from_slice(&[0x00, 0x00, undo, 0x00]);
    v
}

#[test]
pub fn v1_record_replaces_bytes() {
    let source = vec![0x00u8, 0x01, 0x02, 0x03, 0x04];
    let mut patch_bytes = v1_header();
    // One record: offset 2 (4-byte little-endian), one byte FF.
    patch_bytes.extend_from_slice(&[0x02, 0x00, 0x00, 0x00, 0x01, 0xFF]);
    let out = apply(source, patch_bytes, true).unwrap();
    assert_eq!(out, vec![0x00, 0x01, 0xFF, 0x03, 0x04]);
}

#[test]
pub fn v1_multiple_records_and_kept_tail() {
    let source = vec![0x10u8, 0x11, 0x12, 0x13, 0x14, 0x15];
    let mut patch_bytes = v1_header();
    patch_bytes.extend_from_slice(&[0x00, 0x00, 0x00, 0x00, 0x02, 0xA0, 0xA1]);
    patch_bytes.extend_from_slice(&[0x04, 0x00, 0x00, 0x00, 0x01, 0xB0]);
    let out = apply(source, patch_bytes, true).unwrap();
    assert_eq!(out, vec![0xA0, 0xA1, 0x12, 0x13, 0xB0, 0x15]);
}

#[test]
pub fn v3_undo_data_is_skipped() {
    let source = vec![0x00u8, 0x01, 0x02];
    let mut patch_bytes = v3_header(0x01);
    // Offset 1 (8-byte little-endian), one new byte, one undo byte.
    patch_bytes.extend_from_slice(&[0x01, 0x00, 0x00, 0x00, 0x00, 0x00, 0x00, 0x00]);
    patch_bytes.extend_from_slice(&[0x01, 0xEE, 0x01]);
    let out = apply(source, patch_bytes, true).unwrap();
    assert_eq!(out, vec![0x00, 0xEE, 0x02]);
}

#[test]
pub fn v3_footer_is_not_patch_data() {
    let source = vec![0x00u8, 0x01, 0x02];
    let mut patch_bytes = v3_header(0x00);
    patch_bytes.extend_from_slice(&[0x01, 0x00, 0x00, 0x00, 0x00, 0x00, 0x00, 0x00]);
    patch_bytes.extend_from_slice(&[0x01, 0xEE]);
    // A file-id footer with an empty body and a 2-byte length field.
    patch_bytes.extend_from_slice(b"@BEGIN_FILE_ID.DIZ");
    patch_bytes.extend_from_slice(b"@END_FILE_ID.DIZ");
    patch_bytes.extend_from_slice(&[0x00, 0x00]);
    let out = apply(source, patch_bytes, true).unwrap();
    assert_eq!(out, vec![0x00, 0xEE, 0x02]);
}

#[test]
pub fn zero_length_record_is_rejected() {
    let source = vec![0x00u8, 0x01];
    let mut patch_bytes = v1_header();
    patch_bytes.extend_from_slice(&[0x00, 0x00, 0x00, 0x00, 0x00]);
    assert_eq!(
        apply(source, patch_bytes, true),
        Err(PatchingError::BadPatch)
    );
}

#[test]
pub fn version_byte_must_match_magic() {
    let source = vec![0x00u8];
    let mut patch_bytes = vec![b'P', b'P', b'F', b'1', b'0', 0x02];
    patch_bytes.extend_from_slice(&[0x20u8; 50]);
    patch_bytes.extend_from_slice(&[0x00, 0x00, 0x00, 0x00, 0x01, 0xFF]);
    assert_eq!(
        apply(source, patch_bytes, true),
        Err(PatchingError::BadPatch)
    );
}

#[test]
pub fn record_past_source_end_is_too_small() {
    let source = vec![0x00u8, 0x01];
    let mut patch_bytes = v1_header();
    patch_bytes.extend_from_slice(&[0x07, 0x00, 0x00, 0x00, 0x01, 0xFF]);
    assert_eq!(
        apply(source, patch_bytes, true),
        Err(PatchingError::InputFileTooSmall)
    );
}

#[test]
pub fn field_width_helpers() {
    assert_eq!(ImageType::BIN.block_check_offset(), 0x9320);
    assert_eq!(ImageType::GI.block_check_offset(), 0x80A0);
    assert_eq!(FooterBodyLengthType::U16.size(), 2);
    assert_eq!(FooterBodyLengthType::U32.size(), 4);
    assert_eq!(RomOffsetType::U32.size(), 4);
    assert_eq!(RomOffsetType::U64.size(), 8);
}
