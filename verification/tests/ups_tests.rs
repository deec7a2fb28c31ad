use rompatcher::crc::crc32;
use rompatcher::patch::ups::{PatchingError, patch};

fn push_crc_of(patch_bytes: &mut Vec<u8>, data: &Vec<u8>) {
    let (c, _) = crc32(data);
    let v = c.value();
    patch_bytes.push((v & 0xFF) as u8);
    patch_bytes.push(((v >> 8) & 0xFF) as u8);
    patch_bytes.push(((v >> 16) & 0xFF) as u8);
    patch_bytes.push(((v >> 24) & 0xFF) as u8);
}

/// Finishes a UPS patch body by appending the three footer checksums.
fn finish_patch(mut body: Vec<u8>, source: &Vec<u8>, target: &Vec<u8>) -> Vec<u8> {
    push_crc_of(&mut body, source);
    push_crc_of(&mut body, target);
    let internal = body.clone();
    push_crc_of(&mut body, &internal);
    body
}

#[test]
pub fn no_op_patch_keeps_source() {
    // Source and target sizes of three, no hunks at all.
    let source = vec![0x01u8, 0x02, 0x03];
    let body = vec![b'U', b'P', b'S', b'1', 0x83, 0x83];
    let patch_bytes = finish_patch(body, &source, &source);
    let (out, report) = patch(source.clone(), patch_bytes, true).unwrap();
    assert_eq!(out, source);
    assert_eq!(report.actual_target_size, 3);
    assert_eq!(report.expected_source_size, 3);
    assert_eq!(report.expected_target_size, 3);
    assert_eq!(
        report.actual_source_crc32.value(),
        report.expected_source_crc32.value()
    );
}

#[test]
pub fn xor_hunk_changes_one_byte() {
    // One hunk at relative offset zero: XOR the first byte with 0x03.
    let source = vec![0x01u8, 0x02, 0x03];
    let target = vec![0x02u8, 0x02, 0x03];
    let body = vec![b'U', b'P', b'S', b'1', 0x83, 0x83, 0x80, 0x03, 0x00];
    let patch_bytes = finish_patch(body, &source, &target);
    let (out, report) = patch(source, patch_bytes, true).unwrap();
    assert_eq!(out, target);
    assert_eq!(
        report.actual_target_crc32.value(),
        report.expected_target_crc32.value()
    );
}

#[test]
pub fn patch_extends_short_source_with_zeros() {
    // Target size five against a two-byte source: the tail is zero-padded.
    let source = vec![0x10u8, 0x20];
    let target = vec![0x10u8, 0x20, 0x00, 0x00, 0x00];
    let body = vec![b'U', b'P', b'S', b'1', 0x82, 0x85];
    let patch_bytes = finish_patch(body, &source, &target);
    let (out, _) = patch(source, patch_bytes, true).unwrap();
    assert_eq!(out, target);
}

#[test]
pub fn corrupt_internal_checksum_is_rejected() {
    let source = vec![0x01u8, 0x02, 0x03];
    let body = vec![b'U', b'P', b'S', b'1', 0x83, 0x83];
    let mut patch_bytes = finish_patch(body, &source, &source);
    let last = patch_bytes.len() - 1;
    patch_bytes[last] ^= 0x01;
    assert_eq!(
        patch(source, patch_bytes, true),
        Err(PatchingError::BadPatch)
    );
}

#[test]
pub fn wrong_source_is_rejected_in_strict_mode() {
    let source = vec![0x01u8, 0x02, 0x03];
    let body = vec![b'U', b'P', b'S', b'1', 0x83, 0x83];
    let patch_bytes = finish_patch(body, &source, &source);
    let other = vec![0x0Au8, 0x0B, 0x0C];
    assert_eq!(
        patch(other, patch_bytes, true),
        Err(PatchingError::WrongInputFile)
    );
}

#[test]
pub fn already_patched_source_is_reported() {
    // The source carries the declared target checksum: one XOR hunk turns
    // `source` into `target`; handing `target` in again is reported as
    // already patched.
    let source = vec![0x01u8, 0x02, 0x03];
    let target = vec![0x02u8, 0x02, 0x03];
    let body = vec![b'U', b'P', b'S', b'1', 0x83, 0x83, 0x80, 0x03, 0x00];
    let patch_bytes = finish_patch(body, &source, &target);
    assert_eq!(
        patch(target, patch_bytes, true),
        Err(PatchingError::AlreadyPatched)
    );
}

#[test]
pub fn lax_mode_skips_checksum_validation() {
    let source = vec![0x01u8, 0x02, 0x03];
    let body = vec![b'U', b'P', b'S', b'1', 0x83, 0x83];
    let patch_bytes = finish_patch(body, &source, &source);
    let other = vec![0x0Au8, 0x0B, 0x0C];
    let (out, report) = patch(other.clone(), patch_bytes, false).unwrap();
    assert_eq!(out, other);
    assert_ne!(
        report.actual_source_crc32.value(),
        report.expected_source_crc32.value()
    );
}
