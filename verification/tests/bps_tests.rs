use rompatcher::crc::crc32;
use rompatcher::patch::bps::{PatchingError, patch};

fn push_crc_of(patch_bytes: &mut Vec<u8>, data: &Vec<u8>) {
    let (c, _) = crc32(data);
    let v = c.value();
    patch_bytes.push((v & 0xFF) as u8);
    patch_bytes.push(((v >> 8) & 0xFF) as u8);
    patch_bytes.push(((v >> 16) & 0xFF) as u8);
    patch_bytes.push(((v >> 24) & 0xFF) as u8);
}

/// Finishes a BPS patch body by appending the three footer checksums.
fn finish_patch(mut body: Vec<u8>, source: &Vec<u8>, target: &Vec<u8>) -> Vec<u8> {
    push_crc_of(&mut body, source);
    push_crc_of(&mut body, target);
    let internal = body.clone();
    push_crc_of(&mut body, &internal);
    body
}

#[test]
pub fn minimal_source_read() {
    // Sizes four and four, no metadata, one SourceRead of length four:
    // the output equals the source.
    let source = vec![0xDEu8, 0xAD, 0xBE, 0xEF];
    let body = vec![b'B', b'P', b'S', b'1', 0x84, 0x84, 0x80, 0x8C];
    let patch_bytes = finish_patch(body, &source, &source);
    let (out, report) = patch(source.clone(), patch_bytes, true).unwrap();
    assert_eq!(out, source);
    assert_eq!(report.actual_target_size, 4);
    assert_eq!(report.expected_source_size, 4);
    assert_eq!(report.expected_target_size, 4);
}

#[test]
pub fn target_read_and_periodic_target_copy() {
    // TargetRead writes one literal byte; TargetCopy with offset zero and
    // length three replicates it periodically: the output is AA AA AA AA.
    let source: Vec<u8> = Vec::new();
    let target = vec![0xAAu8, 0xAA, 0xAA, 0xAA];
    let body = vec![
        b'B', b'P', b'S', b'1', 0x80, 0x84, 0x80, 0x81, 0xAA, 0x8B, 0x80,
    ];
    let patch_bytes = finish_patch(body, &source, &target);
    let (out, _) = patch(source, patch_bytes, true).unwrap();
    assert_eq!(out, target);
}

#[test]
pub fn source_copy_reorders_source_bytes() {
    // Copy the back half of the source first, then the front half.
    let source = vec![0x01u8, 0x02, 0x03, 0x04];
    let target = vec![0x03u8, 0x04, 0x01, 0x02];
    // SourceCopy length 2 offset +2, then SourceCopy length 2 offset -4.
    let body = vec![
        b'B', b'P', b'S', b'1', 0x84, 0x84, 0x80, 0x86, 0x84, 0x86, 0x89,
    ];
    let patch_bytes = finish_patch(body, &source, &target);
    let (out, _) = patch(source, patch_bytes, true).unwrap();
    assert_eq!(out, target);
}

#[test]
pub fn source_read_past_declared_size_is_rejected() {
    // The declared source size is two, but the single SourceRead asks for
    // four bytes.
    let source = vec![0xDEu8, 0xAD, 0xBE, 0xEF];
    let body = vec![b'B', b'P', b'S', b'1', 0x82, 0x84, 0x80, 0x8C];
    let patch_bytes = finish_patch(body, &source, &source);
    assert_eq!(
        patch(source, patch_bytes, true),
        Err(PatchingError::BadPatch)
    );
}

#[test]
pub fn corrupt_internal_checksum_wins_over_applicability() {
    // The instruction stream reads past the real source, but the broken
    // internal checksum must be reported first: the patch itself is judged
    // before the source is blamed.
    let source = vec![0xDEu8, 0xAD];
    let body = vec![b'B', b'P', b'S', b'1', 0x84, 0x84, 0x80, 0x8C];
    let mut patch_bytes = finish_patch(body, &source, &source);
    let last = patch_bytes.len() - 1;
    patch_bytes[last] ^= 0x40;
    assert_eq!(
        patch(source, patch_bytes, true),
        Err(PatchingError::BadPatch)
    );
}

#[test]
pub fn source_smaller_than_declared_is_too_small() {
    // Sizes declare four source bytes; the file has two. The checksums in
    // the footer are internally consistent, so the source is blamed.
    let source = vec![0xDEu8, 0xAD];
    let body = vec![b'B', b'P', b'S', b'1', 0x84, 0x84, 0x80, 0x8C];
    let patch_bytes = finish_patch(body, &source, &source);
    assert_eq!(
        patch(source, patch_bytes, true),
        Err(PatchingError::InputFileTooSmall)
    );
}
