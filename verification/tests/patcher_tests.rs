use rompatcher::crc::crc32;
use rompatcher::patch::{Error, Kind, Patch, Patcher, find_patch_kind};

#[test]
pub fn magic_bytes_route_to_formats() {
    assert_eq!(find_patch_kind(&vec![b'P', b'A', b'T', b'C', b'H']), Ok(Kind::IPS));
    assert_eq!(find_patch_kind(&vec![b'U', b'P', b'S', b'1']), Ok(Kind::UPS));
    assert_eq!(find_patch_kind(&vec![b'B', b'P', b'S', b'1']), Ok(Kind::BPS));
    assert_eq!(find_patch_kind(&vec![b'P', b'P', b'F', b'3', b'0']), Ok(Kind::PPF));
    assert_eq!(find_patch_kind(&vec![0xD6, 0xC3, 0xC4, 0x00]), Ok(Kind::VCD));
    assert!(find_patch_kind(&vec![b'X', b'Y', b'Z']).is_err());
    assert!(find_patch_kind(&vec![b'U', b'P']).is_err());
}

#[test]
pub fn patch_pairs_bytes_with_kind() {
    let file = vec![b'B', b'P', b'S', b'1', 0x80];
    let p = Patch::new(file.clone()).unwrap();
    assert_eq!(p.kind(), Kind::BPS);
    assert_eq!(p.file(), &file);
    assert_eq!(p.into_file(), file);
}

#[test]
pub fn dispatcher_reports_whole_file_checksums() {
    // Apply an IPS patch through the dispatcher and hold the reported
    // checksums against independently computed ones.
    let source = vec![0x00u8, 0x01, 0x02, 0x03, 0x04];
    let patch_bytes = vec![
        b'P', b'A', b'T', b'C', b'H', 0x00, 0x00, 0x02, 0x00, 0x01, 0xFF, b'E', b'O', b'F',
    ];
    let kind = find_patch_kind(&patch_bytes).unwrap();
    let patcher = Patcher::from_patch_kind(kind);
    let (out, checksums) = patcher
        .patch(source.clone(), patch_bytes.clone(), true)
        .unwrap();
    assert_eq!(out, vec![0x00, 0x01, 0xFF, 0x03, 0x04]);
    assert_eq!(checksums.source_crc32, crc32(&source).0.value());
    assert_eq!(checksums.patch_crc32, crc32(&patch_bytes).0.value());
    assert_eq!(checksums.target_crc32, crc32(&out).0.value());
}

#[test]
pub fn dispatcher_maps_format_errors_into_common_vocabulary() {
    let source = vec![0x11u8, 0x22];
    // An IPS patch whose record starts past the end of the source.
    let patch_bytes = vec![
        b'P', b'A', b'T', b'C', b'H', 0x00, 0x00, 0x04, 0x00, 0x01, 0xAA, b'E', b'O', b'F',
    ];
    let patcher = Patcher::from_patch_kind(Kind::IPS);
    assert_eq!(
        patcher.patch(source, patch_bytes, true),
        Err(Error::InputFileTooSmall)
    );
}

#[test]
pub fn dispatcher_rejects_vcdiff_compression() {
    let patcher = Patcher::from_patch_kind(Kind::VCD);
    assert_eq!(
        patcher.patch(Vec::new(), vec![0xD6, 0xC3, 0xC4, 0x00, 0x01], true),
        Err(Error::UnsupportedPatchFeature)
    );
}

#[test]
pub fn error_messages_match_the_reported_condition() {
    assert_eq!(Error::BadPatch.message(), "The patch file is corrupt.");
    assert_eq!(
        Error::AlreadyPatched.message(),
        "This patch has already been applied to the input file."
    );
    assert_eq!(Kind::IPS.name(), "IPS");
    assert_eq!(Kind::VCD.name(), "Vcdiff (a.k.a. xdelta)");
}
