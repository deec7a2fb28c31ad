use rompatcher::hashing::{HashingReader, HashingWriter, MonotonicHashingReader};
use rompatcher::patch::vcd::{Instruction, PatchingError, decode_instruction_pair, patch};

fn apply(source: Vec<u8>, patch_bytes: Vec<u8>) -> Result<Vec<u8>, PatchingError> {
    let mut rom = MonotonicHashingReader::new(source);
    let mut pr = HashingReader::new(patch_bytes);
    let mut output = HashingWriter::new();
    patch(&mut rom, &mut pr, &mut output)?;
    Ok(output.into_inner())
}

/// The file header: magic, version zero, no header flags.
fn header() -> Vec<u8> {
    vec![0xD6, 0xC3, 0xC4, 0x00, 0x00]
}

#[test]
pub fn copy_within_target() {
    // One window over a four-byte source: COPY the source into the target,
    // then COPY four bytes from target offset zero to extend it.
    let source = vec![0x01u8, 0x02, 0x03, 0x04];
    let mut patch_bytes = header();
    patch_bytes.push(0x01); // window from the source
    patch_bytes.push(0x04); // source segment length
    patch_bytes.push(0x00); // source segment position
    patch_bytes.push(0x09); // delta encoding length
    patch_bytes.push(0x08); // target window length
    patch_bytes.push(0x00); // delta indicator
    patch_bytes.push(0x00); // data section length
    patch_bytes.push(0x02); // instruction section length
    patch_bytes.push(0x02); // address section length
    patch_bytes.extend_from_slice(&[20, 20]); // COPY size 4 mode 0, twice
    patch_bytes.extend_from_slice(&[0x00, 0x04]); // addresses 0 and 4
    let out = apply(source, patch_bytes).unwrap();
    assert_eq!(out, vec![0x01, 0x02, 0x03, 0x04, 0x01, 0x02, 0x03, 0x04]);
}

#[test]
pub fn run_and_add_fill_a_window() {
    // A window with no source segment: ADD two literal bytes, then RUN
    // three copies of 0x07.
    let source: Vec<u8> = Vec::new();
    let mut patch_bytes = header();
    patch_bytes.push(0x00); // no source segment
    patch_bytes.push(0x0B); // delta encoding length
    patch_bytes.push(0x05); // target window length
    patch_bytes.push(0x00); // delta indicator
    patch_bytes.push(0x03); // data section length
    patch_bytes.push(0x03); // instruction section length
    patch_bytes.push(0x00); // address section length
    patch_bytes.extend_from_slice(&[0xAB, 0xCD, 0x07]); // data: ADD bytes, RUN byte
    patch_bytes.extend_from_slice(&[3, 0, 3]); // ADD size 2; RUN with size 3
    let out = apply(source, patch_bytes).unwrap();
    assert_eq!(out, vec![0xAB, 0xCD, 0x07, 0x07, 0x07]);
}

#[test]
pub fn periodic_copy_replicates_prefix() {
    // COPY whose range reaches the append point: one ADD byte, then a COPY
    // of length four from target offset zero replicates it.
    let source: Vec<u8> = Vec::new();
    let mut patch_bytes = header();
    patch_bytes.push(0x00);
    patch_bytes.push(0x0A); // delta encoding length
    patch_bytes.push(0x05); // target window length
    patch_bytes.push(0x00);
    patch_bytes.push(0x01); // data section length
    patch_bytes.push(0x03); // instruction section length
    patch_bytes.push(0x01); // address section length
    patch_bytes.push(0x5A); // data: the single ADD byte
    patch_bytes.extend_from_slice(&[2, 19, 0x04]); // ADD size 1; COPY size from stream, mode 0; size 4
    patch_bytes.push(0x00); // address 0
    let out = apply(source, patch_bytes).unwrap();
    assert_eq!(out, vec![0x5A, 0x5A, 0x5A, 0x5A, 0x5A]);
}

#[test]
pub fn window_sourced_from_the_output() {
    // A first window ADDs two literal bytes; a second window reads its
    // source segment from the already-written output and copies it.
    let source: Vec<u8> = Vec::new();
    let mut patch_bytes = header();
    patch_bytes.extend_from_slice(&[0x00, 0x08, 0x02, 0x00, 0x02, 0x01, 0x00, 0x11, 0x22, 3]);
    patch_bytes.extend_from_slice(&[0x02, 0x02, 0x00, 0x08, 0x02, 0x00, 0x00, 0x02, 0x01, 19, 2, 0x00]);
    let out = apply(source, patch_bytes).unwrap();
    assert_eq!(out, vec![0x11, 0x22, 0x11, 0x22]);
}

#[test]
pub fn application_header_is_skipped() {
    // A header announcing a two-byte application header and no windows.
    let patch_bytes = vec![0xD6, 0xC3, 0xC4, 0x00, 0x04, 0x02, 0xAB, 0xCD];
    let out = apply(Vec::new(), patch_bytes).unwrap();
    assert_eq!(out, Vec::<u8>::new());
}

#[test]
pub fn nonzero_version_is_unsupported() {
    let patch_bytes = vec![0xD6, 0xC3, 0xC4, 0x01, 0x00];
    assert_eq!(
        apply(Vec::new(), patch_bytes),
        Err(PatchingError::UnsupportedPatchFeature)
    );
}

#[test]
pub fn compression_flag_is_unsupported() {
    let patch_bytes = vec![0xD6, 0xC3, 0xC4, 0x00, 0x01];
    assert_eq!(
        apply(Vec::new(), patch_bytes),
        Err(PatchingError::UnsupportedPatchFeature)
    );
}

#[test]
pub fn vcdiff_bad_magic_is_rejected() {
    let patch_bytes = vec![0xD6, 0xC3, 0xC5, 0x00, 0x00];
    assert_eq!(apply(Vec::new(), patch_bytes), Err(PatchingError::BadPatch));
}

#[test]
pub fn code_table_boundaries() {
    assert_eq!(
        decode_instruction_pair(0),
        (Instruction::Run, Instruction::Noop)
    );
    assert_eq!(
        decode_instruction_pair(1),
        (Instruction::Add { size: 0 }, Instruction::Noop)
    );
    assert_eq!(
        decode_instruction_pair(18),
        (Instruction::Add { size: 17 }, Instruction::Noop)
    );
    assert_eq!(
        decode_instruction_pair(19),
        (Instruction::Copy { size: 0, mode: 0 }, Instruction::Noop)
    );
    assert_eq!(
        decode_instruction_pair(20),
        (Instruction::Copy { size: 4, mode: 0 }, Instruction::Noop)
    );
    assert_eq!(
        decode_instruction_pair(162),
        (Instruction::Copy { size: 18, mode: 8 }, Instruction::Noop)
    );
    assert_eq!(
        decode_instruction_pair(163),
        (
            Instruction::Add { size: 1 },
            Instruction::Copy { size: 4, mode: 0 }
        )
    );
    assert_eq!(
        decode_instruction_pair(234),
        (
            Instruction::Add { size: 4 },
            Instruction::Copy { size: 6, mode: 5 }
        )
    );
    assert_eq!(
        decode_instruction_pair(235),
        (
            Instruction::Add { size: 1 },
            Instruction::Copy { size: 4, mode: 6 }
        )
    );
    assert_eq!(
        decode_instruction_pair(247),
        (
            Instruction::Copy { size: 4, mode: 0 },
            Instruction::Add { size: 1 }
        )
    );
    assert_eq!(
        decode_instruction_pair(255),
        (
            Instruction::Copy { size: 4, mode: 8 },
            Instruction::Add { size: 1 }
        )
    );
}
