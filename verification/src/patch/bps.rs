//! The BPS patch format.
//!
//! Layout: the magic `BPS1`, three byuu varints (source size, target size,
//! metadata size), that many bytes of opaque metadata, an instruction
//! stream, and the same 12-byte footer as UPS. Each instruction is a varint
//! whose low two bits select the opcode and whose remaining bits, plus one,
//! give the length: `SourceRead` copies source bytes at the output position,
//! `TargetRead` copies literal patch bytes, `SourceCopy` and `TargetCopy`
//! copy from a relative offset in the source or the already-written output,
//! the offset adjusted by a signed varint before each copy. A `TargetCopy`
//! whose range reaches the append point replicates the bytes between offset
//! and append point periodically.
//!
//! [`bps_apply`] is the reference semantics; [`patch`] is proved to return
//! exactly that, and in strict mode to succeed only when the observed
//! checksums equal the declared ones.

use vstd::prelude::*;
use vstd::slice::slice_subrange;

use crate::crc::{CRC32Hasher, Crc32, crc32_of};
use crate::hashing::{HashingReader, HashingWriter, MonotonicHashingReader, periodic_append};
use crate::patch::PatchReport;
use crate::stream::le32_at;
use crate::varint::{bps_signed, byuu_advances, spec_read_byuu};

verus! {

/// How BPS application can fail.
#[derive(Copy, Clone, Debug, PartialEq, Eq, Structural)]
pub enum PatchingError {
    /// The patch file is corrupt.
    BadPatch,
    /// The patch is not meant for this source file.
    WrongInputFile,
    /// The source file ends before an instruction could be applied.
    InputFileTooSmall,
    /// The source already carries the target checksum of this patch.
    AlreadyPatched,
}

/// The BPS magic, ASCII `BPS1`.
pub open spec fn bps_magic() -> Seq<u8> {
    seq![0x42u8, 0x50u8, 0x53u8, 0x31u8]
}

/// The instruction stream of a BPS patch, applied from `ppos` until the
/// cursor reaches the footer. The state is the output so far and the two
/// relative offsets into source and target.
pub open spec fn bps_instrs(
    src: Seq<u8>,
    pat: Seq<u8>,
    ppos: int,
    footer: int,
    ssize: int,
    out: Seq<u8>,
    sro: int,
    tro: int,
) -> Result<(Seq<u8>, int), PatchingError>
    decreases pat.len() - ppos,
{
    if ppos == footer {
        Ok((out, ppos))
    } else if ppos < 0 || ppos > footer {
        Err(PatchingError::BadPatch)
    } else {
        match spec_read_byuu(pat, ppos) {
            None => Err(PatchingError::BadPatch),
            Some((data, p1)) => {
                if !(ppos < p1 <= pat.len()) {
                    Err(PatchingError::BadPatch)
                } else {
                    let length = data / 4 + 1;
                    let cmd = data % 4;
                    if cmd == 0 {
                        // SourceRead: source bytes at the output position.
                        if out.len() + length > ssize {
                            Err(PatchingError::BadPatch)
                        } else if out.len() + length > src.len() {
                            Err(PatchingError::InputFileTooSmall)
                        } else {
                            bps_instrs(
                                src,
                                pat,
                                p1,
                                footer,
                                ssize,
                                out + src.subrange(out.len() as int, out.len() + length),
                                sro,
                                tro,
                            )
                        }
                    } else if cmd == 1 {
                        // TargetRead: literal bytes from the patch.
                        if p1 + length > pat.len() {
                            Err(PatchingError::BadPatch)
                        } else {
                            bps_instrs(
                                src,
                                pat,
                                p1 + length,
                                footer,
                                ssize,
                                out + pat.subrange(p1, p1 + length),
                                sro,
                                tro,
                            )
                        }
                    } else {
                        match spec_read_byuu(pat, p1) {
                            None => Err(PatchingError::BadPatch),
                            Some((u, p2)) => {
                                if !(p1 < p2 <= pat.len()) {
                                    Err(PatchingError::BadPatch)
                                } else {
                                    let off = bps_signed(u);
                                    if cmd == 2 {
                                        // SourceCopy.
                                        let nsro = sro + off;
                                        if nsro < 0 || nsro > u64::MAX {
                                            Err(PatchingError::BadPatch)
                                        } else if nsro + length > ssize {
                                            Err(PatchingError::BadPatch)
                                        } else if nsro + length > src.len() {
                                            Err(PatchingError::InputFileTooSmall)
                                        } else {
                                            bps_instrs(
                                                src,
                                                pat,
                                                p2,
                                                footer,
                                                ssize,
                                                out + src.subrange(nsro, nsro + length),
                                                nsro + length,
                                                tro,
                                            )
                                        }
                                    } else {
                                        // TargetCopy.
                                        let ntro = tro + off;
                                        if ntro < 0 || ntro > u64::MAX {
                                            Err(PatchingError::BadPatch)
                                        } else if ntro >= out.len() {
                                            Err(PatchingError::BadPatch)
                                        } else if ntro + length > u64::MAX {
                                            Err(PatchingError::BadPatch)
                                        } else {
                                            bps_instrs(
                                                src,
                                                pat,
                                                p2,
                                                footer,
                                                ssize,
                                                periodic_append(out, ntro, length as nat),
                                                sro,
                                                ntro + length,
                                            )
                                        }
                                    }
                                }
                            },
                        }
                    }
                }
            },
        }
    }
}

/// The meaning of a BPS patch applied to `src`: the patched output, or the
/// error reported. A patch whose internal checksum is wrong is rejected as
/// corrupt before any applicability verdict; strict mode is validated as
/// for UPS.
pub open spec fn bps_apply(src: Seq<u8>, pat: Seq<u8>, strict: bool) -> Result<
    Seq<u8>,
    PatchingError,
> {
    if pat.len() < 12 {
        Err(PatchingError::BadPatch)
    } else if pat.subrange(0, 4) != bps_magic() {
        Err(PatchingError::BadPatch)
    } else {
        let footer = pat.len() - 12;
        match spec_read_byuu(pat, 4) {
            None => Err(PatchingError::BadPatch),
            Some((ssize, p1)) => match spec_read_byuu(pat, p1) {
                None => Err(PatchingError::BadPatch),
                Some((tsize, p2)) => match spec_read_byuu(pat, p2) {
                    None => Err(PatchingError::BadPatch),
                    Some((msize, p3)) => {
                        if p3 + msize > pat.len() {
                            Err(PatchingError::BadPatch)
                        } else {
                            let hr = bps_instrs(
                                src,
                                pat,
                                p3 + msize,
                                footer as int,
                                ssize as int,
                                Seq::<u8>::empty(),
                                0,
                                0,
                            );
                            if crc32_of(pat.subrange(0, pat.len() - 4)) != le32_at(
                                pat,
                                pat.len() - 4,
                            ) {
                                Err(PatchingError::BadPatch)
                            } else {
                                match hr {
                                    Err(e) => Err(e),
                                    Ok((out, _)) => {
                                        if out.len() != tsize {
                                            Err(PatchingError::BadPatch)
                                        } else if strict && (crc32_of(src) != le32_at(
                                            pat,
                                            pat.len() - 12,
                                        ) || src.len() != ssize) {
                                            if crc32_of(src) == le32_at(pat, pat.len() - 8) {
                                                Err(PatchingError::AlreadyPatched)
                                            } else {
                                                Err(PatchingError::WrongInputFile)
                                            }
                                        } else if strict && crc32_of(out) != le32_at(
                                            pat,
                                            pat.len() - 8,
                                        ) {
                                            Err(PatchingError::WrongInputFile)
                                        } else {
                                            Ok(out)
                                        }
                                    },
                                }
                            }
                        }
                    },
                },
            },
        }
    }
}

/// Law: altering the internal region of a BPS patch without touching the
/// four stored checksum bytes leaves a patch that no longer applies —
/// unless the altered region still carries the very same CRC-32. Flipping
/// any single bit of the internal region changes its CRC-32 (a property of
/// the checksum itself, which this crate treats as opaque), so such a
/// patch is rejected outright rather than producing output with a stale
/// declared target checksum.
pub proof fn bps_altered_internal_region_rejected(
    src: Seq<u8>,
    pat: Seq<u8>,
    alt: Seq<u8>,
    strict: bool,
)
    requires
        pat.len() == alt.len(),
        pat.len() >= 12,
        alt.subrange(pat.len() - 4, pat.len() as int) == pat.subrange(
            pat.len() - 4,
            pat.len() as int,
        ),
        crc32_of(alt.subrange(0, alt.len() - 4)) != crc32_of(pat.subrange(0, pat.len() - 4)),
        bps_apply(src, pat, strict) is Ok,
    ensures
        bps_apply(src, alt, strict) is Err,
{
    let l = pat.len() as int;
    assert(alt[l - 4] == pat[l - 4]) by {
        assert(alt.subrange(l - 4, l)[0] == alt[l - 4]);
        assert(pat.subrange(l - 4, l)[0] == pat[l - 4]);
    }
    assert(alt[l - 3] == pat[l - 3]) by {
        assert(alt.subrange(l - 4, l)[1] == alt[l - 3]);
        assert(pat.subrange(l - 4, l)[1] == pat[l - 3]);
    }
    assert(alt[l - 2] == pat[l - 2]) by {
        assert(alt.subrange(l - 4, l)[2] == alt[l - 2]);
        assert(pat.subrange(l - 4, l)[2] == pat[l - 2]);
    }
    assert(alt[l - 1] == pat[l - 1]) by {
        assert(alt.subrange(l - 4, l)[3] == alt[l - 1]);
        assert(pat.subrange(l - 4, l)[3] == pat[l - 1]);
    }
    assert(le32_at(alt, l - 4) == le32_at(pat, l - 4));
    assert(crc32_of(pat.subrange(0, l - 4)) == le32_at(pat, l - 4));
    assert(crc32_of(alt.subrange(0, l - 4)) != le32_at(alt, l - 4));
}

/// Applies the instruction stream. On success the patch cursor rests
/// exactly at the footer and the output holds the instruction result; on
/// failure the reported error is the one [`bps_instrs`] gives.
fn apply_patch(
    rom: &mut MonotonicHashingReader,
    pr: &mut HashingReader,
    output: &mut HashingWriter,
    footer_start: u64,
    ssize: u64,
) -> (r: Result<(), PatchingError>)
    requires
        old(rom).wf(),
        old(pr).wf(),
        old(output).wf(),
        old(output).contents().len() == 0,
        footer_start == old(pr).contents().len() - 12,
        old(pr).contents().len() >= 12,
    ensures
        final(rom).wf(),
        final(pr).wf(),
        final(output).wf(),
        final(rom).contents() == old(rom).contents(),
        final(pr).contents() == old(pr).contents(),
        match r {
            Ok(_) => bps_instrs(
                old(rom).contents(),
                old(pr).contents(),
                old(pr).pos(),
                footer_start as int,
                ssize as int,
                Seq::<u8>::empty(),
                0,
                0,
            ) == Ok::<_, PatchingError>((final(output).contents(), footer_start as int)) && final(pr).pos() == footer_start,
            Err(e) => bps_instrs(
                old(rom).contents(),
                old(pr).contents(),
                old(pr).pos(),
                footer_start as int,
                ssize as int,
                Seq::<u8>::empty(),
                0,
                0,
            ) == Err::<(Seq<u8>, int), _>(e),
        },
{
    let ghost src = rom.contents();
    let ghost pat = pr.contents();
    let ghost pstart = pr.pos();
    proof {
        assert(output.contents() =~= Seq::<u8>::empty());
    }
    let mut sro: u64 = 0;
    let mut tro: u64 = 0;
    loop
        invariant_except_break
            bps_instrs(src, pat, pstart, footer_start as int, ssize as int, Seq::<u8>::empty(), 0, 0)
                == bps_instrs(
                src,
                pat,
                pr.pos(),
                footer_start as int,
                ssize as int,
                output.contents(),
                sro as int,
                tro as int,
            ),
        invariant
            rom.wf(),
            pr.wf(),
            output.wf(),
            src == old(rom).contents(),
            pat == old(pr).contents(),
            pstart == old(pr).pos(),
            rom.contents() == src,
            pr.contents() == pat,
            pr.pos() <= pat.len(),
            footer_start == pat.len() - 12,
            pat.len() >= 12,
        ensures
            pr.pos() == footer_start,
            bps_instrs(src, pat, pstart, footer_start as int, ssize as int, Seq::<u8>::empty(), 0, 0)
                == Ok::<_, PatchingError>((output.contents(), pr.pos())),
        decreases pat.len() - pr.pos(),
    {
        let ghost p0 = pr.pos();
        let ghost out0 = output.contents();
        let ghost sro0 = sro;
        let ghost tro0 = tro;
        let pos = pr.position();
        if pos == footer_start {
            break;
        }
        if pos > footer_start {
            return Err(PatchingError::BadPatch);
        }
        let data = match pr.read_varint() {
            Some(v) => v,
            None => {
                return Err(PatchingError::BadPatch);
            },
        };
        proof {
            byuu_advances(pat, p0, 0, 1);
        }
        let length: u64 = data / 4 + 1;
        let cmd: u64 = data % 4;
        if cmd == 0 {
            // SourceRead: copy source bytes at the output position.
            let out_pos = output.position();
            if out_pos > ssize || length > ssize - out_pos {
                return Err(PatchingError::BadPatch);
            }
            let sought = rom.seek_to(out_pos);
            if !sought {
                proof {
                    assert(out0.len() + length > src.len());
                }
                return Err(PatchingError::InputFileTooSmall);
            }
            let copied = rom.copy_to_other_exactly(length, output);
            if !copied {
                return Err(PatchingError::InputFileTooSmall);
            }
            proof {
                assert(bps_instrs(src, pat, p0, footer_start as int, ssize as int, out0, sro0 as int, tro0 as int)
                    == bps_instrs(src, pat, pr.pos(), footer_start as int, ssize as int, output.contents(), sro as int, tro as int));
            }
        } else if cmd == 1 {
            // TargetRead: literal bytes from the patch.
            let ghost p1 = pr.pos();
            let rem = pr.remaining_usize();
            if length > rem as u64 {
                proof {
                    assert(p1 + length > pat.len());
                }
                return Err(PatchingError::BadPatch);
            }
            match pr.read_exact(length as usize) {
                Some(data_bytes) => {
                    output.write_all(data_bytes.as_slice());
                },
                None => {
                    proof {
                        assert(false);
                    }
                    return Err(PatchingError::BadPatch);
                },
            }
            proof {
                assert(bps_instrs(src, pat, p0, footer_start as int, ssize as int, out0, sro0 as int, tro0 as int)
                    == bps_instrs(src, pat, pr.pos(), footer_start as int, ssize as int, output.contents(), sro as int, tro as int));
            }
        } else {
            let ghost p1 = pr.pos();
            let u = match pr.read_varint() {
                Some(v) => v,
                None => {
                    return Err(PatchingError::BadPatch);
                },
            };
            proof {
                byuu_advances(pat, p1, 0, 1);
            }
            let magnitude = u / 2;
            let off: i64 = if u % 2 == 1 {
                -(magnitude as i64)
            } else {
                magnitude as i64
            };
            if cmd == 2 {
                // SourceCopy.
                let nsro = match sro.checked_add_signed(off) {
                    Some(v) => v,
                    None => {
                        return Err(PatchingError::BadPatch);
                    },
                };
                if nsro > ssize || length > ssize - nsro {
                    return Err(PatchingError::BadPatch);
                }
                let sought = rom.seek_to(nsro);
                if !sought {
                    proof {
                        assert(nsro + length > src.len());
                    }
                    return Err(PatchingError::InputFileTooSmall);
                }
                let copied = rom.copy_to_other_exactly(length, output);
                if !copied {
                    return Err(PatchingError::InputFileTooSmall);
                }
                sro = nsro + length;
                proof {
                    assert(bps_instrs(src, pat, p0, footer_start as int, ssize as int, out0, sro0 as int, tro0 as int)
                        == bps_instrs(src, pat, pr.pos(), footer_start as int, ssize as int, output.contents(), sro as int, tro as int));
                }
            } else {
                // TargetCopy.
                let ntro = match tro.checked_add_signed(off) {
                    Some(v) => v,
                    None => {
                        return Err(PatchingError::BadPatch);
                    },
                };
                let out_pos = output.position();
                if ntro >= out_pos {
                    return Err(PatchingError::BadPatch);
                }
                output.append_from_self(ntro, length);
                let ntro2 = match ntro.checked_add(length) {
                    Some(v) => v,
                    None => {
                        return Err(PatchingError::BadPatch);
                    },
                };
                tro = ntro2;
                proof {
                    assert(bps_instrs(src, pat, p0, footer_start as int, ssize as int, out0, sro0 as int, tro0 as int)
                        == bps_instrs(src, pat, pr.pos(), footer_start as int, ssize as int, output.contents(), sro as int, tro as int));
                }
            }
        }
    }
    Ok(())
}

/// Applies a BPS patch in one streaming pass.
///
/// On success the output is exactly [`bps_apply`] of the inputs, and the
/// report carries the whole-file checksums of source, patch and output,
/// the patch's internal checksum and declared values, and the observed
/// sizes. In strict mode, success implies that the observed source and
/// target checksums and sizes equal the declared ones. On failure the
/// reported error is exactly the one [`bps_apply`] gives.
pub fn patch(rom: Vec<u8>, patch_file: Vec<u8>, strict: bool) -> (r: Result<
    (Vec<u8>, PatchReport),
    PatchingError,
>)
    ensures
        match r {
            Ok((out, report)) => {
                &&& bps_apply(rom@, patch_file@, strict) == Ok::<_, PatchingError>(out@)
                &&& report.actual_source_crc32.spec_value() == crc32_of(rom@)
                &&& report.actual_target_crc32.spec_value() == crc32_of(out@)
                &&& report.patch_whole_file_crc32.spec_value() == crc32_of(patch_file@)
                &&& report.patch_internal_crc32.spec_value() == crc32_of(
                    patch_file@.subrange(0, patch_file@.len() - 4),
                )
                &&& report.expected_source_crc32.spec_value() == le32_at(
                    patch_file@,
                    patch_file@.len() - 12,
                )
                &&& report.expected_target_crc32.spec_value() == le32_at(
                    patch_file@,
                    patch_file@.len() - 8,
                )
                &&& report.actual_source_size == rom@.len()
                &&& report.actual_target_size == out@.len()
                &&& spec_read_byuu(patch_file@, 4) matches Some((ssize, p1))
                    && report.expected_source_size == ssize && (spec_read_byuu(patch_file@, p1)
                    matches Some((tsize, p2)) && report.expected_target_size == tsize)
                &&& strict ==> {
                    &&& report.actual_source_crc32 == report.expected_source_crc32
                    &&& report.actual_target_crc32 == report.expected_target_crc32
                    &&& report.actual_source_size == report.expected_source_size
                    &&& report.actual_target_size == report.expected_target_size
                }
            },
            Err(e) => bps_apply(rom@, patch_file@, strict) == Err::<Seq<u8>, _>(e),
        },
{
    let ghost src = rom@;
    let ghost pat = patch_file@;
    let plen = patch_file.len() as u64;
    if plen < 12 {
        return Err(PatchingError::BadPatch);
    }
    let footer_start = plen - 12;
    let mut romr = MonotonicHashingReader::new(rom);
    let mut pr = HashingReader::new(patch_file);
    let mut output = HashingWriter::new();
    match pr.read_exact(4) {
        Some(m) => {
            if !(m[0] == 0x42 && m[1] == 0x50 && m[2] == 0x53 && m[3] == 0x31) {
                proof {
                    assert(pat.subrange(0, 4) != bps_magic());
                }
                return Err(PatchingError::BadPatch);
            }
            proof {
                assert(m@ =~= bps_magic());
            }
        },
        None => {
            proof {
                assert(false);
            }
            return Err(PatchingError::BadPatch);
        },
    }
    let ssize = match pr.read_varint() {
        Some(v) => v,
        None => {
            return Err(PatchingError::BadPatch);
        },
    };
    let tsize = match pr.read_varint() {
        Some(v) => v,
        None => {
            return Err(PatchingError::BadPatch);
        },
    };
    let msize = match pr.read_varint() {
        Some(v) => v,
        None => {
            return Err(PatchingError::BadPatch);
        },
    };
    // Skip over the metadata, but still hash its contents.
    let skipped = pr.skip_hashing(msize);
    if !skipped {
        return Err(PatchingError::BadPatch);
    }
    let apply_result = apply_patch(&mut romr, &mut pr, &mut output, footer_start, ssize);
    match apply_result {
        Ok(()) => {
            let esrc = match pr.read_u32_le() {
                Some(v) => v,
                None => {
                    proof {
                        assert(false);
                    }
                    return Err(PatchingError::BadPatch);
                },
            };
            let etgt = match pr.read_u32_le() {
                Some(v) => v,
                None => {
                    proof {
                        assert(false);
                    }
                    return Err(PatchingError::BadPatch);
                },
            };
            let internal = pr.hasher().finish();
            let epatch = match pr.read_u32_le() {
                Some(v) => v,
                None => {
                    proof {
                        assert(false);
                    }
                    return Err(PatchingError::BadPatch);
                },
            };
            let whole = pr.hasher().finish();
            proof {
                assert(pat.subrange(0, pat.len() as int) =~= pat);
            }
            if internal.value() != epatch {
                return Err(PatchingError::BadPatch);
            }
            if output.position() != tsize {
                return Err(PatchingError::BadPatch);
            }
            // Read and hash the rest of the source.
            let _ = romr.hash_remainder();
            proof {
                assert(romr.contents().subrange(0, romr.contents().len() as int) =~= src);
            }
            let actual_source_crc32 = romr.hasher().finish();
            let actual_source_size = romr.len();
            let actual_target_crc32 = output.hasher().finish();
            let actual_target_size = output.position();
            if strict {
                if actual_source_crc32.value() != esrc || actual_source_size != ssize {
                    if actual_source_crc32.value() == etgt {
                        return Err(PatchingError::AlreadyPatched);
                    } else {
                        return Err(PatchingError::WrongInputFile);
                    }
                }
                if actual_target_crc32.value() != etgt {
                    return Err(PatchingError::WrongInputFile);
                }
            }
            let expected_source_crc32 = Crc32::new(esrc);
            let expected_target_crc32 = Crc32::new(etgt);
            proof {
                assert(bps_apply(src, pat, strict) == Ok::<Seq<u8>, PatchingError>(
                    output.contents(),
                ));
                if strict {
                    crate::crc::crc32_eq_is_value_eq(actual_source_crc32, expected_source_crc32);
                    crate::crc::crc32_eq_is_value_eq(actual_target_crc32, expected_target_crc32);
                }
            }
            let report = PatchReport {
                expected_source_crc32,
                actual_source_crc32,
                expected_source_size: ssize,
                actual_source_size,
                expected_target_crc32,
                actual_target_crc32,
                expected_target_size: tsize,
                actual_target_size,
                patch_internal_crc32: internal,
                patch_whole_file_crc32: whole,
            };
            Ok((output.into_inner(), report))
        },
        Err(e) => {
            // Judge the patch itself before reporting an applicability
            // error: a corrupt patch must never be blamed on the source.
            let data = pr.get_ref();
            let mut h = CRC32Hasher::new();
            let l = data.len();
            h.update(slice_subrange(data.as_slice(), 0, l - 4));
            proof {
                assert(h.fed() =~= pat.subrange(0, pat.len() - 4));
            }
            let internal = h.finish();
            let b0 = data[l - 4];
            let b1 = data[l - 3];
            let b2 = data[l - 2];
            let b3 = data[l - 1];
            let epatch: u32 = (b0 as u32) + (b1 as u32) * 0x100 + (b2 as u32) * 0x10000 + (
            b3 as u32) * 0x1000000;
            if internal.value() != epatch {
                Err(PatchingError::BadPatch)
            } else {
                Err(e)
            }
        },
    }
}

} // verus!
