//! The UPS patch format.
//!
//! Layout: the magic `UPS1`, two byuu varints (source size and target
//! size), a sequence of hunks, and a 12-byte footer holding the expected
//! source, target and patch CRC-32 values, little-endian. Each hunk is a
//! varint relative offset (the joint source/output cursor advances by that
//! many bytes, plus one for every hunk after the first) followed by XOR
//! bytes terminated by a zero byte: each XOR byte is combined with the
//! source byte at the cursor, a source that has run out reading as zero.
//!
//! [`ups_apply`] is the reference semantics; [`patch`] is proved to return
//! exactly that, and in strict mode to succeed only when the observed
//! checksums equal the declared ones.

use vstd::prelude::*;
use vstd::slice::slice_subrange;

use crate::crc::{CRC32Hasher, Crc32, crc32_of};
use crate::hashing::{HashingReader, HashingWriter};
use crate::patch::PatchReport;
use crate::stream::{le32_at, min_int};
use crate::varint::{byuu_advances, spec_read_byuu};

verus! {

/// How UPS application can fail.
#[derive(Copy, Clone, Debug, PartialEq, Eq, Structural)]
pub enum PatchingError {
    /// The patch file is corrupt.
    BadPatch,
    /// The patch is not meant for this source file.
    WrongInputFile,
    /// The source file ends before a hunk could be applied.
    InputFileTooSmall,
    /// The source already carries the target checksum of this patch.
    AlreadyPatched,
}

/// The UPS magic, ASCII `UPS1`.
pub open spec fn ups_magic() -> Seq<u8> {
    seq![0x55u8, 0x50u8, 0x53u8, 0x31u8]
}

/// One XOR block: patch bytes up to a zero terminator, each combined with
/// the source byte at the joint cursor (zero once the source has run out).
/// Yields the extended output and the position one past the terminator, or
/// `None` when the patch ends before the terminator.
pub open spec fn ups_xor(src: Seq<u8>, pat: Seq<u8>, ppos: int, out: Seq<u8>) -> Option<
    (Seq<u8>, int),
>
    decreases pat.len() - ppos,
{
    if ppos < 0 || ppos >= pat.len() {
        None
    } else {
        let b = pat[ppos];
        if b == 0 {
            Some((out, ppos + 1))
        } else {
            let s = if out.len() < src.len() {
                src[out.len() as int]
            } else {
                0u8
            };
            ups_xor(src, pat, ppos + 1, out.push(b ^ s))
        }
    }
}

/// The hunk list of a UPS patch, applied from `ppos` until the cursor
/// reaches the footer. Before each hunk the joint cursor advances by the
/// hunk's relative offset — plus one for every hunk after the first, to
/// account for the previous hunk's terminator — copying source bytes
/// verbatim; the source must supply them all.
pub open spec fn ups_hunks(
    src: Seq<u8>,
    pat: Seq<u8>,
    ppos: int,
    footer: int,
    out: Seq<u8>,
    first: bool,
) -> Result<(Seq<u8>, int), PatchingError>
    decreases pat.len() - ppos,
{
    if ppos == footer {
        Ok((out, ppos))
    } else if ppos < 0 || ppos > footer {
        Err(PatchingError::BadPatch)
    } else {
        match spec_read_byuu(pat, ppos) {
            None => Err(PatchingError::BadPatch),
            Some((rel, p1)) => {
                if !(ppos < p1 <= pat.len()) {
                    Err(PatchingError::BadPatch)
                } else {
                    let adv = rel + if first {
                        0int
                    } else {
                        1int
                    };
                    let can_copy = adv == 0 || out.len() + adv <= src.len();
                    if !can_copy {
                        Err(PatchingError::InputFileTooSmall)
                    } else {
                        let out1 = if adv == 0 {
                            out
                        } else {
                            out + src.subrange(out.len() as int, out.len() + adv)
                        };
                        match ups_xor(src, pat, p1, out1) {
                            None => Err(PatchingError::BadPatch),
                            Some((out2, p2)) => {
                                if !(p1 < p2 <= pat.len()) {
                                    Err(PatchingError::BadPatch)
                                } else {
                                    ups_hunks(src, pat, p2, footer, out2, false)
                                }
                            },
                        }
                    }
                }
            },
        }
    }
}

/// After the hunks, the output is topped up to the target size with the
/// remaining source bytes, zero once the source has run out. An output
/// already at or past the target size is left alone.
pub open spec fn ups_tail(src: Seq<u8>, out: Seq<u8>, tsize: int) -> Seq<u8> {
    if out.len() >= tsize {
        out
    } else {
        out + Seq::<u8>::new(
            (tsize - out.len()) as nat,
            |i: int|
                if out.len() + i < src.len() {
                    src[out.len() + i]
                } else {
                    0u8
                },
        )
    }
}

/// The meaning of a UPS patch applied to `src`: the patched output, or the
/// error reported. A patch whose internal checksum is wrong is rejected as
/// corrupt before any applicability verdict. In strict mode, a source whose
/// checksum or size differs from the declared one is rejected — as already
/// patched when its checksum equals the declared target checksum — and a
/// produced output whose checksum differs from the declared target
/// checksum is rejected as the wrong input colliding on the source check.
pub open spec fn ups_apply(src: Seq<u8>, pat: Seq<u8>, strict: bool) -> Result<
    Seq<u8>,
    PatchingError,
> {
    if pat.len() < 12 {
        Err(PatchingError::BadPatch)
    } else if pat.subrange(0, 4) != ups_magic() {
        Err(PatchingError::BadPatch)
    } else {
        let footer = pat.len() - 12;
        match spec_read_byuu(pat, 4) {
            None => Err(PatchingError::BadPatch),
            Some((ssize, p1)) => match spec_read_byuu(pat, p1) {
                None => Err(PatchingError::BadPatch),
                Some((tsize, p2)) => {
                    let hr = ups_hunks(src, pat, p2, footer as int, Seq::<u8>::empty(), true);
                    if crc32_of(pat.subrange(0, pat.len() - 4)) != le32_at(pat, pat.len() - 4) {
                        Err(PatchingError::BadPatch)
                    } else {
                        match hr {
                            Err(e) => Err(e),
                            Ok((oh, _)) => {
                                let out = ups_tail(src, oh, tsize as int);
                                if out.len() != tsize {
                                    Err(PatchingError::BadPatch)
                                } else if strict && (crc32_of(src) != le32_at(pat, pat.len() - 12)
                                    || src.len() != ssize) {
                                    if crc32_of(src) == le32_at(pat, pat.len() - 8) {
                                        Err(PatchingError::AlreadyPatched)
                                    } else {
                                        Err(PatchingError::WrongInputFile)
                                    }
                                } else if strict && crc32_of(out) != le32_at(pat, pat.len() - 8) {
                                    Err(PatchingError::WrongInputFile)
                                } else {
                                    Ok(out)
                                }
                            },
                        }
                    }
                },
            },
        }
    }
}

/// Law: altering the internal region of a UPS patch without touching the
/// four stored checksum bytes leaves a patch that no longer applies —
/// unless the altered region still carries the very same CRC-32. Flipping
/// any single bit of the internal region changes its CRC-32 (a property of
/// the checksum itself, which this crate treats as opaque), so such a
/// patch is rejected outright rather than producing output with a stale
/// declared target checksum.
pub proof fn ups_altered_internal_region_rejected(
    src: Seq<u8>,
    pat: Seq<u8>,
    alt: Seq<u8>,
    strict: bool,
)
    requires
        pat.len() == alt.len(),
        pat.len() >= 12,
        alt.subrange(pat.len() - 4, pat.len() as int) == pat.subrange(
            pat.len() - 4,
            pat.len() as int,
        ),
        crc32_of(alt.subrange(0, alt.len() - 4)) != crc32_of(pat.subrange(0, pat.len() - 4)),
        ups_apply(src, pat, strict) is Ok,
    ensures
        ups_apply(src, alt, strict) is Err,
{
    let l = pat.len() as int;
    assert(alt[l - 4] == pat[l - 4]) by {
        assert(alt.subrange(l - 4, l)[0] == alt[l - 4]);
        assert(pat.subrange(l - 4, l)[0] == pat[l - 4]);
    }
    assert(alt[l - 3] == pat[l - 3]) by {
        assert(alt.subrange(l - 4, l)[1] == alt[l - 3]);
        assert(pat.subrange(l - 4, l)[1] == pat[l - 3]);
    }
    assert(alt[l - 2] == pat[l - 2]) by {
        assert(alt.subrange(l - 4, l)[2] == alt[l - 2]);
        assert(pat.subrange(l - 4, l)[2] == pat[l - 2]);
    }
    assert(alt[l - 1] == pat[l - 1]) by {
        assert(alt.subrange(l - 4, l)[3] == alt[l - 1]);
        assert(pat.subrange(l - 4, l)[3] == pat[l - 1]);
    }
    assert(le32_at(alt, l - 4) == le32_at(pat, l - 4));
    assert(crc32_of(pat.subrange(0, l - 4)) == le32_at(pat, l - 4));
    assert(crc32_of(alt.subrange(0, l - 4)) != le32_at(alt, l - 4));
}

/// An XOR block, when it decodes, ends past where it began and within the
/// patch.
pub proof fn ups_xor_advances(src: Seq<u8>, pat: Seq<u8>, ppos: int, out: Seq<u8>)
    ensures
        ups_xor(src, pat, ppos, out) matches Some((o, p)) ==> ppos < p <= pat.len(),
    decreases pat.len() - ppos,
{
    if 0 <= ppos < pat.len() {
        let b = pat[ppos];
        if b != 0 {
            let s = if out.len() < src.len() {
                src[out.len() as int]
            } else {
                0u8
            };
            ups_xor_advances(src, pat, ppos + 1, out.push(b ^ s));
        }
    }
}

/// Applies one XOR block at the patch cursor. Returns false when the patch
/// ends before the zero terminator.
fn apply_hunk(rom: &mut HashingReader, pr: &mut HashingReader, output: &mut HashingWriter) -> (r:
    bool)
    requires
        old(rom).wf(),
        old(pr).wf(),
        old(output).wf(),
        old(rom).pos() == min_int(
            old(output).contents().len() as int,
            old(rom).contents().len() as int,
        ),
    ensures
        final(rom).wf(),
        final(pr).wf(),
        final(output).wf(),
        final(rom).contents() == old(rom).contents(),
        final(pr).contents() == old(pr).contents(),
        final(rom).pos() == min_int(
            final(output).contents().len() as int,
            final(rom).contents().len() as int,
        ),
        old(pr).pos() <= final(pr).pos(),
        if r {
            ups_xor(old(rom).contents(), old(pr).contents(), old(pr).pos(), old(output).contents())
                == Some((final(output).contents(), final(pr).pos()))
        } else {
            ups_xor(old(rom).contents(), old(pr).contents(), old(pr).pos(), old(output).contents())
                is None
        },
{
    let ghost src = rom.contents();
    let ghost pat = pr.contents();
    loop
        invariant
            rom.wf(),
            pr.wf(),
            output.wf(),
            src == old(rom).contents(),
            pat == old(pr).contents(),
            rom.contents() == src,
            pr.contents() == pat,
            old(pr).pos() <= pr.pos() <= pat.len(),
            rom.pos() == min_int(output.contents().len() as int, src.len() as int),
            ups_xor(src, pat, old(pr).pos(), old(output).contents()) == ups_xor(
                src,
                pat,
                pr.pos(),
                output.contents(),
            ),
        decreases pat.len() - pr.pos(),
    {
        let ghost p0 = pr.pos();
        let ghost out0 = output.contents();
        let b = match pr.read_u8() {
            Some(b) => b,
            None => {
                return false;
            },
        };
        if b == 0 {
            return true;
        }
        let s = rom.read_u8_or_zero();
        output.write_u8(b ^ s);
        proof {
            assert(ups_xor(src, pat, p0, out0) == ups_xor(src, pat, pr.pos(), output.contents()));
        }
    }
}

/// Applies the hunk list and the tail. On success the patch cursor rests
/// exactly at the footer and the output is the tail-extension of the hunk
/// result; on failure the reported error is the one [`ups_hunks`] gives.
fn apply_patch(
    rom: &mut HashingReader,
    pr: &mut HashingReader,
    output: &mut HashingWriter,
    footer_start: u64,
    tsize: u64,
) -> (r: Result<(), PatchingError>)
    requires
        old(rom).wf(),
        old(pr).wf(),
        old(output).wf(),
        old(rom).pos() == 0,
        old(output).contents().len() == 0,
        footer_start == old(pr).contents().len() - 12,
        old(pr).contents().len() >= 12,
    ensures
        final(rom).wf(),
        final(pr).wf(),
        final(output).wf(),
        final(rom).contents() == old(rom).contents(),
        final(pr).contents() == old(pr).contents(),
        match r {
            Ok(_) => ups_hunks(
                old(rom).contents(),
                old(pr).contents(),
                old(pr).pos(),
                footer_start as int,
                Seq::<u8>::empty(),
                true,
            ) matches Ok((oh, p)) && p == footer_start && final(pr).pos() == footer_start && final(output).contents() == ups_tail(old(rom).contents(), oh, tsize as int),
            Err(e) => ups_hunks(
                old(rom).contents(),
                old(pr).contents(),
                old(pr).pos(),
                footer_start as int,
                Seq::<u8>::empty(),
                true,
            ) == Err::<(Seq<u8>, int), _>(e),
        },
{
    let ghost src = rom.contents();
    let ghost pat = pr.contents();
    let ghost pstart = pr.pos();
    proof {
        assert(output.contents() =~= Seq::<u8>::empty());
    }
    let mut first: bool = true;
    loop
        invariant_except_break
            ups_hunks(src, pat, pstart, footer_start as int, Seq::<u8>::empty(), true)
                == ups_hunks(src, pat, pr.pos(), footer_start as int, output.contents(), first),
        invariant
            rom.wf(),
            pr.wf(),
            output.wf(),
            src == old(rom).contents(),
            pat == old(pr).contents(),
            pstart == old(pr).pos(),
            rom.contents() == src,
            pr.contents() == pat,
            pr.pos() <= pat.len(),
            footer_start == pat.len() - 12,
            pat.len() >= 12,
            rom.pos() == min_int(output.contents().len() as int, src.len() as int),
        ensures
            pr.pos() == footer_start,
            ups_hunks(src, pat, pstart, footer_start as int, Seq::<u8>::empty(), true) == Ok::<
                _,
                PatchingError,
            >((output.contents(), pr.pos())),
        decreases pat.len() - pr.pos(),
    {
        let ghost p0 = pr.pos();
        let ghost out0 = output.contents();
        let ghost first0 = first;
        let pos = pr.position();
        if pos == footer_start {
            break;
        }
        if pos > footer_start {
            return Err(PatchingError::BadPatch);
        }
        let rel = match pr.read_varint() {
            Some(v) => v,
            None => {
                return Err(PatchingError::BadPatch);
            },
        };
        proof {
            byuu_advances(pat, p0, 0, 1);
        }
        if !first && rel == u64::MAX {
            // The advance would overflow; no source can supply it.
            let _sl = rom.len();
            proof {
                assert(ups_hunks(src, pat, p0, footer_start as int, out0, first0) == Err::<
                    (Seq<u8>, int),
                    _,
                >(PatchingError::InputFileTooSmall));
            }
            return Err(PatchingError::InputFileTooSmall);
        }
        let adv: u64 = if first {
            rel
        } else {
            rel + 1
        };
        let copied = rom.copy_to_other_exactly(adv, output);
        if !copied {
            proof {
                assert(adv > 0);
                assert(out0.len() + adv > src.len());
            }
            return Err(PatchingError::InputFileTooSmall);
        }
        proof {
            if adv == 0 {
                assert(output.contents() =~= out0);
            }
        }
        let ghost p1 = pr.pos();
        let ghost out1 = output.contents();
        let ok = apply_hunk(rom, pr, output);
        if !ok {
            return Err(PatchingError::BadPatch);
        }
        first = false;
        proof {
            ups_xor_advances(src, pat, p1, out1);
            assert(ups_hunks(src, pat, p0, footer_start as int, out0, first0) == ups_hunks(
                src,
                pat,
                pr.pos(),
                footer_start as int,
                output.contents(),
                false,
            ));
        }
    }
    // Top the output up to the target size from the remaining source,
    // padding with zeros once the source has run out.
    let ghost oh = output.contents();
    while output.position() < tsize
        invariant
            rom.wf(),
            output.wf(),
            src == old(rom).contents(),
            rom.contents() == src,
            oh.len() <= output.contents().len(),
            output.contents().len() <= tsize || output.contents() == oh,
            rom.pos() == min_int(output.contents().len() as int, src.len() as int),
            output.contents().subrange(0, oh.len() as int) == oh,
            forall|j: int|
                oh.len() <= j < output.contents().len() ==> output.contents()[j] == (if j
                    < src.len() {
                    src[j]
                } else {
                    0u8
                }),
        decreases tsize - output.contents().len(),
    {
        let b = rom.read_u8_or_zero();
        output.write_u8(b);
        proof {
            assert(output.contents().subrange(0, oh.len() as int) =~= oh);
        }
    }
    proof {
        assert(output.contents() =~= ups_tail(src, oh, tsize as int));
    }
    Ok(())
}

/// Applies a UPS patch in one streaming pass.
///
/// On success the output is exactly [`ups_apply`] of the inputs, and the
/// report carries the whole-file checksums of source, patch and output,
/// the patch's internal checksum and declared values, and the observed
/// sizes. In strict mode, success implies that the observed source and
/// target checksums and sizes equal the declared ones. On failure the
/// reported error is exactly the one [`ups_apply`] gives.
pub fn patch(rom: Vec<u8>, patch_file: Vec<u8>, strict: bool) -> (r: Result<
    (Vec<u8>, PatchReport),
    PatchingError,
>)
    ensures
        match r {
            Ok((out, report)) => {
                &&& ups_apply(rom@, patch_file@, strict) == Ok::<_, PatchingError>(out@)
                &&& report.actual_source_crc32.spec_value() == crc32_of(rom@)
                &&& report.actual_target_crc32.spec_value() == crc32_of(out@)
                &&& report.patch_whole_file_crc32.spec_value() == crc32_of(patch_file@)
                &&& report.patch_internal_crc32.spec_value() == crc32_of(
                    patch_file@.subrange(0, patch_file@.len() - 4),
                )
                &&& report.expected_source_crc32.spec_value() == le32_at(
                    patch_file@,
                    patch_file@.len() - 12,
                )
                &&& report.expected_target_crc32.spec_value() == le32_at(
                    patch_file@,
                    patch_file@.len() - 8,
                )
                &&& report.actual_source_size == rom@.len()
                &&& report.actual_target_size == out@.len()
                &&& spec_read_byuu(patch_file@, 4) matches Some((ssize, p1))
                    && report.expected_source_size == ssize && (spec_read_byuu(patch_file@, p1)
                    matches Some((tsize, p2)) && report.expected_target_size == tsize)
                &&& strict ==> {
                    &&& report.actual_source_crc32 == report.expected_source_crc32
                    &&& report.actual_target_crc32 == report.expected_target_crc32
                    &&& report.actual_source_size == report.expected_source_size
                    &&& report.actual_target_size == report.expected_target_size
                }
            },
            Err(e) => ups_apply(rom@, patch_file@, strict) == Err::<Seq<u8>, _>(e),
        },
{
    let ghost src = rom@;
    let ghost pat = patch_file@;
    let plen = patch_file.len() as u64;
    if plen < 12 {
        return Err(PatchingError::BadPatch);
    }
    let footer_start = plen - 12;
    let mut romr = HashingReader::new(rom);
    let mut pr = HashingReader::new(patch_file);
    let mut output = HashingWriter::new();
    match pr.read_exact(4) {
        Some(m) => {
            if !(m[0] == 0x55 && m[1] == 0x50 && m[2] == 0x53 && m[3] == 0x31) {
                proof {
                    assert(pat.subrange(0, 4) != ups_magic());
                }
                return Err(PatchingError::BadPatch);
            }
            proof {
                assert(m@ =~= ups_magic());
            }
        },
        None => {
            proof {
                assert(false);
            }
            return Err(PatchingError::BadPatch);
        },
    }
    let ssize = match pr.read_varint() {
        Some(v) => v,
        None => {
            return Err(PatchingError::BadPatch);
        },
    };
    let tsize = match pr.read_varint() {
        Some(v) => v,
        None => {
            return Err(PatchingError::BadPatch);
        },
    };
    let apply_result = apply_patch(&mut romr, &mut pr, &mut output, footer_start, tsize);
    match apply_result {
        Ok(()) => {
            // The cursor rests at the footer; read the declared checksums,
            // taking the internal and whole-file patch checksums on the way.
            let esrc = match pr.read_u32_le() {
                Some(v) => v,
                None => {
                    proof {
                        assert(false);
                    }
                    return Err(PatchingError::BadPatch);
                },
            };
            let etgt = match pr.read_u32_le() {
                Some(v) => v,
                None => {
                    proof {
                        assert(false);
                    }
                    return Err(PatchingError::BadPatch);
                },
            };
            let internal = pr.hasher().finish();
            let epatch = match pr.read_u32_le() {
                Some(v) => v,
                None => {
                    proof {
                        assert(false);
                    }
                    return Err(PatchingError::BadPatch);
                },
            };
            let whole = pr.hasher().finish();
            proof {
                assert(pat.subrange(0, pat.len() as int) =~= pat);
            }
            if internal.value() != epatch {
                return Err(PatchingError::BadPatch);
            }
            if output.position() != tsize {
                return Err(PatchingError::BadPatch);
            }
            // Read and hash the rest of the source.
            let rem = romr.remaining();
            let _ = romr.skip_hashing(rem);
            proof {
                assert(romr.contents().subrange(0, romr.contents().len() as int) =~= src);
            }
            let actual_source_crc32 = romr.hasher().finish();
            let actual_source_size = romr.len();
            let actual_target_crc32 = output.hasher().finish();
            let actual_target_size = output.position();
            if strict {
                if actual_source_crc32.value() != esrc || actual_source_size != ssize {
                    if actual_source_crc32.value() == etgt {
                        return Err(PatchingError::AlreadyPatched);
                    } else {
                        return Err(PatchingError::WrongInputFile);
                    }
                }
                if actual_target_crc32.value() != etgt {
                    return Err(PatchingError::WrongInputFile);
                }
            }
            let expected_source_crc32 = Crc32::new(esrc);
            let expected_target_crc32 = Crc32::new(etgt);
            proof {
                assert(ups_apply(src, pat, strict) == Ok::<Seq<u8>, PatchingError>(
                    output.contents(),
                ));
                if strict {
                    crate::crc::crc32_eq_is_value_eq(actual_source_crc32, expected_source_crc32);
                    crate::crc::crc32_eq_is_value_eq(actual_target_crc32, expected_target_crc32);
                }
            }
            let report = PatchReport {
                expected_source_crc32,
                actual_source_crc32,
                expected_source_size: ssize,
                actual_source_size,
                expected_target_crc32,
                actual_target_crc32,
                expected_target_size: tsize,
                actual_target_size,
                patch_internal_crc32: internal,
                patch_whole_file_crc32: whole,
            };
            Ok((output.into_inner(), report))
        },
        Err(e) => {
            // Judge the patch itself before reporting an applicability
            // error: a corrupt patch must never be blamed on the source.
            let data = pr.get_ref();
            let mut h = CRC32Hasher::new();
            let l = data.len();
            h.update(slice_subrange(data.as_slice(), 0, l - 4));
            proof {
                assert(h.fed() =~= pat.subrange(0, pat.len() - 4));
            }
            let internal = h.finish();
            let b0 = data[l - 4];
            let b1 = data[l - 3];
            let b2 = data[l - 2];
            let b3 = data[l - 1];
            let epatch: u32 = (b0 as u32) + (b1 as u32) * 0x100 + (b2 as u32) * 0x10000 + (
            b3 as u32) * 0x1000000;
            if internal.value() != epatch {
                Err(PatchingError::BadPatch)
            } else {
                Err(e)
            }
        },
    }
}

} // verus!
