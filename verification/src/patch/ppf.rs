//! The PPF patch format, versions 1, 2 and 3.
//!
//! Layout: a five-byte magic (`PPF10`, `PPF20` or `PPF30`), a version byte
//! that must agree with it, fifty bytes of free-form description, and
//! version-specific header fields; then records, each an offset (4 bytes
//! little-endian, or 8 for version 3), a non-zero length byte, that many
//! literal replacement bytes, and — when the header announced undo data —
//! that many original bytes, which are skipped. Versions 2 and 3 may carry
//! a 1024-byte block-check region compared against the source, and an
//! optional trailing file-id footer found by scanning backward from the end
//! of the file.
//!
//! [`ppf_apply`] is the reference semantics; [`patch`] is proved to return
//! exactly that.

use vstd::prelude::*;

use crate::crc::{CRC32Hasher, Crc32, crc32_of};
use crate::hashing::{HashingReader, HashingWriter, MonotonicHashingReader};
use crate::stream::{le_at, min_int};

verus! {

/// The length of a PPF block-check region.
pub const BLOCK_CHECK_LENGTH: u64 = 1024;

/// The largest footer body a PPF file may carry.
pub const MAX_BODY_LENGTH: u32 = 3072;

/// How PPF application can fail.
#[derive(Copy, Clone, Debug, PartialEq, Eq, Structural)]
pub enum PatchingError {
    /// The patch file is corrupt.
    BadPatch,
    /// The block check rejected the source file.
    WrongInputFile,
    /// The source file ends before a record could be applied.
    InputFileTooSmall,
}

/// The PPF format versions.
#[derive(Copy, Clone, Debug, PartialEq, Eq, Structural)]
pub enum Version {
    V1,
    V2,
    V3,
}

/// The image types used by version 3 block checks.
#[derive(Copy, Clone, Debug, PartialEq, Eq, Structural)]
pub enum ImageType {
    BIN,
    GI,
}

impl ImageType {
    /// Where the block-check region starts in an image of this type.
    pub fn block_check_offset(&self) -> (r: u16)
        ensures
            r == (match self {
                ImageType::BIN => 0x9320u16,
                ImageType::GI => 0x80A0u16,
            }),
    {
        match self {
            ImageType::BIN => 0x9320,
            ImageType::GI => 0x80A0,
        }
    }
}

/// How wide the footer body-length field is.
#[derive(Copy, Clone, Debug, PartialEq, Eq, Structural)]
pub enum FooterBodyLengthType {
    U16,
    U32,
}

impl FooterBodyLengthType {
    /// The width of the field in bytes.
    pub fn size(self) -> (r: u64)
        ensures
            r == (match self {
                FooterBodyLengthType::U16 => 2u64,
                FooterBodyLengthType::U32 => 4u64,
            }),
    {
        match self {
            FooterBodyLengthType::U16 => 2,
            FooterBodyLengthType::U32 => 4,
        }
    }
}

/// How wide a record's offset field is.
#[derive(Copy, Clone, Debug, PartialEq, Eq, Structural)]
pub enum RomOffsetType {
    U32,
    U64,
}

impl RomOffsetType {
    /// The width of the field in bytes.
    pub fn size(self) -> (r: u64)
        ensures
            r == (match self {
                RomOffsetType::U32 => 4u64,
                RomOffsetType::U64 => 8u64,
            }),
    {
        match self {
            RomOffsetType::U32 => 4,
            RomOffsetType::U64 => 8,
        }
    }
}

/// The begin-of-footer marker, ASCII `@BEGIN_FILE_ID.DIZ`.
pub open spec fn begin_magic() -> Seq<u8> {
    seq![
        0x40u8, 0x42u8, 0x45u8, 0x47u8, 0x49u8, 0x4Eu8, 0x5Fu8, 0x46u8, 0x49u8, 0x4Cu8, 0x45u8,
        0x5Fu8, 0x49u8, 0x44u8, 0x2Eu8, 0x44u8, 0x49u8, 0x5Au8,
    ]
}

/// The end-of-footer marker, ASCII `@END_FILE_ID.DIZ`.
pub open spec fn end_magic() -> Seq<u8> {
    seq![
        0x40u8, 0x45u8, 0x4Eu8, 0x44u8, 0x5Fu8, 0x46u8, 0x49u8, 0x4Cu8, 0x45u8, 0x5Fu8, 0x49u8,
        0x44u8, 0x2Eu8, 0x44u8, 0x49u8, 0x5Au8,
    ]
}

/// Where the patch data of a version 2 or 3 PPF file ends: at the file-id
/// footer when the file ends with one, else at EOF. A tail that carries the
/// end marker but no matching begin marker, or an oversized body length, is
/// corrupt.
pub open spec fn ppf_end(pat: Seq<u8>, data_start: int, body_len_size: int) -> Result<
    int,
    PatchingError,
> {
    let eof = pat.len() as int;
    let footer_end_len = 16 + body_len_size;
    if eof - data_start < footer_end_len {
        Ok(eof)
    } else {
        let end_magic_pos = eof - footer_end_len;
        if pat.subrange(end_magic_pos, end_magic_pos + 16) != end_magic() {
            Ok(eof)
        } else {
            let body_len = le_at(pat, end_magic_pos + 16, body_len_size as nat);
            let footer_len = 18 + body_len + 16 + body_len_size;
            if body_len > MAX_BODY_LENGTH || footer_len > eof - data_start {
                Err(PatchingError::BadPatch)
            } else if pat.subrange(eof - footer_len, eof - footer_len + 18) != begin_magic() {
                Err(PatchingError::BadPatch)
            } else {
                Ok(eof - footer_len)
            }
        }
    }
}

/// The header of a PPF file: where the patch data starts and ends, the
/// width of record offsets, whether records carry undo data, and the
/// block check (whether one is present, where its region starts in the
/// source, and the checksum the patch stores for it).
pub open spec fn ppf_header(pat: Seq<u8>) -> Result<
    (int, int, int, bool, bool, int, u32),
    PatchingError,
> {
    if pat.len() < 56 {
        Err(PatchingError::BadPatch)
    } else {
        let v5 = pat.subrange(0, 5);
        let vb = pat[5];
        if v5 == seq![0x50u8, 0x50u8, 0x46u8, 0x31u8, 0x30u8] {
            // PPF10
            if vb != 0 {
                Err(PatchingError::BadPatch)
            } else {
                Ok((56int, pat.len() as int, 4int, false, false, 0int, 0u32))
            }
        } else if v5 == seq![0x50u8, 0x50u8, 0x46u8, 0x32u8, 0x30u8] {
            // PPF20
            if vb != 1 {
                Err(PatchingError::BadPatch)
            } else if pat.len() < 1084 {
                Err(PatchingError::BadPatch)
            } else if le_at(pat, 56, 4) == 0 {
                Err(PatchingError::BadPatch)
            } else {
                match ppf_end(pat, 1084, 4) {
                    Err(e) => Err(e),
                    Ok(end) => Ok(
                        (
                            1084int,
                            end,
                            4int,
                            false,
                            true,
                            0x9320int,
                            crc32_of(pat.subrange(60, 1084)),
                        ),
                    ),
                }
            }
        } else if v5 == seq![0x50u8, 0x50u8, 0x46u8, 0x33u8, 0x30u8] {
            // PPF30
            if vb != 2 {
                Err(PatchingError::BadPatch)
            } else if pat.len() < 60 {
                Err(PatchingError::BadPatch)
            } else {
                let image_type = pat[56];
                let block_flag = pat[57];
                let undo_flag = pat[58];
                if image_type > 1 || block_flag > 1 || undo_flag > 1 {
                    Err(PatchingError::BadPatch)
                } else {
                    let bstart: int = if image_type == 0 {
                        0x9320
                    } else {
                        0x80A0
                    };
                    if block_flag == 1 {
                        if pat.len() < 1084 {
                            Err(PatchingError::BadPatch)
                        } else {
                            match ppf_end(pat, 1084, 2) {
                                Err(e) => Err(e),
                                Ok(end) => Ok(
                                    (
                                        1084int,
                                        end,
                                        8int,
                                        undo_flag == 1,
                                        true,
                                        bstart,
                                        crc32_of(pat.subrange(60, 1084)),
                                    ),
                                ),
                            }
                        }
                    } else {
                        match ppf_end(pat, 60, 2) {
                            Err(e) => Err(e),
                            Ok(end) => Ok((60int, end, 8int, undo_flag == 1, false, bstart, 0u32)),
                        }
                    }
                }
            }
        } else {
            Err(PatchingError::BadPatch)
        }
    }
}

/// Copying source bytes onto the end of `out` until it reaches `offset`:
/// a backward offset is a corrupt patch, and a source too short to supply
/// the bytes is reported as such.
pub open spec fn ppf_copy_until(src: Seq<u8>, out: Seq<u8>, offset: int) -> Result<
    Seq<u8>,
    PatchingError,
> {
    if offset < out.len() {
        Err(PatchingError::BadPatch)
    } else if offset == out.len() {
        Ok(out)
    } else if out.len() <= src.len() && offset <= src.len() {
        Ok(out + src.subrange(out.len() as int, offset))
    } else {
        Err(PatchingError::InputFileTooSmall)
    }
}

/// The records of a PPF patch between `ppos` and `end`, applied to `out`.
pub open spec fn ppf_records(
    src: Seq<u8>,
    pat: Seq<u8>,
    ppos: int,
    end: int,
    osize: int,
    undo: bool,
    out: Seq<u8>,
) -> Result<Seq<u8>, PatchingError>
    decreases end - ppos,
{
    if !(0 <= ppos && end <= pat.len() && 1 <= osize) {
        Err(PatchingError::BadPatch)
    } else if ppos == end {
        Ok(out)
    } else if ppos > end || ppos + osize + 1 > end {
        Err(PatchingError::BadPatch)
    } else {
        let offset = le_at(pat, ppos, osize as nat);
        let hunk_len = pat[ppos + osize];
        if hunk_len == 0 {
            Err(PatchingError::BadPatch)
        } else {
            let undo_len: int = if undo {
                hunk_len as int
            } else {
                0
            };
            if ppos + osize + 1 + hunk_len + undo_len > end {
                Err(PatchingError::BadPatch)
            } else {
                match ppf_copy_until(src, out, offset) {
                    Err(e) => Err(e),
                    Ok(out1) => ppf_records(
                        src,
                        pat,
                        ppos + osize + 1 + hunk_len + undo_len,
                        end,
                        osize,
                        undo,
                        out1 + pat.subrange(ppos + osize + 1, ppos + osize + 1 + hunk_len),
                    ),
                }
            }
        }
    }
}

/// The meaning of a PPF patch applied to `src`: the patched output, or the
/// error reported. A patch without records is corrupt. After the records
/// the rest of the source is kept. In strict mode, when the header carries
/// a block check and the source covers the block region, a region whose
/// checksum differs from the stored one rejects the source.
pub open spec fn ppf_apply(src: Seq<u8>, pat: Seq<u8>, strict: bool) -> Result<
    Seq<u8>,
    PatchingError,
> {
    match ppf_header(pat) {
        Err(e) => Err(e),
        Ok((ds, end, osize, undo, has_block, bstart, bcrc)) => {
            if ds == end {
                Err(PatchingError::BadPatch)
            } else {
                match ppf_records(src, pat, ds, end, osize, undo, Seq::<u8>::empty()) {
                    Err(e) => Err(e),
                    Ok(out) => {
                        let out2 = if out.len() <= src.len() {
                            out + src.subrange(out.len() as int, src.len() as int)
                        } else {
                            out
                        };
                        if strict && has_block && bstart + 1024 <= src.len() && crc32_of(
                            src.subrange(bstart, bstart + 1024),
                        ) != bcrc {
                            Err(PatchingError::WrongInputFile)
                        } else {
                            Ok(out2)
                        }
                    },
                }
            }
        },
    }
}

/// Compares `expect` against the bytes of `data` starting at `pos`.
fn bytes_eq_at(data: &Vec<u8>, pos: usize, expect: &Vec<u8>) -> (r: bool)
    requires
        pos + expect@.len() <= data@.len(),
    ensures
        r <==> data@.subrange(pos as int, pos + expect@.len()) == expect@,
{
    let n = expect.len();
    let _dl = data.len();
    let mut i: usize = 0;
    while i < n
        invariant
            data@.len() <= usize::MAX,
            pos + n <= data@.len(),
            n == expect@.len(),
            0 <= i <= n,
            forall|j: int| 0 <= j < i ==> data@[pos + j] == expect@[j],
        decreases n - i,
    {
        if data[pos + i] != expect[i] {
            proof {
                assert(data@.subrange(pos as int, pos + expect@.len())[i as int] != expect@[
                i as int]);
            }
            return false;
        }
        i = i + 1;
    }
    proof {
        assert(data@.subrange(pos as int, pos + expect@.len()) =~= expect@);
    }
    true
}

/// The begin-of-footer marker as bytes.
fn begin_magic_vec() -> (r: Vec<u8>)
    ensures
        r@ == begin_magic(),
{
    let mut v: Vec<u8> = Vec::new();
    v.push(0x40);
    v.push(0x42);
    v.push(0x45);
    v.push(0x47);
    v.push(0x49);
    v.push(0x4E);
    v.push(0x5F);
    v.push(0x46);
    v.push(0x49);
    v.push(0x4C);
    v.push(0x45);
    v.push(0x5F);
    v.push(0x49);
    v.push(0x44);
    v.push(0x2E);
    v.push(0x44);
    v.push(0x49);
    v.push(0x5A);
    proof {
        assert(v@ =~= begin_magic());
    }
    v
}

/// The end-of-footer marker as bytes.
fn end_magic_vec() -> (r: Vec<u8>)
    ensures
        r@ == end_magic(),
{
    let mut v: Vec<u8> = Vec::new();
    v.push(0x40);
    v.push(0x45);
    v.push(0x4E);
    v.push(0x44);
    v.push(0x5F);
    v.push(0x46);
    v.push(0x49);
    v.push(0x4C);
    v.push(0x45);
    v.push(0x5F);
    v.push(0x49);
    v.push(0x44);
    v.push(0x2E);
    v.push(0x44);
    v.push(0x49);
    v.push(0x5A);
    proof {
        assert(v@ =~= end_magic());
    }
    v
}

/// Finds the end of the patch data of a version 2 or 3 PPF file by probing
/// the end of the file for the file-id footer, exactly as [`ppf_end`]
/// describes.
fn find_end_of_patch(data: &Vec<u8>, data_start: u64, body_len_size: u64) -> (r: Result<
    u64,
    PatchingError,
>)
    requires
        data_start <= data@.len(),
        body_len_size == 2 || body_len_size == 4,
    ensures
        match r {
            Ok(p) => ppf_end(data@, data_start as int, body_len_size as int) == Ok::<
                _,
                PatchingError,
            >(p as int) && data_start <= p <= data@.len(),
            Err(e) => ppf_end(data@, data_start as int, body_len_size as int) == Err::<int, _>(e),
        },
{
    let eof = data.len() as u64;
    let footer_end_len = 16 + body_len_size;
    if eof - data_start < footer_end_len {
        return Ok(eof);
    }
    let end_magic_pos = eof - footer_end_len;
    let em = end_magic_vec();
    if !bytes_eq_at(data, end_magic_pos as usize, &em) {
        return Ok(eof);
    }
    // Read the body length stored after the end marker, little-endian.
    let mut body_len: u64 = 0;
    let base = (end_magic_pos + 16) as usize;
    if body_len_size == 2 {
        body_len = (data[base] as u64) + (data[base + 1] as u64) * 0x100;
        proof {
            reveal_with_fuel(crate::stream::le_at, 3);
            assert(body_len == le_at(data@, base as int, 2));
        }
    } else {
        body_len = (data[base] as u64) + (data[base + 1] as u64) * 0x100 + (data[base + 2] as u64)
            * 0x10000 + (data[base + 3] as u64) * 0x1000000;
        proof {
            reveal_with_fuel(crate::stream::le_at, 5);
            assert(body_len == le_at(data@, base as int, 4));
        }
    }
    let footer_len = 18 + body_len + 16 + body_len_size;
    if body_len > MAX_BODY_LENGTH as u64 || footer_len > eof - data_start {
        return Err(PatchingError::BadPatch);
    }
    let bm = begin_magic_vec();
    if !bytes_eq_at(data, (eof - footer_len) as usize, &bm) {
        return Err(PatchingError::BadPatch);
    }
    Ok(eof - footer_len)
}

/// Applies a PPF patch. On success the output stream holds exactly
/// [`ppf_apply`] of the source and patch bytes; on failure the reported
/// error is exactly the one [`ppf_apply`] gives. The patch cursor is left
/// at the end of the patch data; any file-id footer behind it is left to
/// the caller to drain.
#[verifier::rlimit(100)]
pub fn patch(
    rom: &mut MonotonicHashingReader,
    pr: &mut HashingReader,
    output: &mut HashingWriter,
    strict: bool,
) -> (r: Result<(), PatchingError>)
    requires
        old(rom).wf(),
        old(rom).stream_pos() == 0,
        old(rom).hashed_pos() == 0,
        old(pr).wf(),
        old(pr).pos() == 0,
        old(output).wf(),
        old(output).contents().len() == 0,
    ensures
        final(rom).wf(),
        final(pr).wf(),
        final(output).wf(),
        final(rom).contents() == old(rom).contents(),
        final(pr).contents() == old(pr).contents(),
        match r {
            Ok(_) => ppf_apply(old(rom).contents(), old(pr).contents(), strict) == Ok::<
                _,
                PatchingError,
            >(final(output).contents()),
            Err(e) => ppf_apply(old(rom).contents(), old(pr).contents(), strict) == Err::<
                Seq<u8>,
                _,
            >(e),
        },
{
    let ghost src = rom.contents();
    let ghost pat = pr.contents();
    // Header: magic, version byte, description.
    let magic = match pr.read_exact(5) {
        Some(m) => m,
        None => {
            return Err(PatchingError::BadPatch);
        },
    };
    let vb = match pr.read_u8() {
        Some(b) => b,
        None => {
            return Err(PatchingError::BadPatch);
        },
    };
    let _desc = match pr.read_exact(50) {
        Some(d) => d,
        None => {
            return Err(PatchingError::BadPatch);
        },
    };
    let is_v1 = magic[0] == 0x50 && magic[1] == 0x50 && magic[2] == 0x46 && magic[3] == 0x31
        && magic[4] == 0x30;
    let is_v2 = magic[0] == 0x50 && magic[1] == 0x50 && magic[2] == 0x46 && magic[3] == 0x32
        && magic[4] == 0x30;
    let is_v3 = magic[0] == 0x50 && magic[1] == 0x50 && magic[2] == 0x46 && magic[3] == 0x33
        && magic[4] == 0x30;
    proof {
        if is_v1 {
            assert(pat.subrange(0, 5) =~= seq![0x50u8, 0x50u8, 0x46u8, 0x31u8, 0x30u8]);
        }
        if is_v2 {
            assert(pat.subrange(0, 5) =~= seq![0x50u8, 0x50u8, 0x46u8, 0x32u8, 0x30u8]);
        }
        if is_v3 {
            assert(pat.subrange(0, 5) =~= seq![0x50u8, 0x50u8, 0x46u8, 0x33u8, 0x30u8]);
        }
        if !(is_v1 || is_v2 || is_v3) {
            assert(pat.subrange(0, 5) != seq![0x50u8, 0x50u8, 0x46u8, 0x31u8, 0x30u8]);
            assert(pat.subrange(0, 5) != seq![0x50u8, 0x50u8, 0x46u8, 0x32u8, 0x30u8]);
            assert(pat.subrange(0, 5) != seq![0x50u8, 0x50u8, 0x46u8, 0x33u8, 0x30u8]);
        }
    }
    // Resolve the header fields per version.
    let mut data_start: u64 = 0;
    let mut end_of_patch: u64 = 0;
    let mut osize: u64 = 4;
    let mut undo: bool = false;
    let mut has_block: bool = false;
    let mut bstart: u64 = 0;
    let mut bcrc: Crc32 = Crc32::new(0);
    if is_v1 {
        if vb != 0 {
            return Err(PatchingError::BadPatch);
        }
        data_start = 56;
        end_of_patch = pr.len();
        osize = 4;
    } else if is_v2 {
        if vb != 1 {
            return Err(PatchingError::BadPatch);
        }
        if pr.len() < 1084 {
            return Err(PatchingError::BadPatch);
        }
        let fsize = match pr.read_u32_le() {
            Some(v) => v,
            None => {
                proof {
                    assert(false);
                }
                return Err(PatchingError::BadPatch);
            },
        };
        proof {
            crate::stream::le32_at_is_le_at(pat, 56);
        }
        if fsize == 0 {
            return Err(PatchingError::BadPatch);
        }
        let block = match pr.read_exact(1024) {
            Some(b) => b,
            None => {
                proof {
                    assert(false);
                }
                return Err(PatchingError::BadPatch);
            },
        };
        let mut h = CRC32Hasher::new();
        h.update(block.as_slice());
        proof {
            assert(h.fed() =~= pat.subrange(60, 1084));
        }
        bcrc = h.finish();
        has_block = true;
        bstart = 0x9320;
        data_start = 1084;
        end_of_patch = match find_end_of_patch(pr.get_ref(), 1084, 4) {
            Ok(p) => p,
            Err(e) => {
                return Err(e);
            },
        };
        osize = 4;
    } else if is_v3 {
        if vb != 2 {
            return Err(PatchingError::BadPatch);
        }
        if pr.len() < 60 {
            return Err(PatchingError::BadPatch);
        }
        let image_type = match pr.read_u8() {
            Some(b) => b,
            None => {
                proof {
                    assert(false);
                }
                return Err(PatchingError::BadPatch);
            },
        };
        let block_flag = match pr.read_u8() {
            Some(b) => b,
            None => {
                proof {
                    assert(false);
                }
                return Err(PatchingError::BadPatch);
            },
        };
        let undo_flag = match pr.read_u8() {
            Some(b) => b,
            None => {
                proof {
                    assert(false);
                }
                return Err(PatchingError::BadPatch);
            },
        };
        let _reserved = match pr.read_u8() {
            Some(b) => b,
            None => {
                proof {
                    assert(false);
                }
                return Err(PatchingError::BadPatch);
            },
        };
        if image_type > 1 || block_flag > 1 || undo_flag > 1 {
            return Err(PatchingError::BadPatch);
        }
        undo = undo_flag == 1;
        bstart = if image_type == 0 {
            0x9320
        } else {
            0x80A0
        };
        if block_flag == 1 {
            if pr.len() < 1084 {
                return Err(PatchingError::BadPatch);
            }
            let block = match pr.read_exact(1024) {
                Some(b) => b,
                None => {
                    proof {
                        assert(false);
                    }
                    return Err(PatchingError::BadPatch);
                },
            };
            let mut h = CRC32Hasher::new();
            h.update(block.as_slice());
            proof {
                assert(h.fed() =~= pat.subrange(60, 1084));
            }
            bcrc = h.finish();
            has_block = true;
            data_start = 1084;
            end_of_patch = match find_end_of_patch(pr.get_ref(), 1084, 2) {
                Ok(p) => p,
                Err(e) => {
                    return Err(e);
                },
            };
        } else {
            data_start = 60;
            end_of_patch = match find_end_of_patch(pr.get_ref(), 60, 2) {
                Ok(p) => p,
                Err(e) => {
                    return Err(e);
                },
            };
        }
        osize = 8;
    } else {
        return Err(PatchingError::BadPatch);
    }
    // A patch with no records at all is corrupt.
    if data_start == end_of_patch {
        return Err(PatchingError::BadPatch);
    }
    let ghost gds = data_start as int;
    let ghost gend = end_of_patch as int;
    let ghost gosize = osize as int;
    let ghost gundo = undo;
    proof {
        assert(ppf_header(pat) == Ok::<_, PatchingError>(
            (gds, gend, gosize, gundo, has_block, bstart as int, bcrc.spec_value()),
        ));
        assert(output.contents() =~= Seq::<u8>::empty());
    }
    // Records.
    loop
        invariant_except_break
            ppf_records(src, pat, gds, gend, gosize, gundo, Seq::<u8>::empty()) == ppf_records(
                src,
                pat,
                pr.pos(),
                gend,
                gosize,
                gundo,
                output.contents(),
            ),
            gds <= pr.pos() <= gend,
            pr.pos() <= pat.len(),
        invariant
            rom.wf(),
            pr.wf(),
            output.wf(),
            src == old(rom).contents(),
            pat == old(pr).contents(),
            rom.contents() == src,
            pr.contents() == pat,
            gend <= pat.len(),
            gosize == 4 || gosize == 8,
            gds == data_start,
            gend == end_of_patch,
            gosize == osize,
            gundo == undo,
            gds != gend,
            ppf_header(pat) == Ok::<_, PatchingError>(
                (gds, gend, gosize, gundo, has_block, bstart as int, bcrc.spec_value()),
            ),
            rom.stream_pos() == min_int(output.contents().len() as int, src.len() as int),
        ensures
            pr.pos() == gend,
            ppf_records(src, pat, gds, gend, gosize, gundo, Seq::<u8>::empty()) == Ok::<
                _,
                PatchingError,
            >(output.contents()),
        decreases gend - pr.pos(),
    {
        let ghost p0 = pr.pos();
        let ghost out0 = output.contents();
        let pos = pr.position();
        if pos == end_of_patch {
            break;
        }
        proof {
            assert(gds <= pr.pos() <= gend);
            assert(pos == pr.pos());
            assert(pos <= end_of_patch);
        }
        if osize + 1 > end_of_patch - pos {
            proof {
                assert(ppf_records(src, pat, p0, gend, gosize, gundo, out0) == Err::<Seq<u8>, _>(
                    PatchingError::BadPatch,
                ));
            }
            return Err(PatchingError::BadPatch);
        }
        let offset = match pr.read_le_bytes(osize as usize) {
            Some(v) => v,
            None => {
                proof {
                    assert(false);
                }
                return Err(PatchingError::BadPatch);
            },
        };
        proof {
            crate::stream::le_at_fits_u64(pat, p0, gosize as nat);
        }
        let hunk_len = match pr.read_u8() {
            Some(b) => b,
            None => {
                proof {
                    assert(false);
                }
                return Err(PatchingError::BadPatch);
            },
        };
        if hunk_len == 0 {
            proof {
                assert(ppf_records(src, pat, p0, gend, gosize, gundo, out0) == Err::<Seq<u8>, _>(
                    PatchingError::BadPatch,
                ));
            }
            return Err(PatchingError::BadPatch);
        }
        let undo_len: u64 = if undo {
            hunk_len as u64
        } else {
            0
        };
        if hunk_len as u64 + undo_len > end_of_patch - pr.position() {
            proof {
                assert(ppf_records(src, pat, p0, gend, gosize, gundo, out0) == Err::<Seq<u8>, _>(
                    PatchingError::BadPatch,
                ));
            }
            return Err(PatchingError::BadPatch);
        }
        // Copy the source as it is until the record's offset.
        let out_pos = output.position();
        if offset < out_pos {
            proof {
                assert(ppf_copy_until(src, out0, offset as int) == Err::<Seq<u8>, _>(
                    PatchingError::BadPatch,
                ));
                assert(ppf_records(src, pat, p0, gend, gosize, gundo, out0) == Err::<Seq<u8>, _>(
                    PatchingError::BadPatch,
                ));
            }
            return Err(PatchingError::BadPatch);
        }
        let k = offset - out_pos;
        let copied = rom.copy_to_other_exactly(k, output);
        if !copied {
            proof {
                assert(offset as int > out0.len());
                assert(!(out0.len() <= src.len() && offset as int <= src.len()));
                assert(ppf_copy_until(src, out0, offset as int) == Err::<Seq<u8>, _>(
                    PatchingError::InputFileTooSmall,
                ));
                assert(ppf_records(src, pat, p0, gend, gosize, gundo, out0) == Err::<Seq<u8>, _>(
                    PatchingError::InputFileTooSmall,
                ));
            }
            return Err(PatchingError::InputFileTooSmall);
        }
        proof {
            if k == 0 {
                assert(output.contents() =~= out0);
            } else {
                assert(output.contents() =~= out0 + src.subrange(out0.len() as int, offset as int));
            }
            assert(ppf_copy_until(src, out0, offset as int) == Ok::<_, PatchingError>(
                output.contents(),
            ));
        }
        // Write the replacement bytes and advance the source past them.
        match pr.read_exact(hunk_len as usize) {
            Some(data_bytes) => {
                output.write_all(data_bytes.as_slice());
            },
            None => {
                proof {
                    assert(false);
                }
                return Err(PatchingError::BadPatch);
            },
        }
        let _ = rom.skip_hash(hunk_len as u64);
        if undo {
            let skipped_undo = pr.skip_hashing(undo_len);
            if !skipped_undo {
                proof {
                    assert(false);
                }
                return Err(PatchingError::BadPatch);
            }
        }
        proof {
            assert(ppf_records(src, pat, p0, gend, gosize, gundo, out0) == ppf_records(
                src,
                pat,
                pr.pos(),
                gend,
                gosize,
                gundo,
                output.contents(),
            ));
        }
    }
    // Keep the rest of the source.
    let ghost out0 = output.contents();
    let sp = rom.stream_position();
    let sl = rom.len();
    let _ = rom.copy_to_other_exactly(sl - sp, output);
    proof {
        if out0.len() <= src.len() {
            assert(output.contents() =~= out0 + src.subrange(out0.len() as int, src.len() as int));
        } else {
            assert(output.contents() =~= out0);
        }
    }
    // The block check, when the source covers the region.
    if strict && has_block {
        let slen = rom.len();
        if bstart + BLOCK_CHECK_LENGTH <= slen {
            let rom_data = rom.inner().get_ref();
            let mut h = CRC32Hasher::new();
            h.update(
                vstd::slice::slice_subrange(
                    rom_data.as_slice(),
                    bstart as usize,
                    (bstart + BLOCK_CHECK_LENGTH) as usize,
                ),
            );
            proof {
                assert(h.fed() =~= src.subrange(bstart as int, bstart + 1024));
            }
            let block_crc = h.finish();
            if block_crc.value() != bcrc.value() {
                return Err(PatchingError::WrongInputFile);
            }
        }
    }
    Ok(())
}

} // verus!
