//! The IPS patch format.
//!
//! Layout: the magic `PATCH`, a sequence of records, the marker `EOF`, and
//! an optional 3-byte big-endian truncated-size trailer. A record is a
//! 3-byte big-endian offset and a 2-byte big-endian size followed by that
//! many literal replacement bytes; a size of zero introduces a run-length
//! record: a 2-byte count (which must not be zero) and the fill byte.
//!
//! [`ips_apply`] is the reference semantics: a function from source and
//! patch bytes to either the patched output or the reported error.
//! [`patch`] is proved to return exactly that.

use vstd::prelude::*;

use crate::hashing::{HashingReader, HashingWriter, MonotonicHashingReader};
use crate::stream::{be16_at, be24_at, min_int};

verus! {

/// The record offset that marks the end of the record list: ASCII `EOF`.
pub const EOF_OFFSET: u32 = 0x454F46;

/// How IPS application can fail.
#[derive(Copy, Clone, Debug, PartialEq, Eq, Structural)]
pub enum PatchingError {
    /// The patch file is corrupt.
    BadPatch,
    /// The source file ends before a record or the trailer could be applied.
    InputFileTooSmall,
}

/// The IPS magic, ASCII `PATCH`.
pub open spec fn ips_magic() -> Seq<u8> {
    seq![0x50u8, 0x41u8, 0x54u8, 0x43u8, 0x48u8]
}

/// Copying source bytes onto the end of `out` until it reaches `offset`:
/// a backward offset is a corrupt patch, and a source too short to supply
/// the bytes is reported as such.
pub open spec fn ips_copy_until(src: Seq<u8>, out: Seq<u8>, offset: int) -> Result<
    Seq<u8>,
    PatchingError,
> {
    if offset < out.len() {
        Err(PatchingError::BadPatch)
    } else if offset == out.len() {
        Ok(out)
    } else if out.len() <= src.len() && offset <= src.len() {
        Ok(out + src.subrange(out.len() as int, offset))
    } else {
        Err(PatchingError::InputFileTooSmall)
    }
}

/// Applies the records of `patch` starting at `ppos` to `out`, until the
/// `EOF` marker. Returns the output so far and the position one past the
/// marker.
pub open spec fn ips_records(src: Seq<u8>, patch: Seq<u8>, ppos: int, out: Seq<u8>) -> Result<
    (Seq<u8>, int),
    PatchingError,
>
    decreases patch.len() - ppos,
{
    if ppos < 0 || ppos + 3 > patch.len() {
        Err(PatchingError::BadPatch)
    } else {
        let offset = be24_at(patch, ppos);
        if offset == EOF_OFFSET {
            Ok((out, ppos + 3))
        } else {
            match ips_copy_until(src, out, offset) {
                Err(e) => Err(e),
                Ok(out1) => {
                    if ppos + 5 > patch.len() {
                        Err(PatchingError::BadPatch)
                    } else {
                        let size = be16_at(patch, ppos + 3);
                        if size > 0 {
                            if ppos + 5 + size > patch.len() {
                                Err(PatchingError::BadPatch)
                            } else {
                                ips_records(
                                    src,
                                    patch,
                                    ppos + 5 + size,
                                    out1 + patch.subrange(ppos + 5, ppos + 5 + size),
                                )
                            }
                        } else {
                            if ppos + 8 > patch.len() {
                                Err(PatchingError::BadPatch)
                            } else {
                                let rle_len = be16_at(patch, ppos + 5);
                                let fill = patch[ppos + 7];
                                if rle_len == 0 {
                                    Err(PatchingError::BadPatch)
                                } else {
                                    ips_records(
                                        src,
                                        patch,
                                        ppos + 8,
                                        out1 + Seq::<u8>::new(rle_len as nat, |i| fill),
                                    )
                                }
                            }
                        }
                    }
                },
            }
        }
    }
}

/// The meaning of an IPS patch: the patched output produced from `src`, or
/// the error reported. After the records, a missing trailer means the rest
/// of the source is kept; a trailer bounds the output instead. A patch
/// without records, or with anything after the trailer, is corrupt.
pub open spec fn ips_apply(src: Seq<u8>, patch: Seq<u8>) -> Result<Seq<u8>, PatchingError> {
    if patch.len() < 5 || patch.subrange(0, 5) != ips_magic() {
        Err(PatchingError::BadPatch)
    } else {
        match ips_records(src, patch, 5, Seq::<u8>::empty()) {
            Err(e) => Err(e),
            Ok((out, p)) => {
                if out.len() == 0 {
                    Err(PatchingError::BadPatch)
                } else if p == patch.len() {
                    if out.len() <= src.len() {
                        Ok(out + src.subrange(out.len() as int, src.len() as int))
                    } else {
                        Ok(out)
                    }
                } else if p + 3 == patch.len() {
                    ips_copy_until(src, out, be24_at(patch, p))
                } else {
                    Err(PatchingError::BadPatch)
                }
            },
        }
    }
}

/// An IPS patch whose only record writes `b` at offset zero, followed by
/// a truncated-size trailer equal to the length of `b`.
pub open spec fn ips_whole_replacement_patch(b: Seq<u8>) -> Seq<u8> {
    ips_magic() + seq![
        0u8, 0u8, 0u8, (b.len() / 256) as u8, (b.len() % 256) as u8,
    ] + b + seq![0x45u8, 0x4Fu8, 0x46u8, 0u8, (b.len() / 256) as u8, (b.len() % 256) as u8]
}

/// Law: a patch whose only record replaces the entire source with the
/// bytes `b`, followed by a truncated-size trailer equal to their length,
/// produces exactly `b` — whatever the source holds, and however long it
/// is. A single record carries at most `0xFFFF` bytes and may not be
/// empty.
pub proof fn ips_whole_replacement_applies(src: Seq<u8>, b: Seq<u8>)
    requires
        1 <= b.len() <= 0xFFFF,
    ensures
        ips_apply(src, ips_whole_replacement_patch(b)) == Ok::<Seq<u8>, PatchingError>(b),
{
    let pat = ips_whole_replacement_patch(b);
    let n = b.len() as int;
    let hi = (b.len() / 256) as u8;
    let lo = (b.len() % 256) as u8;
    let head = ips_magic() + seq![0u8, 0u8, 0u8, hi, lo];
    let tail = seq![0x45u8, 0x4Fu8, 0x46u8, 0u8, hi, lo];
    assert(head.len() == 10 && tail.len() == 6 && pat.len() == n + 16);
    assert(pat.subrange(0, 5) =~= ips_magic());
    assert(pat[5] == 0 && pat[6] == 0 && pat[7] == 0) by {
        assert(pat[5] == head[5] && pat[6] == head[6] && pat[7] == head[7]);
    }
    assert(pat[8] == hi && pat[9] == lo) by {
        assert(pat[8] == head[8] && pat[9] == head[9]);
    }
    assert(hi * 256 + lo == n) by {
        assert(b.len() as int == 256 * (b.len() as int / 256) + (b.len() as int % 256)) by {
            vstd::arithmetic::div_mod::lemma_fundamental_div_mod(b.len() as int, 256);
        }
    }
    assert(be24_at(pat, 5) == 0);
    assert(be16_at(pat, 8) == n);
    assert(pat.subrange(10, 10 + n) =~= b);
    assert(pat[10 + n] == 0x45 && pat[11 + n] == 0x4F && pat[12 + n] == 0x46 && pat[13 + n] == 0
        && pat[14 + n] == hi && pat[15 + n] == lo) by {
        assert(pat[10 + n] == tail[0] && pat[11 + n] == tail[1] && pat[12 + n] == tail[2]);
        assert(pat[13 + n] == tail[3] && pat[14 + n] == tail[4] && pat[15 + n] == tail[5]);
    }
    assert(be24_at(pat, 10 + n) == EOF_OFFSET);
    assert(be24_at(pat, 13 + n) == n);
    // Walk the record list: one literal record, then the end marker.
    assert(ips_copy_until(src, Seq::<u8>::empty(), 0) == Ok::<Seq<u8>, PatchingError>(
        Seq::<u8>::empty(),
    ));
    assert(Seq::<u8>::empty() + pat.subrange(10, 10 + n) =~= b);
    assert(ips_records(src, pat, 10 + n, b) == Ok::<(Seq<u8>, int), PatchingError>((b, 13 + n)));
    assert(ips_records(src, pat, 5, Seq::<u8>::empty()) == Ok::<(Seq<u8>, int), PatchingError>(
        (b, 13 + n),
    ));
    // The trailer bounds the output exactly at its current length.
    assert(ips_copy_until(src, b, n) == Ok::<Seq<u8>, PatchingError>(b));
}

/// Applies an IPS patch. On success the output stream holds exactly
/// [`ips_apply`] of the source and patch bytes, the returned size is its
/// length, and the whole patch has been consumed (and therefore hashed); on
/// failure the reported error is exactly the one [`ips_apply`] gives.
pub fn patch(
    rom: &mut MonotonicHashingReader,
    patch_file: &mut HashingReader,
    output: &mut HashingWriter,
) -> (r: Result<u64, PatchingError>)
    requires
        old(rom).wf(),
        old(rom).stream_pos() == 0,
        old(rom).hashed_pos() == 0,
        old(patch_file).wf(),
        old(patch_file).pos() == 0,
        old(output).wf(),
        old(output).contents().len() == 0,
    ensures
        final(rom).wf(),
        final(patch_file).wf(),
        final(output).wf(),
        final(rom).contents() == old(rom).contents(),
        final(patch_file).contents() == old(patch_file).contents(),
        match r {
            Ok(size) => ips_apply(old(rom).contents(), old(patch_file).contents()) == Ok::<
                _,
                PatchingError,
            >(final(output).contents()) && size == final(output).contents().len() && final(patch_file).pos() == final(patch_file).contents().len(),
            Err(e) => ips_apply(old(rom).contents(), old(patch_file).contents()) == Err::<
                Seq<u8>,
                _,
            >(e),
        },
{
    let ghost src = rom.contents();
    let ghost pat = patch_file.contents();
    match patch_file.read_exact(5) {
        Some(m) => {
            if !(m[0] == 0x50 && m[1] == 0x41 && m[2] == 0x54 && m[3] == 0x43 && m[4] == 0x48) {
                proof {
                    assert(pat.subrange(0, 5) != ips_magic());
                }
                return Err(PatchingError::BadPatch);
            }
            proof {
                assert(m@ =~= ips_magic());
            }
        },
        None => {
            return Err(PatchingError::BadPatch);
        },
    }
    proof {
        assert(output.contents() =~= Seq::<u8>::empty());
    }
    loop
        invariant_except_break
            ips_records(src, pat, 5, Seq::<u8>::empty()) == ips_records(
                src,
                pat,
                patch_file.pos(),
                output.contents(),
            ),
            5 <= patch_file.pos() <= pat.len(),
        invariant
            rom.wf(),
            patch_file.wf(),
            output.wf(),
            src == old(rom).contents(),
            pat == old(patch_file).contents(),
            rom.contents() == src,
            patch_file.contents() == pat,
            pat.len() >= 5,
            pat.subrange(0, 5) == ips_magic(),
            rom.stream_pos() == min_int(output.contents().len() as int, src.len() as int),
        ensures
            patch_file.pos() <= pat.len(),
            ips_records(src, pat, 5, Seq::<u8>::empty()) == Ok::<_, PatchingError>(
                (output.contents(), patch_file.pos()),
            ),
        decreases pat.len() - patch_file.pos(),
    {
        let ghost p0 = patch_file.pos();
        let ghost out0 = output.contents();
        let offset = match patch_file.read_u24_be() {
            Some(o) => o,
            None => {
                proof {
                    assert(ips_records(src, pat, p0, out0) == Err::<(Seq<u8>, int), _>(
                        PatchingError::BadPatch,
                    ));
                }
                return Err(PatchingError::BadPatch);
            },
        };
        if offset == EOF_OFFSET {
            proof {
                assert(ips_records(src, pat, p0, out0) == Ok::<_, PatchingError>((out0, p0 + 3)));
            }
            break;
        }
        // Copy the source as it is until the next patch record.
        let out_pos = output.position();
        if (offset as u64) < out_pos {
            proof {
                assert(ips_copy_until(src, out0, offset as int) == Err::<Seq<u8>, _>(
                    PatchingError::BadPatch,
                ));
                assert(ips_records(src, pat, p0, out0) == Err::<(Seq<u8>, int), _>(
                    PatchingError::BadPatch,
                ));
            }
            return Err(PatchingError::BadPatch);
        }
        let k = offset as u64 - out_pos;
        let copied = rom.copy_to_other_exactly(k, output);
        if !copied {
            proof {
                assert(offset as int > out0.len());
                assert(!(out0.len() <= src.len() && offset as int <= src.len()));
                assert(ips_copy_until(src, out0, offset as int) == Err::<Seq<u8>, _>(
                    PatchingError::InputFileTooSmall,
                ));
                assert(ips_records(src, pat, p0, out0) == Err::<(Seq<u8>, int), _>(
                    PatchingError::InputFileTooSmall,
                ));
            }
            return Err(PatchingError::InputFileTooSmall);
        }
        proof {
            if k == 0 {
                assert(output.contents() =~= out0);
            } else {
                assert(output.contents() =~= out0 + src.subrange(out0.len() as int, offset as int));
            }
            assert(ips_copy_until(src, out0, offset as int) == Ok::<_, PatchingError>(
                output.contents(),
            ));
        }
        let ghost out1 = output.contents();
        let size = match patch_file.read_u16_be() {
            Some(s) => s,
            None => {
                proof {
                    assert(ips_records(src, pat, p0, out0) == Err::<(Seq<u8>, int), _>(
                        PatchingError::BadPatch,
                    ));
                }
                return Err(PatchingError::BadPatch);
            },
        };
        if size > 0 {
            match patch_file.read_exact(size as usize) {
                Some(data) => {
                    output.write_all(data.as_slice());
                },
                None => {
                    proof {
                        assert(ips_records(src, pat, p0, out0) == Err::<(Seq<u8>, int), _>(
                            PatchingError::BadPatch,
                        ));
                    }
                    return Err(PatchingError::BadPatch);
                },
            }
            let _ = rom.skip_hash(size as u64);
            proof {
                assert(output.contents() == out1 + pat.subrange(p0 + 5, p0 + 5 + size as int));
                assert(ips_records(src, pat, p0, out0) == ips_records(
                    src,
                    pat,
                    patch_file.pos(),
                    output.contents(),
                ));
            }
        } else {
            let rle = match patch_file.read_u16_be() {
                Some(s) => s,
                None => {
                    proof {
                        assert(ips_records(src, pat, p0, out0) == Err::<(Seq<u8>, int), _>(
                            PatchingError::BadPatch,
                        ));
                    }
                    return Err(PatchingError::BadPatch);
                },
            };
            if rle == 0 {
                proof {
                    assert(ips_records(src, pat, p0, out0) == Err::<(Seq<u8>, int), _>(
                        PatchingError::BadPatch,
                    ));
                }
                return Err(PatchingError::BadPatch);
            }
            let fill = match patch_file.read_u8() {
                Some(b) => b,
                None => {
                    proof {
                        assert(ips_records(src, pat, p0, out0) == Err::<(Seq<u8>, int), _>(
                            PatchingError::BadPatch,
                        ));
                    }
                    return Err(PatchingError::BadPatch);
                },
            };
            output.write_repeat(fill, rle as u64);
            let _ = rom.skip_hash(rle as u64);
            proof {
                assert(output.contents() =~= out1 + Seq::<u8>::new(
                    be16_at(pat, p0 + 5) as nat,
                    |i| pat[p0 + 7],
                ));
                assert(ips_records(src, pat, p0, out0) == ips_records(
                    src,
                    pat,
                    patch_file.pos(),
                    output.contents(),
                ));
            }
        }
    }
    // The record list has ended.
    if output.position() == 0 {
        return Err(PatchingError::BadPatch);
    }
    if patch_file.has_reached_eof() {
        // No trailer: keep the rest of the source.
        let ghost out0 = output.contents();
        let sp = rom.stream_position();
        let sl = rom.len();
        let _ = rom.copy_to_other_exactly(sl - sp, output);
        proof {
            if out0.len() <= src.len() {
                assert(output.contents() =~= out0 + src.subrange(
                    out0.len() as int,
                    src.len() as int,
                ));
            } else {
                assert(output.contents() =~= out0);
            }
        }
        Ok(output.position())
    } else {
        let ghost out0 = output.contents();
        let ghost p1 = patch_file.pos();
        let tsize = match patch_file.read_u24_be() {
            Some(t) => t,
            None => {
                return Err(PatchingError::BadPatch);
            },
        };
        if !patch_file.has_reached_eof() {
            return Err(PatchingError::BadPatch);
        }
        // Bound the output at the truncated size, topping it up from the
        // source when the size lies past the last record.
        let out_pos = output.position();
        if (tsize as u64) < out_pos {
            return Err(PatchingError::BadPatch);
        }
        let k = tsize as u64 - out_pos;
        let copied = rom.copy_to_other_exactly(k, output);
        if !copied {
            proof {
                assert(tsize as int > out0.len());
                assert(!(out0.len() <= src.len() && tsize as int <= src.len()));
                assert(ips_copy_until(src, out0, tsize as int) == Err::<Seq<u8>, _>(
                    PatchingError::InputFileTooSmall,
                ));
            }
            return Err(PatchingError::InputFileTooSmall);
        }
        proof {
            if k == 0 {
                assert(output.contents() =~= out0);
            } else {
                assert(output.contents() =~= out0 + src.subrange(out0.len() as int, tsize as int));
            }
            assert(ips_copy_until(src, out0, tsize as int) == Ok::<_, PatchingError>(
                output.contents(),
            ));
        }
        Ok(output.position())
    }
}

} // verus!
