//! Patch formats: dispatch and the vocabulary shared by the five decoders.
//!
//! A patch is routed by its first three bytes: `PAT` (IPS), `UPS`, `BPS`,
//! `PPF`, or the Vcdiff magic `D6 C3 C4` (ASCII `VCD` with the high bit
//! set). Every decoder computes whole-file CRC-32 checksums of source, patch
//! and result in a single streaming pass, and reports errors in a common
//! vocabulary.

use vstd::prelude::*;

use crate::crc::{Crc32, crc32_of};
use crate::hashing::{HashingReader, HashingWriter, MonotonicHashingReader};

pub mod bps;
pub mod ips;
pub mod ppf;
pub mod ups;
pub mod vcd;

verus! {

/// The length of the UPS and BPS footer: three little-endian CRC-32 values.
pub const FOOTER_LEN: u64 = 12;

/// The patch formats the engine can apply.
#[derive(Copy, Clone, Debug, PartialEq, Eq, Structural)]
pub enum Kind {
    IPS,
    UPS,
    BPS,
    PPF,
    VCD,
}

impl Kind {
    /// A short human-readable name for the format.
    pub fn name(&self) -> &'static str {
        match self {
            Kind::IPS => "IPS",
            Kind::UPS => "UPS",
            Kind::BPS => "BPS",
            Kind::PPF => "PPF",
            Kind::VCD => "Vcdiff (a.k.a. xdelta)",
        }
    }
}

/// The format a patch announces through its leading magic bytes, if any.
pub open spec fn sniff_kind(s: Seq<u8>) -> Option<Kind> {
    if s.len() < 3 {
        None
    } else if s[0] == 0x50 && s[1] == 0x41 && s[2] == 0x54 {
        Some(Kind::IPS)
    } else if s[0] == 0x55 && s[1] == 0x50 && s[2] == 0x53 {
        Some(Kind::UPS)
    } else if s[0] == 0x42 && s[1] == 0x50 && s[2] == 0x53 {
        Some(Kind::BPS)
    } else if s[0] == 0x50 && s[1] == 0x50 && s[2] == 0x46 {
        Some(Kind::PPF)
    } else if s[0] == 0xD6 && s[1] == 0xC3 && s[2] == 0xC4 {
        Some(Kind::VCD)
    } else {
        None
    }
}

/// A patch whose magic bytes matched no known format.
#[derive(Clone, Copy, Debug, PartialEq, Eq)]
pub struct UnknownPatchKindError(());

impl UnknownPatchKindError {
    /// A short description of the error.
    pub fn message(&self) -> &'static str {
        "Unknown patch type."
    }
}

/// Identifies the patch format from the first three bytes of `file`.
pub fn find_patch_kind(file: &Vec<u8>) -> (r: Result<Kind, UnknownPatchKindError>)
    ensures
        match r {
            Ok(k) => sniff_kind(file@) == Some(k),
            Err(_) => sniff_kind(file@) is None,
        },
{
    if file.len() < 3 {
        return Err(UnknownPatchKindError(()));
    }
    let b0 = file[0];
    let b1 = file[1];
    let b2 = file[2];
    if b0 == 0x50 && b1 == 0x41 && b2 == 0x54 {
        Ok(Kind::IPS)
    } else if b0 == 0x55 && b1 == 0x50 && b2 == 0x53 {
        Ok(Kind::UPS)
    } else if b0 == 0x42 && b1 == 0x50 && b2 == 0x53 {
        Ok(Kind::BPS)
    } else if b0 == 0x50 && b1 == 0x50 && b2 == 0x46 {
        Ok(Kind::PPF)
    } else if b0 == 0xD6 && b1 == 0xC3 && b2 == 0xC4 {
        Ok(Kind::VCD)
    } else {
        Err(UnknownPatchKindError(()))
    }
}

/// A patch file whose format has been identified.
#[derive(Clone, Debug)]
pub struct Patch {
    file: Vec<u8>,
    kind: Kind,
}

impl Patch {
    /// Sniffs the magic bytes of `file` and pairs it with its format.
    pub fn new(file: Vec<u8>) -> (r: Result<Patch, UnknownPatchKindError>)
        ensures
            match r {
                Ok(p) => sniff_kind(file@) == Some(p.kind_spec()) && p.file_spec() == file@,
                Err(_) => sniff_kind(file@) is None,
            },
    {
        let kind = find_patch_kind(&file)?;
        Ok(Patch { file, kind })
    }

    /// The identified format.
    pub closed spec fn kind_spec(self) -> Kind {
        self.kind
    }

    /// The patch bytes.
    pub closed spec fn file_spec(self) -> Seq<u8> {
        self.file@
    }

    /// The identified format.
    pub fn kind(&self) -> (r: Kind)
        ensures
            r == self.kind_spec(),
    {
        self.kind
    }

    /// The patch bytes.
    pub fn file(&self) -> (r: &Vec<u8>)
        ensures
            r@ == self.file_spec(),
    {
        &self.file
    }

    /// Consumes the patch, returning its bytes.
    pub fn into_file(self) -> (r: Vec<u8>)
        ensures
            r@ == self.file_spec(),
    {
        self.file
    }
}

/// The common error vocabulary of the five decoders.
#[derive(Copy, Clone, Debug, PartialEq, Eq, Structural)]
pub enum Error {
    /// The patch file itself is corrupt.
    BadPatch,
    /// The patch uses a feature this engine does not support.
    UnsupportedPatchFeature,
    /// The patch is not meant for this source file.
    WrongInputFile,
    /// The source file is too small for this patch.
    InputFileTooSmall,
    /// The patch has already been applied to this source file.
    AlreadyPatched,
}

impl Error {
    /// A short description of the error.
    pub fn message(&self) -> &'static str {
        match self {
            Error::BadPatch => "The patch file is corrupt.",
            Error::UnsupportedPatchFeature => "Unsupported patch.",
            Error::WrongInputFile => "The patch is not meant for this file.",
            Error::InputFileTooSmall => "The patch is not meant for this file, and can't be applied due to the file being too small.",
            Error::AlreadyPatched => "This patch has already been applied to the input file.",
        }
    }
}

/// The whole-file checksums of one successful patch application.
#[derive(Clone, Copy, Debug, PartialEq, Eq, Structural)]
pub struct Checksums {
    pub source_crc32: u32,
    pub patch_crc32: u32,
    pub target_crc32: u32,
}

/// The common error an IPS outcome maps to.
pub open spec fn ips_err_to_common(e: ips::PatchingError) -> Error {
    match e {
        ips::PatchingError::BadPatch => Error::BadPatch,
        ips::PatchingError::InputFileTooSmall => Error::InputFileTooSmall,
    }
}

/// The common error a UPS outcome maps to.
pub open spec fn ups_err_to_common(e: ups::PatchingError) -> Error {
    match e {
        ups::PatchingError::BadPatch => Error::BadPatch,
        ups::PatchingError::WrongInputFile => Error::WrongInputFile,
        ups::PatchingError::InputFileTooSmall => Error::InputFileTooSmall,
        ups::PatchingError::AlreadyPatched => Error::AlreadyPatched,
    }
}

/// The common error a BPS outcome maps to.
pub open spec fn bps_err_to_common(e: bps::PatchingError) -> Error {
    match e {
        bps::PatchingError::BadPatch => Error::BadPatch,
        bps::PatchingError::WrongInputFile => Error::WrongInputFile,
        bps::PatchingError::InputFileTooSmall => Error::InputFileTooSmall,
        bps::PatchingError::AlreadyPatched => Error::AlreadyPatched,
    }
}

/// The common error a PPF outcome maps to.
pub open spec fn ppf_err_to_common(e: ppf::PatchingError) -> Error {
    match e {
        ppf::PatchingError::BadPatch => Error::BadPatch,
        ppf::PatchingError::WrongInputFile => Error::WrongInputFile,
        ppf::PatchingError::InputFileTooSmall => Error::InputFileTooSmall,
    }
}

/// The common error a Vcdiff outcome maps to.
pub open spec fn vcd_err_to_common(e: vcd::PatchingError) -> Error {
    match e {
        vcd::PatchingError::BadPatch => Error::BadPatch,
        vcd::PatchingError::WrongInputFile => Error::WrongInputFile,
        vcd::PatchingError::InputFileTooSmall => Error::InputFileTooSmall,
        vcd::PatchingError::UnsupportedPatchFeature => Error::UnsupportedPatchFeature,
    }
}

/// Applies one patch of a known format to one source.
#[derive(Clone, Copy, Debug)]
pub struct Patcher(Kind);

impl Patcher {
    /// The format this patcher applies.
    pub closed spec fn kind_spec(self) -> Kind {
        self.0
    }

    pub fn from_patch_kind(patch_kind: Kind) -> (r: Self)
        ensures
            r.kind_spec() == patch_kind,
    {
        Patcher(patch_kind)
    }

    /// Applies the patch to the source in one streaming pass.
    ///
    /// On success the checksums are the whole-file CRC-32 values of the
    /// source, the patch and the produced output, and the output is
    /// exactly what the format's reference semantics prescribes; on
    /// failure the error is the one those semantics report, mapped into
    /// the common vocabulary.
    pub fn patch(&self, rom: Vec<u8>, patch_file: Vec<u8>, strict: bool) -> (r: Result<
        (Vec<u8>, Checksums),
        Error,
    >)
        ensures
            match r {
                Ok((out, ck)) => {
                    &&& ck.source_crc32 == crc32_of(rom@)
                    &&& ck.patch_crc32 == crc32_of(patch_file@)
                    &&& ck.target_crc32 == crc32_of(out@)
                    &&& self.kind_spec() == Kind::IPS ==> ips::ips_apply(rom@, patch_file@)
                        == Ok::<_, ips::PatchingError>(out@)
                    &&& self.kind_spec() == Kind::UPS ==> ups::ups_apply(rom@, patch_file@, strict)
                        == Ok::<_, ups::PatchingError>(out@)
                    &&& self.kind_spec() == Kind::BPS ==> bps::bps_apply(rom@, patch_file@, strict)
                        == Ok::<_, bps::PatchingError>(out@)
                    &&& self.kind_spec() == Kind::PPF ==> ppf::ppf_apply(rom@, patch_file@, strict)
                        == Ok::<_, ppf::PatchingError>(out@)
                    &&& self.kind_spec() == Kind::VCD ==> vcd::vcd_apply(rom@, patch_file@)
                        == Ok::<_, vcd::PatchingError>(out@)
                },
                Err(e) => {
                    &&& self.kind_spec() == Kind::VCD ==> (vcd::vcd_apply(rom@, patch_file@)
                        matches Err(e0) && e == vcd_err_to_common(e0))
                    &&& self.kind_spec() == Kind::IPS ==> (ips::ips_apply(rom@, patch_file@)
                        matches Err(e0) && e == ips_err_to_common(e0))
                    &&& self.kind_spec() == Kind::UPS ==> (ups::ups_apply(rom@, patch_file@, strict)
                        matches Err(e0) && e == ups_err_to_common(e0))
                    &&& self.kind_spec() == Kind::BPS ==> (bps::bps_apply(rom@, patch_file@, strict)
                        matches Err(e0) && e == bps_err_to_common(e0))
                    &&& self.kind_spec() == Kind::PPF ==> (ppf::ppf_apply(rom@, patch_file@, strict)
                        matches Err(e0) && e == ppf_err_to_common(e0))
                },
            },
    {
        match self.0 {
            Kind::IPS => Patcher::ips(rom, patch_file),
            Kind::UPS => Patcher::ups(rom, patch_file, strict),
            Kind::BPS => Patcher::bps(rom, patch_file, strict),
            Kind::PPF => Patcher::ppf(rom, patch_file, strict),
            Kind::VCD => Patcher::vcdiff(rom, patch_file),
        }
    }

    /// Applies an IPS patch, reporting whole-file checksums.
    fn ips(rom: Vec<u8>, patch_file: Vec<u8>) -> (r: Result<(Vec<u8>, Checksums), Error>)
        ensures
            match r {
                Ok((out, ck)) => ck.source_crc32 == crc32_of(rom@) && ck.patch_crc32 == crc32_of(
                    patch_file@,
                ) && ck.target_crc32 == crc32_of(out@) && ips::ips_apply(rom@, patch_file@)
                    == Ok::<_, ips::PatchingError>(out@),
                Err(e) => ips::ips_apply(rom@, patch_file@) matches Err(e0) && e
                    == ips_err_to_common(e0),
            },
    {
        let ghost src = rom@;
        let ghost pat = patch_file@;
        let mut romr = MonotonicHashingReader::new(rom);
        let mut pr = HashingReader::new(patch_file);
        let mut output = HashingWriter::new();
        match ips::patch(&mut romr, &mut pr, &mut output) {
            Ok(_size) => {
                let _ = romr.hash_remainder();
                proof {
                    assert(pr.contents().subrange(0, pr.contents().len() as int) =~= pat);
                }
                let source_crc32 = romr.hasher().finish().value();
                let patch_crc32 = pr.hasher().finish().value();
                let target_crc32 = output.hasher().finish().value();
                Ok((output.into_inner(), Checksums { source_crc32, patch_crc32, target_crc32 }))
            },
            Err(e) => Err(
                match e {
                    ips::PatchingError::BadPatch => Error::BadPatch,
                    ips::PatchingError::InputFileTooSmall => Error::InputFileTooSmall,
                },
            ),
        }
    }

    /// Applies a UPS patch, reporting whole-file checksums.
    fn ups(rom: Vec<u8>, patch_file: Vec<u8>, strict: bool) -> (r: Result<
        (Vec<u8>, Checksums),
        Error,
    >)
        ensures
            match r {
                Ok((out, ck)) => ck.source_crc32 == crc32_of(rom@) && ck.patch_crc32 == crc32_of(
                    patch_file@,
                ) && ck.target_crc32 == crc32_of(out@) && ups::ups_apply(rom@, patch_file@, strict)
                    == Ok::<_, ups::PatchingError>(out@),
                Err(e) => ups::ups_apply(rom@, patch_file@, strict) matches Err(e0) && e
                    == ups_err_to_common(e0),
            },
    {
        match ups::patch(rom, patch_file, strict) {
            Ok((out, report)) => {
                let source_crc32 = report.actual_source_crc32.value();
                let patch_crc32 = report.patch_whole_file_crc32.value();
                let target_crc32 = report.actual_target_crc32.value();
                Ok((out, Checksums { source_crc32, patch_crc32, target_crc32 }))
            },
            Err(e) => Err(
                match e {
                    ups::PatchingError::BadPatch => Error::BadPatch,
                    ups::PatchingError::WrongInputFile => Error::WrongInputFile,
                    ups::PatchingError::InputFileTooSmall => Error::InputFileTooSmall,
                    ups::PatchingError::AlreadyPatched => Error::AlreadyPatched,
                },
            ),
        }
    }

    /// Applies a BPS patch, reporting whole-file checksums.
    fn bps(rom: Vec<u8>, patch_file: Vec<u8>, strict: bool) -> (r: Result<
        (Vec<u8>, Checksums),
        Error,
    >)
        ensures
            match r {
                Ok((out, ck)) => ck.source_crc32 == crc32_of(rom@) && ck.patch_crc32 == crc32_of(
                    patch_file@,
                ) && ck.target_crc32 == crc32_of(out@) && bps::bps_apply(rom@, patch_file@, strict)
                    == Ok::<_, bps::PatchingError>(out@),
                Err(e) => bps::bps_apply(rom@, patch_file@, strict) matches Err(e0) && e
                    == bps_err_to_common(e0),
            },
    {
        match bps::patch(rom, patch_file, strict) {
            Ok((out, report)) => {
                let source_crc32 = report.actual_source_crc32.value();
                let patch_crc32 = report.patch_whole_file_crc32.value();
                let target_crc32 = report.actual_target_crc32.value();
                Ok((out, Checksums { source_crc32, patch_crc32, target_crc32 }))
            },
            Err(e) => Err(
                match e {
                    bps::PatchingError::BadPatch => Error::BadPatch,
                    bps::PatchingError::WrongInputFile => Error::WrongInputFile,
                    bps::PatchingError::InputFileTooSmall => Error::InputFileTooSmall,
                    bps::PatchingError::AlreadyPatched => Error::AlreadyPatched,
                },
            ),
        }
    }

    /// Applies a PPF patch, reporting whole-file checksums.
    fn ppf(rom: Vec<u8>, patch_file: Vec<u8>, strict: bool) -> (r: Result<
        (Vec<u8>, Checksums),
        Error,
    >)
        ensures
            match r {
                Ok((out, ck)) => ck.source_crc32 == crc32_of(rom@) && ck.patch_crc32 == crc32_of(
                    patch_file@,
                ) && ck.target_crc32 == crc32_of(out@) && ppf::ppf_apply(rom@, patch_file@, strict)
                    == Ok::<_, ppf::PatchingError>(out@),
                Err(e) => ppf::ppf_apply(rom@, patch_file@, strict) matches Err(e0) && e
                    == ppf_err_to_common(e0),
            },
    {
        let ghost src = rom@;
        let ghost pat = patch_file@;
        let mut romr = MonotonicHashingReader::new(rom);
        let mut pr = HashingReader::new(patch_file);
        let mut output = HashingWriter::new();
        match ppf::patch(&mut romr, &mut pr, &mut output, strict) {
            Ok(()) => {
                let _ = romr.hash_remainder();
                let rem = pr.remaining();
                let _ = pr.skip_hashing(rem);
                proof {
                    assert(pr.contents().subrange(0, pr.contents().len() as int) =~= pat);
                }
                let source_crc32 = romr.hasher().finish().value();
                let patch_crc32 = pr.hasher().finish().value();
                let target_crc32 = output.hasher().finish().value();
                Ok((output.into_inner(), Checksums { source_crc32, patch_crc32, target_crc32 }))
            },
            Err(e) => Err(
                match e {
                    ppf::PatchingError::BadPatch => Error::BadPatch,
                    ppf::PatchingError::WrongInputFile => Error::WrongInputFile,
                    ppf::PatchingError::InputFileTooSmall => Error::InputFileTooSmall,
                },
            ),
        }
    }

    /// Applies a Vcdiff patch, reporting whole-file checksums.
    fn vcdiff(rom: Vec<u8>, patch_file: Vec<u8>) -> (r: Result<(Vec<u8>, Checksums), Error>)
        ensures
            match r {
                Ok((out, ck)) => ck.source_crc32 == crc32_of(rom@) && ck.patch_crc32 == crc32_of(
                    patch_file@,
                ) && ck.target_crc32 == crc32_of(out@) && vcd::vcd_apply(rom@, patch_file@)
                    == Ok::<_, vcd::PatchingError>(out@),
                Err(e) => vcd::vcd_apply(rom@, patch_file@) matches Err(e0) && e
                    == vcd_err_to_common(e0),
            },
    {
        let ghost src = rom@;
        let ghost pat = patch_file@;
        let mut romr = MonotonicHashingReader::new(rom);
        let mut pr = HashingReader::new(patch_file);
        let mut output = HashingWriter::new();
        match vcd::patch(&mut romr, &mut pr, &mut output) {
            Ok(()) => {
                let _ = romr.hash_remainder();
                proof {
                    assert(pr.contents().subrange(0, pr.contents().len() as int) =~= pat);
                }
                let source_crc32 = romr.hasher().finish().value();
                let patch_crc32 = pr.hasher().finish().value();
                let target_crc32 = output.hasher().finish().value();
                Ok((output.into_inner(), Checksums { source_crc32, patch_crc32, target_crc32 }))
            },
            Err(e) => Err(
                match e {
                    vcd::PatchingError::BadPatch => Error::BadPatch,
                    vcd::PatchingError::WrongInputFile => Error::WrongInputFile,
                    vcd::PatchingError::InputFileTooSmall => Error::InputFileTooSmall,
                    vcd::PatchingError::UnsupportedPatchFeature => Error::UnsupportedPatchFeature,
                },
            ),
        }
    }
}

/// What a UPS or BPS decoder learned about its inputs and output.
///
/// The *internal* patch checksum excludes the final four bytes of the patch
/// (which store that checksum itself); the *whole-file* checksum includes
/// them.
#[derive(Clone, Copy, Debug, PartialEq, Eq, Structural)]
pub struct PatchReport {
    pub expected_source_crc32: Crc32,
    pub actual_source_crc32: Crc32,
    pub expected_source_size: u64,
    pub actual_source_size: u64,
    pub expected_target_crc32: Crc32,
    pub actual_target_crc32: Crc32,
    pub expected_target_size: u64,
    pub actual_target_size: u64,
    pub patch_internal_crc32: Crc32,
    pub patch_whole_file_crc32: Crc32,
}

} // verus!
