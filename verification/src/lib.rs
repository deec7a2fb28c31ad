//! Verified application engine for binary delta patches in the formats
//! common in the ROM-hacking community: IPS, UPS, BPS, PPF and Vcdiff.
//!
//! The engine operates on in-memory byte streams. The dispatcher sniffs the
//! patch's magic bytes, routes to one of five decoders, and returns the
//! whole-file CRC-32 checksums of source, patch and result together with the
//! patched bytes.

pub mod checked_diff;
pub mod crc;
pub mod hashing;
pub mod patch;
pub mod repeat;
pub mod sha;
pub mod stream;
pub mod varint;

pub use checked_diff::CheckedSignedDiff;
