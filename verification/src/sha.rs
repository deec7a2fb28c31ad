//! Whole-buffer digests: SHA-1, SHA-256 and CRC-32 of the same bytes,
//! rendered as lowercase hexadecimal strings.
//!
//! The SHA digests are computed by the `sha1` and `sha2` crates; their
//! results are named, not written out, and everything around them — the
//! hexadecimal rendering in particular — is verified against those names.

use vstd::prelude::*;

use crate::crc::{CRC32Hasher, crc32_of};

verus! {

/// The SHA-1 digest of a byte sequence: twenty bytes, a function of the
/// bytes alone.
pub uninterp spec fn sha1_of(data: Seq<u8>) -> Seq<u8>;

/// The SHA-256 digest of a byte sequence: thirty-two bytes, a function of
/// the bytes alone.
pub uninterp spec fn sha256_of(data: Seq<u8>) -> Seq<u8>;

/// Relies on the `Digest::digest` impl of `sha1::Sha1`: it returns the
/// twenty-byte SHA-1 of exactly the given bytes.
#[verifier::external_body]
fn sha1_digest(data: &[u8]) -> (r: Vec<u8>)
    ensures
        r@ == sha1_of(data@),
        r@.len() == 20,
{
    <sha1::Sha1 as sha1::Digest>::digest(data).to_vec()
}

/// Relies on the `Digest::digest` impl of `sha2::Sha256`: it returns the
/// thirty-two-byte SHA-256 of exactly the given bytes.
#[verifier::external_body]
fn sha256_digest(data: &[u8]) -> (r: Vec<u8>)
    ensures
        r@ == sha256_of(data@),
        r@.len() == 32,
{
    <sha2::Sha256 as sha2::Digest>::digest(data).to_vec()
}

/// Relies on `String::from_utf8`: bytes below 128 are ASCII, and convert
/// to the string of exactly those characters.
#[verifier::external_body]
fn ascii_to_string(bytes: Vec<u8>) -> (r: String)
    requires
        forall|i: int| 0 <= i < bytes@.len() ==> bytes@[i] < 128,
    ensures
        r@.len() == bytes@.len(),
        forall|i: int| 0 <= i < bytes@.len() ==> r@[i] == bytes@[i] as char,
{
    String::from_utf8(bytes).unwrap_or_default()
}

/// The ASCII code of the lowercase hexadecimal digit `d`.
pub open spec fn hex_digit(d: u8) -> u8
    recommends
        d < 16,
{
    if d < 10 {
        (0x30 + d) as u8
    } else {
        (0x57 + d) as u8
    }
}

/// The lowercase hexadecimal rendering of a byte sequence, as ASCII
/// codes: two digits for every byte, high nibble first.
pub open spec fn hex_ascii(s: Seq<u8>) -> Seq<u8> {
    Seq::new(
        2 * s.len(),
        |i: int|
            if i % 2 == 0 {
                hex_digit(s[i / 2] / 16)
            } else {
                hex_digit(s[i / 2] % 16)
            },
    )
}

/// The lowercase hexadecimal rendering of a byte sequence, as characters.
pub open spec fn hex_chars(s: Seq<u8>) -> Seq<char> {
    Seq::new(2 * s.len(), |i: int| hex_ascii(s)[i] as char)
}

/// The big-endian bytes of a 32-bit value.
pub open spec fn be_bytes32(v: u32) -> Seq<u8> {
    seq![
        (v / 0x1000000) as u8,
        ((v / 0x10000) % 0x100) as u8,
        ((v / 0x100) % 0x100) as u8,
        (v % 0x100) as u8,
    ]
}

/// Renders `bytes` as lowercase hexadecimal ASCII codes.
fn to_hex_ascii(bytes: &Vec<u8>) -> (r: Vec<u8>)
    ensures
        r@ == hex_ascii(bytes@),
        forall|i: int| 0 <= i < r@.len() ==> r@[i] < 128,
{
    let mut r: Vec<u8> = Vec::new();
    let n = bytes.len();
    let mut i: usize = 0;
    while i < n
        invariant
            0 <= i <= n,
            n == bytes@.len(),
            r@.len() == 2 * i,
            forall|j: int| 0 <= j < 2 * i ==> r@[j] == hex_ascii(bytes@)[j],
            forall|j: int| 0 <= j < 2 * i ==> r@[j] < 128,
        decreases n - i,
    {
        let b = bytes[i];
        let hi = b / 16;
        let lo = b % 16;
        let hb: u8 = if hi < 10 {
            0x30 + hi
        } else {
            0x57 + hi
        };
        let lb: u8 = if lo < 10 {
            0x30 + lo
        } else {
            0x57 + lo
        };
        r.push(hb);
        r.push(lb);
        i = i + 1;
        proof {
            assert(r@[2 * i - 2] == hex_ascii(bytes@)[2 * i - 2]);
            assert(r@[2 * i - 1] == hex_ascii(bytes@)[2 * i - 1]);
        }
    }
    proof {
        assert(r@ =~= hex_ascii(bytes@));
    }
    r
}

/// The three digests of one byte buffer, rendered as lowercase
/// hexadecimal strings.
pub struct Digests {
    sha1: String,
    sha256: String,
    crc32: String,
}

impl Digests {
    /// The rendered SHA-1.
    pub closed spec fn sha1_spec(self) -> Seq<char> {
        self.sha1@
    }

    /// The rendered SHA-256.
    pub closed spec fn sha256_spec(self) -> Seq<char> {
        self.sha256@
    }

    /// The rendered CRC-32.
    pub closed spec fn crc32_spec(self) -> Seq<char> {
        self.crc32@
    }

    /// The rendered SHA-1 digest.
    pub fn sha1(&self) -> (r: &str)
        ensures
            r@ == self.sha1_spec(),
    {
        self.sha1.as_str()
    }

    /// The rendered SHA-256 digest.
    pub fn sha256(&self) -> (r: &str)
        ensures
            r@ == self.sha256_spec(),
    {
        self.sha256.as_str()
    }

    /// The rendered CRC-32 checksum.
    pub fn crc32(&self) -> (r: &str)
        ensures
            r@ == self.crc32_spec(),
    {
        self.crc32.as_str()
    }

    /// Computes all three digests of `data`: the SHA-1, the SHA-256 and
    /// the big-endian CRC-32, each rendered as lowercase hexadecimal.
    pub fn from_bytes(data: &Vec<u8>) -> (r: Digests)
        ensures
            r.sha1_spec() == hex_chars(sha1_of(data@)),
            r.sha256_spec() == hex_chars(sha256_of(data@)),
            r.crc32_spec() == hex_chars(be_bytes32(crc32_of(data@))),
    {
        let sha1_raw = sha1_digest(data.as_slice());
        let sha256_raw = sha256_digest(data.as_slice());
        let mut hasher = CRC32Hasher::new();
        hasher.update(data.as_slice());
        proof {
            assert(hasher.fed() =~= data@);
        }
        let crc = hasher.finish().value();
        let mut crc_raw: Vec<u8> = Vec::new();
        crc_raw.push((crc / 0x1000000) as u8);
        crc_raw.push(((crc / 0x10000) % 0x100) as u8);
        crc_raw.push(((crc / 0x100) % 0x100) as u8);
        crc_raw.push((crc % 0x100) as u8);
        proof {
            assert(crc_raw@ =~= be_bytes32(crc32_of(data@)));
        }
        let sha1_hex = to_hex_ascii(&sha1_raw);
        let sha256_hex = to_hex_ascii(&sha256_raw);
        let crc_hex = to_hex_ascii(&crc_raw);
        let r = Digests {
            sha1: ascii_to_string(sha1_hex),
            sha256: ascii_to_string(sha256_hex),
            crc32: ascii_to_string(crc_hex),
        };
        proof {
            assert(r.sha1_spec() =~= hex_chars(sha1_of(data@)));
            assert(r.sha256_spec() =~= hex_chars(sha256_of(data@)));
            assert(r.crc32_spec() =~= hex_chars(be_bytes32(crc32_of(data@))));
        }
        r
    }
}

/// Computes the digests of a whole buffer.
pub fn try_hash(data: &Vec<u8>) -> (r: Digests)
    ensures
        r.sha1_spec() == hex_chars(sha1_of(data@)),
        r.sha256_spec() == hex_chars(sha256_of(data@)),
        r.crc32_spec() == hex_chars(be_bytes32(crc32_of(data@))),
{
    Digests::from_bytes(data)
}

} // verus!
