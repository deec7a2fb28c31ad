//! CRC-32 checksums.
//!
//! [`Crc32`] is a newtype for a finished checksum, so that it cannot be
//! confused with file sizes or offsets. [`CRC32Hasher`] computes checksums
//! incrementally; its contract tracks the exact sequence of bytes fed so far,
//! which is what lets the decoders report honest whole-file checksums.
//!
//! The checksum itself is computed by the `crc32fast` crate. Its result is
//! named, not written out: [`crc32_of`] stands for the IEEE CRC-32 of a byte
//! sequence, and every contract in this crate speaks of that name.

use vstd::prelude::*;

verus! {

#[verifier::external_type_specification]
#[verifier::external_body]
pub struct ExHasher(crc32fast::Hasher);

/// The sequence of bytes that a `crc32fast::Hasher` has been fed since its
/// creation, in order.
pub uninterp spec fn crc32_fed(h: crc32fast::Hasher) -> Seq<u8>;

/// The IEEE CRC-32 checksum of a byte sequence, as `crc32fast` computes it.
/// The checksum depends on the bytes alone.
pub uninterp spec fn crc32_of(s: Seq<u8>) -> u32;

/// Relies on `crc32fast::Hasher::new`: a fresh hasher has been fed nothing.
#[verifier::external_body]
fn hasher_new() -> (h: crc32fast::Hasher)
    ensures
        crc32_fed(h) == Seq::<u8>::empty(),
{
    crc32fast::Hasher::new()
}

/// Relies on `crc32fast::Hasher::update`: it feeds the bytes of `buf` to the
/// hasher, in order, after everything fed before.
#[verifier::external_body]
fn hasher_update(h: &mut crc32fast::Hasher, buf: &[u8])
    ensures
        crc32_fed(*final(h)) == crc32_fed(*old(h)) + buf@,
{
    h.update(buf)
}

/// Relies on `crc32fast::Hasher::finalize`: it returns the CRC-32 of exactly
/// the bytes fed so far.
#[verifier::external_body]
fn hasher_finalize(h: crc32fast::Hasher) -> (r: u32)
    ensures
        r == crc32_of(crc32_fed(h)),
{
    h.finalize()
}

/// Relies on `crc32fast::Hasher`'s `Clone` impl: the clone carries the same
/// accumulated state as the original.
#[verifier::external_body]
fn hasher_clone(h: &crc32fast::Hasher) -> (r: crc32fast::Hasher)
    ensures
        crc32_fed(r) == crc32_fed(*h),
{
    h.clone()
}

/// A finished CRC-32 checksum.
#[derive(Clone, Copy, Debug, PartialEq, Eq, Hash, Structural)]
pub struct Crc32(u32);

impl Crc32 {
    /// The 32-bit value of the checksum.
    pub closed spec fn spec_value(self) -> u32 {
        self.0
    }

    pub fn new(value: u32) -> (r: Self)
        ensures
            r.spec_value() == value,
    {
        Crc32(value)
    }

    pub fn value(&self) -> (r: u32)
        ensures
            r == self.spec_value(),
    {
        self.0
    }
}

/// Two checksums are the same value exactly when their 32-bit values agree.
pub proof fn crc32_eq_is_value_eq(a: Crc32, b: Crc32)
    ensures
        (a == b) <==> a.spec_value() == b.spec_value(),
{
}

/// An in-progress CRC-32 computation.
pub struct CRC32Hasher {
    inner: crc32fast::Hasher,
}

impl CRC32Hasher {
    /// The bytes fed to this hasher so far, in order.
    pub closed spec fn fed(self) -> Seq<u8> {
        crc32_fed(self.inner)
    }

    pub fn new() -> (r: Self)
        ensures
            r.fed() == Seq::<u8>::empty(),
    {
        CRC32Hasher { inner: hasher_new() }
    }

    /// Feeds `bytes` to the hasher.
    pub fn update(&mut self, bytes: &[u8])
        ensures
            final(self).fed() == old(self).fed() + bytes@,
    {
        hasher_update(&mut self.inner, bytes)
    }

    /// Feeds a single byte to the hasher.
    pub fn update_byte(&mut self, b: u8)
        ensures
            final(self).fed() == old(self).fed().push(b),
    {
        let mut one: Vec<u8> = Vec::new();
        one.push(b);
        hasher_update(&mut self.inner, one.as_slice());
        proof {
            assert(self.fed() =~= old(self).fed().push(b));
        }
    }

    /// The checksum of the bytes fed so far. The hasher can keep being fed.
    pub fn finish(&self) -> (r: Crc32)
        ensures
            r.spec_value() == crc32_of(self.fed()),
    {
        let h = hasher_clone(&self.inner);
        Crc32::new(hasher_finalize(h))
    }

    pub fn into_inner(self) -> (r: crc32fast::Hasher)
        ensures
            crc32_fed(r) == self.fed(),
    {
        self.inner
    }
}

/// The CRC-32 and length of a whole byte buffer.
pub fn crc32(data: &Vec<u8>) -> (r: (Crc32, u64))
    ensures
        r.0.spec_value() == crc32_of(data@),
        r.1 == data@.len(),
{
    let mut hasher = CRC32Hasher::new();
    hasher.update(data.as_slice());
    proof {
        assert(hasher.fed() == data@);
    }
    (hasher.finish(), data.len() as u64)
}

/// A byte buffer together with its checksum and length, both computed once at
/// construction.
pub struct WithCrc32 {
    data: Vec<u8>,
    crc32: Crc32,
    eof: u64,
}

impl WithCrc32 {
    pub closed spec fn contents(self) -> Seq<u8> {
        self.data@
    }

    /// Everything a `WithCrc32` promises of itself: the stored checksum and
    /// length belong to the stored bytes.
    pub open spec fn wf(self) -> bool {
        self.spec_crc32().spec_value() == crc32_of(self.contents())
            && self.spec_eof() == self.contents().len()
    }

    pub closed spec fn spec_crc32(self) -> Crc32 {
        self.crc32
    }

    pub closed spec fn spec_eof(self) -> u64 {
        self.eof
    }

    pub fn new(data: Vec<u8>) -> (r: Self)
        ensures
            r.contents() == data@,
            r.wf(),
    {
        let (crc32, eof) = crc32(&data);
        WithCrc32 { data, crc32, eof }
    }

    pub fn get_ref(&self) -> (r: &Vec<u8>)
        ensures
            r@ == self.contents(),
    {
        &self.data
    }

    pub fn into_inner(self) -> (r: Vec<u8>)
        ensures
            r@ == self.contents(),
    {
        self.data
    }

    pub fn crc32(&self) -> (r: Crc32)
        ensures
            r == self.spec_crc32(),
    {
        self.crc32
    }

    pub fn eof(&self) -> (r: u64)
        ensures
            r == self.spec_eof(),
    {
        self.eof
    }
}

/// Types that carry a CRC-32 checksum of their own content.
pub trait HasCrc32 {
    fn crc32(&self) -> Crc32;
}

impl HasCrc32 for WithCrc32 {
    fn crc32(&self) -> (r: Crc32)
        ensures
            r == self.spec_crc32(),
    {
        WithCrc32::crc32(self)
    }
}

} // verus!
