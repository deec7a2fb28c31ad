//! Stream adapters that feed a CRC-32 hasher as bytes pass through.
//!
//! [`HashingReader`] hashes exactly the bytes read so far, in order.
//! [`HashingWriter`] hashes exactly the bytes written. Both keep the
//! invariant that the hasher has been fed precisely the consumed prefix
//! (reader) or the whole output (writer).
//!
//! [`MonotonicHashingReader`] additionally tolerates seeks: it guarantees
//! that the hasher is fed every byte of the prefix `[0, position())` of the
//! source exactly once, in order, no matter how the decoder jumps around.
//! Its hashed prefix never shrinks.

use vstd::prelude::*;
use vstd::slice::slice_subrange;

use crate::crc::CRC32Hasher;
use crate::stream::{PositionTracker, be16_at, be24_at, le32_at, min_int};

verus! {

/// An in-memory byte stream that hashes everything read from it.
pub struct HashingReader {
    inner: PositionTracker,
    hasher: CRC32Hasher,
}

impl HashingReader {
    /// The whole underlying byte stream.
    pub closed spec fn contents(self) -> Seq<u8> {
        self.inner.contents()
    }

    /// The current cursor position.
    pub closed spec fn pos(self) -> int {
        self.inner.pos()
    }

    /// The bytes fed to the hasher so far.
    pub closed spec fn fed(self) -> Seq<u8> {
        self.hasher.fed()
    }

    /// The hasher has been fed exactly the bytes read so far, in order.
    pub open spec fn wf(self) -> bool {
        0 <= self.pos() <= self.contents().len() && self.fed() == self.contents().subrange(
            0,
            self.pos(),
        )
    }

    /// Returns a reader over `data`, positioned at the start.
    pub fn new(data: Vec<u8>) -> (r: Self)
        ensures
            r.contents() == data@,
            r.pos() == 0,
            r.wf(),
    {
        let r = HashingReader { inner: PositionTracker::from_start(data), hasher: CRC32Hasher::new() };
        proof {
            assert(r.fed() =~= r.contents().subrange(0, 0));
        }
        r
    }

    /// The current cursor position.
    pub fn position(&self) -> (r: u64)
        ensures
            r == self.pos(),
    {
        self.inner.position()
    }

    /// The length of the whole stream.
    pub fn len(&self) -> (r: u64)
        ensures
            r == self.contents().len(),
    {
        self.inner.len()
    }

    /// The number of bytes between the cursor and the end of the stream.
    pub fn remaining(&self) -> (r: u64)
        requires
            self.wf(),
        ensures
            r == self.contents().len() - self.pos(),
    {
        self.inner.remaining()
    }

    /// True exactly when the cursor is at the end of the stream.
    pub fn has_reached_eof(&self) -> (r: bool)
        requires
            self.wf(),
        ensures
            r <==> self.pos() == self.contents().len(),
    {
        self.inner.has_reached_eof()
    }

    /// The number of bytes between the cursor and the end of the stream, as
    /// a `usize`.
    pub fn remaining_usize(&self) -> (r: usize)
        requires
            self.wf(),
        ensures
            r == self.contents().len() - self.pos(),
    {
        self.inner.len_usize() - self.inner.pos_usize()
    }

    /// A reference to the underlying buffer.
    pub fn get_ref(&self) -> (r: &Vec<u8>)
        ensures
            r@ == self.contents(),
    {
        self.inner.get_ref()
    }

    /// The hasher, fed with exactly the bytes read so far.
    pub fn hasher(&self) -> (r: &CRC32Hasher)
        requires
            self.wf(),
        ensures
            r.fed() == self.contents().subrange(0, self.pos()),
    {
        &self.hasher
    }

    /// A reference to the underlying buffer.
    pub fn inner(&self) -> (r: &Vec<u8>)
        ensures
            r@ == self.contents(),
    {
        self.inner.get_ref()
    }

    /// Consumes the reader, returning the underlying buffer.
    pub fn into_inner(self) -> (r: Vec<u8>)
        ensures
            r@ == self.contents(),
    {
        self.inner.into_inner()
    }

    /// Consumes the reader, returning its hasher.
    pub fn into_hasher(self) -> (r: CRC32Hasher)
        ensures
            r.fed() == self.fed(),
    {
        self.hasher
    }

    /// Reads one byte, feeding it to the hasher.
    pub fn read_u8(&mut self) -> (r: Option<u8>)
        requires
            old(self).wf(),
        ensures
            final(self).wf(),
            final(self).contents() == old(self).contents(),
            if old(self).pos() < old(self).contents().len() {
                r == Some(old(self).contents()[old(self).pos()]) && final(self).pos() == old(self).pos() + 1
            } else {
                r == None::<u8> && final(self).pos() == old(self).pos()
            },
    {
        let r = self.inner.read_u8();
        if let Some(b) = r {
            self.hasher.update_byte(b);
            proof {
                assert(self.hasher.fed() =~= self.contents().subrange(0, self.inner.pos()));
            }
        }
        r
    }

    /// Reads one byte, feeding it to the hasher; at EOF yields `0` and stays
    /// in place. This is how the UPS decoder treats a source shorter than its
    /// target: missing source bytes read as zero.
    pub fn read_u8_or_zero(&mut self) -> (r: u8)
        requires
            old(self).wf(),
        ensures
            final(self).wf(),
            final(self).contents() == old(self).contents(),
            if old(self).pos() < old(self).contents().len() {
                r == old(self).contents()[old(self).pos()] && final(self).pos() == old(self).pos()
                    + 1
            } else {
                r == 0 && final(self).pos() == old(self).pos()
            },
    {
        match self.read_u8() {
            Some(b) => b,
            None => 0,
        }
    }

    /// Reads exactly `n` bytes, feeding them to the hasher, or returns `None`
    /// without moving when fewer than `n` bytes remain.
    pub fn read_exact(&mut self, n: usize) -> (r: Option<Vec<u8>>)
        requires
            old(self).wf(),
        ensures
            final(self).wf(),
            final(self).contents() == old(self).contents(),
            if old(self).pos() + n <= old(self).contents().len() {
                final(self).pos() == old(self).pos() + n && (r matches Some(v) && v@ == old(self).contents().subrange(old(self).pos(), old(self).pos() + n))
            } else {
                r matches None && final(self).pos() == old(self).pos()
            },
    {
        let r = self.inner.read_exact(n);
        if let Some(v) = &r {
            self.hasher.update(v.as_slice());
            proof {
                assert(self.hasher.fed() =~= self.contents().subrange(0, self.inner.pos()));
            }
        }
        r
    }

    /// Reads a big-endian 16-bit value, feeding its bytes to the hasher.
    pub fn read_u16_be(&mut self) -> (r: Option<u16>)
        requires
            old(self).wf(),
        ensures
            final(self).wf(),
            final(self).contents() == old(self).contents(),
            if old(self).pos() + 2 <= old(self).contents().len() {
                final(self).pos() == old(self).pos() + 2 && r == Some(
                    be16_at(old(self).contents(), old(self).pos()) as u16,
                )
            } else {
                r matches None && final(self).pos() == old(self).pos()
            },
    {
        match self.read_exact(2) {
            Some(v) => Some((v[0] as u16) * 0x100 + (v[1] as u16)),
            None => None,
        }
    }

    /// Reads a big-endian 24-bit value, feeding its bytes to the hasher.
    pub fn read_u24_be(&mut self) -> (r: Option<u32>)
        requires
            old(self).wf(),
        ensures
            final(self).wf(),
            final(self).contents() == old(self).contents(),
            if old(self).pos() + 3 <= old(self).contents().len() {
                final(self).pos() == old(self).pos() + 3 && r == Some(
                    be24_at(old(self).contents(), old(self).pos()) as u32,
                )
            } else {
                r matches None && final(self).pos() == old(self).pos()
            },
    {
        match self.read_exact(3) {
            Some(v) => Some((v[0] as u32) * 0x10000 + (v[1] as u32) * 0x100 + (v[2] as u32)),
            None => None,
        }
    }

    /// Reads a little-endian 32-bit value, feeding its bytes to the hasher.
    pub fn read_u32_le(&mut self) -> (r: Option<u32>)
        requires
            old(self).wf(),
        ensures
            final(self).wf(),
            final(self).contents() == old(self).contents(),
            if old(self).pos() + 4 <= old(self).contents().len() {
                final(self).pos() == old(self).pos() + 4 && r == Some(
                    le32_at(old(self).contents(), old(self).pos()) as u32,
                )
            } else {
                r matches None && final(self).pos() == old(self).pos()
            },
    {
        match self.read_exact(4) {
            Some(v) => Some(
                (v[0] as u32) + (v[1] as u32) * 0x100 + (v[2] as u32) * 0x10000 + (v[3] as u32)
                    * 0x1000000,
            ),
            None => None,
        }
    }

    /// Reads a little-endian value of `n` bytes (`n <= 8`), feeding them to
    /// the hasher.
    pub fn read_le_bytes(&mut self, n: usize) -> (r: Option<u64>)
        requires
            old(self).wf(),
            n <= 8,
        ensures
            final(self).wf(),
            final(self).contents() == old(self).contents(),
            if old(self).pos() + n <= old(self).contents().len() {
                final(self).pos() == old(self).pos() + n && r == Some(
                    crate::stream::le_at(old(self).contents(), old(self).pos(), n as nat) as u64,
                )
            } else {
                r matches None && final(self).pos() == old(self).pos()
            },
    {
        let ghost start = self.pos();
        match self.read_exact(n) {
            Some(v) => {
                let mut value: u64 = 0;
                let mut i: usize = n;
                while i > 0
                    invariant
                        n <= 8,
                        0 <= i <= n,
                        v@.len() == n,
                        value == crate::stream::le_at(v@, i as int, (n - i) as nat),
                        0 <= value < crate::stream::pow256((n - i) as nat),
                    decreases i,
                {
                    proof {
                        pow256_fits_u64((n - i) as nat);
                    }
                    i = i - 1;
                    value = value * 0x100 + (v[i] as u64);
                    proof {
                        assert(value == crate::stream::le_at(v@, i as int, (n - i) as nat));
                    }
                }
                proof {
                    crate::stream::le_at_bound(v@, 0, n as nat);
                    assert(v@.subrange(0, n as int) =~= self.contents().subrange(
                        start,
                        start + n,
                    ));
                    le_at_congruent(v@, self.contents(), 0, start, n as nat);
                    pow256_monotonic(n as nat, 8);
                    assert(crate::stream::pow256(8) == 0x10000000000000000) by {
                        reveal_with_fuel(crate::stream::pow256, 9);
                    }
                }
                Some(value)
            },
            None => None,
        }
    }

    /// Skips `n` bytes, still feeding them to the hasher. When fewer than `n`
    /// bytes remain, consumes and hashes up to the end of the stream and
    /// reports failure.
    pub fn skip_hashing(&mut self, n: u64) -> (r: bool)
        requires
            old(self).wf(),
        ensures
            final(self).wf(),
            final(self).contents() == old(self).contents(),
            final(self).pos() == min_int(
                old(self).pos() + n,
                old(self).contents().len() as int,
            ),
            r <==> old(self).pos() + n <= old(self).contents().len(),
    {
        let len_us = self.inner.len_usize();
        let pos_us = self.inner.pos_usize();
        let rem: u64 = (len_us - pos_us) as u64;
        if n <= rem {
            let _ = self.read_exact(n as usize);
            true
        } else {
            let _ = self.read_exact(len_us - pos_us);
            false
        }
    }

    /// Copies exactly `n` bytes from the cursor into `out`, hashing on both
    /// sides. When fewer than `n` bytes remain, copies what is left and
    /// reports failure.
    pub fn copy_to_other_exactly(&mut self, n: u64, out: &mut HashingWriter) -> (r: bool)
        requires
            old(self).wf(),
            old(out).wf(),
        ensures
            final(self).wf(),
            final(out).wf(),
            final(self).contents() == old(self).contents(),
            final(self).pos() == min_int(
                old(self).pos() + n,
                old(self).contents().len() as int,
            ),
            final(out).contents() == old(out).contents() + old(self).contents().subrange(
                old(self).pos(),
                final(self).pos(),
            ),
            r <==> old(self).pos() + n <= old(self).contents().len(),
    {
        let len_us = self.inner.len_usize();
        let pos_us = self.inner.pos_usize();
        let rem: u64 = (len_us - pos_us) as u64;
        let k: usize = if n <= rem {
            n as usize
        } else {
            len_us - pos_us
        };
        match self.read_exact(k) {
            Some(v) => {
                out.write_all(v.as_slice());
            },
            None => {
                proof {
                    assert(false);
                }
            },
        }
        n <= rem
    }

    /// Consumes the reader, returning the underlying buffer, the cursor and
    /// the hasher.
    pub fn into_parts(self) -> (r: (Vec<u8>, u64, CRC32Hasher))
        ensures
            r.0@ == self.contents(),
            r.1 == self.pos(),
            r.2.fed() == self.fed(),
    {
        let (data, p) = self.inner.into_parts();
        (data, p, self.hasher)
    }
}

/// `0x100^a <= 0x100^b` when `a <= b`.
pub proof fn pow256_monotonic(a: nat, b: nat)
    requires
        a <= b,
    ensures
        crate::stream::pow256(a) <= crate::stream::pow256(b),
    decreases b,
{
    if a < b && b > 0 {
        pow256_monotonic(a, (b - 1) as nat);
        crate::stream::pow256_positive((b - 1) as nat);
    }
}

/// `0x100^n` stays within a `u64` multiplication for `n <= 7`.
pub proof fn pow256_fits_u64(n: nat)
    requires
        n <= 7,
    ensures
        crate::stream::pow256(n) <= 0x100000000000000,
{
    pow256_monotonic(n, 7);
    assert(crate::stream::pow256(7) == 0x100000000000000) by {
        reveal_with_fuel(crate::stream::pow256, 8);
    }
}

/// Two sequences that agree on a window hold the same little-endian value
/// there.
pub proof fn le_at_congruent(a: Seq<u8>, b: Seq<u8>, i: int, j: int, n: nat)
    requires
        0 <= i,
        i + n <= a.len(),
        0 <= j,
        j + n <= b.len(),
        a.subrange(i, i + n) == b.subrange(j, j + n),
    ensures
        crate::stream::le_at(a, i, n) == crate::stream::le_at(b, j, n),
    decreases n,
{
    if n > 0 {
        assert(a[i] == b[j]) by {
            assert(a.subrange(i, i + n)[0] == a[i]);
            assert(b.subrange(j, j + n)[0] == b[j]);
        }
        assert(a.subrange(i + 1, i + n) =~= b.subrange(j + 1, j + n)) by {
            assert forall|k: int| 0 <= k < n - 1 implies #[trigger] a.subrange(i + 1, i + n)[k]
                == b.subrange(j + 1, j + n)[k] by {
                assert(a.subrange(i + 1, i + n)[k] == a.subrange(i, i + n)[k + 1]);
                assert(b.subrange(j + 1, j + n)[k] == b.subrange(j, j + n)[k + 1]);
            }
        }
        le_at_congruent(a, b, i + 1, j + 1, (n - 1) as nat);
    }
}

/// An in-memory byte sink that hashes everything written to it.
pub struct HashingWriter {
    inner: Vec<u8>,
    hasher: CRC32Hasher,
}

impl HashingWriter {
    /// Everything written so far.
    pub closed spec fn contents(self) -> Seq<u8> {
        self.inner@
    }

    /// The hasher has been fed exactly the bytes written, in order.
    pub open spec fn wf(self) -> bool {
        self.spec_fed() == self.contents()
    }

    /// The bytes fed to the hasher so far.
    pub closed spec fn spec_fed(self) -> Seq<u8> {
        self.hasher.fed()
    }

    /// Returns an empty writer.
    pub fn new() -> (r: Self)
        ensures
            r.contents() == Seq::<u8>::empty(),
            r.wf(),
    {
        let r = HashingWriter { inner: Vec::new(), hasher: CRC32Hasher::new() };
        r
    }

    /// The number of bytes written so far.
    pub fn position(&self) -> (r: u64)
        ensures
            r == self.contents().len(),
    {
        self.inner.len() as u64
    }

    /// A reference to everything written so far.
    pub fn inner(&self) -> (r: &Vec<u8>)
        ensures
            r@ == self.contents(),
    {
        &self.inner
    }

    /// The hasher, fed with exactly the bytes written so far.
    pub fn hasher(&self) -> (r: &CRC32Hasher)
        requires
            self.wf(),
        ensures
            r.fed() == self.contents(),
    {
        &self.hasher
    }

    /// Appends `buf`, feeding it to the hasher.
    pub fn write_all(&mut self, buf: &[u8])
        requires
            old(self).wf(),
        ensures
            final(self).wf(),
            final(self).contents() == old(self).contents() + buf@,
    {
        self.inner.extend_from_slice(buf);
        self.hasher.update(buf);
    }

    /// Appends one byte, feeding it to the hasher.
    pub fn write_u8(&mut self, b: u8)
        requires
            old(self).wf(),
        ensures
            final(self).wf(),
            final(self).contents() == old(self).contents().push(b),
    {
        self.inner.push(b);
        self.hasher.update_byte(b);
        proof {
            assert(self.hasher.fed() =~= self.inner@);
        }
    }

    /// Appends `n` copies of the byte `b`.
    pub fn write_repeat(&mut self, b: u8, n: u64)
        requires
            old(self).wf(),
        ensures
            final(self).wf(),
            final(self).contents() == old(self).contents() + Seq::<u8>::new(n as nat, |i| b),
    {
        let mut i: u64 = 0;
        while i < n
            invariant
                self.wf(),
                0 <= i <= n,
                self.contents() == old(self).contents() + Seq::<u8>::new(i as nat, |j| b),
            decreases n - i,
        {
            self.write_u8(b);
            i = i + 1;
            proof {
                assert(self.contents() =~= old(self).contents() + Seq::<u8>::new(i as nat, |j| b));
            }
        }
    }

    /// Appends `count` bytes copied from the already-written output starting
    /// at `offset`. The region may overlap the append point: the copy then
    /// replicates the bytes between `offset` and the old end periodically,
    /// exactly as a forward byte-by-byte copy does.
    pub fn append_from_self(&mut self, offset: u64, count: u64)
        requires
            old(self).wf(),
            0 <= offset < old(self).contents().len(),
        ensures
            final(self).wf(),
            final(self).contents() == periodic_append(
                old(self).contents(),
                offset as int,
                count as nat,
            ),
    {
        let l0: usize = self.inner.len();
        let mut src: usize = offset as usize;
        let mut i: u64 = 0;
        while i < count
            invariant
                self.wf(),
                0 <= i <= count,
                src == offset + i,
                offset + i < self.contents().len(),
                self.contents().len() == old(self).contents().len() + i,
                periodic_append(old(self).contents(), offset as int, count as nat)
                    == periodic_append(self.contents(), offset + i, (count - i) as nat),
            decreases count - i,
        {
            let cur_len: usize = self.inner.len();
            let b = self.inner[src];
            let ghost prev = self.contents();
            self.write_u8(b);
            i = i + 1;
            src = src + 1;
            proof {
                assert(self.contents() == prev.push(prev[offset + i - 1]));
                assert(periodic_append(prev, offset + i - 1, (count - (i - 1)) as nat)
                    == periodic_append(self.contents(), offset + i, (count - i) as nat));
            }
        }
    }

    /// Consumes the writer, returning everything written.
    pub fn into_inner(self) -> (r: Vec<u8>)
        ensures
            r@ == self.contents(),
    {
        self.inner
    }

    /// Consumes the writer, returning its hasher.
    pub fn into_hasher(self) -> (r: CRC32Hasher)
        ensures
            r.fed() == self.spec_fed(),
    {
        self.hasher
    }

    /// Consumes the writer, returning everything written and the hasher.
    pub fn into_parts(self) -> (r: (Vec<u8>, CRC32Hasher))
        ensures
            r.0@ == self.contents(),
            r.1.fed() == self.spec_fed(),
    {
        (self.inner, self.hasher)
    }
}

/// The result of appending `n` bytes to `s`, each copied in turn from the
/// (growing) sequence itself starting at `start`. When `start` lies inside
/// `s`, this replicates `s[start..]` periodically.
pub open spec fn periodic_append(s: Seq<u8>, start: int, n: nat) -> Seq<u8>
    decreases n,
{
    if n == 0 {
        s
    } else {
        periodic_append(s.push(s[start]), start + 1, (n - 1) as nat)
    }
}

/// A reader over a source that feeds every byte of the prefix
/// `[0, position())` to its hasher exactly once, in order, even when the
/// decoder seeks backwards. The hashed prefix never shrinks.
pub struct MonotonicHashingReader {
    inner: PositionTracker,
    hasher: CRC32Hasher,
    hashed: usize,
}

impl MonotonicHashingReader {
    /// The whole underlying byte stream.
    pub closed spec fn contents(self) -> Seq<u8> {
        self.inner.contents()
    }

    /// The current cursor position of the stream.
    pub closed spec fn stream_pos(self) -> int {
        self.inner.pos()
    }

    /// The end of the hashed prefix.
    pub closed spec fn hashed_pos(self) -> int {
        self.hashed as int
    }

    /// The hasher has been fed exactly `[0, hashed_pos())`, and the stream
    /// cursor never passes the hashed prefix.
    pub open spec fn wf(self) -> bool {
        0 <= self.stream_pos() <= self.hashed_pos() <= self.contents().len()
            && self.spec_fed() == self.contents().subrange(0, self.hashed_pos())
    }

    /// The bytes fed to the hasher so far.
    pub closed spec fn spec_fed(self) -> Seq<u8> {
        self.hasher.fed()
    }

    /// Returns a reader over `data`, positioned at the start, with nothing
    /// hashed yet.
    pub fn new(data: Vec<u8>) -> (r: Self)
        ensures
            r.contents() == data@,
            r.stream_pos() == 0,
            r.hashed_pos() == 0,
            r.wf(),
    {
        let r = MonotonicHashingReader {
            inner: PositionTracker::from_start(data),
            hasher: CRC32Hasher::new(),
            hashed: 0,
        };
        proof {
            assert(r.spec_fed() =~= r.contents().subrange(0, 0));
        }
        r
    }

    /// Reassembles a reader from its parts.
    pub fn from_parts(inner: PositionTracker, hasher: CRC32Hasher, hashed: usize) -> (r: Self)
        requires
            inner.wf(),
            inner.pos() <= hashed <= inner.contents().len(),
            hasher.fed() == inner.contents().subrange(0, hashed as int),
        ensures
            r.contents() == inner.contents(),
            r.stream_pos() == inner.pos(),
            r.hashed_pos() == hashed,
            r.wf(),
    {
        MonotonicHashingReader { inner, hasher, hashed }
    }

    /// Consumes the reader, returning its parts: the tracked stream, the
    /// hasher, and the end of the hashed prefix.
    pub fn into_parts(self) -> (r: (PositionTracker, CRC32Hasher, u64))
        ensures
            r.0.contents() == self.contents(),
            r.0.pos() == self.stream_pos(),
            r.1.fed() == self.spec_fed(),
            r.2 == self.hashed_pos(),
    {
        let h = self.hashed as u64;
        (self.inner, self.hasher, h)
    }

    /// The end of the hashed prefix: how far the hasher has caught up,
    /// which is never behind the stream cursor.
    pub fn position(&self) -> (r: u64)
        ensures
            r == self.hashed_pos(),
    {
        self.hashed as u64
    }

    /// The stream cursor.
    pub fn stream_position(&self) -> (r: u64)
        ensures
            r == self.stream_pos(),
    {
        self.inner.position()
    }

    /// The length of the whole stream.
    pub fn len(&self) -> (r: u64)
        ensures
            r == self.contents().len(),
    {
        self.inner.len()
    }

    /// A reference to the tracked stream.
    pub fn inner(&self) -> (r: &PositionTracker)
        ensures
            r.contents() == self.contents(),
            r.pos() == self.stream_pos(),
    {
        &self.inner
    }

    /// The hasher, fed with exactly the hashed prefix.
    pub fn hasher(&self) -> (r: &CRC32Hasher)
        requires
            self.wf(),
        ensures
            r.fed() == self.contents().subrange(0, self.hashed_pos()),
    {
        &self.hasher
    }

    /// Reads one byte at the stream cursor; a byte past the old hashed
    /// prefix is fed to the hasher, one below it is not re-fed.
    pub fn read_u8(&mut self) -> (r: Option<u8>)
        requires
            old(self).wf(),
        ensures
            final(self).wf(),
            final(self).contents() == old(self).contents(),
            final(self).hashed_pos() >= old(self).hashed_pos(),
            if old(self).stream_pos() < old(self).contents().len() {
                r == Some(old(self).contents()[old(self).stream_pos()]) && final(self).stream_pos()
                    == old(self).stream_pos() + 1 && final(self).hashed_pos() == max_int(
                    old(self).hashed_pos(),
                    final(self).stream_pos(),
                )
            } else {
                r == None::<u8> && final(self).stream_pos() == old(self).stream_pos() && final(self).hashed_pos() == old(self).hashed_pos()
            },
    {
        let r = self.inner.read_u8();
        if let Some(b) = r {
            let _l = self.inner.len_usize();
            if self.inner.position() > self.hashed as u64 {
                self.hasher.update_byte(b);
                self.hashed = self.hashed + 1;
                proof {
                    assert(self.hasher.fed() =~= self.contents().subrange(
                        0,
                        self.hashed as int,
                    ));
                }
            }
        }
        r
    }

    /// Moves the stream cursor to `p`, hashing the bytes between the old
    /// hashed prefix and `p` when `p` lies beyond it. Fails, with nothing
    /// changed, when `p` lies past the end of the stream.
    pub fn seek_to(&mut self, p: u64) -> (r: bool)
        requires
            old(self).wf(),
        ensures
            final(self).wf(),
            final(self).contents() == old(self).contents(),
            final(self).hashed_pos() >= old(self).hashed_pos(),
            if p <= old(self).contents().len() {
                r && final(self).stream_pos() == p && final(self).hashed_pos() == max_int(
                    old(self).hashed_pos(),
                    p as int,
                )
            } else {
                !r && final(self).stream_pos() == old(self).stream_pos() && final(self).hashed_pos()
                    == old(self).hashed_pos()
            },
    {
        let len_us = self.inner.len_usize();
        if p <= len_us as u64 {
            let p_us = p as usize;
            if p_us > self.hashed {
                let s = slice_subrange(self.inner.get_ref().as_slice(), self.hashed, p_us);
                self.hasher.update(s);
                self.hashed = p_us;
                proof {
                    assert(self.hasher.fed() =~= self.contents().subrange(0, self.hashed as int));
                }
            }
            let _ = self.inner.seek_to(p);
            true
        } else {
            false
        }
    }

    /// Advances the stream cursor by `n` bytes, hashing newly passed bytes;
    /// stops at the end of the stream and reports whether the full skip fit.
    pub fn skip_hash(&mut self, n: u64) -> (r: bool)
        requires
            old(self).wf(),
        ensures
            final(self).wf(),
            final(self).contents() == old(self).contents(),
            final(self).hashed_pos() >= old(self).hashed_pos(),
            final(self).stream_pos() == min_int(
                old(self).stream_pos() + n,
                old(self).contents().len() as int,
            ),
            final(self).hashed_pos() == max_int(old(self).hashed_pos(), final(self).stream_pos()),
            r <==> old(self).stream_pos() + n <= old(self).contents().len(),
    {
        let pos = self.inner.position();
        let len = self.inner.len();
        if n <= len - pos {
            let _ = self.seek_to(pos + n);
            true
        } else {
            let _ = self.seek_to(len);
            false
        }
    }

    /// Copies exactly `n` bytes from the stream cursor into `out`, hashing
    /// newly passed source bytes and everything written. When fewer than `n`
    /// bytes remain, copies what is left and reports failure.
    pub fn copy_to_other_exactly(&mut self, n: u64, out: &mut HashingWriter) -> (r: bool)
        requires
            old(self).wf(),
            old(out).wf(),
        ensures
            final(self).wf(),
            final(out).wf(),
            final(self).contents() == old(self).contents(),
            final(self).hashed_pos() >= old(self).hashed_pos(),
            final(self).stream_pos() == min_int(
                old(self).stream_pos() + n,
                old(self).contents().len() as int,
            ),
            final(self).hashed_pos() == max_int(old(self).hashed_pos(), final(self).stream_pos()),
            final(out).contents() == old(out).contents() + old(self).contents().subrange(
                old(self).stream_pos(),
                final(self).stream_pos(),
            ),
            r <==> old(self).stream_pos() + n <= old(self).contents().len(),
    {
        let len_us = self.inner.len_usize();
        let pos_us = self.inner.pos_usize();
        let rem: u64 = (len_us - pos_us) as u64;
        let k: usize = if n <= rem {
            n as usize
        } else {
            len_us - pos_us
        };
        let s = slice_subrange(self.inner.get_ref().as_slice(), pos_us, pos_us + k);
        out.write_all(s);
        let _ = self.seek_to((pos_us + k) as u64);
        n <= rem
    }

    /// Reads exactly `n` bytes at the stream cursor, hashing the newly
    /// passed bytes, or returns `None` without moving when fewer than `n`
    /// bytes remain.
    pub fn read_exact(&mut self, n: usize) -> (r: Option<Vec<u8>>)
        requires
            old(self).wf(),
        ensures
            final(self).wf(),
            final(self).contents() == old(self).contents(),
            final(self).hashed_pos() >= old(self).hashed_pos(),
            if old(self).stream_pos() + n <= old(self).contents().len() {
                final(self).stream_pos() == old(self).stream_pos() + n && final(self).hashed_pos()
                    == max_int(old(self).hashed_pos(), final(self).stream_pos()) && (r matches Some(
                    v,
                ) && v@ == old(self).contents().subrange(
                    old(self).stream_pos(),
                    old(self).stream_pos() + n,
                ))
            } else {
                r matches None && final(self).stream_pos() == old(self).stream_pos() && final(self).hashed_pos() == old(self).hashed_pos()
            },
    {
        let len_us = self.inner.len_usize();
        let pos_us = self.inner.pos_usize();
        if n <= len_us - pos_us {
            let s = slice_subrange(self.inner.get_ref().as_slice(), pos_us, pos_us + n);
            let v = vstd::slice::slice_to_vec(s);
            let _ = self.seek_to((pos_us + n) as u64);
            Some(v)
        } else {
            None
        }
    }

    /// Reads and hashes everything between the hashed prefix and the end of
    /// the stream, leaving the cursor at EOF. Afterwards the hasher has seen
    /// the entire source exactly once: its checksum is the whole-file CRC-32.
    pub fn hash_remainder(&mut self) -> (r: u64)
        requires
            old(self).wf(),
        ensures
            final(self).wf(),
            final(self).contents() == old(self).contents(),
            final(self).stream_pos() == final(self).contents().len(),
            final(self).hashed_pos() == final(self).contents().len(),
            final(self).spec_fed() == final(self).contents(),
            r == old(self).contents().len() - old(self).stream_pos(),
    {
        let pos = self.inner.position();
        let len = self.inner.len();
        let _ = self.seek_to(len);
        proof {
            assert(self.spec_fed() =~= self.contents());
        }
        len - pos
    }
}

/// The larger of two integers.
pub open spec fn max_int(a: int, b: int) -> int {
    if a >= b {
        a
    } else {
        b
    }
}

} // verus!
