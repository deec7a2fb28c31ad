//! In-memory byte streams with tracked positions.
//!
//! [`PositionTracker`] owns a byte buffer and a cursor. Its invariant is that
//! the cursor never passes the end of the buffer, and every operation says
//! exactly which bytes it consumed and where the cursor lands. The hashing
//! adapters and the decoders are built on top of it.

use vstd::prelude::*;

verus! {

/// The big-endian 16-bit value stored at `s[i..i+2]`.
pub open spec fn be16_at(s: Seq<u8>, i: int) -> int {
    s[i] * 0x100 + s[i + 1]
}

/// The big-endian 24-bit value stored at `s[i..i+3]`.
pub open spec fn be24_at(s: Seq<u8>, i: int) -> int {
    s[i] * 0x10000 + s[i + 1] * 0x100 + s[i + 2]
}

/// The little-endian 32-bit value stored at `s[i..i+4]`.
pub open spec fn le32_at(s: Seq<u8>, i: int) -> int {
    s[i] + s[i + 1] * 0x100 + s[i + 2] * 0x10000 + s[i + 3] * 0x1000000
}

/// The little-endian value of the `n` bytes stored at `s[i..i+n]`.
pub open spec fn le_at(s: Seq<u8>, i: int, n: nat) -> int
    decreases n,
{
    if n == 0 {
        0
    } else {
        s[i] + le_at(s, i + 1, (n - 1) as nat) * 0x100
    }
}

/// `0x100` raised to the power `n`.
pub open spec fn pow256(n: nat) -> int
    decreases n,
{
    if n == 0 {
        1
    } else {
        0x100 * pow256((n - 1) as nat)
    }
}

/// `0x100^n` is positive.
pub proof fn pow256_positive(n: nat)
    ensures
        pow256(n) >= 1,
    decreases n,
{
    if n > 0 {
        pow256_positive((n - 1) as nat);
    }
}

/// The little-endian value of `n` bytes is bounded by `0x100^n`.
pub proof fn le_at_bound(s: Seq<u8>, i: int, n: nat)
    requires
        0 <= i,
        i + n <= s.len(),
    ensures
        0 <= le_at(s, i, n) < pow256(n),
    decreases n,
{
    if n > 0 {
        le_at_bound(s, i + 1, (n - 1) as nat);
    }
}

/// A little-endian value of at most eight bytes fits in 64 bits.
pub proof fn le_at_fits_u64(s: Seq<u8>, i: int, n: nat)
    requires
        0 <= i,
        i + n <= s.len(),
        n <= 8,
    ensures
        0 <= le_at(s, i, n) < 0x10000000000000000,
{
    le_at_bound(s, i, n);
    crate::hashing::pow256_monotonic(n, 8);
    assert(pow256(8) == 0x10000000000000000) by {
        reveal_with_fuel(pow256, 9);
    }
}

/// `le32_at` is the four-byte case of `le_at`.
pub proof fn le32_at_is_le_at(s: Seq<u8>, i: int)
    requires
        0 <= i,
        i + 4 <= s.len(),
    ensures
        le32_at(s, i) == le_at(s, i, 4),
{
    reveal_with_fuel(le_at, 5);
}

/// The smaller of two integers.
pub open spec fn min_int(a: int, b: int) -> int {
    if a <= b {
        a
    } else {
        b
    }
}

/// A byte stream which tracks the cursor position of its underlying buffer.
///
/// This is the in-memory analogue of wrapping a seekable reader: the whole
/// stream is held as a buffer, and the cursor is an index into it.
pub struct PositionTracker {
    inner: Vec<u8>,
    position: usize,
}

impl PositionTracker {
    /// The whole underlying byte stream.
    pub closed spec fn contents(self) -> Seq<u8> {
        self.inner@
    }

    /// The current cursor position.
    pub closed spec fn pos(self) -> int {
        self.position as int
    }

    /// The cursor never passes the end of the stream.
    pub open spec fn wf(self) -> bool {
        0 <= self.pos() <= self.contents().len()
    }

    /// Returns a tracker positioned at the start of the stream.
    pub fn new(inner: Vec<u8>) -> (r: Self)
        ensures
            r.contents() == inner@,
            r.pos() == 0,
            r.wf(),
    {
        PositionTracker { inner, position: 0 }
    }

    /// Returns a tracker positioned at the start of the stream.
    pub fn from_start(inner: Vec<u8>) -> (r: Self)
        ensures
            r.contents() == inner@,
            r.pos() == 0,
            r.wf(),
    {
        PositionTracker { inner, position: 0 }
    }

    /// Returns a tracker with the given cursor position.
    pub fn with_known_position(position: usize, inner: Vec<u8>) -> (r: Self)
        requires
            position <= inner@.len(),
        ensures
            r.contents() == inner@,
            r.pos() == position,
            r.wf(),
    {
        PositionTracker { inner, position }
    }

    /// The current cursor position.
    pub fn position(&self) -> (r: u64)
        ensures
            r == self.pos(),
    {
        self.position as u64
    }

    /// The length of the whole stream.
    pub fn len(&self) -> (r: u64)
        ensures
            r == self.contents().len(),
    {
        self.inner.len() as u64
    }

    /// The length of the whole stream, as a `usize`.
    pub fn len_usize(&self) -> (r: usize)
        ensures
            r == self.contents().len(),
    {
        self.inner.len()
    }

    /// The current cursor position, as a `usize`.
    pub fn pos_usize(&self) -> (r: usize)
        ensures
            r == self.pos(),
    {
        self.position
    }

    /// The number of bytes between the cursor and the end of the stream.
    pub fn remaining(&self) -> (r: u64)
        requires
            self.wf(),
        ensures
            r == self.contents().len() - self.pos(),
    {
        (self.inner.len() - self.position) as u64
    }

    /// True exactly when the cursor is at the end of the stream.
    pub fn has_reached_eof(&self) -> (r: bool)
        requires
            self.wf(),
        ensures
            r <==> self.pos() == self.contents().len(),
    {
        self.position == self.inner.len()
    }

    /// A reference to the underlying buffer.
    pub fn get_ref(&self) -> (r: &Vec<u8>)
        ensures
            r@ == self.contents(),
    {
        &self.inner
    }

    /// Consumes the tracker, returning the underlying buffer.
    pub fn into_inner(self) -> (r: Vec<u8>)
        ensures
            r@ == self.contents(),
    {
        self.inner
    }

    /// Consumes the tracker, returning the underlying buffer and the cursor.
    pub fn into_parts(self) -> (r: (Vec<u8>, u64))
        ensures
            r.0@ == self.contents(),
            r.1 == self.pos(),
    {
        let p = self.position as u64;
        (self.inner, p)
    }

    /// Reads one byte and advances the cursor, or returns `None` at EOF.
    pub fn read_u8(&mut self) -> (r: Option<u8>)
        requires
            old(self).wf(),
        ensures
            final(self).wf(),
            final(self).contents() == old(self).contents(),
            if old(self).pos() < old(self).contents().len() {
                r == Some(old(self).contents()[old(self).pos()]) && final(self).pos() == old(self).pos() + 1
            } else {
                r == None::<u8> && final(self).pos() == old(self).pos()
            },
    {
        if self.position < self.inner.len() {
            let b = self.inner[self.position];
            self.position = self.position + 1;
            Some(b)
        } else {
            None
        }
    }

    /// Reads exactly `n` bytes and advances the cursor, or returns `None`
    /// without moving when fewer than `n` bytes remain.
    pub fn read_exact(&mut self, n: usize) -> (r: Option<Vec<u8>>)
        requires
            old(self).wf(),
        ensures
            final(self).wf(),
            final(self).contents() == old(self).contents(),
            if old(self).pos() + n <= old(self).contents().len() {
                final(self).pos() == old(self).pos() + n && (r matches Some(v) && v@ == old(self).contents().subrange(old(self).pos(), old(self).pos() + n))
            } else {
                r matches None && final(self).pos() == old(self).pos()
            },
    {
        if n <= self.inner.len() - self.position {
            let ghost start = self.pos();
            let mut v: Vec<u8> = Vec::new();
            let mut i: usize = 0;
            while i < n
                invariant
                    self.wf(),
                    self.contents().len() <= usize::MAX,
                    start + n <= self.contents().len(),
                    self.contents() == old(self).contents(),
                    0 <= i <= n,
                    self.pos() == start + i,
                    v@.len() == i,
                    forall|j: int| 0 <= j < i ==> v@[j] == self.contents()[start + j],
                decreases n - i,
            {
                let b = self.inner[self.position];
                v.push(b);
                self.position = self.position + 1;
                i = i + 1;
            }
            proof {
                assert(v@ =~= self.contents().subrange(start, start + n));
            }
            Some(v)
        } else {
            None
        }
    }

    /// Reads a big-endian 16-bit value.
    pub fn read_u16_be(&mut self) -> (r: Option<u16>)
        requires
            old(self).wf(),
        ensures
            final(self).wf(),
            final(self).contents() == old(self).contents(),
            if old(self).pos() + 2 <= old(self).contents().len() {
                final(self).pos() == old(self).pos() + 2 && r == Some(
                    be16_at(old(self).contents(), old(self).pos()) as u16,
                )
            } else {
                r matches None && final(self).pos() == old(self).pos()
            },
    {
        if 2 <= self.inner.len() - self.position {
            let b0 = self.inner[self.position];
            let b1 = self.inner[self.position + 1];
            self.position = self.position + 2;
            Some((b0 as u16) * 0x100 + (b1 as u16))
        } else {
            None
        }
    }

    /// Reads a big-endian 24-bit value.
    pub fn read_u24_be(&mut self) -> (r: Option<u32>)
        requires
            old(self).wf(),
        ensures
            final(self).wf(),
            final(self).contents() == old(self).contents(),
            if old(self).pos() + 3 <= old(self).contents().len() {
                final(self).pos() == old(self).pos() + 3 && r == Some(
                    be24_at(old(self).contents(), old(self).pos()) as u32,
                )
            } else {
                r matches None && final(self).pos() == old(self).pos()
            },
    {
        if 3 <= self.inner.len() - self.position {
            let b0 = self.inner[self.position];
            let b1 = self.inner[self.position + 1];
            let b2 = self.inner[self.position + 2];
            self.position = self.position + 3;
            Some((b0 as u32) * 0x10000 + (b1 as u32) * 0x100 + (b2 as u32))
        } else {
            None
        }
    }

    /// Reads a little-endian 32-bit value.
    pub fn read_u32_le(&mut self) -> (r: Option<u32>)
        requires
            old(self).wf(),
        ensures
            final(self).wf(),
            final(self).contents() == old(self).contents(),
            if old(self).pos() + 4 <= old(self).contents().len() {
                final(self).pos() == old(self).pos() + 4 && r == Some(
                    le32_at(old(self).contents(), old(self).pos()) as u32,
                )
            } else {
                r matches None && final(self).pos() == old(self).pos()
            },
    {
        if 4 <= self.inner.len() - self.position {
            let b0 = self.inner[self.position];
            let b1 = self.inner[self.position + 1];
            let b2 = self.inner[self.position + 2];
            let b3 = self.inner[self.position + 3];
            self.position = self.position + 4;
            Some(
                (b0 as u32) + (b1 as u32) * 0x100 + (b2 as u32) * 0x10000 + (b3 as u32)
                    * 0x1000000,
            )
        } else {
            None
        }
    }

    /// Moves the cursor to the absolute position `p`. Fails (and leaves the
    /// cursor in place) when `p` lies past the end of the stream.
    pub fn seek_to(&mut self, p: u64) -> (r: bool)
        requires
            old(self).wf(),
        ensures
            final(self).wf(),
            final(self).contents() == old(self).contents(),
            if p <= old(self).contents().len() {
                r && final(self).pos() == p
            } else {
                !r && final(self).pos() == old(self).pos()
            },
    {
        if p <= self.inner.len() as u64 {
            self.position = p as usize;
            true
        } else {
            false
        }
    }

    /// Fills `buf` from the cursor onward, stopping at the end of `buf` or of
    /// the stream, whichever comes first; returns the number of bytes copied.
    pub fn copy_to_slice(&mut self, buf: &mut Vec<u8>) -> (r: u64)
        requires
            old(self).wf(),
        ensures
            final(self).wf(),
            final(self).contents() == old(self).contents(),
            r == min_int(old(buf)@.len() as int, old(self).contents().len() - old(self).pos()),
            final(self).pos() == old(self).pos() + r,
            final(buf)@.len() == old(buf)@.len(),
            forall|i: int|
                0 <= i < r ==> final(buf)@[i] == old(self).contents()[old(self).pos() + i],
            forall|i: int| r <= i < old(buf)@.len() ==> final(buf)@[i] == old(buf)@[i],
    {
        let k: usize = if buf.len() <= self.inner.len() - self.position {
            buf.len()
        } else {
            self.inner.len() - self.position
        };
        let mut i: usize = 0;
        while i < k
            invariant
                self.wf(),
                self.contents().len() <= usize::MAX,
                self.contents() == old(self).contents(),
                k <= old(buf)@.len(),
                old(self).pos() + k <= self.contents().len(),
                0 <= i <= k,
                self.pos() == old(self).pos() + i,
                buf@.len() == old(buf)@.len(),
                forall|j: int| 0 <= j < i ==> buf@[j] == old(self).contents()[old(self).pos() + j],
                forall|j: int| i <= j < old(buf)@.len() ==> buf@[j] == old(buf)@[j],
            decreases k - i,
        {
            let b = self.inner[self.position];
            buf.set(i, b);
            self.position = self.position + 1;
            i = i + 1;
        }
        k as u64
    }
}

} // verus!
