//! A reader that yields the bytes of a slice, repeated without end.
//!
//! This powers target copies of short periodic sequences: a fixed block of
//! bytes is read over and over, wrapping around at its end.

use vstd::prelude::*;

verus! {

/// A lazy byte source that yields the bytes of a non-empty slice
/// cyclically, forever.
pub struct RepeatSlice {
    slice: Vec<u8>,
    position: usize,
}

impl RepeatSlice {
    /// The repeated bytes.
    pub closed spec fn slice_spec(self) -> Seq<u8> {
        self.slice@
    }

    /// The cursor into the slice.
    pub closed spec fn pos(self) -> int {
        self.position as int
    }

    /// The slice is non-empty and the cursor stays inside it.
    pub open spec fn wf(self) -> bool {
        self.slice_spec().len() >= 1 && 0 <= self.pos() < self.slice_spec().len()
    }

    /// Returns a new reader over `slice`, which must not be empty.
    pub fn new(slice: Vec<u8>) -> (r: Self)
        requires
            slice@.len() >= 1,
        ensures
            r.wf(),
            r.slice_spec() == slice@,
            r.pos() == 0,
    {
        RepeatSlice { slice, position: 0 }
    }

    /// The repeated bytes.
    pub fn slice(&self) -> (r: &Vec<u8>)
        ensures
            r@ == self.slice_spec(),
    {
        &self.slice
    }

    /// Fills `buf` with the next bytes of the cycle: position `i` of `buf`
    /// receives the slice byte at the cursor advanced by `i`, wrapping
    /// around the end of the slice.
    pub fn read(&mut self, buf: &mut Vec<u8>)
        requires
            old(self).wf(),
        ensures
            final(self).wf(),
            final(self).slice_spec() == old(self).slice_spec(),
            final(buf)@.len() == old(buf)@.len(),
            forall|i: int|
                0 <= i < old(buf)@.len() ==> final(buf)@[i] == old(self).slice_spec()[(old(
                    self,
                ).pos() + i) % (old(self).slice_spec().len() as int)],
            final(self).pos() == (old(self).pos() + old(buf)@.len()) % (old(
                self,
            ).slice_spec().len() as int),
    {
        let n = buf.len();
        let len = self.slice.len();
        proof {
            vstd::arithmetic::div_mod::lemma_small_mod(old(self).pos() as nat, len as nat);
        }
        let mut i: usize = 0;
        while i < n
            invariant
                old(self).wf(),
                self.slice@ == old(self).slice_spec(),
                len == self.slice@.len(),
                0 <= i <= n,
                buf@.len() == n,
                0 <= self.position < len,
                self.pos() == (old(self).pos() + i) % (len as int),
                forall|j: int|
                    0 <= j < i ==> buf@[j] == old(self).slice_spec()[(old(self).pos() + j) % (
                    len as int)],
            decreases n - i,
        {
            let b = self.slice[self.position];
            buf.set(i, b);
            self.position = self.position + 1;
            if self.position == len {
                self.position = 0;
            }
            i = i + 1;
            proof {
                lemma_mod_step(old(self).pos(), i - 1, len as int);
            }
        }
    }
}

/// Advancing one step commutes with taking the remainder: the cursor after
/// `k + 1` steps is the successor of the cursor after `k` steps, modulo the
/// cycle length.
proof fn lemma_mod_step(start: int, k: int, len: int)
    requires
        0 <= start,
        0 <= k,
        1 <= len,
    ensures
        (start + k + 1) % len == if (start + k) % len + 1 == len {
            0int
        } else {
            (start + k) % len + 1
        },
{
    let a = start + k;
    assert(a % len + 1 == (a + 1) % len || a % len + 1 == len) by {
        vstd::arithmetic::div_mod::lemma_fundamental_div_mod(a, len);
        vstd::arithmetic::div_mod::lemma_fundamental_div_mod(a + 1, len);
        vstd::arithmetic::div_mod::lemma_mod_bound(a, len);
        vstd::arithmetic::div_mod::lemma_mod_bound(a + 1, len);
        assert((a + 1) - a == 1);
        assert((a + 1) % len - a % len == 1 + len * ((a / len) - ((a + 1) / len))) by (
        nonlinear_arith)
            requires
                a == len * (a / len) + a % len,
                a + 1 == len * ((a + 1) / len) + (a + 1) % len,
        ;
        let d = (a / len) - ((a + 1) / len);
        assert((a + 1) % len - a % len == 1 + len * d);
        assert(0 - len < 1 + len * d < 2 * len) by (nonlinear_arith)
            requires
                0 <= a % len < len,
                0 <= (a + 1) % len < len,
                (a + 1) % len - a % len == 1 + len * d,
        ;
        vstd::arithmetic::div_mod::lemma_div_is_ordered(a, a + 1, len);
        assert(d == 0 || len * d == 0 - len) by (nonlinear_arith)
            requires
                0 - len < 1 + len * d < 2 * len,
                len >= 1,
                d <= 0,
        ;
    }
    if a % len + 1 == len {
        assert((a + 1) % len == 0) by {
            vstd::arithmetic::div_mod::lemma_fundamental_div_mod(a, len);
            vstd::arithmetic::div_mod::lemma_mod_bound(a + 1, len);
            assert(a + 1 == len * (a / len + 1)) by (nonlinear_arith)
                requires
                    a == len * (a / len) + a % len,
                    a % len + 1 == len,
            ;
            vstd::arithmetic::div_mod::lemma_mod_multiples_basic(a / len + 1, len);
        }
    }
}

} // verus!
