//! Variable-length integer codecs.
//!
//! Two dialects are used by the patch formats:
//!
//! * the *byuu* varint of UPS and BPS: little-endian base-128 groups, the
//!   most-significant bit marks the final byte, and after every non-final
//!   byte the decoder adds the next power of 128 (the encoder subtracted one
//!   to compress small values);
//! * the *Vcdiff* varint of RFC 3284: big-endian base-128, the
//!   most-significant bit marks continuation.
//!
//! Both detect overflow of the target integer type and fail.

use vstd::prelude::*;

use crate::hashing::HashingReader;
use crate::stream::PositionTracker;

verus! {

/// The result of decoding a byuu varint from `s` starting at `pos`, with a
/// partial value `acc` and current digit weight `shift`: the decoded value
/// and the position one past the final byte, or `None` when the stream ends
/// first or the value overflows 64 bits.
pub open spec fn byuu_decode(s: Seq<u8>, pos: int, acc: nat, shift: nat) -> Option<(u64, int)>
    decreases s.len() - pos,
{
    if pos < 0 || pos >= s.len() {
        None
    } else {
        let b = s[pos];
        let v = acc + (b % 128) * shift;
        if v > u64::MAX {
            None
        } else if b >= 128 {
            Some((v as u64, pos + 1))
        } else {
            let ns = shift * 128;
            if v + ns > u64::MAX {
                None
            } else {
                byuu_decode(s, pos + 1, (v + ns) as nat, ns)
            }
        }
    }
}

/// The result of decoding a whole byuu varint at `pos`.
pub open spec fn spec_read_byuu(s: Seq<u8>, pos: int) -> Option<(u64, int)> {
    byuu_decode(s, pos, 0, 1)
}

/// The signed value that BPS builds from an unsigned byuu varint: the low
/// bit is the sign, the remaining bits the magnitude.
pub open spec fn bps_signed(u: u64) -> int {
    if u % 2 == 1 {
        -((u / 2) as int)
    } else {
        (u / 2) as int
    }
}

/// The result of decoding a Vcdiff varint from `s` at `pos` with partial
/// value `acc`, failing when the value would exceed `max`.
pub open spec fn vcd_decode(s: Seq<u8>, pos: int, acc: nat, max: nat) -> Option<(nat, int)>
    decreases s.len() - pos,
{
    if pos < 0 || pos >= s.len() {
        None
    } else {
        let b = s[pos];
        let v = acc * 128 + (b % 128);
        if v > max {
            None
        } else if b < 128 {
            Some((v as nat, pos + 1))
        } else {
            vcd_decode(s, pos + 1, v as nat, max)
        }
    }
}

/// The result of decoding a whole Vcdiff varint at `pos` into an integer
/// type whose largest value is `max`.
pub open spec fn spec_read_vcd(s: Seq<u8>, pos: int, max: nat) -> Option<(nat, int)> {
    vcd_decode(s, pos, 0, max)
}

impl PositionTracker {
    /// Reads a Vcdiff varint into a `u32`, failing on truncation or 32-bit
    /// overflow.
    pub fn read_vcdiff_u32(&mut self) -> (r: Option<u32>)
        requires
            old(self).wf(),
        ensures
            final(self).wf(),
            final(self).contents() == old(self).contents(),
            old(self).pos() <= final(self).pos(),
            match r {
                Some(v) => spec_read_vcd(old(self).contents(), old(self).pos(), u32::MAX as nat)
                    == Some((v as nat, final(self).pos())),
                None => spec_read_vcd(old(self).contents(), old(self).pos(), u32::MAX as nat)
                    is None,
            },
    {
        let mut value: u32 = 0;
        loop
            invariant
                self.wf(),
                self.contents() == old(self).contents(),
                old(self).pos() <= self.pos() <= self.contents().len(),
                vcd_decode(old(self).contents(), old(self).pos(), 0, u32::MAX as nat)
                    == vcd_decode(self.contents(), self.pos(), value as nat, u32::MAX as nat),
            decreases self.contents().len() - self.pos(),
        {
            let ghost pos0 = self.pos();
            let ghost val0 = value;
            let b = match self.read_u8() {
                Some(b) => b,
                None => {
                    return None;
                },
            };
            let scaled = match value.checked_mul(128) {
                Some(s) => s,
                None => {
                    return None;
                },
            };
            let v = match scaled.checked_add((b % 128) as u32) {
                Some(v) => v,
                None => {
                    return None;
                },
            };
            if b < 128 {
                return Some(v);
            }
            value = v;
            proof {
                assert(vcd_decode(self.contents(), pos0, val0 as nat, u32::MAX as nat)
                    == vcd_decode(self.contents(), self.pos(), value as nat, u32::MAX as nat));
            }
        }
    }

    /// Reads a Vcdiff varint into a `u64`, failing on truncation or 64-bit
    /// overflow.
    pub fn read_vcdiff_u64(&mut self) -> (r: Option<u64>)
        requires
            old(self).wf(),
        ensures
            final(self).wf(),
            final(self).contents() == old(self).contents(),
            old(self).pos() <= final(self).pos(),
            match r {
                Some(v) => spec_read_vcd(old(self).contents(), old(self).pos(), u64::MAX as nat)
                    == Some((v as nat, final(self).pos())),
                None => spec_read_vcd(old(self).contents(), old(self).pos(), u64::MAX as nat)
                    is None,
            },
    {
        let mut value: u64 = 0;
        loop
            invariant
                self.wf(),
                self.contents() == old(self).contents(),
                old(self).pos() <= self.pos() <= self.contents().len(),
                vcd_decode(old(self).contents(), old(self).pos(), 0, u64::MAX as nat)
                    == vcd_decode(self.contents(), self.pos(), value as nat, u64::MAX as nat),
            decreases self.contents().len() - self.pos(),
        {
            let ghost pos0 = self.pos();
            let ghost val0 = value;
            let b = match self.read_u8() {
                Some(b) => b,
                None => {
                    return None;
                },
            };
            let scaled = match value.checked_mul(128) {
                Some(s) => s,
                None => {
                    return None;
                },
            };
            let v = match scaled.checked_add((b % 128) as u64) {
                Some(v) => v,
                None => {
                    return None;
                },
            };
            if b < 128 {
                return Some(v);
            }
            value = v;
            proof {
                assert(vcd_decode(self.contents(), pos0, val0 as nat, u64::MAX as nat)
                    == vcd_decode(self.contents(), self.pos(), value as nat, u64::MAX as nat));
            }
        }
    }
}

impl HashingReader {
    /// Reads a UPS or BPS varint, feeding the consumed bytes to the hasher.
    /// In the specifications of those formats this operation is called
    /// `decode`. Fails on truncation or 64-bit overflow.
    pub fn read_varint(&mut self) -> (r: Option<u64>)
        requires
            old(self).wf(),
        ensures
            final(self).wf(),
            final(self).contents() == old(self).contents(),
            old(self).pos() <= final(self).pos(),
            match r {
                Some(v) => spec_read_byuu(old(self).contents(), old(self).pos()) == Some(
                    (v, final(self).pos()),
                ),
                None => spec_read_byuu(old(self).contents(), old(self).pos()) is None,
            },
    {
        let mut value: u64 = 0;
        let mut shift: u64 = 1;
        loop
            invariant
                self.wf(),
                self.contents() == old(self).contents(),
                old(self).pos() <= self.pos() <= self.contents().len(),
                shift >= 1,
                byuu_decode(old(self).contents(), old(self).pos(), 0, 1) == byuu_decode(
                    self.contents(),
                    self.pos(),
                    value as nat,
                    shift as nat,
                ),
            decreases self.contents().len() - self.pos(),
        {
            let ghost pos0 = self.pos();
            let ghost val0 = value;
            let ghost shift0 = shift;
            let b = match self.read_u8() {
                Some(b) => b,
                None => {
                    return None;
                },
            };
            let prod = match ((b % 128) as u64).checked_mul(shift) {
                Some(p) => p,
                None => {
                    return None;
                },
            };
            let v = match value.checked_add(prod) {
                Some(v) => v,
                None => {
                    return None;
                },
            };
            if b >= 128 {
                return Some(v);
            }
            let ns = match shift.checked_mul(128) {
                Some(n) => n,
                None => {
                    return None;
                },
            };
            let nv = match v.checked_add(ns) {
                Some(n) => n,
                None => {
                    return None;
                },
            };
            value = nv;
            shift = ns;
            proof {
                assert(byuu_decode(self.contents(), pos0, val0 as nat, shift0 as nat)
                    == byuu_decode(self.contents(), self.pos(), value as nat, shift as nat));
            }
        }
    }

    /// Reads a BPS signed offset: an unsigned byuu varint whose low bit is
    /// the sign and whose remaining bits are the magnitude.
    pub fn read_signed_varint(&mut self) -> (r: Option<i64>)
        requires
            old(self).wf(),
        ensures
            final(self).wf(),
            final(self).contents() == old(self).contents(),
            old(self).pos() <= final(self).pos(),
            match r {
                Some(v) => spec_read_byuu(old(self).contents(), old(self).pos()) matches Some(
                    (u, p),
                ) && p == final(self).pos() && v == bps_signed(u),
                None => spec_read_byuu(old(self).contents(), old(self).pos()) is None,
            },
    {
        match self.read_varint() {
            Some(u) => {
                let magnitude = u / 2;
                let v: i64 = if u % 2 == 1 {
                    -(magnitude as i64)
                } else {
                    magnitude as i64
                };
                Some(v)
            },
            None => None,
        }
    }

    /// Reads a Vcdiff varint into a `u32`, feeding the consumed bytes to the
    /// hasher.
    pub fn read_vcdiff_u32(&mut self) -> (r: Option<u32>)
        requires
            old(self).wf(),
        ensures
            final(self).wf(),
            final(self).contents() == old(self).contents(),
            old(self).pos() <= final(self).pos(),
            match r {
                Some(v) => spec_read_vcd(old(self).contents(), old(self).pos(), u32::MAX as nat)
                    == Some((v as nat, final(self).pos())),
                None => spec_read_vcd(old(self).contents(), old(self).pos(), u32::MAX as nat)
                    is None,
            },
    {
        let mut value: u32 = 0;
        loop
            invariant
                self.wf(),
                self.contents() == old(self).contents(),
                old(self).pos() <= self.pos() <= self.contents().len(),
                vcd_decode(old(self).contents(), old(self).pos(), 0, u32::MAX as nat)
                    == vcd_decode(self.contents(), self.pos(), value as nat, u32::MAX as nat),
            decreases self.contents().len() - self.pos(),
        {
            let ghost pos0 = self.pos();
            let ghost val0 = value;
            let b = match self.read_u8() {
                Some(b) => b,
                None => {
                    return None;
                },
            };
            let scaled = match value.checked_mul(128) {
                Some(s) => s,
                None => {
                    return None;
                },
            };
            let v = match scaled.checked_add((b % 128) as u32) {
                Some(v) => v,
                None => {
                    return None;
                },
            };
            if b < 128 {
                return Some(v);
            }
            value = v;
            proof {
                assert(vcd_decode(self.contents(), pos0, val0 as nat, u32::MAX as nat)
                    == vcd_decode(self.contents(), self.pos(), value as nat, u32::MAX as nat));
            }
        }
    }

    /// Reads a Vcdiff varint into a `u64`, feeding the consumed bytes to the
    /// hasher.
    pub fn read_vcdiff_u64(&mut self) -> (r: Option<u64>)
        requires
            old(self).wf(),
        ensures
            final(self).wf(),
            final(self).contents() == old(self).contents(),
            old(self).pos() <= final(self).pos(),
            match r {
                Some(v) => spec_read_vcd(old(self).contents(), old(self).pos(), u64::MAX as nat)
                    == Some((v as nat, final(self).pos())),
                None => spec_read_vcd(old(self).contents(), old(self).pos(), u64::MAX as nat)
                    is None,
            },
    {
        let mut value: u64 = 0;
        loop
            invariant
                self.wf(),
                self.contents() == old(self).contents(),
                old(self).pos() <= self.pos() <= self.contents().len(),
                vcd_decode(old(self).contents(), old(self).pos(), 0, u64::MAX as nat)
                    == vcd_decode(self.contents(), self.pos(), value as nat, u64::MAX as nat),
            decreases self.contents().len() - self.pos(),
        {
            let ghost pos0 = self.pos();
            let ghost val0 = value;
            let b = match self.read_u8() {
                Some(b) => b,
                None => {
                    return None;
                },
            };
            let scaled = match value.checked_mul(128) {
                Some(s) => s,
                None => {
                    return None;
                },
            };
            let v = match scaled.checked_add((b % 128) as u64) {
                Some(v) => v,
                None => {
                    return None;
                },
            };
            if b < 128 {
                return Some(v);
            }
            value = v;
            proof {
                assert(vcd_decode(self.contents(), pos0, val0 as nat, u64::MAX as nat)
                    == vcd_decode(self.contents(), self.pos(), value as nat, u64::MAX as nat));
            }
        }
    }
}

/// The byuu encoding of `x`: base-128 groups, least significant first, the
/// final byte marked with the high bit; one is subtracted from the remaining
/// value after each non-final byte.
pub open spec fn spec_encode_byuu(x: u64) -> Seq<u8>
    decreases x,
{
    if x < 128 {
        seq![(x + 128) as u8]
    } else {
        seq![(x % 128) as u8] + spec_encode_byuu((x / 128 - 1) as u64)
    }
}

/// Encodes `value` as a byuu varint.
pub fn encode_byuu(value: u64) -> (r: Vec<u8>)
    ensures
        r@ == spec_encode_byuu(value),
    decreases value,
{
    if value < 128 {
        let mut v: Vec<u8> = Vec::new();
        v.push((value + 128) as u8);
        proof {
            assert(v@ =~= spec_encode_byuu(value));
        }
        v
    } else {
        let mut v: Vec<u8> = Vec::new();
        v.push((value % 128) as u8);
        let mut rest = encode_byuu(value / 128 - 1);
        v.append(&mut rest);
        proof {
            assert(v@ =~= spec_encode_byuu(value));
        }
        v
    }
}

/// Decoding a byuu varint with state `(acc, shift)` over the encoding of `x`
/// yields `acc + x * shift`.
proof fn lemma_byuu_decode_encode(x: u64, s: Seq<u8>, pos: int, acc: u64, shift: u64)
    requires
        0 <= pos,
        pos + spec_encode_byuu(x).len() <= s.len(),
        s.subrange(pos, pos + spec_encode_byuu(x).len() as int) == spec_encode_byuu(x),
        shift >= 1,
        acc + x * shift <= u64::MAX,
    ensures
        byuu_decode(s, pos, acc as nat, shift as nat) == Some(
            (((acc + x * shift) as u64), pos + spec_encode_byuu(x).len()),
        ),
    decreases x,
{
    let enc = spec_encode_byuu(x);
    let l = enc.len() as int;
    assert(s[pos] == enc[0]) by {
        assert(s.subrange(pos, pos + l)[0] == s[pos]);
    }
    let b = s[pos];
    if x < 128 {
        assert(b == (x + 128) as u8);
        assert(b % 128 == x);
        assert(b >= 128);
        assert((b % 128) * shift == x * shift);
    } else {
        let q = x / 128;
        let m = x % 128;
        let x2 = (q - 1) as u64;
        assert(x == 128 * q + m && 0 <= m < 128 && q >= 1) by (nonlinear_arith)
            requires
                x >= 128,
                q == x / 128,
                m == x % 128,
        ;
        assert(b == m as u8);
        assert(b < 128 && b % 128 == b);
        // The partial value after this byte, and the weight that follows it.
        let v = acc + m * shift;
        let ns = shift * 128;
        assert(v + ns + x2 * ns == acc + x * shift) by (nonlinear_arith)
            requires
                v == acc + m * shift,
                ns == shift * 128,
                x == 128 * q + m,
                x2 == q - 1,
                q >= 1,
        ;
        assert(x2 * ns >= 0) by (nonlinear_arith)
            requires
                x2 >= 0,
                ns >= 0,
        ;
        assert(v + ns <= u64::MAX);
        // The remaining bytes are the encoding of the remaining value.
        let enc2 = spec_encode_byuu(x2);
        let l2 = enc2.len() as int;
        assert(l == 1 + l2);
        assert forall|k: int| 0 <= k < l2 implies #[trigger] s.subrange(pos + 1, pos + 1 + l2)[k]
            == enc2[k] by {
            assert(s.subrange(pos + 1, pos + 1 + l2)[k] == s[pos + 1 + k]);
            assert(s.subrange(pos, pos + l)[k + 1] == s[pos + 1 + k]);
            assert(enc[k + 1] == enc2[k]);
        }
        assert(s.subrange(pos + 1, pos + 1 + l2) =~= enc2);
        lemma_byuu_decode_encode(x2, s, pos + 1, (v + ns) as u64, ns as u64);
        assert(byuu_decode(s, pos, acc as nat, shift as nat) == byuu_decode(
            s,
            pos + 1,
            (v + ns) as nat,
            ns as nat,
        ));
    }
}

/// Law: a byuu varint round-trips through its codec. Decoding the encoding
/// of any 64-bit value yields exactly that value and consumes exactly the
/// encoded bytes.
pub proof fn byuu_round_trip(x: u64)
    ensures
        spec_read_byuu(spec_encode_byuu(x), 0) == Some(
            (x, spec_encode_byuu(x).len() as int),
        ),
{
    let enc = spec_encode_byuu(x);
    assert(enc.subrange(0, enc.len() as int) =~= enc);
    assert(x * 1 == x) by (nonlinear_arith);
    lemma_byuu_decode_encode(x, enc, 0, 0, 1);
}

/// `128` raised to the power `n`.
pub open spec fn pow128(n: nat) -> int
    decreases n,
{
    if n == 0 {
        1
    } else {
        128 * pow128((n - 1) as nat)
    }
}

/// `128^n` is positive.
pub proof fn pow128_positive(n: nat)
    ensures
        pow128(n) >= 1,
    decreases n,
{
    if n > 0 {
        pow128_positive((n - 1) as nat);
    }
}

/// The continuation bytes of the Vcdiff encoding of `y`: its base-128
/// digits, most significant first, each with the high bit set. Empty when
/// `y` is zero.
pub open spec fn vcd_digits(y: u64) -> Seq<u8>
    decreases y,
{
    if y == 0 {
        Seq::<u8>::empty()
    } else {
        vcd_digits(y / 128) + seq![(y % 128 + 128) as u8]
    }
}

/// The Vcdiff encoding of `x`: continuation digits followed by the low
/// digit, whose high bit is clear.
pub open spec fn spec_encode_vcd(x: u64) -> Seq<u8> {
    vcd_digits(x / 128) + seq![(x % 128) as u8]
}

/// Encodes the continuation digits of `y`.
fn vcd_digits_exec(y: u64) -> (r: Vec<u8>)
    ensures
        r@ == vcd_digits(y),
    decreases y,
{
    if y == 0 {
        let v: Vec<u8> = Vec::new();
        proof {
            assert(v@ =~= vcd_digits(0));
        }
        v
    } else {
        let mut v = vcd_digits_exec(y / 128);
        v.push((y % 128 + 128) as u8);
        proof {
            assert(v@ =~= vcd_digits(y));
        }
        v
    }
}

/// Encodes `value` as a Vcdiff varint.
pub fn encode_vcd(value: u64) -> (r: Vec<u8>)
    ensures
        r@ == spec_encode_vcd(value),
{
    let mut v = vcd_digits_exec(value / 128);
    v.push((value % 128) as u8);
    proof {
        assert(v@ =~= spec_encode_vcd(value));
    }
    v
}

/// Consuming the continuation digits of `y` multiplies the accumulator by
/// `128` for each digit and adds `y` — or fails when that value exceeds
/// `max`.
proof fn lemma_vcd_digits_decode(y: u64, s: Seq<u8>, pos: int, acc: nat, max: nat)
    requires
        0 <= pos,
        pos + vcd_digits(y).len() <= s.len(),
        s.subrange(pos, pos + vcd_digits(y).len() as int) == vcd_digits(y),
    ensures
        acc * pow128(vcd_digits(y).len()) + y <= max ==> vcd_decode(s, pos, acc, max)
            == vcd_decode(
            s,
            pos + vcd_digits(y).len(),
            (acc * pow128(vcd_digits(y).len()) + y) as nat,
            max,
        ),
        acc * pow128(vcd_digits(y).len()) + y > max ==> vcd_decode(s, pos, acc, max) is None,
    decreases y,
{
    let digs = vcd_digits(y);
    let k = digs.len() as int;
    if y == 0 {
        assert(pow128(0) == 1);
        assert(acc * 1 == acc) by (nonlinear_arith);
    } else {
        let q = y / 128;
        let m = y % 128;
        assert(y == 128 * q + m && 0 <= m < 128 && q < y) by (nonlinear_arith)
            requires
                y >= 1,
                q == y / 128,
                m == y % 128,
        ;
        let digs1 = vcd_digits(q);
        let k1 = digs1.len() as int;
        assert(k == k1 + 1);
        assert(s.subrange(pos, pos + k1) =~= digs1) by {
            assert forall|j: int| 0 <= j < k1 implies #[trigger] s.subrange(pos, pos + k1)[j]
                == digs1[j] by {
                assert(s.subrange(pos, pos + k1)[j] == s[pos + j]);
                assert(s.subrange(pos, pos + k)[j] == s[pos + j]);
                assert(digs[j] == digs1[j]);
            }
        }
        lemma_vcd_digits_decode(q, s, pos, acc, max);
        let acc1 = acc * pow128(k1 as nat) + q;
        let final_acc = acc * pow128(k as nat) + y;
        assert(final_acc == acc1 * 128 + m) by (nonlinear_arith)
            requires
                final_acc == acc * pow128(k as nat) + y,
                acc1 == acc * pow128(k1 as nat) + q,
                pow128(k as nat) == 128 * pow128(k1 as nat),
                y == 128 * q + m,
        ;
        pow128_positive(k1 as nat);
        assert(acc1 <= acc1 * 128) by (nonlinear_arith)
            requires
                acc1 >= 0,
        ;
        if final_acc <= max {
            // The recursive step succeeded; the last digit continues decoding.
            assert(acc1 <= max);
            assert(vcd_decode(s, pos, acc, max) == vcd_decode(s, pos + k1, acc1 as nat, max));
            let b = s[pos + k1];
            assert(b == digs[k1]) by {
                assert(s.subrange(pos, pos + k)[k1] == s[pos + k1]);
            }
            assert(b == (m + 128) as u8);
            assert(b >= 128 && b % 128 == m);
            assert(vcd_decode(s, pos + k1, acc1 as nat, max) == vcd_decode(
                s,
                pos + k,
                final_acc as nat,
                max,
            ));
        } else {
            if acc1 > max {
                // Decoding already failed among the leading digits.
            } else {
                let b = s[pos + k1];
                assert(b == digs[k1]) by {
                    assert(s.subrange(pos, pos + k)[k1] == s[pos + k1]);
                }
                assert(b == (m + 128) as u8);
                assert(b >= 128 && b % 128 == m);
                assert(vcd_decode(s, pos, acc, max) == vcd_decode(s, pos + k1, acc1 as nat, max));
            }
        }
    }
}

/// Law: a Vcdiff varint round-trips through its codec. Decoding the
/// encoding of `x` under an overflow bound `max` yields exactly `x` when
/// `x <= max`, and fails when `x > max`: one past the largest value of the
/// target type, decoding fails rather than wrapping.
pub proof fn vcd_round_trip(x: u64, max: nat)
    ensures
        x <= max ==> spec_read_vcd(spec_encode_vcd(x), 0, max) == Some(
            (x as nat, spec_encode_vcd(x).len() as int),
        ),
        x > max ==> spec_read_vcd(spec_encode_vcd(x), 0, max) is None,
{
    let enc = spec_encode_vcd(x);
    let q = x / 128;
    let m = x % 128;
    assert(x == 128 * q + m && 0 <= m < 128) by (nonlinear_arith)
        requires
            q == x / 128,
            m == x % 128,
    ;
    let digs = vcd_digits(q);
    let k = digs.len() as int;
    assert(enc.subrange(0, k) =~= digs) by {
        assert forall|j: int| 0 <= j < k implies #[trigger] enc.subrange(0, k)[j] == digs[j] by {
            assert(enc[j] == digs[j]);
        }
    }
    lemma_vcd_digits_decode(q, enc, 0, 0, max);
    let acc1 = 0 * pow128(k as nat) + q;
    assert(acc1 == q) by (nonlinear_arith)
        requires
            acc1 == 0 * pow128(k as nat) + q,
    ;
    let b = enc[k];
    assert(b == (m) as u8);
    assert(b < 128 && b % 128 == m);
    if q <= max {
        assert(vcd_decode(enc, 0, 0, max) == vcd_decode(enc, k, q as nat, max));
        assert(q * 128 + m == x) by (nonlinear_arith)
            requires
                x == 128 * q + m,
        ;
    } else {
        assert(x > max) by (nonlinear_arith)
            requires
                q > max,
                x == 128 * q + m,
                m >= 0,
                q >= 0,
        ;
    }
}

/// A byuu varint, when it decodes, ends past where it began and within the
/// stream.
pub proof fn byuu_advances(s: Seq<u8>, pos: int, acc: nat, shift: nat)
    ensures
        byuu_decode(s, pos, acc, shift) matches Some((v, p)) ==> pos < p
            <= s.len(),
    decreases s.len() - pos,
{
    if 0 <= pos < s.len() {
        let b = s[pos];
        let v = acc + (b % 128) * shift;
        if v <= u64::MAX && b < 128 && v + shift * 128 <= u64::MAX {
            byuu_advances(s, pos + 1, (v + shift * 128) as nat, shift * 128);
        }
    }
}

} // verus!
