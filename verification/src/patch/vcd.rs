//! The Vcdiff patch format of RFC 3284 (commonly called "xdelta").
//!
//! Layout: the magic `D6 C3 C4` (ASCII `VCD` with the high bit set), a
//! version byte that must be zero, a header indicator — compression and
//! custom code tables are rejected as unsupported, an application header is
//! skipped — and then windows until the end of the patch. Each window reads
//! an optional source segment from the source file or the already-written
//! output into a *superstring* buffer, extends it by the target window, and
//! fills that target window by executing the instructions of the default
//! code table: `RUN` writes a repeated byte, `ADD` literal bytes, and
//! `COPY` replicates superstring bytes resolved through the near and same
//! address caches, wrapping periodically when the range reaches the append
//! point.
//!
//! [`vcd_apply`] is the reference semantics — the code table, the address
//! caches, the superstring cursor and the window walk each have a spec
//! function of their own — and [`patch`] is proved to return exactly that.
//! On success the whole patch has been consumed, which is what the
//! whole-file checksum reporting rests on.

use vstd::prelude::*;
use vstd::slice::slice_subrange;

use crate::hashing::{HashingReader, HashingWriter, MonotonicHashingReader};
use crate::stream::PositionTracker;
use crate::varint::spec_read_vcd;

verus! {

/// Compression flag in the header indicator; unsupported.
pub const VCD_DECOMPRESS: u8 = 1;

/// Custom code table flag in the header indicator; unsupported.
pub const VCD_CODETABLE: u8 = 2;

/// Application header flag in the header indicator; the header is skipped.
pub const HAS_APPHEADER: u8 = 4;

/// Window indicator: the window reads its source segment from the source.
pub const VCD_SOURCE: u8 = 1;

/// Window indicator: the window reads its source segment from the output.
pub const VCD_TARGET: u8 = 2;

/// How Vcdiff application can fail.
#[derive(Copy, Clone, Debug, PartialEq, Eq, Structural)]
pub enum PatchingError {
    /// The patch file is corrupt.
    BadPatch,
    /// The patch is not meant for this source file.
    WrongInputFile,
    /// The source file ends before a window could be applied.
    InputFileTooSmall,
    /// The patch uses compression or a custom code table.
    UnsupportedPatchFeature,
}

/// One micro-instruction of the default code table. A size of zero means
/// the actual size follows as a varint in the instruction section.
#[derive(Copy, Clone, Debug, PartialEq, Eq, Structural)]
pub enum Instruction {
    Noop,
    Run,
    Add { size: u8 },
    Copy { size: u8, mode: u8 },
}

/// The pair of micro-instructions the default RFC 3284 code table assigns
/// to an instruction byte.
pub open spec fn spec_instruction_pair(index: u8) -> (Instruction, Instruction) {
    if index == 0 {
        (Instruction::Run, Instruction::Noop)
    } else if index <= 18 {
        (Instruction::Add { size: (index - 1) as u8 }, Instruction::Noop)
    } else if index <= 162 {
        let offset = (index - 19) as u8;
        let sz = offset % 16;
        let size: u8 = if sz == 0 {
            0
        } else {
            (sz + 3) as u8
        };
        (Instruction::Copy { size, mode: (offset / 16) as u8 }, Instruction::Noop)
    } else if index <= 234 {
        let offset = (index - 163) as u8;
        (
            Instruction::Add { size: (1 + (offset / 3) % 4) as u8 },
            Instruction::Copy { size: (4 + offset % 3) as u8, mode: (offset / 12) as u8 },
        )
    } else if index <= 246 {
        let offset = (index - 235) as u8;
        (
            Instruction::Add { size: (1 + offset % 4) as u8 },
            Instruction::Copy { size: 4u8, mode: (6 + offset / 4) as u8 },
        )
    } else {
        let offset = (index - 247) as u8;
        (Instruction::Copy { size: 4u8, mode: offset }, Instruction::Add { size: 1u8 })
    }
}

/// Decodes an instruction byte against the default code table.
pub fn decode_instruction_pair(index: u8) -> (r: (Instruction, Instruction))
    ensures
        r == spec_instruction_pair(index),
{
    if index == 0 {
        (Instruction::Run, Instruction::Noop)
    } else if index <= 18 {
        (Instruction::Add { size: index - 1 }, Instruction::Noop)
    } else if index <= 162 {
        let offset = index - 19;
        let sz = offset % 16;
        let size: u8 = if sz == 0 {
            0
        } else {
            sz + 3
        };
        (Instruction::Copy { size, mode: offset / 16 }, Instruction::Noop)
    } else if index <= 234 {
        let offset = index - 163;
        (
            Instruction::Add { size: 1 + (offset / 3) % 4 },
            Instruction::Copy { size: 4 + offset % 3, mode: offset / 12 },
        )
    } else if index <= 246 {
        let offset = index - 235;
        (
            Instruction::Add { size: 1 + offset % 4 },
            Instruction::Copy { size: 4, mode: 6 + offset / 4 },
        )
    } else {
        let offset = index - 247;
        (Instruction::Copy { size: 4, mode: offset }, Instruction::Add { size: 1 })
    }
}

/// The four-slot round-robin cache of recent addresses.
pub struct NearCache {
    buf: Vec<u32>,
    next_slot: usize,
}

impl NearCache {
    /// The cached addresses.
    pub closed spec fn slots(self) -> Seq<u32> {
        self.buf@
    }

    /// The slot the next update writes.
    pub closed spec fn next(self) -> int {
        self.next_slot as int
    }

    /// Four slots, and the round-robin index stays within them.
    pub open spec fn wf(self) -> bool {
        self.slots().len() == 4 && 0 <= self.next() < 4
    }

    /// A cache of four zeroed slots.
    pub fn new() -> (r: Self)
        ensures
            r.wf(),
            r.slots() == seq![0u32, 0u32, 0u32, 0u32],
            r.next() == 0,
    {
        let mut buf: Vec<u32> = Vec::new();
        buf.push(0);
        buf.push(0);
        buf.push(0);
        buf.push(0);
        proof {
            assert(buf@ =~= seq![0u32, 0u32, 0u32, 0u32]);
        }
        NearCache { buf, next_slot: 0 }
    }

    /// Stores `addr` in the next slot, round-robin.
    pub fn update(&mut self, addr: u32)
        requires
            old(self).wf(),
        ensures
            final(self).wf(),
            final(self).slots() == old(self).slots().update(old(self).next(), addr),
            final(self).next() == (old(self).next() + 1) % 4,
    {
        self.buf.set(self.next_slot, addr);
        self.next_slot = (self.next_slot + 1) % 4;
    }

    /// The address in slot `i`.
    pub fn slot(&self, i: usize) -> (r: u32)
        requires
            self.wf(),
            i < 4,
        ensures
            r == self.slots()[i as int],
    {
        self.buf[i]
    }
}

/// The 768-entry cache indexed by address modulo its size.
pub struct SameCache {
    buf: Vec<u32>,
}

impl SameCache {
    /// The cached addresses.
    pub closed spec fn slots(self) -> Seq<u32> {
        self.buf@
    }

    /// Three buckets of 256 slots.
    pub open spec fn wf(self) -> bool {
        self.slots().len() == 768
    }

    /// A cache of 768 zeroed slots.
    pub fn new() -> (r: Self)
        ensures
            r.wf(),
            forall|i: int| 0 <= i < 768 ==> r.slots()[i] == 0u32,
    {
        let mut buf: Vec<u32> = Vec::new();
        let mut i: usize = 0;
        while i < 768
            invariant
                0 <= i <= 768,
                buf@.len() == i,
                forall|j: int| 0 <= j < i ==> buf@[j] == 0u32,
            decreases 768 - i,
        {
            buf.push(0);
            i = i + 1;
        }
        SameCache { buf }
    }

    /// Stores `addr` at `addr % 768`.
    pub fn update(&mut self, addr: u32)
        requires
            old(self).wf(),
        ensures
            final(self).wf(),
            final(self).slots() == old(self).slots().update((addr % 768) as int, addr),
    {
        self.buf.set((addr % 768) as usize, addr);
    }

    /// The address in slot `i`.
    pub fn slot(&self, i: usize) -> (r: u32)
        requires
            self.wf(),
            i < 768,
        ensures
            r == self.slots()[i as int],
    {
        self.buf[i]
    }
}

/// The near and same caches of RFC 3284, updated after every resolved
/// address.
pub struct AddressCache {
    near: NearCache,
    same: SameCache,
}

impl AddressCache {
    /// The near-cache slots.
    pub closed spec fn near_slots(self) -> Seq<u32> {
        self.near.slots()
    }

    /// The next near slot.
    pub closed spec fn near_next(self) -> int {
        self.near.next()
    }

    /// The same-cache slots.
    pub closed spec fn same_slots(self) -> Seq<u32> {
        self.same.slots()
    }

    /// Both caches are well formed.
    pub closed spec fn wf(self) -> bool {
        self.near.wf() && self.same.wf()
    }

    /// Fresh, zeroed caches.
    pub fn new() -> (r: Self)
        ensures
            r.wf(),
            r.near_next() == 0,
            r.near_slots() == seq![0u32, 0u32, 0u32, 0u32],
            r.same_slots() == Seq::<u32>::new(768, |i: int| 0u32),
    {
        let r = AddressCache { near: NearCache::new(), same: SameCache::new() };
        proof {
            assert(r.same_slots() =~= Seq::<u32>::new(768, |i: int| 0u32));
        }
        r
    }

    /// Pushes a resolved address into both caches.
    pub fn update(&mut self, addr: u32)
        requires
            old(self).wf(),
        ensures
            final(self).wf(),
            final(self).near_slots() == old(self).near_slots().update(old(self).near_next(), addr),
            final(self).near_next() == (old(self).near_next() + 1) % 4,
            final(self).same_slots() == old(self).same_slots().update((addr % 768) as int, addr),
    {
        self.near.update(addr);
        self.same.update(addr);
    }

    /// The near-cache slot `i`.
    pub fn near(&self, i: usize) -> (r: u32)
        requires
            self.wf(),
            i < 4,
        ensures
            r == self.near_slots()[i as int],
    {
        self.near.slot(i)
    }

    /// The same-cache slot `i`.
    pub fn same(&self, i: usize) -> (r: u32)
        requires
            self.wf(),
            i < 768,
        ensures
            r == self.same_slots()[i as int],
    {
        self.same.slot(i)
    }
}

/// The address one copy resolves to, and the position after its operand:
/// modes 0 and 1 read a varint as an absolute or here-relative address,
/// modes 2 to 5 add a varint to a near-cache slot, and modes 6 to 8 look
/// up a same-cache slot by one byte. `None` on a malformed section, an
/// unknown mode, or address arithmetic leaving 32 bits.
pub open spec fn spec_decode_addr(
    near: Seq<u32>,
    same: Seq<u32>,
    addrs: Seq<u8>,
    apos: int,
    here: u32,
    mode: u8,
) -> Option<(u32, int)>
    recommends
        near.len() == 4,
        same.len() == 768,
{
    if mode == 0 {
        match spec_read_vcd(addrs, apos, u32::MAX as nat) {
            None => None,
            Some((v, p)) => Some(((v as u32), p)),
        }
    } else if mode == 1 {
        match spec_read_vcd(addrs, apos, u32::MAX as nat) {
            None => None,
            Some((v, p)) => if v <= here {
                Some((((here - v) as u32), p))
            } else {
                None
            },
        }
    } else if mode < 6 {
        match spec_read_vcd(addrs, apos, u32::MAX as nat) {
            None => None,
            Some((v, p)) => if near[mode - 2] + v <= u32::MAX {
                Some((((near[mode - 2] + v) as u32), p))
            } else {
                None
            },
        }
    } else if mode < 9 {
        if 0 <= apos < addrs.len() {
            Some((same[(mode - 6) * 256 + addrs[apos]], apos + 1))
        } else {
            None
        }
    } else {
        None
    }
}

/// Reads addresses from the address section, resolving each through the
/// cache and updating the cache afterwards.
pub struct AddressDecoder {
    cache: AddressCache,
    addresses: PositionTracker,
}

impl AddressDecoder {
    /// The address-section bytes.
    pub closed spec fn contents(self) -> Seq<u8> {
        self.addresses.contents()
    }

    /// The cursor into the address section.
    pub closed spec fn pos(self) -> int {
        self.addresses.pos()
    }

    /// The cache and the cursor are well formed.
    pub closed spec fn wf(self) -> bool {
        self.addresses.wf() && self.cache.wf()
    }

    /// The near-cache slots.
    pub closed spec fn near_slots(self) -> Seq<u32> {
        self.cache.near_slots()
    }

    /// The near slot the next update writes.
    pub closed spec fn near_next(self) -> int {
        self.cache.near_next()
    }

    /// The same-cache slots.
    pub closed spec fn same_slots(self) -> Seq<u32> {
        self.cache.same_slots()
    }

    /// A decoder over the address section, with fresh caches.
    pub fn new(addresses: PositionTracker) -> (r: Self)
        requires
            addresses.wf(),
        ensures
            r.wf(),
            r.contents() == addresses.contents(),
            r.pos() == addresses.pos(),
            r.near_next() == 0,
            r.near_slots() == seq![0u32, 0u32, 0u32, 0u32],
            r.same_slots() == Seq::<u32>::new(768, |i: int| 0u32),
    {
        AddressDecoder { cache: AddressCache::new(), addresses }
    }

    /// Resolves one address for a copy whose target sits `here` bytes into
    /// the window: modes 0 and 1 read a varint as an absolute or
    /// here-relative address, modes 2 to 5 add a varint to a near-cache
    /// slot, and modes 6 to 8 look up a same-cache slot by one byte.
    /// Returns `None` on a malformed section, an unknown mode, or address
    /// arithmetic leaving 32 bits.
    pub fn decode(&mut self, here: u32, mode: u8) -> (r: Option<u32>)
        requires
            old(self).wf(),
        ensures
            final(self).wf(),
            final(self).contents() == old(self).contents(),
            final(self).pos() >= old(self).pos(),
            match r {
                Some(addr) => {
                    &&& spec_decode_addr(
                        old(self).near_slots(),
                        old(self).same_slots(),
                        old(self).contents(),
                        old(self).pos(),
                        here,
                        mode,
                    ) == Some((addr, final(self).pos()))
                    &&& final(self).near_slots() == old(self).near_slots().update(
                        old(self).near_next(),
                        addr,
                    )
                    &&& final(self).near_next() == (old(self).near_next() + 1) % 4
                    &&& final(self).same_slots() == old(self).same_slots().update(
                        (addr % 768) as int,
                        addr,
                    )
                },
                None => {
                    &&& spec_decode_addr(
                        old(self).near_slots(),
                        old(self).same_slots(),
                        old(self).contents(),
                        old(self).pos(),
                        here,
                        mode,
                    ) is None
                    &&& final(self).near_slots() == old(self).near_slots()
                    &&& final(self).near_next() == old(self).near_next()
                    &&& final(self).same_slots() == old(self).same_slots()
                },
            },
    {
        let addr_opt: Option<u32> = if mode == 0 {
            self.addresses.read_vcdiff_u32()
        } else if mode == 1 {
            match self.addresses.read_vcdiff_u32() {
                Some(v) => here.checked_sub(v),
                None => None,
            }
        } else if mode < 6 {
            match self.addresses.read_vcdiff_u32() {
                Some(v) => self.cache.near((mode - 2) as usize).checked_add(v),
                None => None,
            }
        } else if mode < 9 {
            match self.addresses.read_u8() {
                Some(b) => {
                    let index = (mode - 6) as usize * 256 + b as usize;
                    Some(self.cache.same(index))
                },
                None => None,
            }
        } else {
            None
        };
        match addr_opt {
            Some(addr) => {
                self.cache.update(addr);
                Some(addr)
            },
            None => None,
        }
    }
}

/// The superstring of one window: the source segment followed by the
/// target window being produced, with a cursor at the first unwritten
/// byte.
pub struct WindowCursor {
    buffer: Vec<u8>,
    source_len: usize,
    position: usize,
}

impl WindowCursor {
    /// The whole superstring.
    pub closed spec fn contents(self) -> Seq<u8> {
        self.buffer@
    }

    /// Where the target window starts.
    pub closed spec fn src_len(self) -> int {
        self.source_len as int
    }

    /// The first unwritten position.
    pub closed spec fn pos(self) -> int {
        self.position as int
    }

    /// The cursor starts at or after the source segment and never passes
    /// the end of the buffer.
    pub open spec fn wf(self) -> bool {
        0 <= self.src_len() <= self.pos() <= self.contents().len()
    }

    /// A cursor over `buffer` positioned at the start of the target
    /// window.
    pub fn new(buffer: Vec<u8>, source_len: usize) -> (r: Self)
        requires
            source_len <= buffer@.len(),
        ensures
            r.wf(),
            r.contents() == buffer@,
            r.src_len() == source_len,
            r.pos() == source_len,
    {
        WindowCursor { buffer, source_len, position: source_len }
    }

    /// The cursor position within the superstring.
    pub fn position(&self) -> (r: u64)
        ensures
            r == self.pos(),
    {
        self.position as u64
    }

    /// The cursor position within the target window.
    pub fn target_window_position(&self) -> (r: u64)
        requires
            self.wf(),
        ensures
            r == self.pos() - self.src_len(),
    {
        (self.position - self.source_len) as u64
    }

    /// True exactly when the target window has been filled.
    pub fn is_full(&self) -> (r: bool)
        requires
            self.wf(),
        ensures
            r <==> self.pos() == self.contents().len(),
    {
        self.position == self.buffer.len()
    }

    /// A copy of the target window: everything past the source segment,
    /// written or not.
    pub fn target_window(&self) -> (r: Vec<u8>)
        requires
            self.wf(),
        ensures
            r@ == self.contents().subrange(self.src_len(), self.contents().len() as int),
    {
        let s = slice_subrange(self.buffer.as_slice(), self.source_len, self.buffer.len());
        vstd::slice::slice_to_vec(s)
    }

    /// Writes `n` copies of `b` at the cursor. Fails, leaving everything
    /// unchanged, when `n` is zero or the window cannot hold them.
    pub fn write_run(&mut self, b: u8, n: u64) -> (r: bool)
        requires
            old(self).wf(),
        ensures
            final(self).wf(),
            final(self).src_len() == old(self).src_len(),
            final(self).contents().len() == old(self).contents().len(),
            if 1 <= n <= old(self).contents().len() - old(self).pos() {
                r && final(self).pos() == old(self).pos() + n && final(self).contents()
                    == old(self).contents().map(
                    |j: int, c: u8|
                        if old(self).pos() <= j < old(self).pos() + n {
                            b
                        } else {
                            c
                        },
                )
            } else {
                !r && final(self).pos() == old(self).pos() && final(self).contents() == old(self).contents()
            },
    {
        let len = self.buffer.len();
        if n == 0 || n > (len - self.position) as u64 {
            return false;
        }
        let ghost start = self.pos();
        let ghost orig = self.buffer@;
        let mut i: u64 = 0;
        while i < n
            invariant
                0 <= i <= n,
                start == old(self).pos(),
                orig == old(self).contents(),
                self.source_len == old(self).source_len,
                start + n <= self.buffer@.len(),
                self.buffer@.len() == orig.len(),
                self.buffer@.len() <= usize::MAX,
                self.position == start + i,
                old(self).wf(),
                forall|j: int| 0 <= j < orig.len() && !(start <= j < start + i) ==> self.buffer@[j] == orig[j],
                forall|j: int| start <= j < start + i ==> self.buffer@[j] == b,
            decreases n - i,
        {
            self.buffer.set(self.position, b);
            self.position = self.position + 1;
            i = i + 1;
        }
        proof {
            assert(self.buffer@ =~= orig.map(
                |j: int, c: u8|
                    if start <= j < start + n {
                        b
                    } else {
                        c
                    },
            ));
        }
        true
    }

    /// Writes the bytes of `data` at the cursor. Fails, leaving everything
    /// unchanged, when `data` is empty or the window cannot hold it.
    pub fn write_add(&mut self, data: &Vec<u8>) -> (r: bool)
        requires
            old(self).wf(),
        ensures
            final(self).wf(),
            final(self).src_len() == old(self).src_len(),
            final(self).contents().len() == old(self).contents().len(),
            if 1 <= data@.len() <= old(self).contents().len() - old(self).pos() {
                r && final(self).pos() == old(self).pos() + data@.len() && final(self).contents()
                    == old(self).contents().map(
                    |j: int, c: u8|
                        if old(self).pos() <= j < old(self).pos() + data@.len() {
                            data@[j - old(self).pos()]
                        } else {
                            c
                        },
                )
            } else {
                !r && final(self).pos() == old(self).pos() && final(self).contents() == old(self).contents()
            },
    {
        let len = self.buffer.len();
        let n = data.len();
        if n == 0 || n > len - self.position {
            return false;
        }
        let ghost start = self.pos();
        let ghost orig = self.buffer@;
        let mut i: usize = 0;
        while i < n
            invariant
                0 <= i <= n,
                n == data@.len(),
                start == old(self).pos(),
                orig == old(self).contents(),
                self.source_len == old(self).source_len,
                start + n <= self.buffer@.len(),
                self.buffer@.len() == orig.len(),
                self.buffer@.len() <= usize::MAX,
                self.position == start + i,
                old(self).wf(),
                forall|j: int| 0 <= j < orig.len() && !(start <= j < start + i) ==> self.buffer@[j] == orig[j],
                forall|j: int| start <= j < start + i ==> self.buffer@[j] == data@[j - start],
            decreases n - i,
        {
            let b = data[i];
            self.buffer.set(self.position, b);
            self.position = self.position + 1;
            i = i + 1;
        }
        proof {
            assert(self.buffer@ =~= orig.map(
                |j: int, c: u8|
                    if start <= j < start + n {
                        data@[j - start]
                    } else {
                        c
                    },
            ));
        }
        true
    }

    /// Copies `n` superstring bytes from `addr` to the cursor, byte by
    /// byte, so that a range reaching the cursor replicates the bytes
    /// between `addr` and the old cursor periodically. Fails, leaving
    /// everything unchanged, when `n` is zero, `addr` does not point below
    /// the cursor, or the window cannot hold the copy.
    pub fn write_copy(&mut self, addr: u32, n: u64) -> (r: bool)
        requires
            old(self).wf(),
        ensures
            final(self).wf(),
            final(self).src_len() == old(self).src_len(),
            final(self).contents().len() == old(self).contents().len(),
            if 1 <= n <= old(self).contents().len() - old(self).pos() && addr < old(self).pos() {
                r && final(self).pos() == old(self).pos() + n && final(self).contents()
                    == vcd_copy(old(self).contents(), addr as int, old(self).pos(), n as nat)
            } else {
                !r && final(self).pos() == old(self).pos() && final(self).contents() == old(self).contents()
            },
    {
        let len = self.buffer.len();
        if n == 0 || n > (len - self.position) as u64 || !((addr as u64) < self.position as u64) {
            return false;
        }
        let ghost orig = self.buffer@;
        let ghost start = self.pos();
        let mut src: usize = addr as usize;
        let mut i: u64 = 0;
        while i < n
            invariant
                0 <= i <= n,
                start == old(self).pos(),
                self.source_len == old(self).source_len,
                self.buffer@.len() == orig.len(),
                start + n <= self.buffer@.len(),
                src == addr + i,
                src < self.position,
                self.position == start + i,
                self.buffer@.len() <= usize::MAX,
                old(self).wf(),
                addr < start,
                vcd_copy(orig, addr as int, start, n as nat) == vcd_copy(
                    self.buffer@,
                    src as int,
                    self.position as int,
                    (n - i) as nat,
                ),
            decreases n - i,
        {
            let b = self.buffer[src];
            let ghost prev = self.buffer@;
            self.buffer.set(self.position, b);
            self.position = self.position + 1;
            src = src + 1;
            i = i + 1;
            proof {
                assert(vcd_copy(prev, src - 1, self.position - 1, (n - (i - 1)) as nat)
                    == vcd_copy(self.buffer@, src as int, self.position as int, (n - i) as nat));
            }
        }
        true
    }
}

/// The result of copying `n` bytes within `s` from `addr` to `pos`, one
/// byte at a time, each read seeing the writes before it.
pub open spec fn vcd_copy(s: Seq<u8>, addr: int, pos: int, n: nat) -> Seq<u8>
    decreases n,
{
    if n == 0 {
        s
    } else {
        vcd_copy(s.update(pos, s[addr]), addr + 1, pos + 1, (n - 1) as nat)
    }
}

/// The section buffers of one window.
pub struct Buffers {
    pub superstring: Vec<u8>,
    pub add_and_run_data: Vec<u8>,
    pub instructions_and_sizes: Vec<u8>,
    pub copy_addresses: Vec<u8>,
}

impl Buffers {
    /// Four empty buffers.
    pub fn new() -> (r: Buffers)
        ensures
            r.superstring@.len() == 0,
            r.add_and_run_data@.len() == 0,
            r.instructions_and_sizes@.len() == 0,
            r.copy_addresses@.len() == 0,
    {
        Buffers {
            superstring: Vec::new(),
            add_and_run_data: Vec::new(),
            instructions_and_sizes: Vec::new(),
            copy_addresses: Vec::new(),
        }
    }

    /// Empties all four buffers.
    pub fn clear_all(&mut self)
        ensures
            final(self).superstring@.len() == 0,
            final(self).add_and_run_data@.len() == 0,
            final(self).instructions_and_sizes@.len() == 0,
            final(self).copy_addresses@.len() == 0,
    {
        self.superstring.clear();
        self.add_and_run_data.clear();
        self.instructions_and_sizes.clear();
        self.copy_addresses.clear();
    }
}

/// Cursors over the section buffers of one window.
pub struct Cursors {
    pub superstring: WindowCursor,
    pub add_and_run_data: PositionTracker,
    pub instructions_and_sizes: PositionTracker,
    pub copy_addresses: AddressDecoder,
}

impl Cursors {
    /// Everything in a window's cursors is well formed.
    pub open spec fn wf(self) -> bool {
        self.superstring.wf() && self.add_and_run_data.wf() && self.instructions_and_sizes.wf()
            && self.copy_addresses.wf()
    }

    /// An instruction size: the table's own when it is non-zero, else the
    /// next varint of the instruction section.
    pub fn read_instruction_size(&mut self, encoded_size: u8) -> (r: Option<u32>)
        requires
            old(self).wf(),
        ensures
            final(self).wf(),
            final(self).superstring == old(self).superstring,
            final(self).add_and_run_data == old(self).add_and_run_data,
            final(self).copy_addresses == old(self).copy_addresses,
            final(self).instructions_and_sizes.contents() == old(self).instructions_and_sizes.contents(),
            final(self).instructions_and_sizes.pos() >= old(self).instructions_and_sizes.pos(),
            encoded_size > 0 ==> r == Some(encoded_size as u32) && final(self).instructions_and_sizes == old(self).instructions_and_sizes,
            encoded_size == 0 ==> match r {
                Some(v) => spec_read_vcd(
                    old(self).instructions_and_sizes.contents(),
                    old(self).instructions_and_sizes.pos(),
                    u32::MAX as nat,
                ) == Some((v as nat, final(self).instructions_and_sizes.pos())),
                None => spec_read_vcd(
                    old(self).instructions_and_sizes.contents(),
                    old(self).instructions_and_sizes.pos(),
                    u32::MAX as nat,
                ) is None,
            },
    {
        if encoded_size > 0 {
            Some(encoded_size as u32)
        } else {
            self.instructions_and_sizes.read_vcdiff_u32()
        }
    }
}

/// The ghost state of one window's instruction execution: the superstring
/// with its cursor and source length, the three section cursors, and the
/// address caches.
#[verifier::ext_equal]
pub struct VcdState {
    pub superstring: Seq<u8>,
    pub spos: int,
    pub src_len: int,
    pub dpos: int,
    pub ipos: int,
    pub apos: int,
    pub near: Seq<u32>,
    pub near_next: int,
    pub same: Seq<u32>,
}

/// The ghost state a window's cursors currently hold.
pub open spec fn state_of(c: Cursors) -> VcdState {
    VcdState {
        superstring: c.superstring.contents(),
        spos: c.superstring.pos(),
        src_len: c.superstring.src_len(),
        dpos: c.add_and_run_data.pos(),
        ipos: c.instructions_and_sizes.pos(),
        apos: c.copy_addresses.pos(),
        near: c.copy_addresses.near_slots(),
        near_next: c.copy_addresses.near_next(),
        same: c.copy_addresses.same_slots(),
    }
}

/// The size of one micro-instruction: the code table's own when it is
/// non-zero, else the next varint of the instruction section.
pub open spec fn spec_instr_size(st: VcdState, instrs: Seq<u8>, size: u8) -> Option<(nat, int)> {
    if size > 0 {
        Some((size as nat, st.ipos))
    } else {
        spec_read_vcd(instrs, st.ipos, u32::MAX as nat)
    }
}

/// One micro-instruction applied to the window state: `Run` writes a
/// repeated data byte, `Add` literal data bytes, `Copy` superstring bytes
/// at an address resolved through the caches — each exactly as the cursor
/// operations prescribe, and failing as a corrupt patch whenever an
/// operand is missing, a size is zero, the window cannot hold the write,
/// or a copy address does not point below the cursor.
pub open spec fn exec_half(
    st: VcdState,
    data: Seq<u8>,
    instrs: Seq<u8>,
    addrs: Seq<u8>,
    half: Instruction,
) -> Result<VcdState, PatchingError> {
    match half {
        Instruction::Noop => Ok(st),
        Instruction::Run => {
            if !(0 <= st.dpos < data.len()) {
                Err(PatchingError::BadPatch)
            } else {
                let b = data[st.dpos];
                match spec_read_vcd(instrs, st.ipos, u32::MAX as nat) {
                    None => Err(PatchingError::BadPatch),
                    Some((n, ip2)) => {
                        if !(1 <= n && st.spos + n <= st.superstring.len()) {
                            Err(PatchingError::BadPatch)
                        } else {
                            Ok(
                                VcdState {
                                    superstring: st.superstring.map(
                                        |j: int, c: u8|
                                            if st.spos <= j < st.spos + n {
                                                b
                                            } else {
                                                c
                                            },
                                    ),
                                    spos: st.spos + n,
                                    dpos: st.dpos + 1,
                                    ipos: ip2,
                                    ..st
                                },
                            )
                        }
                    },
                }
            }
        },
        Instruction::Add { size } => {
            match spec_instr_size(st, instrs, size) {
                None => Err(PatchingError::BadPatch),
                Some((n, ip2)) => {
                    if !(st.dpos + n <= data.len()) {
                        Err(PatchingError::BadPatch)
                    } else if !(1 <= n && st.spos + n <= st.superstring.len()) {
                        Err(PatchingError::BadPatch)
                    } else {
                        Ok(
                            VcdState {
                                superstring: st.superstring.map(
                                    |j: int, c: u8|
                                        if st.spos <= j < st.spos + n {
                                            data[st.dpos + (j - st.spos)]
                                        } else {
                                            c
                                        },
                                ),
                                spos: st.spos + n,
                                dpos: st.dpos + n,
                                ipos: ip2,
                                ..st
                            },
                        )
                    }
                },
            }
        },
        Instruction::Copy { size, mode } => {
            match spec_instr_size(st, instrs, size) {
                None => Err(PatchingError::BadPatch),
                Some((n, ip2)) => {
                    if !(st.spos - st.src_len <= u32::MAX) {
                        Err(PatchingError::BadPatch)
                    } else {
                        let here = (st.spos - st.src_len) as u32;
                        match spec_decode_addr(st.near, st.same, addrs, st.apos, here, mode) {
                            None => Err(PatchingError::BadPatch),
                            Some((addr, ap2)) => {
                                if !(1 <= n && st.spos + n <= st.superstring.len() && addr
                                    < st.spos) {
                                    Err(PatchingError::BadPatch)
                                } else {
                                    Ok(
                                        VcdState {
                                            superstring: vcd_copy(
                                                st.superstring,
                                                addr as int,
                                                st.spos,
                                                n,
                                            ),
                                            spos: st.spos + n,
                                            ipos: ip2,
                                            apos: ap2,
                                            near: st.near.update(st.near_next, addr),
                                            near_next: (st.near_next + 1) % 4,
                                            same: st.same.update((addr % 768) as int, addr),
                                            ..st
                                        },
                                    )
                                }
                            },
                        }
                    }
                },
            }
        },
    }
}

/// The whole instruction stream applied to the window state: instruction
/// bytes are taken one at a time, decoded against the default code table,
/// and their two halves executed, until the instruction section is
/// exhausted. An empty section, or one that ends between the halves of an
/// instruction, is a corrupt patch.
pub open spec fn exec_all(st: VcdState, data: Seq<u8>, instrs: Seq<u8>, addrs: Seq<u8>) -> Result<
    VcdState,
    PatchingError,
>
    decreases instrs.len() - st.ipos,
{
    if !(0 <= st.ipos < instrs.len()) {
        Err(PatchingError::BadPatch)
    } else {
        let pair = spec_instruction_pair(instrs[st.ipos]);
        let st1 = VcdState { ipos: st.ipos + 1, ..st };
        match exec_half(st1, data, instrs, addrs, pair.0) {
            Err(e) => Err(e),
            Ok(st2) => match exec_half(st2, data, instrs, addrs, pair.1) {
                Err(e) => Err(e),
                Ok(st3) => {
                    if st3.ipos == instrs.len() {
                        Ok(st3)
                    } else if !(st.ipos < st3.ipos <= instrs.len()) {
                        Err(PatchingError::BadPatch)
                    } else {
                        exec_all(st3, data, instrs, addrs)
                    }
                },
            },
        }
    }
}

/// Executes one micro-instruction against the window cursors. `Noop` does
/// nothing; `Run`, `Add` and `Copy` consume their operands from the
/// sections and write into the superstring as the code table prescribes.
pub fn execute_instruction(cursors: &mut Cursors, instruction: Instruction) -> (r: Result<
    (),
    PatchingError,
>)
    requires
        old(cursors).wf(),
    ensures
        final(cursors).wf(),
        final(cursors).superstring.contents().len() == old(cursors).superstring.contents().len(),
        final(cursors).superstring.src_len() == old(cursors).superstring.src_len(),
        final(cursors).superstring.pos() >= old(cursors).superstring.pos(),
        final(cursors).add_and_run_data.contents() == old(cursors).add_and_run_data.contents(),
        final(cursors).instructions_and_sizes.contents() == old(cursors).instructions_and_sizes.contents(),
        final(cursors).instructions_and_sizes.pos() >= old(cursors).instructions_and_sizes.pos(),
        final(cursors).copy_addresses.contents() == old(cursors).copy_addresses.contents(),
        r != Err::<(), PatchingError>(PatchingError::UnsupportedPatchFeature),
        match r {
            Ok(_) => exec_half(
                state_of(*old(cursors)),
                old(cursors).add_and_run_data.contents(),
                old(cursors).instructions_and_sizes.contents(),
                old(cursors).copy_addresses.contents(),
                instruction,
            ) == Ok::<VcdState, PatchingError>(state_of(*final(cursors))),
            Err(e) => exec_half(
                state_of(*old(cursors)),
                old(cursors).add_and_run_data.contents(),
                old(cursors).instructions_and_sizes.contents(),
                old(cursors).copy_addresses.contents(),
                instruction,
            ) == Err::<VcdState, PatchingError>(e),
        },
{
    let ghost st0 = state_of(*old(cursors));
    let ghost dsec = old(cursors).add_and_run_data.contents();
    let ghost isec = old(cursors).instructions_and_sizes.contents();
    let ghost asec = old(cursors).copy_addresses.contents();
    match instruction {
        Instruction::Noop => {
            proof {
                assert(state_of(*cursors) =~= st0);
            }
            Ok(())
        },
        Instruction::Run => {
            let b = match cursors.add_and_run_data.read_u8() {
                Some(b) => b,
                None => {
                    proof {
                        assert(exec_half(st0, dsec, isec, asec, instruction) == Err::<
                            VcdState,
                            PatchingError,
                        >(PatchingError::BadPatch));
                    }
                    return Err(PatchingError::BadPatch);
                },
            };
            let size = match cursors.read_instruction_size(0) {
                Some(s) => s,
                None => {
                    proof {
                        assert(exec_half(st0, dsec, isec, asec, instruction) == Err::<
                            VcdState,
                            PatchingError,
                        >(PatchingError::BadPatch));
                    }
                    return Err(PatchingError::BadPatch);
                },
            };
            if !cursors.superstring.write_run(b, size as u64) {
                proof {
                    assert(exec_half(st0, dsec, isec, asec, instruction) == Err::<
                        VcdState,
                        PatchingError,
                    >(PatchingError::BadPatch));
                }
                return Err(PatchingError::BadPatch);
            }
            proof {
                assert(state_of(*cursors).superstring =~= st0.superstring.map(
                    |j: int, c: u8|
                        if st0.spos <= j < st0.spos + (size as nat) {
                            b
                        } else {
                            c
                        },
                ));
                assert(exec_half(st0, dsec, isec, asec, instruction) matches Ok(stf) && stf =~= state_of(*cursors));
            }
            Ok(())
        },
        Instruction::Add { size } => {
            let size = match cursors.read_instruction_size(size) {
                Some(s) => s,
                None => {
                    proof {
                        assert(exec_half(st0, dsec, isec, asec, instruction) == Err::<
                            VcdState,
                            PatchingError,
                        >(PatchingError::BadPatch));
                    }
                    return Err(PatchingError::BadPatch);
                },
            };
            let data = match cursors.add_and_run_data.read_exact(size as usize) {
                Some(d) => d,
                None => {
                    proof {
                        assert(exec_half(st0, dsec, isec, asec, instruction) == Err::<
                            VcdState,
                            PatchingError,
                        >(PatchingError::BadPatch));
                    }
                    return Err(PatchingError::BadPatch);
                },
            };
            if !cursors.superstring.write_add(&data) {
                proof {
                    assert(exec_half(st0, dsec, isec, asec, instruction) == Err::<
                        VcdState,
                        PatchingError,
                    >(PatchingError::BadPatch));
                }
                return Err(PatchingError::BadPatch);
            }
            proof {
                assert(state_of(*cursors).superstring =~= st0.superstring.map(
                    |j: int, c: u8|
                        if st0.spos <= j < st0.spos + (size as nat) {
                            dsec[st0.dpos + (j - st0.spos)]
                        } else {
                            c
                        },
                ));
                assert(exec_half(st0, dsec, isec, asec, instruction) matches Ok(stf) && stf =~= state_of(*cursors));
            }
            Ok(())
        },
        Instruction::Copy { size, mode } => {
            let size = match cursors.read_instruction_size(size) {
                Some(s) => s,
                None => {
                    proof {
                        assert(exec_half(st0, dsec, isec, asec, instruction) == Err::<
                            VcdState,
                            PatchingError,
                        >(PatchingError::BadPatch));
                    }
                    return Err(PatchingError::BadPatch);
                },
            };
            let here_u64 = cursors.superstring.target_window_position();
            if here_u64 > u32::MAX as u64 {
                proof {
                    assert(exec_half(st0, dsec, isec, asec, instruction) == Err::<
                        VcdState,
                        PatchingError,
                    >(PatchingError::BadPatch));
                }
                return Err(PatchingError::BadPatch);
            }
            let here = here_u64 as u32;
            let addr = match cursors.copy_addresses.decode(here, mode) {
                Some(a) => a,
                None => {
                    proof {
                        assert(exec_half(st0, dsec, isec, asec, instruction) == Err::<
                            VcdState,
                            PatchingError,
                        >(PatchingError::BadPatch));
                    }
                    return Err(PatchingError::BadPatch);
                },
            };
            if !cursors.superstring.write_copy(addr, size as u64) {
                proof {
                    assert(exec_half(st0, dsec, isec, asec, instruction) == Err::<
                        VcdState,
                        PatchingError,
                    >(PatchingError::BadPatch));
                }
                return Err(PatchingError::BadPatch);
            }
            proof {
                assert(exec_half(st0, dsec, isec, asec, instruction) matches Ok(stf) && stf =~= state_of(*cursors));
            }
            Ok(())
        },
    }
}

/// The source segment of one window: none, a slice of the source file, or
/// a slice of the already-written output, per the window indicator. Yields
/// the segment, its length, and the position after the segment fields.
pub open spec fn vcd_window_source(
    src: Seq<u8>,
    out: Seq<u8>,
    pat: Seq<u8>,
    p: int,
    win: u8,
) -> Result<(Seq<u8>, int, int), PatchingError> {
    if win == 0 {
        Ok((Seq::<u8>::empty(), 0int, p))
    } else if win == VCD_SOURCE {
        match spec_read_vcd(pat, p, u32::MAX as nat) {
            None => Err(PatchingError::BadPatch),
            Some((slen, pa)) => match spec_read_vcd(pat, pa, u64::MAX as nat) {
                None => Err(PatchingError::BadPatch),
                Some((spos, pb)) => {
                    if spos > src.len() {
                        Err(PatchingError::InputFileTooSmall)
                    } else if spos + slen > src.len() {
                        Err(PatchingError::InputFileTooSmall)
                    } else {
                        Ok((src.subrange(spos as int, (spos + slen) as int), slen as int, pb))
                    }
                },
            },
        }
    } else if win == VCD_TARGET {
        match spec_read_vcd(pat, p, u32::MAX as nat) {
            None => Err(PatchingError::BadPatch),
            Some((slen, pa)) => match spec_read_vcd(pat, pa, u64::MAX as nat) {
                None => Err(PatchingError::BadPatch),
                Some((spos, pb)) => {
                    if spos > out.len() || spos + slen > out.len() {
                        Err(PatchingError::BadPatch)
                    } else {
                        Ok((out.subrange(spos as int, (spos + slen) as int), slen as int, pb))
                    }
                },
            },
        }
    } else {
        Err(PatchingError::BadPatch)
    }
}

/// One whole window applied at `ppos`: the header fields, the source
/// segment, the three sections — which must fill the declared encoding
/// length exactly — and the instruction stream, whose finished target
/// window is appended to `out`. Yields the extended output and the
/// position after the window.
pub open spec fn vcd_window(src: Seq<u8>, out: Seq<u8>, pat: Seq<u8>, ppos: int) -> Result<
    (Seq<u8>, int),
    PatchingError,
> {
    if !(0 <= ppos < pat.len()) {
        Err(PatchingError::BadPatch)
    } else {
        match vcd_window_source(src, out, pat, ppos + 1, pat[ppos]) {
            Err(e) => Err(e),
            Ok((sup0, slen, p2)) => match spec_read_vcd(pat, p2, u32::MAX as nat) {
                None => Err(PatchingError::BadPatch),
                Some((enc, p3)) => {
                    if p3 + enc > u64::MAX {
                        Err(PatchingError::BadPatch)
                    } else {
                        match spec_read_vcd(pat, p3, u32::MAX as nat) {
                            None => Err(PatchingError::BadPatch),
                            Some((tlen, p4)) => {
                                if slen + tlen > u32::MAX {
                                    Err(PatchingError::BadPatch)
                                } else if !(p4 < pat.len()) {
                                    Err(PatchingError::BadPatch)
                                } else if pat[p4] != 0 {
                                    Err(PatchingError::BadPatch)
                                } else {
                                    match spec_read_vcd(pat, p4 + 1, u32::MAX as nat) {
                                        None => Err(PatchingError::BadPatch),
                                        Some((dlen, p5)) => match spec_read_vcd(
                                            pat,
                                            p5,
                                            u32::MAX as nat,
                                        ) {
                                            None => Err(PatchingError::BadPatch),
                                            Some((ilen, p6)) => match spec_read_vcd(
                                                pat,
                                                p6,
                                                u32::MAX as nat,
                                            ) {
                                                None => Err(PatchingError::BadPatch),
                                                Some((alen, p7)) => vcd_window_body(
                                                    out,
                                                    pat,
                                                    sup0,
                                                    slen,
                                                    p3 + enc,
                                                    tlen as int,
                                                    p7,
                                                    dlen as int,
                                                    ilen as int,
                                                    alen as int,
                                                ),
                                            },
                                        },
                                    }
                                }
                            },
                        }
                    }
                },
            },
        }
    }
}

/// The sections and instruction stream of one window, after its header:
/// the three sections are cut out of the patch, the superstring is the
/// source segment extended by a zeroed target window, and the instruction
/// stream fills that window.
pub open spec fn vcd_window_body(
    out: Seq<u8>,
    pat: Seq<u8>,
    sup0: Seq<u8>,
    slen: int,
    wend: int,
    tlen: int,
    p7: int,
    dlen: int,
    ilen: int,
    alen: int,
) -> Result<(Seq<u8>, int), PatchingError> {
    if p7 + dlen > pat.len() {
        Err(PatchingError::BadPatch)
    } else if p7 + dlen + ilen > pat.len() {
        Err(PatchingError::BadPatch)
    } else if p7 + dlen + ilen + alen > pat.len() {
        Err(PatchingError::BadPatch)
    } else {
        let dsec = pat.subrange(p7, p7 + dlen);
        let isec = pat.subrange(p7 + dlen, p7 + dlen + ilen);
        let asec = pat.subrange(p7 + dlen + ilen, p7 + dlen + ilen + alen);
        let pend = p7 + dlen + ilen + alen;
        if pend != wend {
            Err(PatchingError::BadPatch)
        } else {
            let sup = sup0 + Seq::<u8>::new(tlen as nat, |i: int| 0u8);
            let st0 = VcdState {
                superstring: sup,
                spos: slen,
                src_len: slen,
                dpos: 0,
                ipos: 0,
                apos: 0,
                near: seq![0u32, 0u32, 0u32, 0u32],
                near_next: 0,
                same: Seq::<u32>::new(768, |i: int| 0u32),
            };
            vcd_window_tail(out, st0, dsec, isec, asec, slen, sup.len() as int, pend)
        }
    }
}

/// The instruction stream of one window applied to its starting state,
/// the finished target window appended to `out`.
pub open spec fn vcd_window_tail(
    out: Seq<u8>,
    st0: VcdState,
    dsec: Seq<u8>,
    isec: Seq<u8>,
    asec: Seq<u8>,
    slen: int,
    suplen: int,
    pend: int,
) -> Result<(Seq<u8>, int), PatchingError> {
    match exec_all(st0, dsec, isec, asec) {
        Err(e) => Err(e),
        Ok(stf) => Ok((out + stf.superstring.subrange(slen, suplen), pend)),
    }
}

/// Applies one window at the patch cursor: the window header, the source
/// segment, the three sections, and the instruction stream, appending the
/// finished target window to the output. The patch cursor always advances,
/// and the result — the appended bytes and the consumed patch region, or
/// the error — is exactly what [`vcd_window`] prescribes.
#[verifier::rlimit(100)]
pub fn process_window(
    rom: &mut MonotonicHashingReader,
    pr: &mut HashingReader,
    output: &mut HashingWriter,
) -> (r: Result<(), PatchingError>)
    requires
        old(rom).wf(),
        old(pr).wf(),
        old(output).wf(),
        old(pr).pos() < old(pr).contents().len(),
    ensures
        final(rom).wf(),
        final(pr).wf(),
        final(output).wf(),
        final(rom).contents() == old(rom).contents(),
        final(pr).contents() == old(pr).contents(),
        final(pr).pos() > old(pr).pos(),
        old(output).contents().len() <= final(output).contents().len(),
        final(output).contents().subrange(0, old(output).contents().len() as int) == old(
            output,
        ).contents(),
        r != Err::<(), PatchingError>(PatchingError::UnsupportedPatchFeature),
        match r {
            Ok(_) => vcd_window(
                old(rom).contents(),
                old(output).contents(),
                old(pr).contents(),
                old(pr).pos(),
            ) == Ok::<(Seq<u8>, int), PatchingError>(
                (final(output).contents(), final(pr).pos()),
            ),
            Err(e) => vcd_window(
                old(rom).contents(),
                old(output).contents(),
                old(pr).contents(),
                old(pr).pos(),
            ) == Err::<(Seq<u8>, int), PatchingError>(e),
        },
{
    let ghost src = rom.contents();
    let ghost pat = pr.contents();
    let ghost out0 = output.contents();
    let ghost p0 = pr.pos();
    proof {
        assert(out0.subrange(0, out0.len() as int) =~= out0);
    }
    let win_indicator = match pr.read_u8() {
        Some(b) => b,
        None => {
            proof {
                assert(false);
            }
            return Err(PatchingError::BadPatch);
        },
    };
    let mut superstring: Vec<u8>;
    let source_len: u32;
    if win_indicator == 0 {
        superstring = Vec::new();
        source_len = 0;
        proof {
            assert(superstring@ =~= Seq::<u8>::empty());
        }
    } else if win_indicator == VCD_SOURCE {
        let slen = match pr.read_vcdiff_u32() {
            Some(v) => v,
            None => {
                return Err(PatchingError::BadPatch);
            },
        };
        let spos = match pr.read_vcdiff_u64() {
            Some(v) => v,
            None => {
                return Err(PatchingError::BadPatch);
            },
        };
        if !rom.seek_to(spos) {
            return Err(PatchingError::InputFileTooSmall);
        }
        superstring = match rom.read_exact(slen as usize) {
            Some(v) => v,
            None => {
                return Err(PatchingError::InputFileTooSmall);
            },
        };
        source_len = slen;
    } else if win_indicator == VCD_TARGET {
        let slen = match pr.read_vcdiff_u32() {
            Some(v) => v,
            None => {
                return Err(PatchingError::BadPatch);
            },
        };
        let spos = match pr.read_vcdiff_u64() {
            Some(v) => v,
            None => {
                return Err(PatchingError::BadPatch);
            },
        };
        let written = output.inner();
        let wlen = written.len() as u64;
        if spos > wlen || slen as u64 > wlen - spos {
            return Err(PatchingError::BadPatch);
        }
        let sl = slice_subrange(written.as_slice(), spos as usize, (spos + slen as u64) as usize);
        superstring = vstd::slice::slice_to_vec(sl);
        source_len = slen;
    } else {
        return Err(PatchingError::BadPatch);
    }
    let ghost gsup0 = superstring@;
    let ghost gslen = source_len as int;
    proof {
        assert(vcd_window_source(src, out0, pat, p0 + 1, pat[p0]) == Ok::<
            (Seq<u8>, int, int),
            PatchingError,
        >((gsup0, gslen, pr.pos())));
    }
    let encoding_len = match pr.read_vcdiff_u32() {
        Some(v) => v,
        None => {
            return Err(PatchingError::BadPatch);
        },
    };
    let window_end = match pr.position().checked_add(encoding_len as u64) {
        Some(v) => v,
        None => {
            return Err(PatchingError::BadPatch);
        },
    };
    let target_window_len = match pr.read_vcdiff_u32() {
        Some(v) => v,
        None => {
            return Err(PatchingError::BadPatch);
        },
    };
    if source_len as u64 + target_window_len as u64 > u32::MAX as u64 {
        return Err(PatchingError::BadPatch);
    }
    let full_len = source_len as usize + target_window_len as usize;
    superstring.resize(full_len, 0);
    let delta_indicator = match pr.read_u8() {
        Some(b) => b,
        None => {
            return Err(PatchingError::BadPatch);
        },
    };
    if delta_indicator != 0 {
        // Only set when a section is compressed, which the header already
        // rejected.
        return Err(PatchingError::BadPatch);
    }
    let data_len = match pr.read_vcdiff_u32() {
        Some(v) => v,
        None => {
            return Err(PatchingError::BadPatch);
        },
    };
    let instructions_len = match pr.read_vcdiff_u32() {
        Some(v) => v,
        None => {
            return Err(PatchingError::BadPatch);
        },
    };
    let addresses_len = match pr.read_vcdiff_u32() {
        Some(v) => v,
        None => {
            return Err(PatchingError::BadPatch);
        },
    };
    let rem = pr.remaining_usize();
    if data_len as u64 > rem as u64 {
        return Err(PatchingError::BadPatch);
    }
    let add_and_run_data = match pr.read_exact(data_len as usize) {
        Some(v) => v,
        None => {
            proof {
                assert(false);
            }
            return Err(PatchingError::BadPatch);
        },
    };
    let rem = pr.remaining_usize();
    if instructions_len as u64 > rem as u64 {
        return Err(PatchingError::BadPatch);
    }
    let instructions_and_sizes = match pr.read_exact(instructions_len as usize) {
        Some(v) => v,
        None => {
            proof {
                assert(false);
            }
            return Err(PatchingError::BadPatch);
        },
    };
    let rem = pr.remaining_usize();
    if addresses_len as u64 > rem as u64 {
        return Err(PatchingError::BadPatch);
    }
    let copy_addresses = match pr.read_exact(addresses_len as usize) {
        Some(v) => v,
        None => {
            proof {
                assert(false);
            }
            return Err(PatchingError::BadPatch);
        },
    };
    // The window header and sections must fill the declared encoding
    // length exactly.
    if pr.position() != window_end {
        return Err(PatchingError::BadPatch);
    }
    let ghost dsec = add_and_run_data@;
    let ghost isec = instructions_and_sizes@;
    let ghost asec = copy_addresses@;
    let ghost gpend = pr.pos();
    let ghost gsuplen = gslen + target_window_len as int;
    let ghost st0 = VcdState {
        superstring: gsup0 + Seq::<u8>::new(target_window_len as nat, |i: int| 0u8),
        spos: gslen,
        src_len: gslen,
        dpos: 0,
        ipos: 0,
        apos: 0,
        near: seq![0u32, 0u32, 0u32, 0u32],
        near_next: 0,
        same: Seq::<u32>::new(768, |i: int| 0u32),
    };
    proof {
        assert(vcd_window(src, out0, pat, p0) == vcd_window_tail(
            out0,
            st0,
            dsec,
            isec,
            asec,
            gslen,
            gsuplen,
            gpend,
        ));
    }
    let mut cursors = Cursors {
        superstring: WindowCursor::new(superstring, source_len as usize),
        add_and_run_data: PositionTracker::from_start(add_and_run_data),
        instructions_and_sizes: PositionTracker::from_start(instructions_and_sizes),
        copy_addresses: AddressDecoder::new(PositionTracker::from_start(copy_addresses)),
    };
    proof {
        assert(state_of(cursors).superstring =~= st0.superstring);
        assert(state_of(cursors) =~= st0);
    }
    loop
        invariant_except_break
            exec_all(st0, dsec, isec, asec) == exec_all(state_of(cursors), dsec, isec, asec),
        invariant
            cursors.wf(),
            rom.wf(),
            pr.wf(),
            output.wf(),
            src == old(rom).contents(),
            pat == old(pr).contents(),
            out0 == old(output).contents(),
            p0 == old(pr).pos(),
            rom.contents() == src,
            pr.contents() == pat,
            output.contents() == out0,
            out0.subrange(0, out0.len() as int) == out0,
            p0 < gpend,
            pr.pos() == gpend,
            cursors.add_and_run_data.contents() == dsec,
            cursors.instructions_and_sizes.contents() == isec,
            cursors.copy_addresses.contents() == asec,
            cursors.superstring.src_len() == gslen,
            cursors.superstring.contents().len() == gsuplen,
            vcd_window(src, out0, pat, p0) == vcd_window_tail(
                out0,
                st0,
                dsec,
                isec,
                asec,
                gslen,
                gsuplen,
                gpend,
            ),
        ensures
            exec_all(st0, dsec, isec, asec) == Ok::<VcdState, PatchingError>(state_of(cursors)),
        decreases cursors.instructions_and_sizes.contents().len()
            - cursors.instructions_and_sizes.pos(),
    {
        let ghost sth = state_of(cursors);
        let code = match cursors.instructions_and_sizes.read_u8() {
            Some(b) => b,
            None => {
                proof {
                    assert(exec_all(sth, dsec, isec, asec) == Err::<VcdState, PatchingError>(
                        PatchingError::BadPatch,
                    ));
                }
                return Err(PatchingError::BadPatch);
            },
        };
        let ghost st1 = VcdState { ipos: sth.ipos + 1, ..sth };
        proof {
            assert(state_of(cursors) =~= st1);
        }
        let (first, second) = decode_instruction_pair(code);
        match execute_instruction(&mut cursors, first) {
            Ok(()) => (),
            Err(e) => {
                proof {
                    assert(exec_all(sth, dsec, isec, asec) == Err::<VcdState, PatchingError>(e));
                }
                return Err(e);
            },
        }
        match execute_instruction(&mut cursors, second) {
            Ok(()) => (),
            Err(e) => {
                proof {
                    assert(exec_all(sth, dsec, isec, asec) == Err::<VcdState, PatchingError>(e));
                }
                return Err(e);
            },
        }
        if cursors.instructions_and_sizes.has_reached_eof() {
            proof {
                assert(exec_all(sth, dsec, isec, asec) == Ok::<VcdState, PatchingError>(
                    state_of(cursors),
                ));
            }
            break;
        }
        proof {
            assert(cursors.instructions_and_sizes.pos() > sth.ipos);
            assert(exec_all(sth, dsec, isec, asec) == exec_all(
                state_of(cursors),
                dsec,
                isec,
                asec,
            ));
        }
    }
    let window = cursors.superstring.target_window();
    output.write_all(window.as_slice());
    proof {
        assert(output.contents().subrange(0, out0.len() as int) =~= out0);
        assert(output.contents() =~= out0 + state_of(cursors).superstring.subrange(
            gslen,
            gsuplen,
        ));
    }
    Ok(())
}

/// The windows of a Vcdiff patch from `ppos` to the end of the file, each
/// appending its target window to `out`.
pub open spec fn vcd_windows(src: Seq<u8>, pat: Seq<u8>, ppos: int, out: Seq<u8>) -> Result<
    Seq<u8>,
    PatchingError,
>
    decreases pat.len() - ppos,
{
    if ppos == pat.len() {
        Ok(out)
    } else if !(0 <= ppos < pat.len()) {
        Err(PatchingError::BadPatch)
    } else {
        match vcd_window(src, out, pat, ppos) {
            Err(e) => Err(e),
            Ok((out2, p2)) => {
                if !(ppos < p2 <= pat.len()) {
                    Err(PatchingError::BadPatch)
                } else {
                    vcd_windows(src, pat, p2, out2)
                }
            },
        }
    }
}

/// The meaning of a Vcdiff patch applied to `src`: the concatenated target
/// windows, or the error reported. A missing or wrong magic is a corrupt
/// patch; a non-zero version, compression, or a custom code table is
/// unsupported; an announced application header is skipped.
pub open spec fn vcd_apply(src: Seq<u8>, pat: Seq<u8>) -> Result<Seq<u8>, PatchingError> {
    if pat.len() < 3 || pat[0] != 0xD6 || pat[1] != 0xC3 || pat[2] != 0xC4 {
        Err(PatchingError::BadPatch)
    } else if pat.len() == 3 {
        Err(PatchingError::BadPatch)
    } else if pat[3] != 0 {
        Err(PatchingError::UnsupportedPatchFeature)
    } else if pat.len() == 4 {
        Err(PatchingError::BadPatch)
    } else if pat[4] & (VCD_CODETABLE | VCD_DECOMPRESS) != 0 {
        Err(PatchingError::UnsupportedPatchFeature)
    } else if pat[4] & HAS_APPHEADER != 0 {
        match spec_read_vcd(pat, 5, u32::MAX as nat) {
            None => Err(PatchingError::BadPatch),
            Some((h, p)) => {
                if p + h > pat.len() {
                    Err(PatchingError::BadPatch)
                } else {
                    vcd_windows(src, pat, p + h, Seq::<u8>::empty())
                }
            },
        }
    } else {
        vcd_windows(src, pat, 5, Seq::<u8>::empty())
    }
}

/// Applies a Vcdiff patch: checks the header, rejects compression and
/// custom code tables, skips any application header, and processes windows
/// until the end of the patch. On success the whole patch has been
/// consumed (and therefore hashed), which is what the whole-file patch
/// checksum rests on; the streams' hashing invariants hold on every exit.
/// A patch that does not carry the magic is rejected as corrupt; the
/// unsupported-feature verdict is given exactly for the headers that
/// announce one.
pub fn patch(
    rom: &mut MonotonicHashingReader,
    pr: &mut HashingReader,
    output: &mut HashingWriter,
) -> (r: Result<(), PatchingError>)
    requires
        old(rom).wf(),
        old(pr).wf(),
        old(pr).pos() == 0,
        old(output).wf(),
        old(output).contents().len() == 0,
    ensures
        final(rom).wf(),
        final(pr).wf(),
        final(output).wf(),
        final(rom).contents() == old(rom).contents(),
        final(pr).contents() == old(pr).contents(),
        r is Ok ==> final(pr).pos() == final(pr).contents().len(),
        match r {
            Ok(_) => vcd_apply(old(rom).contents(), old(pr).contents()) == Ok::<
                Seq<u8>,
                PatchingError,
            >(final(output).contents()),
            Err(e) => vcd_apply(old(rom).contents(), old(pr).contents()) == Err::<Seq<u8>, _>(e),
        },
{
    let ghost src = rom.contents();
    let ghost pat = pr.contents();
    let magic = match pr.read_exact(3) {
        Some(m) => m,
        None => {
            return Err(PatchingError::BadPatch);
        },
    };
    proof {
        assert(magic@[0] == pat[0] && magic@[1] == pat[1] && magic@[2] == pat[2]);
    }
    if !(magic[0] == 0xD6 && magic[1] == 0xC3 && magic[2] == 0xC4) {
        return Err(PatchingError::BadPatch);
    }
    let version = match pr.read_u8() {
        Some(b) => b,
        None => {
            return Err(PatchingError::BadPatch);
        },
    };
    if version != 0 {
        return Err(PatchingError::UnsupportedPatchFeature);
    }
    let hdr_indicator = match pr.read_u8() {
        Some(b) => b,
        None => {
            return Err(PatchingError::BadPatch);
        },
    };
    if hdr_indicator & (VCD_CODETABLE | VCD_DECOMPRESS) != 0 {
        return Err(PatchingError::UnsupportedPatchFeature);
    }
    if hdr_indicator & HAS_APPHEADER != 0 {
        // Skip over the application header.
        let header_size = match pr.read_vcdiff_u32() {
            Some(v) => v,
            None => {
                return Err(PatchingError::BadPatch);
            },
        };
        if !pr.skip_hashing(header_size as u64) {
            return Err(PatchingError::BadPatch);
        }
    }
    // Window sections until the end of the patch.
    let ghost wstart = pr.pos();
    proof {
        assert(output.contents() =~= Seq::<u8>::empty());
        assert(vcd_apply(src, pat) == vcd_windows(src, pat, wstart, Seq::<u8>::empty()));
    }
    loop
        invariant_except_break
            vcd_windows(src, pat, wstart, Seq::<u8>::empty()) == vcd_windows(
                src,
                pat,
                pr.pos(),
                output.contents(),
            ),
        invariant
            rom.wf(),
            pr.wf(),
            output.wf(),
            src == old(rom).contents(),
            pat == old(pr).contents(),
            rom.contents() == src,
            pr.contents() == pat,
            pr.pos() <= pat.len(),
            vcd_apply(src, pat) == vcd_windows(src, pat, wstart, Seq::<u8>::empty()),
        ensures
            pr.pos() == pat.len(),
            vcd_windows(src, pat, wstart, Seq::<u8>::empty()) == Ok::<Seq<u8>, PatchingError>(
                output.contents(),
            ),
        decreases pr.contents().len() - pr.pos(),
    {
        let ghost ph = pr.pos();
        let ghost outh = output.contents();
        if pr.has_reached_eof() {
            proof {
                assert(vcd_windows(src, pat, ph, outh) == Ok::<Seq<u8>, PatchingError>(outh));
            }
            break;
        }
        let step = process_window(rom, pr, output);
        match step {
            Ok(()) => {
                proof {
                    assert(vcd_windows(src, pat, ph, outh) == vcd_windows(
                        src,
                        pat,
                        pr.pos(),
                        output.contents(),
                    ));
                }
            },
            Err(e) => {
                proof {
                    assert(vcd_windows(src, pat, ph, outh) == Err::<Seq<u8>, PatchingError>(e));
                }
                return Err(e);
            },
        }
    }
    Ok(())
}

} // verus!
