//! A linear byte store with bounds-checked little-endian word access and a
//! fixed access latency.
use vstd::prelude::*;
use crate::error::SimError;

verus! {

/// Byte-addressable memory of a fixed capacity. `latency_cycles` is what each
/// word access costs the core; the memory itself keeps no time.
pub struct Memory {
    pub data: Vec<u8>,
    pub size: usize,
    pub latency_cycles: u32,
}

/// The little-endian word made of the four bytes of `s` from `a` on.
pub open spec fn word_at(s: Seq<u8>, a: int) -> u32 {
    (s[a] + s[a + 1] * 0x100 + s[a + 2] * 0x1_0000 + s[a + 3] * 0x100_0000) as u32
}

/// Byte `k` (0 the least significant) of `v`.
pub open spec fn byte_of(v: u32, k: u32) -> u8 {
    ((v >> (8 * k)) & 0xff) as u8
}

/// `s` with the four bytes from `a` on replaced by `v`, least significant first.
pub open spec fn store_word(s: Seq<u8>, a: int, v: u32) -> Seq<u8> {
    s.update(a, byte_of(v, 0)).update(a + 1, byte_of(v, 1)).update(a + 2, byte_of(v, 2)).update(
        a + 3,
        byte_of(v, 3),
    )
}

/// Whether a word at `addr` lies inside a memory of `size` bytes.
pub open spec fn word_in_bounds(size: int, addr: int) -> bool {
    addr + 4 <= size
}

/// A word read back from where it was just written is the word written, and the
/// bytes around it are untouched.
pub proof fn lemma_read_after_write(s: Seq<u8>, a: int, v: u32)
    requires
        0 <= a,
        a + 4 <= s.len(),
    ensures
        word_at(store_word(s, a, v), a) == v,
        store_word(s, a, v).len() == s.len(),
        forall|i: int| 0 <= i < s.len() && !(a <= i < a + 4) ==> store_word(s, a, v)[i] == s[i],
{
    let t = store_word(s, a, v);
    assert(t[a] == byte_of(v, 0) && t[a + 1] == byte_of(v, 1) && t[a + 2] == byte_of(v, 2)
        && t[a + 3] == byte_of(v, 3));
    assert(v == ((v >> 0) & 0xff) + ((v >> 8) & 0xff) * 0x100 + ((v >> 16) & 0xff) * 0x1_0000
        + ((v >> 24) & 0xff) * 0x100_0000) by (bit_vector);
    assert(((v >> 0) & 0xff) < 256 && ((v >> 8) & 0xff) < 256 && ((v >> 16) & 0xff) < 256
        && ((v >> 24) & 0xff) < 256) by (bit_vector);
}

impl Memory {
    /// The stored bytes are exactly `size` long.
    pub open spec fn wf(&self) -> bool {
        self.data@.len() == self.size
    }

    /// A zero-filled memory of `size` bytes whose word accesses cost `latency`.
    pub fn new(size: usize, latency: u32) -> (r: Self)
        ensures
            r.wf(),
            r.size == size,
            r.latency_cycles == latency,
            r.data@ == Seq::new(size as nat, |i: int| 0u8),
    {
        let data = vec![0u8; size];
        let r = Memory { data, size, latency_cycles: latency };
        assert(r.data@ == Seq::new(size as nat, |i: int| 0u8));
        r
    }

    /// Reads the little-endian word at `addr`; fails when `addr + 4` passes the
    /// capacity.
    pub fn read_word(&self, addr: usize) -> (r: Result<u32, SimError>)
        requires
            self.wf(),
        ensures
            word_in_bounds(self.size as int, addr as int) ==> r == Ok::<u32, SimError>(
                word_at(self.data@, addr as int),
            ),
            !word_in_bounds(self.size as int, addr as int) ==> r == Err::<u32, SimError>(
                SimError::MemoryReadOutOfBounds(addr),
            ),
    {
        if addr > self.size || self.size - addr < 4 {
            return Err(SimError::MemoryReadOutOfBounds(addr));
        }
        let b0 = self.data[addr] as u32;
        let b1 = self.data[addr + 1] as u32;
        let b2 = self.data[addr + 2] as u32;
        let b3 = self.data[addr + 3] as u32;
        assert(b0 | (b1 << 8) | (b2 << 16) | (b3 << 24) == b0 + b1 * 0x100 + b2 * 0x1_0000 + b3
            * 0x100_0000) by (bit_vector)
            requires
                b0 < 256 && b1 < 256 && b2 < 256 && b3 < 256,
        ;
        Ok(b0 | (b1 << 8) | (b2 << 16) | (b3 << 24))
    }

    /// Writes `value` little-endian at `addr`; fails, changing nothing, when
    /// `addr + 4` passes the capacity.
    pub fn write_word(&mut self, addr: usize, value: u32) -> (r: Result<(), SimError>)
        requires
            old(self).wf(),
        ensures
            final(self).wf(),
            final(self).size == old(self).size,
            final(self).latency_cycles == old(self).latency_cycles,
            word_in_bounds(old(self).size as int, addr as int) ==> r == Ok::<(), SimError>(())
                && final(self).data@ == store_word(old(self).data@, addr as int, value),
            !word_in_bounds(old(self).size as int, addr as int) ==> r == Err::<(), SimError>(
                SimError::MemoryWriteOutOfBounds(addr),
            ) && final(self).data@ == old(self).data@,
    {
        if addr > self.size || self.size - addr < 4 {
            return Err(SimError::MemoryWriteOutOfBounds(addr));
        }
        assert((value >> 0) == value) by (bit_vector);
        self.data.set(addr, (value & 0xff) as u8);
        self.data.set(addr + 1, ((value >> 8) & 0xff) as u8);
        self.data.set(addr + 2, ((value >> 16) & 0xff) as u8);
        self.data.set(addr + 3, ((value >> 24) & 0xff) as u8);
        Ok(())
    }
}

} // verus!
