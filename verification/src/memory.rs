//! The interpreter's fixed 4096-byte address space, with bounds-checked
//! reads and writes and a bulk image-load operation.

use crate::decoder::word_of;
use crate::Chip8Error;
use crate::MEMORY_SIZE;
use vstd::pervasive::VecAdditionalExecFns;
use vstd::prelude::*;

verus! {

/// A fixed 4096-byte address space, zero-initialized at creation and mutated
/// only through bounds-checked writes. An address is valid exactly when it is
/// below `MEMORY_SIZE`; a violation is reported as `OutOfBounds`, never as a
/// silent wrap.
pub struct Memory {
    pub bytes: Vec<u8>,
}

impl Memory {
    /// A memory value is well formed when it spans exactly the full
    /// address space.
    pub open spec fn wf(self) -> bool {
        self.bytes@.len() == MEMORY_SIZE
    }

    /// A fresh, all-zero memory.
    pub fn new() -> (m: Memory)
        ensures
            m.wf(),
            forall|a: int| 0 <= a < MEMORY_SIZE ==> m.bytes@[a] == 0u8,
    {
        let mut bytes: Vec<u8> = Vec::new();
        while bytes.len() < MEMORY_SIZE
            invariant
                bytes@.len() <= MEMORY_SIZE,
                forall|a: int| 0 <= a < bytes@.len() ==> bytes@[a] == 0u8,
            decreases MEMORY_SIZE - bytes@.len(),
        {
            bytes.push(0u8);
        }
        Memory { bytes }
    }

    /// The byte stored at `addr`, or `OutOfBounds` for an address past the
    /// end of memory.
    pub fn read_byte(&self, addr: usize) -> (r: Result<u8, Chip8Error>)
        requires
            self.wf(),
        ensures
            addr < MEMORY_SIZE ==> r == Ok::<u8, Chip8Error>(self.bytes@[addr as int]),
            addr >= MEMORY_SIZE ==> r == Err::<u8, Chip8Error>(Chip8Error::OutOfBounds { addr }),
    {
        if addr < MEMORY_SIZE {
            Ok(self.bytes[addr])
        } else {
            Err(Chip8Error::OutOfBounds { addr })
        }
    }

    /// Stores `value` at `addr`, or fails with `OutOfBounds` leaving memory
    /// unchanged; no other cell is touched either way.
    pub fn write_byte(&mut self, addr: usize, value: u8) -> (r: Result<(), Chip8Error>)
        requires
            old(self).wf(),
        ensures
            final(self).wf(),
            addr < MEMORY_SIZE ==> r == Ok::<(), Chip8Error>(())
                && final(self).bytes@ == old(self).bytes@.update(addr as int, value),
            addr >= MEMORY_SIZE ==> r == Err::<(), Chip8Error>(Chip8Error::OutOfBounds { addr })
                && *final(self) == *old(self),
    {
        if addr < MEMORY_SIZE {
            self.bytes.set(addr, value);
            Ok(())
        } else {
            Err(Chip8Error::OutOfBounds { addr })
        }
    }

    /// The 16-bit word stored big-endian at `addr` (high byte first), or
    /// `OutOfBounds` when the two-byte range does not fit in memory.
    pub fn read_word(&self, addr: usize) -> (r: Result<u16, Chip8Error>)
        requires
            self.wf(),
        ensures
            addr + 1 < MEMORY_SIZE ==> r == Ok::<u16, Chip8Error>(
                word_of(self.bytes@[addr as int], self.bytes@[addr as int + 1]),
            ),
            addr + 1 >= MEMORY_SIZE ==> r == Err::<u16, Chip8Error>(
                Chip8Error::OutOfBounds { addr },
            ),
    {
        if addr < MEMORY_SIZE - 1 {
            let hi = self.bytes[addr];
            let lo = self.bytes[addr + 1];
            proof {
                assert(((hi as u16) << 8u16 | (lo as u16)) == (hi as u16) * 256 + (lo as u16))
                    by (bit_vector);
            }
            Ok(((hi as u16) << 8u16) | (lo as u16))
        } else {
            Err(Chip8Error::OutOfBounds { addr })
        }
    }

    /// Copies `image` into the address range starting at `offset`, or fails
    /// with `OutOfBounds` when the range does not fit, leaving memory
    /// unchanged. A successful load overwrites exactly that range and no
    /// other cell.
    pub fn load(&mut self, offset: usize, image: &Vec<u8>) -> (r: Result<(), Chip8Error>)
        requires
            old(self).wf(),
        ensures
            final(self).wf(),
            offset + image@.len() <= MEMORY_SIZE ==> r == Ok::<(), Chip8Error>(())
                && (forall|a: int| 0 <= a < MEMORY_SIZE ==> final(self).bytes@[a] == (
                    if offset <= a < offset + image@.len() {
                        image@[a - offset]
                    } else {
                        old(self).bytes@[a]
                    })),
            offset + image@.len() > MEMORY_SIZE ==> r == Err::<(), Chip8Error>(
                Chip8Error::OutOfBounds { addr: offset },
            ) && *final(self) == *old(self),
    {
        if offset > MEMORY_SIZE || image.len() > MEMORY_SIZE - offset {
            return Err(Chip8Error::OutOfBounds { addr: offset });
        }
        let mut i: usize = 0;
        while i < image.len()
            invariant
                self.wf(),
                i <= image@.len(),
                offset + image@.len() <= MEMORY_SIZE,
                forall|a: int| 0 <= a < MEMORY_SIZE ==> self.bytes@[a] == (
                    if offset <= a < offset + i {
                        image@[a - offset]
                    } else {
                        old(self).bytes@[a]
                    }),
            decreases image@.len() - i,
        {
            self.bytes.set(offset + i, image[i]);
            i = i + 1;
        }
        Ok(())
    }
}

/// Writing a byte at a valid address and reading it back yields that byte:
/// the view after `write_byte(a, v)` holds `v` at `a`, which is exactly what
/// `read_byte(a)` returns.
pub proof fn lemma_write_read_round_trip(m: Seq<u8>, a: int, v: u8)
    requires
        0 <= a < MEMORY_SIZE,
        m.len() == MEMORY_SIZE,
    ensures
        m.update(a, v)[a] == v,
{
}

} // verus!
