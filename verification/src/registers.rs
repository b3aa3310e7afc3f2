//! The register file: sixteen general-purpose 8-bit registers addressed by a
//! nibble, plus the 16-bit address register I. A register id outside the
//! nibble range fails fast; no implicit register exists.

use crate::Chip8Error;
use crate::REGISTER_COUNT;
use vstd::pervasive::VecAdditionalExecFns;
use vstd::prelude::*;

verus! {

/// The sixteen general-purpose 8-bit registers, as an ordered fixed-length
/// bank of cells indexed by their id, and the 16-bit address register I.
pub struct Registers {
    pub v: Vec<u8>,
    pub i: u16,
}

impl Registers {
    /// A register file is well formed when it holds exactly the sixteen
    /// general-purpose cells.
    pub open spec fn wf(self) -> bool {
        self.v@.len() == REGISTER_COUNT
    }

    /// A fresh register file, every register zero.
    pub fn new() -> (r: Registers)
        ensures
            r.wf(),
            forall|id: int| 0 <= id < REGISTER_COUNT ==> r.v@[id] == 0u8,
            r.i == 0u16,
    {
        let mut v: Vec<u8> = Vec::new();
        while v.len() < REGISTER_COUNT
            invariant
                v@.len() <= REGISTER_COUNT,
                forall|id: int| 0 <= id < v@.len() ==> v@[id] == 0u8,
            decreases REGISTER_COUNT - v@.len(),
        {
            v.push(0u8);
        }
        Registers { v, i: 0 }
    }

    /// Stores `value` in the general register named by `register`, or fails
    /// with `InvalidRegister` for an id outside `0x0..=0xF`, changing
    /// nothing. No other register is touched either way.
    pub fn put(&mut self, register: u8, value: u8) -> (r: Result<(), Chip8Error>)
        requires
            old(self).wf(),
        ensures
            final(self).wf(),
            register <= 0xF ==> r == Ok::<(), Chip8Error>(())
                && final(self).v@ == old(self).v@.update(register as int, value)
                && final(self).i == old(self).i,
            register > 0xF ==> r == Err::<(), Chip8Error>(
                Chip8Error::InvalidRegister { id: register },
            ) && *final(self) == *old(self),
    {
        if register <= 0xF {
            self.v.set(register as usize, value);
            Ok(())
        } else {
            Err(Chip8Error::InvalidRegister { id: register })
        }
    }

    /// The value of the general register named by `register`, or
    /// `InvalidRegister` for an id outside `0x0..=0xF`.
    pub fn get(&self, register: u8) -> (r: Result<u8, Chip8Error>)
        requires
            self.wf(),
        ensures
            register <= 0xF ==> r == Ok::<u8, Chip8Error>(self.v@[register as int]),
            register > 0xF ==> r == Err::<u8, Chip8Error>(
                Chip8Error::InvalidRegister { id: register },
            ),
    {
        if register <= 0xF {
            Ok(self.v[register as usize])
        } else {
            Err(Chip8Error::InvalidRegister { id: register })
        }
    }

    /// The value of the 16-bit address register I.
    pub fn get_address_register(&self) -> (r: u16)
        ensures
            r == self.i,
    {
        self.i
    }

    /// Stores `value` in the 16-bit address register I. Its full native width
    /// is accepted: 12-bit addresses are masked by the decoder, not here.
    pub fn set_address_register(&mut self, value: u16)
        ensures
            *final(self) == (Registers { i: value, ..*old(self) }),
    {
        self.i = value;
    }
}

/// Storing a value in a valid register and reading it back yields that
/// value: the bank after `put(r, v)` holds `v` at `r`, which is exactly what
/// `get(r)` returns.
pub proof fn lemma_put_get_round_trip(bank: Seq<u8>, id: int, v: u8)
    requires
        0 <= id < REGISTER_COUNT,
        bank.len() == REGISTER_COUNT,
    ensures
        bank.update(id, v)[id] == v,
{
}

} // verus!
