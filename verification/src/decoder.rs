//! The pure instruction decoder: it takes a 16-bit instruction word apart
//! into its opcode family and operand fields, mutating nothing and validating
//! nothing — whether a field is a legal register id or address is judged at
//! the point of use.

use vstd::prelude::*;

verus! {

/// The 16-bit word assembled big-endian from two memory bytes: `hi` is the
/// high byte, `lo` the low byte.
pub open spec fn word_of(hi: u8, lo: u8) -> u16 {
    (hi * 256 + lo) as u16
}

/// The opcode family of a word: its top nibble.
pub open spec fn family_of(w: u16) -> u16 {
    w / 4096
}

/// The `x` operand of a word: its second nibble, a register id.
pub open spec fn x_of(w: u16) -> u16 {
    (w / 256) % 16
}

/// The `y` operand of a word: its third nibble, a register id.
pub open spec fn y_of(w: u16) -> u16 {
    (w / 16) % 16
}

/// The `n` operand of a word: its fourth nibble.
pub open spec fn n_of(w: u16) -> u16 {
    w % 16
}

/// The `kk` operand of a word: its low byte, an 8-bit immediate.
pub open spec fn kk_of(w: u16) -> u16 {
    w % 256
}

/// The `nnn` operand of a word: its low 12 bits, an address immediate.
pub open spec fn nnn_of(w: u16) -> u16 {
    w % 4096
}

/// A decoded instruction word: the opcode family and every operand field,
/// each cut out of the word without interpretation.
#[derive(Clone, Copy, Debug, PartialEq, Eq, Structural)]
pub struct Decoded {
    /// The opcode family (top nibble), selecting the instruction group.
    pub family: u8,
    /// The second nibble, used as a register id by many instructions.
    pub x: u8,
    /// The third nibble, used as a register id by many instructions.
    pub y: u8,
    /// The fourth nibble.
    pub n: u8,
    /// The low byte, an 8-bit immediate.
    pub kk: u8,
    /// The low 12 bits, a 12-bit address immediate.
    pub nnn: u16,
}

/// The high nibble of a byte.
pub fn high(byte: u8) -> (r: u8)
    ensures
        r == byte / 16,
{
    proof {
        assert((byte & 0xF0) >> 4 == byte / 16) by (bit_vector);
    }
    (byte & 0xF0) >> 4u8
}

/// The low nibble of a byte.
pub fn low(byte: u8) -> (r: u8)
    ensures
        r == byte % 16,
{
    proof {
        assert(byte & 0x0F == byte % 16) by (bit_vector);
    }
    byte & 0x0F
}

/// Cuts an instruction word into its family and operand fields. A pure
/// function of the word: no machine state is read or written.
pub fn decode(word: u16) -> (d: Decoded)
    ensures
        d.family == family_of(word),
        d.x == x_of(word),
        d.y == y_of(word),
        d.n == n_of(word),
        d.kk == kk_of(word),
        d.nnn == nnn_of(word),
{
    let hb: u8 = (word >> 8u16) as u8;
    let lb: u8 = word as u8;
    proof {
        assert(((word >> 8u16) as u8) / 16 == word / 4096) by (bit_vector);
        assert(((word >> 8u16) as u8) % 16 == (word / 256) % 16) by (bit_vector);
        assert((word as u8) / 16 == (word / 16) % 16) by (bit_vector);
        assert((word as u8) % 16 == word % 16) by (bit_vector);
        assert(word as u8 == word % 256) by (bit_vector);
        assert(word & 0x0FFF == word % 4096) by (bit_vector);
    }
    Decoded {
        family: high(hb),
        x: low(hb),
        y: high(lb),
        n: low(lb),
        kk: lb,
        nnn: word & 0x0FFF,
    }
}

} // verus!
