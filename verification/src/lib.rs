//! A verified CHIP-8 interpreter core: a 4096-byte memory, a bank of sixteen
//! 8-bit registers plus a 16-bit address register, a pure instruction decoder,
//! and a fetch-decode-execute cycle with a call stack for subroutine linkage.
//!
//! The core owns no I/O: a host hands it a program image as plain bytes and
//! reads its state back through a diagnostic snapshot.

use vstd::prelude::*;

pub mod decoder;
pub mod machine;
pub mod memory;
pub mod registers;

verus! {

/// The size of the addressable memory, in bytes.
pub const MEMORY_SIZE: usize = 4096;

/// The number of general-purpose registers.
pub const REGISTER_COUNT: usize = 16;

/// The number of return-address slots in the call stack.
pub const STACK_DEPTH: usize = 16;

/// The default memory offset at which program images are loaded.
pub const PROGRAM_START: usize = 512;

/// The alternate load offset recognized for legacy program variants.
pub const ALT_PROGRAM_START: usize = 1536;

/// The fatal error conditions of the core. Each one reflects a logic or data
/// error in the program or its invocation, never a transient fault, and each
/// carries enough context to diagnose without re-running.
#[derive(Clone, Copy, Debug, PartialEq, Eq, Structural)]
pub enum Chip8Error {
    /// An address fell outside the addressable memory.
    OutOfBounds { addr: usize },
    /// A register identifier fell outside the legal nibble range.
    InvalidRegister { id: u8 },
    /// A subroutine call was attempted with the call stack full.
    StackOverflow,
    /// A subroutine return was attempted with the call stack empty.
    StackUnderflow,
}

} // verus!
