//! The interpreter core: it owns the memory, the register file, the program
//! counter, the stack pointer and the call stack, and runs the
//! fetch-decode-execute cycle. The single-step operation is callable on its
//! own, so a host can pace execution itself; the run loop is a convenience
//! that repeats the cycle until the machine halts.

use crate::decoder::decode;
use crate::decoder::family_of;
use crate::decoder::kk_of;
use crate::decoder::nnn_of;
use crate::decoder::word_of;
use crate::decoder::x_of;
use crate::memory::Memory;
use crate::registers::Registers;
use crate::Chip8Error;
use crate::ALT_PROGRAM_START;
use crate::MEMORY_SIZE;
use crate::PROGRAM_START;
use crate::REGISTER_COUNT;
use crate::STACK_DEPTH;
use vstd::prelude::*;

verus! {

/// The full machine state: memory, register file, program counter, stack
/// pointer and call stack. All of it is created together, zero-initialized,
/// and mutated only by the loader and the cycle.
pub struct Chip8 {
    pub mem: Memory,
    pub registers: Registers,
    pub pc: usize,
    pub sp: usize,
    pub stack: Vec<u16>,
}

/// What a single cycle reports: either the machine executed an instruction
/// and can step again, or it halted on a word whose family has no dispatch
/// case. The halt is a diagnostic for the caller, not a crash.
#[derive(Clone, Copy, Debug, PartialEq, Eq, Structural)]
pub enum StepOutcome {
    /// An instruction was executed; the machine is still running.
    Running,
    /// The word fetched at `addr` belongs to no recognized opcode family;
    /// the machine halted without executing it.
    UnrecognizedInstruction { word: u16, addr: usize },
}

/// The instruction word stored big-endian at the program counter.
pub open spec fn fetched(c: Chip8) -> u16 {
    word_of(c.mem.bytes@[c.pc as int], c.mem.bytes@[c.pc as int + 1])
}

/// Two machine states with identical contents: every memory cell, every
/// register, the program counter, the stack pointer and every stack slot.
pub open spec fn same_state(a: Chip8, b: Chip8) -> bool {
    &&& a.mem.bytes@ == b.mem.bytes@
    &&& a.registers.v@ == b.registers.v@
    &&& a.registers.i == b.registers.i
    &&& a.pc == b.pc
    &&& a.sp == b.sp
    &&& a.stack@ == b.stack@
}

/// The one-cycle relation: what a single fetch-decode-execute cycle taking
/// `pre` to `post` with result `r` does — exactly what `step` promises. A
/// fetch that does not fit in memory fails with `OutOfBounds` and changes
/// nothing; family `0xA` stores its address immediate in the register I;
/// family `0x6` stores its byte immediate in the register its `x` nibble
/// names; both advance the program counter by one instruction and touch
/// nothing else; a word of any other family halts the machine where it
/// stands, reported with its address.
pub open spec fn step_result(pre: Chip8, post: Chip8, r: Result<StepOutcome, Chip8Error>) -> bool {
    &&& post.wf()
    &&& post.mem.bytes@ == pre.mem.bytes@
    &&& post.sp == pre.sp
    &&& post.stack@ == pre.stack@
    &&& (pre.pc + 1 >= MEMORY_SIZE ==> r == Err::<StepOutcome, Chip8Error>(
        Chip8Error::OutOfBounds { addr: pre.pc },
    ) && post == pre)
    &&& (pre.pc + 1 < MEMORY_SIZE && family_of(fetched(pre)) == 0xA ==> {
        &&& r == Ok::<StepOutcome, Chip8Error>(StepOutcome::Running)
        &&& post.registers.i == nnn_of(fetched(pre))
        &&& post.registers.v@ == pre.registers.v@
        &&& post.pc == pre.pc + 2
    })
    &&& (pre.pc + 1 < MEMORY_SIZE && family_of(fetched(pre)) == 0x6 ==> {
        &&& r == Ok::<StepOutcome, Chip8Error>(StepOutcome::Running)
        &&& post.registers.v@ == pre.registers.v@.update(
            x_of(fetched(pre)) as int,
            kk_of(fetched(pre)) as u8,
        )
        &&& post.registers.i == pre.registers.i
        &&& post.pc == pre.pc + 2
    })
    &&& (pre.pc + 1 < MEMORY_SIZE && family_of(fetched(pre)) != 0xA && family_of(fetched(pre))
        != 0x6 ==> r == Ok::<StepOutcome, Chip8Error>(
        StepOutcome::UnrecognizedInstruction { word: fetched(pre), addr: pre.pc },
    ) && post == pre)
}

/// The machine `post` is reached from `pre` by exactly `n` cycles, every one
/// of them executing an instruction that kept the machine running.
pub open spec fn reaches(pre: Chip8, post: Chip8, n: nat) -> bool
    decreases n,
{
    if n == 0 {
        post == pre
    } else {
        exists|mid: Chip8|
            step_result(pre, mid, Ok(StepOutcome::Running)) && reaches(mid, post, (n - 1) as nat)
    }
}

/// What the run loop's result says of the state `c` it stopped in: a halt
/// report carries exactly the unrecognized word fetched at the final program
/// counter, and an error means the final program counter left no room for a
/// fetch.
pub open spec fn run_outcome(c: Chip8, r: Result<StepOutcome, Chip8Error>) -> bool {
    &&& (r matches Ok(h) ==> (h matches StepOutcome::UnrecognizedInstruction { word, addr } && (
    addr == c.pc && c.pc + 1 < MEMORY_SIZE && word == fetched(c) && family_of(word) != 0xA
        && family_of(word) != 0x6)))
    &&& (r matches Err(e) ==> (e == (Chip8Error::OutOfBounds { addr: c.pc }) && c.pc + 1
        >= MEMORY_SIZE))
}

/// A read-only copy of the whole machine state, for diagnostic rendering by
/// a host: every memory cell, every register, the program counter, the stack
/// pointer and the full call stack.
#[derive(Debug, PartialEq, Eq)]
pub struct Snapshot {
    pub ram: Vec<u8>,
    pub v: Vec<u8>,
    pub i: u16,
    pub pc: usize,
    pub sp: usize,
    pub stack: Vec<u16>,
}

/// The snapshot `s` reports exactly the state of the machine `c`: field for
/// field, nothing more and nothing less.
pub open spec fn snapshot_matches(c: Chip8, s: Snapshot) -> bool {
    &&& s.ram@ == c.mem.bytes@
    &&& s.v@ == c.registers.v@
    &&& s.i == c.registers.i
    &&& s.pc == c.pc
    &&& s.sp == c.sp
    &&& s.stack@ == c.stack@
}

impl Chip8 {
    /// A machine state is well formed when its memory and register file are,
    /// its call stack holds exactly the fixed number of slots, its stack
    /// pointer stays within them, and its program counter is two-byte
    /// aligned and within memory. Alignment is an invariant here rather than
    /// a runtime check: every constructor establishes it and every cycle
    /// preserves it, since the two implemented instructions advance the
    /// counter by exactly one instruction.
    pub open spec fn wf(self) -> bool {
        &&& self.mem.wf()
        &&& self.registers.wf()
        &&& self.stack@.len() == STACK_DEPTH
        &&& self.sp <= STACK_DEPTH
        &&& self.pc <= MEMORY_SIZE
        &&& self.pc % 2 == 0
    }

    /// A fresh machine: memory, registers, program counter, stack pointer
    /// and call stack all zero.
    pub fn new() -> (c: Chip8)
        ensures
            c.wf(),
            forall|a: int| 0 <= a < MEMORY_SIZE ==> c.mem.bytes@[a] == 0u8,
            forall|id: int| 0 <= id < REGISTER_COUNT ==> c.registers.v@[id] == 0u8,
            c.registers.i == 0u16,
            c.pc == 0,
            c.sp == 0,
            forall|d: int| 0 <= d < STACK_DEPTH ==> c.stack@[d] == 0u16,
    {
        let mut stack: Vec<u16> = Vec::new();
        while stack.len() < STACK_DEPTH
            invariant
                stack@.len() <= STACK_DEPTH,
                forall|d: int| 0 <= d < stack@.len() ==> stack@[d] == 0u16,
            decreases STACK_DEPTH - stack@.len(),
        {
            stack.push(0u16);
        }
        Chip8 { mem: Memory::new(), registers: Registers::new(), pc: 0, sp: 0, stack }
    }

    /// Loads a program image at the default start offset and points the
    /// program counter there, ready for the first fetch. Fails with
    /// `OutOfBounds` when the image does not fit, changing nothing.
    pub fn load_image(&mut self, image: &Vec<u8>) -> (r: Result<(), Chip8Error>)
        requires
            old(self).wf(),
        ensures
            final(self).wf(),
            PROGRAM_START + image@.len() <= MEMORY_SIZE ==> ({
                &&& r == Ok::<(), Chip8Error>(())
                &&& final(self).pc == PROGRAM_START
                &&& forall|a: int| 0 <= a < MEMORY_SIZE ==> final(self).mem.bytes@[a] == (
                    if PROGRAM_START <= a < PROGRAM_START + image@.len() {
                        image@[a - PROGRAM_START]
                    } else {
                        old(self).mem.bytes@[a]
                    })
                &&& final(self).registers == old(self).registers
                &&& final(self).sp == old(self).sp
                &&& final(self).stack@ == old(self).stack@
            }),
            PROGRAM_START + image@.len() > MEMORY_SIZE ==> r == Err::<(), Chip8Error>(
                Chip8Error::OutOfBounds { addr: PROGRAM_START },
            ) && *final(self) == *old(self),
    {
        self.load_image_at(PROGRAM_START, image)
    }

    /// Loads a program image at a chosen start offset — the default one or
    /// the alternate recognized for legacy program variants — and points the
    /// program counter there. Fails with `OutOfBounds` when the image does
    /// not fit, changing nothing; a successful load overwrites exactly the
    /// image's range and leaves every other memory cell, every register and
    /// the whole call stack as they were.
    pub fn load_image_at(&mut self, offset: usize, image: &Vec<u8>) -> (r: Result<
        (),
        Chip8Error,
    >)
        requires
            old(self).wf(),
            offset == PROGRAM_START || offset == ALT_PROGRAM_START,
        ensures
            final(self).wf(),
            offset + image@.len() <= MEMORY_SIZE ==> ({
                &&& r == Ok::<(), Chip8Error>(())
                &&& final(self).pc == offset
                &&& forall|a: int| 0 <= a < MEMORY_SIZE ==> final(self).mem.bytes@[a] == (
                    if offset <= a < offset + image@.len() {
                        image@[a - offset]
                    } else {
                        old(self).mem.bytes@[a]
                    })
                &&& final(self).registers == old(self).registers
                &&& final(self).sp == old(self).sp
                &&& final(self).stack@ == old(self).stack@
            }),
            offset + image@.len() > MEMORY_SIZE ==> r == Err::<(), Chip8Error>(
                Chip8Error::OutOfBounds { addr: offset },
            ) && *final(self) == *old(self),
    {
        match self.mem.load(offset, image) {
            Ok(()) => {
                self.pc = offset;
                Ok(())
            },
            Err(e) => Err(e),
        }
    }

    /// One fetch-decode-execute cycle.
    ///
    /// The fetch fails with `OutOfBounds` when the two-byte instruction at
    /// the program counter does not fit in memory, changing nothing. An
    /// instruction of family `0xA` stores its address immediate in the
    /// register I; one of family `0x6` stores its byte immediate in the
    /// register its `x` nibble names; both advance the program counter by
    /// one instruction and touch nothing else. A word of any other family
    /// halts the machine where it stands and is reported with its address.
    pub fn step(&mut self) -> (r: Result<StepOutcome, Chip8Error>)
        requires
            old(self).wf(),
        ensures
            final(self).wf(),
            step_result(*old(self), *final(self), r),
    {
        if self.pc + 1 >= MEMORY_SIZE {
            return Err(Chip8Error::OutOfBounds { addr: self.pc });
        }
        let word = match self.mem.read_word(self.pc) {
            Ok(w) => w,
            Err(e) => {
                return Err(e);
            },
        };
        let d = decode(word);
        match d.family {
            0xA => {
                let next = self.load_i(d.nnn);
                self.pc = next;
                Ok(StepOutcome::Running)
            },
            0x6 => {
                let next = self.load_vx(d.x, d.kk);
                self.pc = next;
                Ok(StepOutcome::Running)
            },
            _ => Ok(StepOutcome::UnrecognizedInstruction { word, addr: self.pc }),
        }
    }

    /// The instruction of family `0xA`: stores the address immediate `nnn`
    /// in the register I and yields the address of the next instruction.
    /// No flags are affected.
    fn load_i(&mut self, nnn: u16) -> (next_pc: usize)
        requires
            old(self).wf(),
            old(self).pc + 2 <= MEMORY_SIZE,
        ensures
            final(self).wf(),
            final(self).registers.i == nnn,
            final(self).registers.v@ == old(self).registers.v@,
            final(self).mem == old(self).mem,
            final(self).pc == old(self).pc,
            final(self).sp == old(self).sp,
            final(self).stack == old(self).stack,
            next_pc == old(self).pc + 2,
    {
        self.registers.set_address_register(nnn);
        self.pc + 2
    }

    /// The instruction of family `0x6`: stores the byte immediate `kk` in
    /// the general register named by `x` and yields the address of the next
    /// instruction. No flags are affected.
    fn load_vx(&mut self, x: u8, kk: u8) -> (next_pc: usize)
        requires
            old(self).wf(),
            old(self).pc + 2 <= MEMORY_SIZE,
            x <= 0xF,
        ensures
            final(self).wf(),
            final(self).registers.v@ == old(self).registers.v@.update(x as int, kk),
            final(self).registers.i == old(self).registers.i,
            final(self).mem == old(self).mem,
            final(self).pc == old(self).pc,
            final(self).sp == old(self).sp,
            final(self).stack == old(self).stack,
            next_pc == old(self).pc + 2,
    {
        match self.registers.put(x, kk) {
            Ok(()) => {},
            Err(_) => {},
        }
        self.pc + 2
    }

    /// Repeats the cycle until the machine halts on an unrecognized word —
    /// reported with the word and the address it was fetched from, the
    /// program counter still standing there — or until a fetch fails. The
    /// final state is reached from the start state by a chain of executed
    /// cycles, so the loop is a closed function of the machine state: no
    /// I/O, no peripheral state. A machine already standing on an
    /// unrecognized word, or already out of fetch room, stops at once,
    /// unchanged.
    pub fn run(&mut self) -> (r: Result<StepOutcome, Chip8Error>)
        requires
            old(self).wf(),
        ensures
            final(self).wf(),
            final(self).mem.bytes@ == old(self).mem.bytes@,
            final(self).sp == old(self).sp,
            final(self).stack@ == old(self).stack@,
            exists|n: nat| reaches(*old(self), *final(self), n),
            run_outcome(*final(self), r),
            old(self).pc + 1 >= MEMORY_SIZE ==> r == Err::<StepOutcome, Chip8Error>(
                Chip8Error::OutOfBounds { addr: old(self).pc },
            ) && *final(self) == *old(self),
            old(self).pc + 1 < MEMORY_SIZE && family_of(fetched(*old(self))) != 0xA && family_of(
                fetched(*old(self)),
            ) != 0x6 ==> r == Ok::<StepOutcome, Chip8Error>(
                StepOutcome::UnrecognizedInstruction { word: fetched(*old(self)), addr: old(self).pc },
            ) && *final(self) == *old(self),
    {
        proof {
            assert(reaches(*old(self), *self, 0));
        }
        loop
            invariant
                self.wf(),
                self.mem.bytes@ == old(self).mem.bytes@,
                self.sp == old(self).sp,
                self.stack@ == old(self).stack@,
                exists|n: nat| reaches(*old(self), *self, n),
                *self == *old(self) || (old(self).pc + 1 < MEMORY_SIZE && (family_of(
                    fetched(*old(self)),
                ) == 0xA || family_of(fetched(*old(self))) == 0x6)),
            decreases MEMORY_SIZE - self.pc,
        {
            let ghost prev = *self;
            match self.step() {
                Ok(StepOutcome::Running) => {
                    proof {
                        let n = choose|n: nat| reaches(*old(self), prev, n);
                        lemma_reaches_append(*old(self), prev, *self, n);
                    }
                },
                Ok(halt) => {
                    return Ok(halt);
                },
                Err(e) => {
                    return Err(e);
                },
            }
        }
    }

    /// A diagnostic snapshot of the whole state, safe to take at any cycle
    /// boundary, before or after a halt. It reports exactly the machine's
    /// state, so two snapshots with no cycle between them are identical.
    pub fn snapshot(&self) -> (s: Snapshot)
        ensures
            snapshot_matches(*self, s),
    {
        Snapshot {
            ram: copy_bytes(&self.mem.bytes),
            v: copy_bytes(&self.registers.v),
            i: self.registers.i,
            pc: self.pc,
            sp: self.sp,
            stack: copy_words(&self.stack),
        }
    }
}

/// An element-for-element copy of a byte vector.
fn copy_bytes(src: &Vec<u8>) -> (dst: Vec<u8>)
    ensures
        dst@ == src@,
{
    let mut dst: Vec<u8> = Vec::new();
    let mut i: usize = 0;
    while i < src.len()
        invariant
            i <= src@.len(),
            dst@.len() == i,
            forall|j: int| 0 <= j < i ==> dst@[j] == src@[j],
        decreases src@.len() - i,
    {
        dst.push(src[i]);
        i = i + 1;
    }
    proof {
        assert(dst@ =~= src@);
    }
    dst
}

/// An element-for-element copy of a word vector.
fn copy_words(src: &Vec<u16>) -> (dst: Vec<u16>)
    ensures
        dst@ == src@,
{
    let mut dst: Vec<u16> = Vec::new();
    let mut i: usize = 0;
    while i < src.len()
        invariant
            i <= src@.len(),
            dst@.len() == i,
            forall|j: int| 0 <= j < i ==> dst@[j] == src@[j],
        decreases src@.len() - i,
    {
        dst.push(src[i]);
        i = i + 1;
    }
    proof {
        assert(dst@ =~= src@);
    }
    dst
}

/// A chain of running cycles grows at its end: one more cycle after `n`
/// reaches one machine further.
pub proof fn lemma_reaches_append(a: Chip8, b: Chip8, c: Chip8, n: nat)
    requires
        reaches(a, b, n),
        step_result(b, c, Ok(StepOutcome::Running)),
    ensures
        reaches(a, c, n + 1),
    decreases n,
{
    if n == 0 {
        assert(step_result(a, c, Ok(StepOutcome::Running)) && reaches(c, c, 0));
    } else {
        let mid = choose|mid: Chip8|
            step_result(a, mid, Ok(StepOutcome::Running)) && reaches(mid, b, (n - 1) as nat);
        lemma_reaches_append(mid, b, c, (n - 1) as nat);
        assert(step_result(a, mid, Ok(StepOutcome::Running)) && reaches(mid, c, n as nat));
    }
}

/// A cycle that keeps the machine running is determined by the contents of
/// the state it ran from: from machines with identical contents it produces
/// machines with identical contents.
pub proof fn lemma_step_running_deterministic(pre_a: Chip8, post_a: Chip8, pre_b: Chip8, post_b: Chip8)
    requires
        same_state(pre_a, pre_b),
        step_result(pre_a, post_a, Ok(StepOutcome::Running)),
        step_result(pre_b, post_b, Ok(StepOutcome::Running)),
    ensures
        same_state(post_a, post_b),
{
    assert(fetched(pre_a) == fetched(pre_b));
}

/// The run loop is a closed function of the machine state: two runs from
/// machines with identical contents execute the same number of cycles, stop
/// in machines with identical contents, and report the same outcome.
pub proof fn lemma_run_deterministic(
    a0: Chip8,
    a1: Chip8,
    na: nat,
    ra: Result<StepOutcome, Chip8Error>,
    b0: Chip8,
    b1: Chip8,
    nb: nat,
    rb: Result<StepOutcome, Chip8Error>,
)
    requires
        same_state(a0, b0),
        reaches(a0, a1, na),
        reaches(b0, b1, nb),
        run_outcome(a1, ra),
        run_outcome(b1, rb),
    ensures
        na == nb,
        same_state(a1, b1),
        ra == rb,
    decreases na,
{
    if na == 0 {
        assert(a1 == a0);
        if nb != 0 {
            // The second chain starts with a running cycle, so its start —
            // whose contents the halted first machine shares — fetched a
            // recognized word; that contradicts the first machine's report.
            let bmid = choose|mid: Chip8|
                step_result(b0, mid, Ok(StepOutcome::Running)) && reaches(mid, b1, (nb - 1) as nat);
            assert(fetched(a1) == fetched(b0));
            assert(false);
        }
        assert(b1 == b0);
        assert(fetched(a1) == fetched(b1));
    } else {
        if nb == 0 {
            let amid = choose|mid: Chip8|
                step_result(a0, mid, Ok(StepOutcome::Running)) && reaches(mid, a1, (na - 1) as nat);
            assert(fetched(b1) == fetched(a0));
            assert(false);
        }
        let amid = choose|mid: Chip8|
            step_result(a0, mid, Ok(StepOutcome::Running)) && reaches(mid, a1, (na - 1) as nat);
        let bmid = choose|mid: Chip8|
            step_result(b0, mid, Ok(StepOutcome::Running)) && reaches(mid, b1, (nb - 1) as nat);
        lemma_step_running_deterministic(a0, amid, b0, bmid);
        lemma_run_deterministic(amid, a1, (na - 1) as nat, ra, bmid, b1, (nb - 1) as nat, rb);
    }
}

/// The one-cycle scenario for the address-register instruction: a machine
/// about to execute the image `[0xA1, 0x23]` at the default start offset
/// loads `0x123` into the register I and advances to the next instruction;
/// the general registers keep their contents.
pub proof fn lemma_cycle_load_address(pre: Chip8, post: Chip8, r: Result<StepOutcome, Chip8Error>)
    requires
        pre.pc == PROGRAM_START,
        pre.mem.bytes@[PROGRAM_START as int] == 0xA1,
        pre.mem.bytes@[PROGRAM_START as int + 1] == 0x23,
        step_result(pre, post, r),
    ensures
        r == Ok::<StepOutcome, Chip8Error>(StepOutcome::Running),
        post.registers.i == 0x123,
        post.registers.v@ == pre.registers.v@,
        post.pc == PROGRAM_START + 2,
{
    assert(fetched(pre) == 0xA123);
}

/// The one-cycle scenario for the register-immediate instruction: a machine
/// about to execute the image `[0x6B, 0x77]` at the default start offset
/// loads `0x77` into general register `0xB` and advances to the next
/// instruction; every other general register and the register I keep their
/// contents.
pub proof fn lemma_cycle_load_immediate(pre: Chip8, post: Chip8, r: Result<StepOutcome, Chip8Error>)
    requires
        pre.pc == PROGRAM_START,
        pre.mem.bytes@[PROGRAM_START as int] == 0x6B,
        pre.mem.bytes@[PROGRAM_START as int + 1] == 0x77,
        step_result(pre, post, r),
    ensures
        r == Ok::<StepOutcome, Chip8Error>(StepOutcome::Running),
        post.registers.v@ == pre.registers.v@.update(0xB, 0x77u8),
        post.registers.i == pre.registers.i,
        post.pc == PROGRAM_START + 2,
{
    assert(fetched(pre) == 0x6B77);
}

/// Taking a diagnostic snapshot is deterministic in the machine state: any
/// two snapshots of the same state — in particular, two taken with no cycle
/// between them — report identical contents.
pub proof fn lemma_snapshot_deterministic(c: Chip8, s1: Snapshot, s2: Snapshot)
    requires
        snapshot_matches(c, s1),
        snapshot_matches(c, s2),
    ensures
        s1.ram@ == s2.ram@,
        s1.v@ == s2.v@,
        s1.i == s2.i,
        s1.pc == s2.pc,
        s1.sp == s2.sp,
        s1.stack@ == s2.stack@,
{
}

} // verus!
