//! The execution engine: sixteen registers, a private stack memory, and the
//! main memory, driven one instruction at a time by `step`.
//!
//! Register indices 0-12 are general purpose; index 13 holds the condition
//! flags, index 14 the program counter, and index 15 the stack pointer. A
//! `step` fetches the word at the program counter, decodes it, executes it,
//! and then unconditionally increments the program counter by one, wrapping
//! on overflow — even when the instruction itself set the program counter.

use vstd::prelude::*;
use vstd::pervasive::arbitrary;
use vstd::wrapping::u16_specs;
use crate::instruction::Instruction;
use crate::instruction::lemma_decode_wf;
use crate::instruction::spec_decode;
use crate::memory::Memory;
use crate::memory::MemoryErr;
use crate::memory::spec_get;
use crate::memory::spec_get_range;
use crate::memory::spec_set;
use crate::memory::spec_set_range;

verus! {

/// The machine word: the unit of storage, register content, and instruction
/// encoding.
pub type WordType = u16;

/// The largest representable word; `step` forces the program counter here
/// when a fetch fails.
pub const WORD_MAX: WordType = 0xFFFF;

/// Index of the flags register.
pub const FLAGS: usize = 13;

/// Index of the program counter.
pub const PC: usize = 14;

/// Index of the stack pointer.
pub const STACK_POINTER: usize = 15;

/// Flag bit recording whether the last arithmetic operation overflowed.
pub const FLAG_OVERFLOW: WordType = 0x0001;

/// Flag bit recording whether the last comparison held.
pub const FLAG_COMPARISON: WordType = 0x0002;

/// Faults reported by a `step`.
#[derive(Debug)]
pub enum CPUErr {
    /// A memory access failed; the memory fault is carried verbatim.
    MemoryErr(MemoryErr),
    /// A push when the stack region is exhausted.
    StackOverflow,
    /// A pop when the stack pointer is already at zero.
    StackUnderflow,
    /// A jump carried a condition code outside the recognized ones.
    InvalidJumpCondition(u8),
    /// A division whose divisor register holds zero.
    DivisionByZero,
    /// An internal consistency check failed after a bounds check had just
    /// succeeded: an implementation bug, not a program error.
    Unreachable(String),
}

/// The whole machine state, as the contracts speak of it: the sixteen
/// registers, the private stack memory, and the main memory.
pub struct MachineState {
    pub regs: Seq<WordType>,
    pub stack: Seq<WordType>,
    pub mem: Seq<WordType>,
}

/// Whether every bit of `mask` is set in `flags`.
pub open spec fn flag_set(flags: WordType, mask: WordType) -> bool {
    flags & mask == mask
}

/// `flags` with every bit of `mask` set when `on`, cleared when not.
pub open spec fn apply_flag(flags: WordType, mask: WordType, on: bool) -> WordType {
    if on {
        flags | mask
    } else {
        flags & !mask
    }
}

/// The state with one register replaced.
pub open spec fn with_reg(s: MachineState, idx: int, v: WordType) -> MachineState {
    MachineState { regs: s.regs.update(idx, v), ..s }
}

/// The state after the unconditional trailing increment of the program
/// counter, wrapping on overflow.
pub open spec fn bump_pc(s: MachineState) -> MachineState {
    with_reg(s, PC as int, u16_specs::wrapping_add(s.regs[PC as int], 1))
}

/// Whether a jump with condition code `cond` (0 = always, 1 = if COMPARISON
/// set, 2 = if COMPARISON clear, 3 = if OVERFLOW set) is taken under `flags`.
/// Meaningful only for codes 0 through 3.
pub open spec fn jump_taken(flags: WordType, cond: u8) -> bool {
    if cond == 0 {
        true
    } else if cond == 1 {
        flags & FLAG_COMPARISON == FLAG_COMPARISON
    } else if cond == 2 {
        flags & FLAG_COMPARISON != FLAG_COMPARISON
    } else {
        flags & FLAG_OVERFLOW == FLAG_OVERFLOW
    }
}

/// A relative address: the program counter at fetch time plus a signed
/// 8-bit offset, wrapping modulo the word range.
pub open spec fn rel_addr(pc: WordType, offset: i8) -> WordType {
    u16_specs::wrapping_add_signed(pc, offset as i16)
}

/// What executing one decoded instruction does to the machine state, before
/// the trailing program-counter increment: the state after, paired with the
/// outcome. A fault leaves the state unchanged, except where noted.
pub open spec fn exec_instr(s: MachineState, i: Instruction) -> (MachineState, Result<
    (),
    CPUErr,
>) {
    match i {
        Instruction::Nop => (s, Ok(())),
        Instruction::PushRegister(r) => {
            let sp = s.regs[STACK_POINTER as int];
            let w = spec_set(s.stack, sp, s.regs[r as int]);
            if w.1 is Ok {
                (
                    MachineState {
                        stack: w.0,
                        ..with_reg(s, STACK_POINTER as int, (sp + 1) as WordType)
                    },
                    Ok(()),
                )
            } else {
                (s, Err(CPUErr::StackOverflow))
            }
        },
        Instruction::PopRegister(r) => {
            let sp = s.regs[STACK_POINTER as int];
            if sp == 0 {
                (s, Err(CPUErr::StackUnderflow))
            } else {
                let pos = (sp - 1) as WordType;
                let s1 = with_reg(s, STACK_POINTER as int, pos);
                match spec_get(s.stack, pos) {
                    Ok(v) => (with_reg(s1, r as int, v), Ok(())),
                    Err(_) => (s1, Err(CPUErr::Unreachable(arbitrary()))),
                }
            }
        },
        Instruction::PushRegisters => {
            let sp = s.regs[STACK_POINTER as int];
            let w = spec_set_range(s.stack, sp, s.regs.subrange(0, FLAGS as int));
            if w.1 is Ok {
                (
                    MachineState {
                        stack: w.0,
                        ..with_reg(s, STACK_POINTER as int, (sp + FLAGS) as WordType)
                    },
                    Ok(()),
                )
            } else {
                (s, Err(CPUErr::StackOverflow))
            }
        },
        Instruction::PopRegisters => {
            let sp = s.regs[STACK_POINTER as int];
            if sp < FLAGS as WordType {
                (s, Err(CPUErr::StackUnderflow))
            } else {
                let pos = (sp - FLAGS) as WordType;
                let s1 = with_reg(s, STACK_POINTER as int, pos);
                match spec_get_range(s.stack, pos, FLAGS as WordType) {
                    Ok(window) => (
                        MachineState {
                            regs: Seq::new(
                                16,
                                |j: int|
                                    if 0 <= j < FLAGS as int {
                                        window[j]
                                    } else {
                                        s1.regs[j]
                                    },
                            ),
                            ..s1
                        },
                        Ok(()),
                    ),
                    Err(_) => (s1, Err(CPUErr::Unreachable(arbitrary()))),
                }
            }
        },
        Instruction::Move(into, from) => (with_reg(s, into as int, s.regs[from as int]), Ok(())),
        Instruction::Load(into, src) => {
            match spec_get(s.mem, s.regs[src as int]) {
                Ok(v) => (with_reg(s, into as int, v), Ok(())),
                Err(e) => (s, Err(CPUErr::MemoryErr(e))),
            }
        },
        Instruction::Save(into, from) => {
            let w = spec_set(s.mem, s.regs[into as int], s.regs[from as int]);
            match w.1 {
                Ok(_) => (MachineState { mem: w.0, ..s }, Ok(())),
                Err(e) => (s, Err(CPUErr::MemoryErr(e))),
            }
        },
        Instruction::Add(into, from) => {
            let v1 = s.regs[into as int];
            let v2 = s.regs[from as int];
            let s1 = with_reg(s, into as int, u16_specs::wrapping_add(v1, v2));
            (
                with_reg(
                    s1,
                    FLAGS as int,
                    apply_flag(s1.regs[FLAGS as int], FLAG_OVERFLOW, v1 + v2 > WordType::MAX),
                ),
                Ok(()),
            )
        },
        Instruction::Subtract(into, from) => {
            let v1 = s.regs[into as int];
            let v2 = s.regs[from as int];
            let s1 = with_reg(s, into as int, u16_specs::wrapping_sub(v1, v2));
            (
                with_reg(
                    s1,
                    FLAGS as int,
                    apply_flag(s1.regs[FLAGS as int], FLAG_OVERFLOW, v1 < v2),
                ),
                Ok(()),
            )
        },
        Instruction::Multiply(into, from) => {
            let v1 = s.regs[into as int];
            let v2 = s.regs[from as int];
            let s1 = with_reg(s, into as int, u16_specs::wrapping_mul(v1, v2));
            (
                with_reg(
                    s1,
                    FLAGS as int,
                    apply_flag(s1.regs[FLAGS as int], FLAG_OVERFLOW, v1 * v2 > WordType::MAX),
                ),
                Ok(()),
            )
        },
        Instruction::Divide(into, from) => {
            let v1 = s.regs[into as int];
            let v2 = s.regs[from as int];
            if v2 == 0 {
                (s, Err(CPUErr::DivisionByZero))
            } else {
                let s1 = with_reg(s, into as int, v1 / v2);
                (
                    with_reg(
                        s1,
                        FLAGS as int,
                        apply_flag(s1.regs[FLAGS as int], FLAG_OVERFLOW, false),
                    ),
                    Ok(()),
                )
            }
        },
        Instruction::Equal(r1, r2) => (
            with_reg(
                s,
                FLAGS as int,
                apply_flag(
                    s.regs[FLAGS as int],
                    FLAG_COMPARISON,
                    s.regs[r1 as int] == s.regs[r2 as int],
                ),
            ),
            Ok(()),
        ),
        Instruction::NotEqual(r1, r2) => (
            with_reg(
                s,
                FLAGS as int,
                apply_flag(
                    s.regs[FLAGS as int],
                    FLAG_COMPARISON,
                    s.regs[r1 as int] != s.regs[r2 as int],
                ),
            ),
            Ok(()),
        ),
        Instruction::GreaterThan(r1, r2) => (
            with_reg(
                s,
                FLAGS as int,
                apply_flag(
                    s.regs[FLAGS as int],
                    FLAG_COMPARISON,
                    s.regs[r1 as int] > s.regs[r2 as int],
                ),
            ),
            Ok(()),
        ),
        Instruction::LessThan(r1, r2) => (
            with_reg(
                s,
                FLAGS as int,
                apply_flag(
                    s.regs[FLAGS as int],
                    FLAG_COMPARISON,
                    s.regs[r1 as int] < s.regs[r2 as int],
                ),
            ),
            Ok(()),
        ),
        Instruction::Xor(r1, r2) => {
            let v1 = s.regs[r1 as int];
            let v2 = s.regs[r2 as int];
            (
                with_reg(
                    s,
                    FLAGS as int,
                    apply_flag(
                        s.regs[FLAGS as int],
                        FLAG_COMPARISON,
                        (v1 > 0 && v2 > 0) || (v1 == 0 && v2 == 0),
                    ),
                ),
                Ok(()),
            )
        },
        Instruction::Not(r1) => (
            with_reg(
                s,
                FLAGS as int,
                apply_flag(s.regs[FLAGS as int], FLAG_COMPARISON, s.regs[r1 as int] == 0),
            ),
            Ok(()),
        ),
        Instruction::Jump(reg, cond) => {
            if cond > 3 {
                (s, Err(CPUErr::InvalidJumpCondition(cond)))
            } else if jump_taken(s.regs[FLAGS as int], cond) {
                (
                    with_reg(s, PC as int, u16_specs::wrapping_sub(s.regs[reg as int], 1)),
                    Ok(()),
                )
            } else {
                (s, Ok(()))
            }
        },
        Instruction::Interrupt(_) => (s, Ok(())),
        Instruction::BitShiftLeft(r1, r2) => {
            let v1 = s.regs[r1 as int];
            let amt = s.regs[r2 as int];
            let s1 = with_reg(s, r1 as int, u16_specs::wrapping_shl(v1, amt as u32));
            (
                with_reg(
                    s1,
                    FLAGS as int,
                    apply_flag(s1.regs[FLAGS as int], FLAG_OVERFLOW, amt >= 16),
                ),
                Ok(()),
            )
        },
        Instruction::BitShiftRight(r1, r2) => {
            let v1 = s.regs[r1 as int];
            let amt = s.regs[r2 as int];
            let s1 = with_reg(s, r1 as int, u16_specs::wrapping_shr(v1, amt as u32));
            (
                with_reg(
                    s1,
                    FLAGS as int,
                    apply_flag(s1.regs[FLAGS as int], FLAG_OVERFLOW, amt >= 16),
                ),
                Ok(()),
            )
        },
        Instruction::BitNot(r) => (with_reg(s, r as int, !s.regs[r as int]), Ok(())),
        Instruction::BitXor(r1, r2) => (
            with_reg(s, r1 as int, s.regs[r1 as int] ^ s.regs[r2 as int]),
            Ok(()),
        ),
        Instruction::BitAnd(r1, r2) => (
            with_reg(s, r1 as int, s.regs[r1 as int] & s.regs[r2 as int]),
            Ok(()),
        ),
        Instruction::BitOr(r1, r2) => (
            with_reg(s, r1 as int, s.regs[r1 as int] | s.regs[r2 as int]),
            Ok(()),
        ),
        Instruction::BitNor(r1, r2) => (
            with_reg(s, r1 as int, !(s.regs[r1 as int] | s.regs[r2 as int])),
            Ok(()),
        ),
        Instruction::LoadRelative(offset) => {
            match spec_get(s.mem, rel_addr(s.regs[PC as int], offset)) {
                Ok(v) => (with_reg(s, 0, v), Ok(())),
                Err(e) => (s, Err(CPUErr::MemoryErr(e))),
            }
        },
        Instruction::SaveRelative(offset) => {
            let w = spec_set(s.mem, rel_addr(s.regs[PC as int], offset), s.regs[0]);
            match w.1 {
                Ok(_) => (MachineState { mem: w.0, ..s }, Ok(())),
                Err(e) => (s, Err(CPUErr::MemoryErr(e))),
            }
        },
        Instruction::JumpRelative(offset, cond) => {
            if cond > 3 {
                (s, Err(CPUErr::InvalidJumpCondition(cond)))
            } else if jump_taken(s.regs[FLAGS as int], cond) {
                (with_reg(s, PC as int, rel_addr(s.regs[PC as int], offset)), Ok(()))
            } else {
                (s, Ok(()))
            }
        },
        Instruction::Invalid(_) => (s, Ok(())),
    }
}

/// What one `step` does to the machine state: fetch the word at the program
/// counter, decode and execute it, then unconditionally increment the
/// program counter by one, wrapping on overflow. A failed fetch first forces
/// the program counter to the maximum word.
pub open spec fn spec_step(s: MachineState) -> (MachineState, Result<(), CPUErr>) {
    match spec_get(s.mem, s.regs[PC as int]) {
        Ok(w) => {
            let r = exec_instr(s, spec_decode(w));
            (bump_pc(r.0), r.1)
        },
        Err(e) => (bump_pc(with_reg(s, PC as int, WORD_MAX)), Err(CPUErr::MemoryErr(e))),
    }
}

/// Whether an outcome agrees with the model's: equal, except that the
/// message carried by `Unreachable` is not pinned down.
pub open spec fn same_outcome(actual: Result<(), CPUErr>, model: Result<(), CPUErr>) -> bool {
    match (actual, model) {
        (Ok(()), Ok(())) => true,
        (Err(CPUErr::Unreachable(_)), Err(CPUErr::Unreachable(_))) => true,
        (Err(a), Err(m)) => a == m,
        _ => false,
    }
}

/// The execution engine. Owns its registers and stack memory; the main
/// memory is supplied at construction and reachable through `borrow_mem`.
pub struct CPU {
    registers: Vec<WordType>,
    stack: Memory,
    memory: Memory,
}

impl View for CPU {
    type V = MachineState;

    closed spec fn view(&self) -> MachineState {
        MachineState { regs: self.registers@, stack: self.stack@, mem: self.memory@ }
    }
}

impl CPU {
    /// The register file holds exactly sixteen words, and both memories keep
    /// lengths that fit in a word.
    pub open spec fn wf(self) -> bool {
        &&& self@.regs.len() == 16
        &&& self@.stack.len() <= WordType::MAX
        &&& self@.mem.len() <= WordType::MAX
    }

    /// A machine over `memory`, with all registers zero except the program
    /// counter, which starts at `pc`, and a zero-filled stack of
    /// `stack_size` words.
    pub fn new(memory: Memory, pc: WordType, stack_size: WordType) -> (cpu: CPU)
        requires
            memory.wf(),
        ensures
            cpu.wf(),
            cpu@.regs == Seq::new(16, |i: int| if i == PC as int { pc } else { 0u16 }),
            cpu@.stack == Seq::new(stack_size as nat, |i: int| 0u16),
            cpu@.mem == memory@,
    {
        let mut registers: Vec<WordType> = Vec::new();
        let mut i: usize = 0;
        while i < 16
            invariant
                i == registers@.len(),
                i <= 16,
                forall|j: int| 0 <= j < i ==> registers@[j] == 0u16,
            decreases 16 - i,
        {
            registers.push(0);
            i += 1;
        }
        let mut this = CPU { registers, stack: Memory::new(stack_size), memory };
        this.registers[PC] = pc;
        this.registers[STACK_POINTER] = 0;
        proof {
            assert(this@.regs =~= Seq::new(16, |j: int| if j == PC as int { pc } else { 0u16 }));
        }
        this
    }

    /// The main memory, for loading a program before execution and
    /// inspecting results afterward.
    pub fn borrow_mem(&mut self) -> (m: &mut Memory)
        requires
            old(self).wf(),
        ensures
            m@ == old(self)@.mem,
            m.wf(),
            final(self)@.regs == old(self)@.regs,
            final(self)@.stack == old(self)@.stack,
            final(self)@.mem == final(m)@,
            final(m).wf() ==> final(self).wf(),
    {
        &mut self.memory
    }

    /// Advances the machine by one instruction, as `spec_step` says: fetch,
    /// decode, execute, then unconditionally increment the program counter.
    pub fn step(&mut self) -> (r: Result<(), CPUErr>)
        requires
            old(self).wf(),
        ensures
            final(self).wf(),
            final(self)@ == spec_step(old(self)@).0,
            same_outcome(r, spec_step(old(self)@).1),
    {
        let pc = self.registers[PC];
        let res = match self.memory.get(pc) {
            Ok(instruction) => self.do_instruction(instruction),
            Err(err) => {
                self.registers[PC] = WORD_MAX;
                Err(CPUErr::MemoryErr(err))
            },
        };
        let fetched_pc = self.registers[PC];
        self.registers[PC] = fetched_pc.wrapping_add(1);
        res
    }

    /// Decodes and executes one fetched word, as `exec_instr` says, leaving
    /// the trailing program-counter increment to `step`.
    fn do_instruction(&mut self, instruction: WordType) -> (r: Result<(), CPUErr>)
        requires
            old(self).wf(),
        ensures
            final(self).wf(),
            final(self)@ == exec_instr(old(self)@, spec_decode(instruction)).0,
            same_outcome(r, exec_instr(old(self)@, spec_decode(instruction)).1),
    {
        proof {
            lemma_decode_wf(instruction);
        }
        match Instruction::decode(instruction) {
            Instruction::PushRegister(reg) => {
                let sp = self.registers[STACK_POINTER];
                let value = self.registers[reg as usize];
                match self.stack.set(sp, value) {
                    Ok(()) => {
                        self.registers[STACK_POINTER] = sp + 1;
                        Ok(())
                    },
                    Err(_) => Err(CPUErr::StackOverflow),
                }
            },
            Instruction::PopRegister(reg) => {
                let sp = self.registers[STACK_POINTER];
                if sp == 0 {
                    Err(CPUErr::StackUnderflow)
                } else {
                    let pos = sp - 1;
                    self.registers[STACK_POINTER] = pos;
                    match self.stack.get(pos) {
                        Ok(value) => {
                            self.registers[reg as usize] = value;
                            Ok(())
                        },
                        Err(_) => Err(
                            CPUErr::Unreachable(
                                "stack read failed after its bounds were checked".to_string(),
                            ),
                        ),
                    }
                }
            },
            Instruction::PushRegisters => {
                let sp = self.registers[STACK_POINTER];
                let bank = vstd::slice::slice_subrange(self.registers.as_slice(), 0, FLAGS);
                match self.stack.set_range(sp, bank) {
                    Ok(()) => {
                        self.registers[STACK_POINTER] = sp + FLAGS as WordType;
                        Ok(())
                    },
                    Err(_) => Err(CPUErr::StackOverflow),
                }
            },
            Instruction::PopRegisters => {
                let sp = self.registers[STACK_POINTER];
                if sp < FLAGS as WordType {
                    Err(CPUErr::StackUnderflow)
                } else {
                    let pos = sp - FLAGS as WordType;
                    self.registers[STACK_POINTER] = pos;
                    let ghost regs1 = self.registers@;
                    match self.stack.get_range(pos, FLAGS as WordType) {
                        Ok(window) => {
                            let mut i: usize = 0;
                            while i < FLAGS
                                invariant
                                    i <= FLAGS,
                                    window@.len() == FLAGS,
                                    self.registers@.len() == 16,
                                    self.stack == old(self).stack,
                                    self.memory == old(self).memory,
                                    forall|j: int| 0 <= j < i ==> self.registers@[j] == window@[j],
                                    forall|j: int|
                                        i <= j < 16 ==> self.registers@[j] == regs1[j],
                                decreases FLAGS - i,
                            {
                                self.registers[i] = window[i];
                                i += 1;
                            }
                            proof {
                                assert(self.registers@ =~= Seq::new(
                                    16,
                                    |j: int|
                                        if 0 <= j < FLAGS as int {
                                            window@[j]
                                        } else {
                                            regs1[j]
                                        },
                                ));
                            }
                            Ok(())
                        },
                        Err(_) => Err(
                            CPUErr::Unreachable(
                                "stack read failed after its bounds were checked".to_string(),
                            ),
                        ),
                    }
                }
            },
            Instruction::Move(into, from) => {
                self.registers[into as usize] = self.registers[from as usize];
                Ok(())
            },
            Instruction::Load(into, src) => {
                let pointer = self.registers[src as usize];
                match self.memory.get(pointer) {
                    Ok(value) => {
                        self.registers[into as usize] = value;
                        Ok(())
                    },
                    Err(err) => Err(CPUErr::MemoryErr(err)),
                }
            },
            Instruction::Save(into, from) => {
                let pointer = self.registers[into as usize];
                let value = self.registers[from as usize];
                match self.memory.set(pointer, value) {
                    Ok(()) => Ok(()),
                    Err(err) => Err(CPUErr::MemoryErr(err)),
                }
            },
            Instruction::Add(into, from) => {
                let v1 = self.registers[into as usize];
                let v2 = self.registers[from as usize];
                let overflow = (v1 as u32) + (v2 as u32) > WORD_MAX as u32;
                self.registers[into as usize] = v1.wrapping_add(v2);
                let f = self.registers[FLAGS];
                self.registers[FLAGS] = if overflow {
                    f | FLAG_OVERFLOW
                } else {
                    f & !FLAG_OVERFLOW
                };
                Ok(())
            },
            Instruction::Subtract(into, from) => {
                let v1 = self.registers[into as usize];
                let v2 = self.registers[from as usize];
                let overflow = v1 < v2;
                self.registers[into as usize] = v1.wrapping_sub(v2);
                let f = self.registers[FLAGS];
                self.registers[FLAGS] = if overflow {
                    f | FLAG_OVERFLOW
                } else {
                    f & !FLAG_OVERFLOW
                };
                Ok(())
            },
            Instruction::Multiply(into, from) => {
                let v1 = self.registers[into as usize];
                let v2 = self.registers[from as usize];
                proof {
                    assert(v1 as u32 * v2 as u32 <= 0xFFFE0001u32) by (nonlinear_arith)
                        requires
                            v1 <= 0xFFFF,
                            v2 <= 0xFFFF,
                    ;
                }
                let overflow = (v1 as u32) * (v2 as u32) > WORD_MAX as u32;
                self.registers[into as usize] = v1.wrapping_mul(v2);
                let f = self.registers[FLAGS];
                self.registers[FLAGS] = if overflow {
                    f | FLAG_OVERFLOW
                } else {
                    f & !FLAG_OVERFLOW
                };
                Ok(())
            },
            Instruction::Divide(into, from) => {
                let v1 = self.registers[into as usize];
                let v2 = self.registers[from as usize];
                if v2 == 0 {
                    Err(CPUErr::DivisionByZero)
                } else {
                    self.registers[into as usize] = v1 / v2;
                    let f = self.registers[FLAGS];
                    self.registers[FLAGS] = f & !FLAG_OVERFLOW;
                    Ok(())
                }
            },
            Instruction::Equal(r1, r2) => {
                let holds = self.registers[r1 as usize] == self.registers[r2 as usize];
                let f = self.registers[FLAGS];
                self.registers[FLAGS] = if holds {
                    f | FLAG_COMPARISON
                } else {
                    f & !FLAG_COMPARISON
                };
                Ok(())
            },
            Instruction::NotEqual(r1, r2) => {
                let holds = self.registers[r1 as usize] != self.registers[r2 as usize];
                let f = self.registers[FLAGS];
                self.registers[FLAGS] = if holds {
                    f | FLAG_COMPARISON
                } else {
                    f & !FLAG_COMPARISON
                };
                Ok(())
            },
            Instruction::GreaterThan(r1, r2) => {
                let holds = self.registers[r1 as usize] > self.registers[r2 as usize];
                let f = self.registers[FLAGS];
                self.registers[FLAGS] = if holds {
                    f | FLAG_COMPARISON
                } else {
                    f & !FLAG_COMPARISON
                };
                Ok(())
            },
            Instruction::LessThan(r1, r2) => {
                let holds = self.registers[r1 as usize] < self.registers[r2 as usize];
                let f = self.registers[FLAGS];
                self.registers[FLAGS] = if holds {
                    f | FLAG_COMPARISON
                } else {
                    f & !FLAG_COMPARISON
                };
                Ok(())
            },
            Instruction::Xor(r1, r2) => {
                let v1 = self.registers[r1 as usize];
                let v2 = self.registers[r2 as usize];
                let holds = (v1 > 0 && v2 > 0) || (v1 == 0 && v2 == 0);
                let f = self.registers[FLAGS];
                self.registers[FLAGS] = if holds {
                    f | FLAG_COMPARISON
                } else {
                    f & !FLAG_COMPARISON
                };
                Ok(())
            },
            Instruction::Not(r1) => {
                let holds = self.registers[r1 as usize] == 0;
                let f = self.registers[FLAGS];
                self.registers[FLAGS] = if holds {
                    f | FLAG_COMPARISON
                } else {
                    f & !FLAG_COMPARISON
                };
                Ok(())
            },
            Instruction::Jump(reg, cond) => {
                if cond > 3 {
                    Err(CPUErr::InvalidJumpCondition(cond))
                } else {
                    let f = self.registers[FLAGS];
                    let taken = if cond == 0 {
                        true
                    } else if cond == 1 {
                        f & FLAG_COMPARISON == FLAG_COMPARISON
                    } else if cond == 2 {
                        f & FLAG_COMPARISON != FLAG_COMPARISON
                    } else {
                        f & FLAG_OVERFLOW == FLAG_OVERFLOW
                    };
                    if taken {
                        let target = self.registers[reg as usize];
                        self.registers[PC] = target.wrapping_sub(1);
                    }
                    Ok(())
                }
            },
            Instruction::BitShiftLeft(r1, r2) => {
                let v1 = self.registers[r1 as usize];
                let amt = self.registers[r2 as usize];
                self.registers[r1 as usize] = v1.wrapping_shl(amt as u32);
                let f = self.registers[FLAGS];
                self.registers[FLAGS] = if amt >= 16 {
                    f | FLAG_OVERFLOW
                } else {
                    f & !FLAG_OVERFLOW
                };
                Ok(())
            },
            Instruction::BitShiftRight(r1, r2) => {
                let v1 = self.registers[r1 as usize];
                let amt = self.registers[r2 as usize];
                self.registers[r1 as usize] = v1.wrapping_shr(amt as u32);
                let f = self.registers[FLAGS];
                self.registers[FLAGS] = if amt >= 16 {
                    f | FLAG_OVERFLOW
                } else {
                    f & !FLAG_OVERFLOW
                };
                Ok(())
            },
            Instruction::BitNot(reg) => {
                let v = self.registers[reg as usize];
                self.registers[reg as usize] = !v;
                Ok(())
            },
            Instruction::BitXor(r1, r2) => {
                let result = self.registers[r1 as usize] ^ self.registers[r2 as usize];
                self.registers[r1 as usize] = result;
                Ok(())
            },
            Instruction::BitAnd(r1, r2) => {
                let result = self.registers[r1 as usize] & self.registers[r2 as usize];
                self.registers[r1 as usize] = result;
                Ok(())
            },
            Instruction::BitOr(r1, r2) => {
                let result = self.registers[r1 as usize] | self.registers[r2 as usize];
                self.registers[r1 as usize] = result;
                Ok(())
            },
            Instruction::BitNor(r1, r2) => {
                let result = self.registers[r1 as usize] | self.registers[r2 as usize];
                self.registers[r1 as usize] = !result;
                Ok(())
            },
            Instruction::LoadRelative(offset) => {
                let position = self.registers[PC].wrapping_add_signed(offset as i16);
                match self.memory.get(position) {
                    Ok(value) => {
                        self.registers[0] = value;
                        Ok(())
                    },
                    Err(err) => Err(CPUErr::MemoryErr(err)),
                }
            },
            Instruction::SaveRelative(offset) => {
                let position = self.registers[PC].wrapping_add_signed(offset as i16);
                let value = self.registers[0];
                match self.memory.set(position, value) {
                    Ok(()) => Ok(()),
                    Err(err) => Err(CPUErr::MemoryErr(err)),
                }
            },
            Instruction::JumpRelative(offset, cond) => {
                if cond > 3 {
                    Err(CPUErr::InvalidJumpCondition(cond))
                } else {
                    let f = self.registers[FLAGS];
                    let taken = if cond == 0 {
                        true
                    } else if cond == 1 {
                        f & FLAG_COMPARISON == FLAG_COMPARISON
                    } else if cond == 2 {
                        f & FLAG_COMPARISON != FLAG_COMPARISON
                    } else {
                        f & FLAG_OVERFLOW == FLAG_OVERFLOW
                    };
                    if taken {
                        let position = self.registers[PC].wrapping_add_signed(offset as i16);
                        self.registers[PC] = position;
                    }
                    Ok(())
                }
            },
            Instruction::Nop | Instruction::Interrupt(_) | Instruction::Invalid(_) => Ok(()),
        }
    }
}

/// Setting or clearing one flag bit leaves the other flag bit as it was,
/// and the written bit reads back as written.
proof fn lemma_flag_bits(f: WordType)
    by (bit_vector)
    ensures
        (f | 0x1) & 0x1 == 0x1,
        (f & !0x1) & 0x1 == 0x0,
        (f | 0x2) & 0x2 == 0x2,
        (f & !0x2) & 0x2 == 0x0,
        (f | 0x1) & 0x2 == f & 0x2,
        (f & !0x1) & 0x2 == f & 0x2,
        (f | 0x2) & 0x1 == f & 0x1,
        (f & !0x2) & 0x1 == f & 0x1,
{
}

/// ADD, SUB and MUL set the OVERFLOW flag exactly when the 16-bit operation
/// overflowed, and clear it otherwise.
pub proof fn lemma_arithmetic_overflow_flag(s: MachineState, a: u8, b: u8)
    requires
        s.regs.len() == 16,
        a < 16,
        b < 16,
    ensures
        flag_set(exec_instr(s, Instruction::Add(a, b)).0.regs[FLAGS as int], FLAG_OVERFLOW)
            <==> s.regs[a as int] + s.regs[b as int] > WordType::MAX,
        flag_set(exec_instr(s, Instruction::Subtract(a, b)).0.regs[FLAGS as int], FLAG_OVERFLOW)
            <==> s.regs[a as int] < s.regs[b as int],
        flag_set(exec_instr(s, Instruction::Multiply(a, b)).0.regs[FLAGS as int], FLAG_OVERFLOW)
            <==> s.regs[a as int] * s.regs[b as int] > WordType::MAX,
{
    let v1 = s.regs[a as int];
    let v2 = s.regs[b as int];
    lemma_flag_bits(with_reg(s, a as int, u16_specs::wrapping_add(v1, v2)).regs[FLAGS as int]);
    lemma_flag_bits(with_reg(s, a as int, u16_specs::wrapping_sub(v1, v2)).regs[FLAGS as int]);
    lemma_flag_bits(with_reg(s, a as int, u16_specs::wrapping_mul(v1, v2)).regs[FLAGS as int]);
}

/// DIV clears the OVERFLOW flag whenever it succeeds, and never sets it:
/// on a zero divisor the flags are left untouched.
pub proof fn lemma_divide_never_sets_overflow(s: MachineState, a: u8, b: u8)
    requires
        s.regs.len() == 16,
        a < 16,
        b < 16,
    ensures
        s.regs[b as int] != 0 ==> !flag_set(
            exec_instr(s, Instruction::Divide(a, b)).0.regs[FLAGS as int],
            FLAG_OVERFLOW,
        ),
        flag_set(exec_instr(s, Instruction::Divide(a, b)).0.regs[FLAGS as int], FLAG_OVERFLOW)
            ==> flag_set(s.regs[FLAGS as int], FLAG_OVERFLOW),
{
    let v1 = s.regs[a as int];
    let v2 = s.regs[b as int];
    if v2 != 0 {
        lemma_flag_bits(with_reg(s, a as int, v1 / v2).regs[FLAGS as int]);
    }
}

/// The comparison instructions set the COMPARISON flag exactly when their
/// predicate holds, clear it otherwise, and write no register but FLAGS.
pub proof fn lemma_comparisons_toggle_flag(s: MachineState, a: u8, b: u8)
    requires
        s.regs.len() == 16,
        a < 16,
        b < 16,
    ensures
        flag_set(exec_instr(s, Instruction::Equal(a, b)).0.regs[FLAGS as int], FLAG_COMPARISON)
            <==> s.regs[a as int] == s.regs[b as int],
        flag_set(exec_instr(s, Instruction::NotEqual(a, b)).0.regs[FLAGS as int], FLAG_COMPARISON)
            <==> s.regs[a as int] != s.regs[b as int],
        flag_set(
            exec_instr(s, Instruction::GreaterThan(a, b)).0.regs[FLAGS as int],
            FLAG_COMPARISON,
        ) <==> s.regs[a as int] > s.regs[b as int],
        flag_set(exec_instr(s, Instruction::LessThan(a, b)).0.regs[FLAGS as int], FLAG_COMPARISON)
            <==> s.regs[a as int] < s.regs[b as int],
        forall|j: int|
            0 <= j < 16 && j != FLAGS as int ==> exec_instr(
                s,
                Instruction::Equal(a, b),
            ).0.regs[j] == s.regs[j] && exec_instr(s, Instruction::NotEqual(a, b)).0.regs[j]
                == s.regs[j] && exec_instr(s, Instruction::GreaterThan(a, b)).0.regs[j]
                == s.regs[j] && exec_instr(s, Instruction::LessThan(a, b)).0.regs[j] == s.regs[j],
{
    lemma_flag_bits(s.regs[FLAGS as int]);
}

/// The bitwise-logic instructions never alter the FLAGS register, as long
/// as it is not itself the destination.
pub proof fn lemma_bitwise_leaves_flags(s: MachineState, a: u8, b: u8)
    requires
        s.regs.len() == 16,
        a < 16,
        b < 16,
        a != FLAGS as u8,
    ensures
        exec_instr(s, Instruction::BitNot(a)).0.regs[FLAGS as int] == s.regs[FLAGS as int],
        exec_instr(s, Instruction::BitXor(a, b)).0.regs[FLAGS as int] == s.regs[FLAGS as int],
        exec_instr(s, Instruction::BitAnd(a, b)).0.regs[FLAGS as int] == s.regs[FLAGS as int],
        exec_instr(s, Instruction::BitOr(a, b)).0.regs[FLAGS as int] == s.regs[FLAGS as int],
        exec_instr(s, Instruction::BitNor(a, b)).0.regs[FLAGS as int] == s.regs[FLAGS as int],
{
}

/// A push followed by a pop of the same register succeeds whenever the
/// stack has room, restores the register file exactly — the popped register
/// and the stack pointer included — and leaves the main memory untouched.
pub proof fn lemma_push_pop_roundtrip(s: MachineState, r: u8)
    requires
        s.regs.len() == 16,
        r < 16,
        s.stack.len() <= WordType::MAX,
        (s.regs[STACK_POINTER as int] as int) < s.stack.len(),
    ensures
        exec_instr(s, Instruction::PushRegister(r)).1 == Ok::<(), CPUErr>(()),
        exec_instr(
            exec_instr(s, Instruction::PushRegister(r)).0,
            Instruction::PopRegister(r),
        ).1 == Ok::<(), CPUErr>(()),
        exec_instr(
            exec_instr(s, Instruction::PushRegister(r)).0,
            Instruction::PopRegister(r),
        ).0.regs == s.regs,
        exec_instr(
            exec_instr(s, Instruction::PushRegister(r)).0,
            Instruction::PopRegister(r),
        ).0.mem == s.mem,
{
    let pushed = exec_instr(s, Instruction::PushRegister(r)).0;
    let popped = exec_instr(pushed, Instruction::PopRegister(r)).0;
    assert(popped.regs =~= s.regs);
}

/// A push at a full stack fails with StackOverflow and changes nothing; a
/// pop at stack pointer zero fails with StackUnderflow and changes nothing.
pub proof fn lemma_stack_fault_changes_nothing(s: MachineState, r: u8)
    requires
        s.regs.len() == 16,
        r < 16,
    ensures
        s.regs[STACK_POINTER as int] >= s.stack.len() ==> exec_instr(
            s,
            Instruction::PushRegister(r),
        ) == (s, Err::<(), CPUErr>(CPUErr::StackOverflow)),
        s.regs[STACK_POINTER as int] == 0 ==> exec_instr(s, Instruction::PopRegister(r)) == (
            s,
            Err::<(), CPUErr>(CPUErr::StackUnderflow),
        ),
{
}

/// An absolute jump under the always-true condition leaves the program
/// counter exactly at the register's value once the step completes — not
/// one below it, and not one above it.
pub proof fn lemma_absolute_jump_lands_exactly(s: MachineState, reg: u8)
    requires
        s.regs.len() == 16,
        (s.regs[PC as int] as int) < s.mem.len(),
        spec_decode(s.mem[s.regs[PC as int] as int]) == Instruction::Jump(reg, 0),
    ensures
        spec_step(s).1 == Ok::<(), CPUErr>(()),
        spec_step(s).0.regs[PC as int] == s.regs[reg as int],
{
    lemma_decode_wf(s.mem[s.regs[PC as int] as int]);
}

} // verus!

