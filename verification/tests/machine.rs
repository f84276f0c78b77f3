use vm16::cpu::CPU;
use vm16::cpu::CPUErr;
use vm16::cpu::WordType;
use vm16::instruction::Instruction;
use vm16::memory::Memory;

/// Builds a machine whose main memory holds exactly `words`, with the
/// program counter at zero and a stack of `stack_size` words.
fn machine(words: &[WordType], stack_size: WordType) -> CPU {
    let mut cpu = CPU::new(Memory::new(words.len() as WordType), 0, stack_size);
    assert_eq!(Ok(()), cpu.borrow_mem().set_range(0, words));
    cpu
}

fn run(cpu: &mut CPU, steps: usize) {
    for _ in 0..steps {
        if cpu.step().is_err() {
            break;
        }
    }
}

#[test]
fn relative_jump_program_adds_two_literals() {
    // A nine-word memory: a relative jump skips two data words; the program
    // loads them, adds them, and stores the sum back over the first data
    // word. After as many steps as there are words, the cell holds the sum.
    let program: [WordType; 9] = [
        Instruction::JumpRelative(3, 0).encode(),
        0,
        34,
        53,
        Instruction::LoadRelative(-2).encode(),
        Instruction::Move(1, 0).encode(),
        Instruction::LoadRelative(-3).encode(),
        Instruction::Add(0, 1).encode(),
        Instruction::SaveRelative(-7).encode(),
    ];
    let mut cpu = machine(&program, 4);
    run(&mut cpu, program.len());
    assert_eq!(Ok(87), cpu.borrow_mem().get(1));
}

#[test]
fn absolute_jump_lands_exactly_at_the_register_value() {
    // Register 0 is loaded with 5; the absolute jump under the always-true
    // condition must leave the program counter at exactly 5, where a
    // relative save overwrites its own cell with register 0. Had the jump
    // landed one below, the no-op at 4 would run instead; one above, the
    // fetch at 6 would fail; either way cell 5 would keep its word.
    let program: [WordType; 6] = [
        Instruction::LoadRelative(2).encode(),
        Instruction::Jump(0, 0).encode(),
        5,
        0,
        0,
        Instruction::SaveRelative(0).encode(),
    ];
    let mut cpu = machine(&program, 4);
    assert!(cpu.step().is_ok());
    assert!(cpu.step().is_ok());
    assert!(cpu.step().is_ok());
    assert_eq!(Ok(5), cpu.borrow_mem().get(5));
}

/// Runs a two-operand instruction on the literals `left` and `right`, then
/// stores the FLAGS register into the last memory cell and returns it.
fn flags_after(op: Instruction, left: WordType, right: WordType) -> WordType {
    let program: [WordType; 9] = [
        Instruction::LoadRelative(7).encode(),  // register 0 <- left
        Instruction::Move(1, 0).encode(),       // register 1 <- left
        Instruction::LoadRelative(6).encode(),  // register 0 <- right
        Instruction::Move(2, 0).encode(),       // register 2 <- right
        op.encode(),                            // acts on registers 1 and 2
        Instruction::Move(0, 13).encode(),      // register 0 <- FLAGS
        Instruction::SaveRelative(2).encode(),  // cell 8 <- register 0
        left,
        right,
    ];
    let mut cpu = machine(&program, 4);
    run(&mut cpu, 7);
    cpu.borrow_mem().get(8).unwrap()
}

const OVERFLOW: WordType = 0x0001;
const COMPARISON: WordType = 0x0002;

#[test]
fn add_sets_overflow_exactly_on_overflow() {
    assert_eq!(OVERFLOW, flags_after(Instruction::Add(1, 2), 0xFFFF, 0xFFFF));
    assert_eq!(OVERFLOW, flags_after(Instruction::Add(1, 2), 0xFFFF, 1));
    assert_eq!(0, flags_after(Instruction::Add(1, 2), 2, 3));
    assert_eq!(0, flags_after(Instruction::Add(1, 2), 0xFFFE, 1));
}

#[test]
fn subtract_sets_overflow_exactly_on_underflow() {
    assert_eq!(OVERFLOW, flags_after(Instruction::Subtract(1, 2), 0, 1));
    assert_eq!(OVERFLOW, flags_after(Instruction::Subtract(1, 2), 5, 6));
    assert_eq!(0, flags_after(Instruction::Subtract(1, 2), 6, 6));
    assert_eq!(0, flags_after(Instruction::Subtract(1, 2), 6, 5));
}

#[test]
fn multiply_sets_overflow_exactly_on_overflow() {
    assert_eq!(OVERFLOW, flags_after(Instruction::Multiply(1, 2), 0x100, 0x100));
    assert_eq!(0, flags_after(Instruction::Multiply(1, 2), 0xFF, 0xFF));
    assert_eq!(0, flags_after(Instruction::Multiply(1, 2), 0xFFFF, 0));
}

#[test]
fn divide_clears_overflow() {
    // An overflowing add first sets the flag; the division must clear it.
    let program: [WordType; 9] = [
        Instruction::LoadRelative(7).encode(),  // register 0 <- 0xFFFF
        Instruction::Move(1, 0).encode(),
        Instruction::Add(1, 1).encode(),        // sets OVERFLOW
        Instruction::LoadRelative(5).encode(),  // register 0 <- 7 (divisor)
        Instruction::Divide(1, 0).encode(),     // clears OVERFLOW
        Instruction::Move(0, 13).encode(),
        Instruction::SaveRelative(2).encode(),  // cell 8 <- FLAGS
        0xFFFF,
        7,
    ];
    let mut cpu = machine(&program, 4);
    run(&mut cpu, 7);
    assert_eq!(Ok(0), cpu.borrow_mem().get(8));
}

#[test]
fn divide_by_zero_reports_a_fault() {
    let program: [WordType; 1] = [Instruction::Divide(0, 1).encode()];
    let mut cpu = machine(&program, 4);
    assert!(matches!(cpu.step(), Err(CPUErr::DivisionByZero)));
}

#[test]
fn comparisons_toggle_the_comparison_flag() {
    assert_eq!(COMPARISON, flags_after(Instruction::Equal(1, 2), 9, 9));
    assert_eq!(0, flags_after(Instruction::Equal(1, 2), 9, 8));
    assert_eq!(COMPARISON, flags_after(Instruction::NotEqual(1, 2), 9, 8));
    assert_eq!(0, flags_after(Instruction::NotEqual(1, 2), 9, 9));
    assert_eq!(COMPARISON, flags_after(Instruction::GreaterThan(1, 2), 9, 8));
    assert_eq!(0, flags_after(Instruction::GreaterThan(1, 2), 8, 9));
    assert_eq!(0, flags_after(Instruction::GreaterThan(1, 2), 9, 9));
    assert_eq!(COMPARISON, flags_after(Instruction::LessThan(1, 2), 8, 9));
    assert_eq!(0, flags_after(Instruction::LessThan(1, 2), 9, 8));
    assert_eq!(COMPARISON, flags_after(Instruction::Xor(1, 2), 4, 5));
    assert_eq!(COMPARISON, flags_after(Instruction::Xor(1, 2), 0, 0));
    assert_eq!(0, flags_after(Instruction::Xor(1, 2), 0, 5));
    assert_eq!(COMPARISON, flags_after(Instruction::Not(1), 0, 0));
    assert_eq!(0, flags_after(Instruction::Not(1), 3, 0));
}

#[test]
fn bitwise_logic_never_alters_flags() {
    // A comparison first sets the COMPARISON flag; the bitwise instruction
    // must leave the whole FLAGS register as it was.
    for op in [
        Instruction::BitXor(1, 2),
        Instruction::BitAnd(1, 2),
        Instruction::BitOr(1, 2),
        Instruction::BitNor(1, 2),
        Instruction::BitNot(1),
    ] {
        let program: [WordType; 10] = [
            Instruction::LoadRelative(8).encode(),
            Instruction::Move(1, 0).encode(),
            Instruction::LoadRelative(7).encode(),
            Instruction::Move(2, 0).encode(),
            Instruction::Equal(1, 1).encode(),  // sets COMPARISON
            op.encode(),
            Instruction::Move(0, 13).encode(),
            Instruction::SaveRelative(2).encode(),  // cell 9 <- FLAGS
            12,
            10,
        ];
        let mut cpu = machine(&program, 4);
        run(&mut cpu, 8);
        assert_eq!(Ok(COMPARISON), cpu.borrow_mem().get(9));
    }
}

#[test]
fn shifts_set_overflow_exactly_when_the_amount_reaches_the_width() {
    assert_eq!(OVERFLOW, flags_after(Instruction::BitShiftLeft(1, 2), 1, 16));
    assert_eq!(0, flags_after(Instruction::BitShiftLeft(1, 2), 1, 15));
    assert_eq!(OVERFLOW, flags_after(Instruction::BitShiftRight(1, 2), 1, 17));
    assert_eq!(0, flags_after(Instruction::BitShiftRight(1, 2), 0x8000, 15));
}

/// Runs a two-operand register instruction on the literals `left` and
/// `right` and returns the value left in the destination register.
fn result_of(op: Instruction, left: WordType, right: WordType) -> WordType {
    let program: [WordType; 9] = [
        Instruction::LoadRelative(7).encode(),
        Instruction::Move(1, 0).encode(),
        Instruction::LoadRelative(6).encode(),
        Instruction::Move(2, 0).encode(),
        op.encode(),
        Instruction::Move(0, 1).encode(),
        Instruction::SaveRelative(2).encode(),  // cell 8 <- register 1
        left,
        right,
    ];
    let mut cpu = machine(&program, 4);
    run(&mut cpu, 7);
    cpu.borrow_mem().get(8).unwrap()
}

#[test]
fn arithmetic_and_bitwise_results() {
    assert_eq!(87, result_of(Instruction::Add(1, 2), 34, 53));
    assert_eq!(0xFFFE, result_of(Instruction::Add(1, 2), 0xFFFF, 0xFFFF));
    assert_eq!(0xFFFF, result_of(Instruction::Subtract(1, 2), 0, 1));
    assert_eq!(6, result_of(Instruction::Multiply(1, 2), 2, 3));
    assert_eq!(5, result_of(Instruction::Divide(1, 2), 17, 3));
    assert_eq!(0b0110, result_of(Instruction::BitXor(1, 2), 0b1100, 0b1010));
    assert_eq!(0b1000, result_of(Instruction::BitAnd(1, 2), 0b1100, 0b1010));
    assert_eq!(0b1110, result_of(Instruction::BitOr(1, 2), 0b1100, 0b1010));
    assert_eq!(!0b1110, result_of(Instruction::BitNor(1, 2), 0b1100, 0b1010));
    assert_eq!(0b1000, result_of(Instruction::BitShiftLeft(1, 2), 0b0001, 3));
    assert_eq!(0b0001, result_of(Instruction::BitShiftRight(1, 2), 0b1000, 3));
    assert_eq!(!5, result_of(Instruction::BitNot(1), 5, 0));
}

#[test]
fn push_then_pop_restores_register_and_stack_pointer() {
    // Push register 0 (holding 42), clobber it, pop it into register 1,
    // and store that: the original value must come back. The stack has a
    // single slot, so the push-pop pair working at all on slot zero, with
    // the pop succeeding, shows the stack pointer moved up and back.
    let program: [WordType; 9] = [
        Instruction::LoadRelative(7).encode(),   // register 0 <- 42
        Instruction::PushRegister(0).encode(),
        Instruction::LoadRelative(6).encode(),   // register 0 <- 9
        Instruction::PopRegister(1).encode(),    // register 1 <- 42 again
        Instruction::Move(0, 1).encode(),
        Instruction::SaveRelative(3).encode(),   // cell 8 <- register 0
        0,
        42,
        9,
    ];
    let mut cpu = machine(&program, 1);
    run(&mut cpu, 6);
    assert_eq!(Ok(42), cpu.borrow_mem().get(8));
}

#[test]
fn push_at_a_full_stack_overflows_without_moving_the_stack_pointer() {
    // With a single stack slot, the second push must overflow; after the
    // failed push a pop still returns the first value, so the failed push
    // moved nothing.
    let program: [WordType; 8] = [
        Instruction::LoadRelative(6).encode(),   // register 0 <- 42
        Instruction::PushRegister(0).encode(),
        Instruction::PushRegister(0).encode(),   // must overflow
        Instruction::PopRegister(1).encode(),
        Instruction::Move(0, 1).encode(),
        Instruction::SaveRelative(2).encode(),   // cell 7 <- register 0
        42,
        0,
    ];
    let mut cpu = machine(&program, 1);
    assert!(cpu.step().is_ok());
    assert!(cpu.step().is_ok());
    assert!(matches!(cpu.step(), Err(CPUErr::StackOverflow)));
    assert!(cpu.step().is_ok());
    assert!(cpu.step().is_ok());
    assert!(cpu.step().is_ok());
    assert_eq!(Ok(42), cpu.borrow_mem().get(7));
}

#[test]
fn pop_at_stack_pointer_zero_underflows() {
    let program: [WordType; 2] = [
        Instruction::PopRegister(0).encode(),
        Instruction::PopRegister(0).encode(),
    ];
    let mut cpu = machine(&program, 4);
    assert!(matches!(cpu.step(), Err(CPUErr::StackUnderflow)));
    // The failed pop left the stack pointer at zero: popping again fails
    // the same way instead of reading below the stack.
    assert!(matches!(cpu.step(), Err(CPUErr::StackUnderflow)));
}

#[test]
fn push_all_then_pop_all_restores_the_register_bank() {
    let program: [WordType; 10] = [
        Instruction::LoadRelative(8).encode(),   // register 0 <- 11
        Instruction::Move(5, 0).encode(),        // register 5 <- 11
        Instruction::PushRegisters.encode(),
        Instruction::LoadRelative(6).encode(),   // register 0 <- 77
        Instruction::Move(5, 0).encode(),        // register 5 <- 77
        Instruction::PopRegisters.encode(),      // bank restored
        Instruction::Move(0, 5).encode(),
        Instruction::SaveRelative(2).encode(),   // cell 9 <- register 5
        11,
        77,
    ];
    let mut cpu = machine(&program, 13);
    run(&mut cpu, 8);
    assert_eq!(Ok(11), cpu.borrow_mem().get(9));
}

#[test]
fn push_all_without_room_overflows() {
    let program: [WordType; 1] = [Instruction::PushRegisters.encode()];
    let mut cpu = machine(&program, 12);  // one word short of the bank
    assert!(matches!(cpu.step(), Err(CPUErr::StackOverflow)));
}

#[test]
fn pop_all_without_a_full_bank_underflows() {
    let program: [WordType; 1] = [Instruction::PopRegisters.encode()];
    let mut cpu = machine(&program, 13);
    assert!(matches!(cpu.step(), Err(CPUErr::StackUnderflow)));
}

#[test]
fn unknown_jump_condition_is_a_fault() {
    let program: [WordType; 2] = [
        Instruction::Jump(0, 4).encode(),
        Instruction::JumpRelative(1, 5).encode(),
    ];
    let mut cpu = machine(&program, 4);
    assert!(matches!(cpu.step(), Err(CPUErr::InvalidJumpCondition(4))));
    assert!(matches!(cpu.step(), Err(CPUErr::InvalidJumpCondition(5))));
}

#[test]
fn fetch_past_the_end_reports_the_memory_fault() {
    let program: [WordType; 1] = [Instruction::Nop.encode()];
    let mut cpu = machine(&program, 4);
    assert!(cpu.step().is_ok());
    match cpu.step() {
        Err(CPUErr::MemoryErr(e)) => {
            assert_eq!(vm16::memory::MemoryErr::PointerOutOfRange(1, 1), e);
        },
        other => panic!("expected a memory fault, got {:?}", other),
    }
}

#[test]
fn untaken_conditional_jumps_fall_through() {
    // COMPARISON is clear, so the jump-if-set falls through to the save.
    let program: [WordType; 4] = [
        Instruction::JumpRelative(2, 1).encode(),  // not taken
        Instruction::SaveRelative(2).encode(),     // cell 3 <- register 0 (= 0)
        Instruction::Nop.encode(),
        0xBEEF,
    ];
    let mut cpu = machine(&program, 4);
    assert!(cpu.step().is_ok());
    assert!(cpu.step().is_ok());
    assert_eq!(Ok(0), cpu.borrow_mem().get(3));
}

#[test]
fn interrupt_and_invalid_words_execute_as_noops() {
    let program: [WordType; 3] = [
        Instruction::Interrupt(200).encode(),
        20,  // a reserved opcode: decodes to Invalid
        Instruction::SaveRelative(0).encode(),  // overwrites itself with 0
    ];
    let mut cpu = machine(&program, 4);
    assert!(cpu.step().is_ok());
    assert!(cpu.step().is_ok());
    assert!(cpu.step().is_ok());
    assert_eq!(Ok(0), cpu.borrow_mem().get(2));
}

#[test]
fn jump_if_comparison_set_is_taken_after_an_equal() {
    let program: [WordType; 6] = [
        Instruction::Equal(0, 0).encode(),         // sets COMPARISON
        Instruction::JumpRelative(2, 1).encode(),  // taken: lands at 4
        Instruction::SaveRelative(2).encode(),     // skipped
        Instruction::Nop.encode(),
        Instruction::SaveRelative(1).encode(),     // cell 5 <- register 0 (= 0)
        0x1234,
    ];
    let mut cpu = machine(&program, 4);
    assert!(cpu.step().is_ok());
    assert!(cpu.step().is_ok());
    assert!(cpu.step().is_ok());
    assert_eq!(Ok(0), cpu.borrow_mem().get(5));
}

#[test]
fn jump_if_comparison_clear_is_taken_on_a_fresh_machine() {
    let program: [WordType; 5] = [
        Instruction::JumpRelative(1, 2).encode(),  // taken: lands at 2
        Instruction::SaveRelative(3).encode(),     // skipped; would hit cell 4
        Instruction::SaveRelative(1).encode(),     // cell 3 <- register 0 (= 0)
        0xAAAA,
        0xBBBB,
    ];
    let mut cpu = machine(&program, 4);
    assert!(cpu.step().is_ok());
    assert!(cpu.step().is_ok());
    assert_eq!(Ok(0), cpu.borrow_mem().get(3));
    assert_eq!(Ok(0xBBBB), cpu.borrow_mem().get(4));
}

#[test]
fn jump_if_overflow_set_is_taken_after_an_overflowing_add() {
    let program: [WordType; 7] = [
        Instruction::LoadRelative(5).encode(),     // register 0 <- 0xFFFF
        Instruction::Move(1, 0).encode(),
        Instruction::Add(1, 1).encode(),           // sets OVERFLOW
        Instruction::JumpRelative(2, 3).encode(),  // taken: lands at 6
        Instruction::Nop.encode(),
        0xFFFF,
        Instruction::SaveRelative(0).encode(),     // cell 6 <- register 0
    ];
    let mut cpu = machine(&program, 4);
    for _ in 0..5 {
        assert!(cpu.step().is_ok());
    }
    assert_eq!(Ok(0xFFFF), cpu.borrow_mem().get(6));
}
