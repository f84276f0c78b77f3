use vm16::cpu::WordType;
use vm16::instruction::Instruction as Subject;

#[test]
fn from_word_type() {
    assert_eq!(Subject::Nop, Subject::decode(0b0000000000000000));
    assert_eq!(Subject::PushRegister(1), Subject::decode(0b0000000000100001));
    assert_eq!(Subject::PopRegister(1), Subject::decode(0b0000000000100010));
    assert_eq!(Subject::PushRegisters, Subject::decode(0b0000000000000011));
    assert_eq!(Subject::PopRegisters, Subject::decode(0b0000000000000100));
    assert_eq!(Subject::Move(1, 1), Subject::decode(0b0000001000100101));
    assert_eq!(Subject::Load(1, 1), Subject::decode(0b0000001000100110));
    assert_eq!(Subject::Save(1, 1), Subject::decode(0b0000001000100111));
    assert_eq!(Subject::Add(1, 1), Subject::decode(0b0000001000101000));
    assert_eq!(Subject::Subtract(1, 1), Subject::decode(0b0000001000101001));
    assert_eq!(Subject::Multiply(1, 1), Subject::decode(0b0000001000101010));
    assert_eq!(Subject::Divide(1, 1), Subject::decode(0b0000001000101011));
    assert_eq!(Subject::Equal(1, 1), Subject::decode(0b0000001000101100));
    assert_eq!(Subject::NotEqual(1, 1), Subject::decode(0b0000001000101101));
    assert_eq!(Subject::GreaterThan(1, 1), Subject::decode(0b0000001000101110));
    assert_eq!(Subject::LessThan(1, 1), Subject::decode(0b0000001000101111));
    assert_eq!(Subject::Xor(1, 1), Subject::decode(0b0000001000110000));
    assert_eq!(Subject::Not(1), Subject::decode(0b0000000000110001));
    assert_eq!(Subject::Jump(1, 0), Subject::decode(0b0000000000110010));
    assert_eq!(Subject::Interrupt(1), Subject::decode(0b0000000100110011));
    assert_eq!(Subject::BitShiftLeft(1, 1), Subject::decode(0b0000001000110101));
    assert_eq!(Subject::BitShiftRight(1, 1), Subject::decode(0b0000001000110110));
    assert_eq!(Subject::BitNot(1), Subject::decode(0b0000000000110111));
    assert_eq!(Subject::BitXor(1, 1), Subject::decode(0b0000001000111000));
    assert_eq!(Subject::BitAnd(1, 1), Subject::decode(0b0000001000111001));
    assert_eq!(Subject::BitOr(1, 1), Subject::decode(0b0000001000111010));
    assert_eq!(Subject::BitNor(1, 1), Subject::decode(0b0000001000111011));
    assert_eq!(Subject::LoadRelative(-2), Subject::decode(0b1111111000111100));
    assert_eq!(Subject::JumpRelative(-2, 1), Subject::decode(0b1111111000111101));
}

#[test]
fn from_instruction() {
    assert_eq!(0b0000000000000000, Subject::Nop.encode());
    assert_eq!(0b0000000000100001, Subject::PushRegister(1).encode());
    assert_eq!(0b0000000000100010, Subject::PopRegister(1).encode());
    assert_eq!(0b0000000000000011, Subject::PushRegisters.encode());
    assert_eq!(0b0000000000000100, Subject::PopRegisters.encode());
    assert_eq!(0b0000001000100101, Subject::Move(1, 1).encode());
    assert_eq!(0b0000001000100110, Subject::Load(1, 1).encode());
    assert_eq!(0b0000001000100111, Subject::Save(1, 1).encode());
    assert_eq!(0b0000001000101000, Subject::Add(1, 1).encode());
    assert_eq!(0b0000001000101001, Subject::Subtract(1, 1).encode());
    assert_eq!(0b0000001000101010, Subject::Multiply(1, 1).encode());
    assert_eq!(0b0000001000101011, Subject::Divide(1, 1).encode());
    assert_eq!(0b0000001000101100, Subject::Equal(1, 1).encode());
    assert_eq!(0b0000001000101101, Subject::NotEqual(1, 1).encode());
    assert_eq!(0b0000001000101110, Subject::GreaterThan(1, 1).encode());
    assert_eq!(0b0000001000101111, Subject::LessThan(1, 1).encode());
    assert_eq!(0b0000001000110000, Subject::Xor(1, 1).encode());
    assert_eq!(0b0000000000110001, Subject::Not(1).encode());
    assert_eq!(0b0000000000110010, Subject::Jump(1, 0).encode());
    assert_eq!(0b0000111100010011, Subject::Interrupt(15).encode());
    assert_eq!(0b0000001000110101, Subject::BitShiftLeft(1, 1).encode());
    assert_eq!(0b0000001000110110, Subject::BitShiftRight(1, 1).encode());
    assert_eq!(0b0000000000110111, Subject::BitNot(1).encode());
    assert_eq!(0b0000001000111000, Subject::BitXor(1, 1).encode());
    assert_eq!(0b0000001000111001, Subject::BitAnd(1, 1).encode());
    assert_eq!(0b0000001000111010, Subject::BitOr(1, 1).encode());
    assert_eq!(0b0000001000111011, Subject::BitNor(1, 1).encode());
    assert_eq!(0b1111111000011100, Subject::LoadRelative(-2).encode());
    assert_eq!(0b1111111000111101, Subject::JumpRelative(-2, 1).encode());
    assert_eq!(0b0000000100011110, Subject::SaveRelative(1).encode());
}

#[test]
fn decode_inverts_encode() {
    let samples = vec![
        Subject::Nop,
        Subject::PushRegister(15),
        Subject::PopRegister(0),
        Subject::PushRegisters,
        Subject::PopRegisters,
        Subject::Move(3, 12),
        Subject::Load(0, 15),
        Subject::Save(7, 8),
        Subject::Add(1, 2),
        Subject::Subtract(13, 14),
        Subject::Multiply(5, 5),
        Subject::Divide(9, 10),
        Subject::Equal(0, 0),
        Subject::NotEqual(15, 15),
        Subject::GreaterThan(4, 11),
        Subject::LessThan(11, 4),
        Subject::Xor(2, 3),
        Subject::Not(6),
        Subject::Jump(8, 3),
        Subject::Interrupt(0),
        Subject::Interrupt(255),
        Subject::BitShiftLeft(1, 15),
        Subject::BitShiftRight(15, 1),
        Subject::BitNot(12),
        Subject::BitXor(10, 5),
        Subject::BitAnd(5, 10),
        Subject::BitOr(0, 1),
        Subject::BitNor(1, 0),
        Subject::LoadRelative(-128),
        Subject::LoadRelative(127),
        Subject::SaveRelative(-1),
        Subject::SaveRelative(0),
        Subject::JumpRelative(-128, 7),
        Subject::JumpRelative(127, 0),
    ];
    for i in samples {
        assert_eq!(i, Subject::decode(i.encode()));
    }
}

#[test]
fn reserved_opcodes_decode_to_invalid() {
    let reserved: WordType = 20;
    assert_eq!(Subject::Invalid(reserved), Subject::decode(reserved));
    let reserved_high: WordType = 31;
    assert_eq!(Subject::Invalid(reserved_high), Subject::decode(reserved_high));
    // Reserved opcodes stay invalid whatever the operand bits hold, and the
    // captured word comes back verbatim.
    let with_operands: WordType = 0b1010101010110100;
    assert_eq!(Subject::Invalid(with_operands), Subject::decode(with_operands));
    let with_operands_high: WordType = 0b0110011001111111;
    assert_eq!(Subject::Invalid(with_operands_high), Subject::decode(with_operands_high));
}

#[test]
fn invalid_encodes_to_the_noop_word() {
    assert_eq!(0, Subject::Invalid(0b1010101010110100).encode());
    assert_eq!(Subject::Nop, Subject::decode(Subject::Invalid(12345).encode()));
}
