//! The instruction codec: a pure, total mapping between a 16-bit word and a
//! tagged instruction value, one variant per opcode.
//!
//! Bit layout (bit 0 least significant): the opcode sits in bits 0-4; a first
//! register operand in bits 5-8 and a second in bits 9-12; a jump condition
//! code in bits 5-7; an 8-bit immediate in bits 8-15, reinterpreted as a
//! signed byte for the relative-addressing forms. The upper bits are reused
//! depending on the opcode class, never mixed within one instruction.

use vstd::prelude::*;
use crate::cpu::WordType;

verus! {

pub const NOP: WordType = 0;
pub const PUSH: WordType = 1;
pub const POP: WordType = 2;
pub const PUSHS: WordType = 3;
pub const POPS: WordType = 4;
pub const MOVE_RR: WordType = 5;
pub const LD: WordType = 6;
pub const SAV: WordType = 7;
pub const ADD: WordType = 8;
pub const SUB: WordType = 9;
pub const MUL: WordType = 10;
pub const DIV: WordType = 11;
pub const CMP_EQ: WordType = 12;
pub const CMP_NE: WordType = 13;
pub const CMP_GT: WordType = 14;
pub const CMP_LT: WordType = 15;
pub const CMP_XOR: WordType = 16;
pub const CMP_NOT: WordType = 17;
pub const JMP: WordType = 18;
pub const INT: WordType = 19;
pub const UNUSED_2: WordType = 20;
pub const BSL: WordType = 21;
pub const BSR: WordType = 22;
pub const BNOT: WordType = 23;
pub const BXOR: WordType = 24;
pub const BAND: WordType = 25;
pub const BOR: WordType = 26;
pub const BNOR: WordType = 27;
pub const LD_REL: WordType = 28;
pub const JREL: WordType = 29;
pub const SAV_REL: WordType = 30;
pub const UNUSED_4: WordType = 31;

/// One recognized machine instruction, carrying its decoded operands:
/// register indices, or signed 8-bit immediates for the relative forms.
/// `Invalid` captures any word whose opcode field matches no known opcode.
#[derive(Debug, PartialEq, Eq, Structural, Clone, Copy)]
pub enum Instruction {
    Nop,
    PushRegister(u8),
    PopRegister(u8),
    PushRegisters,
    PopRegisters,
    Move(u8, u8),
    Load(u8, u8),
    Save(u8, u8),
    Add(u8, u8),
    Subtract(u8, u8),
    Multiply(u8, u8),
    Divide(u8, u8),
    Equal(u8, u8),
    NotEqual(u8, u8),
    GreaterThan(u8, u8),
    LessThan(u8, u8),
    Xor(u8, u8),
    Not(u8),
    Jump(u8, u8),
    Interrupt(u8),
    BitShiftLeft(u8, u8),
    BitShiftRight(u8, u8),
    BitNot(u8),
    BitXor(u8, u8),
    BitAnd(u8, u8),
    BitOr(u8, u8),
    BitNor(u8, u8),
    LoadRelative(i8),
    SaveRelative(i8),
    JumpRelative(i8, u8),
    Invalid(WordType),
}

/// The opcode field: bits 0-4.
pub open spec fn opcode(w: WordType) -> WordType {
    w & 0x1F
}

/// The first register operand: bits 5-8.
pub open spec fn reg0(w: WordType) -> u8 {
    ((w >> 5) & 0xF) as u8
}

/// The second register operand: bits 9-12.
pub open spec fn reg1(w: WordType) -> u8 {
    ((w >> 9) & 0xF) as u8
}

/// The unsigned 8-bit immediate: bits 8-15.
pub open spec fn arg8(w: WordType) -> u8 {
    ((w >> 8) & 0xFF) as u8
}

/// The jump condition code of a relative jump: bits 5-7.
pub open spec fn jump_cond(w: WordType) -> u8 {
    ((w >> 5) & 0x7) as u8
}

/// The signed reading of an 8-bit immediate: two's complement.
pub open spec fn as_signed(b: u8) -> i8 {
    if b < 0x80 {
        b as i8
    } else {
        (b - 0x100) as i8
    }
}

/// The unsigned byte whose two's complement reading is `r`.
pub open spec fn as_byte(r: i8) -> u8 {
    if r >= 0 {
        r as u8
    } else {
        (r + 0x100) as u8
    }
}

/// The instruction a word decodes to. Total: every word maps to some
/// instruction, `Invalid` as the fallback.
pub open spec fn spec_decode(w: WordType) -> Instruction {
    let op = opcode(w);
    if op == NOP {
        Instruction::Nop
    } else if op == PUSH {
        Instruction::PushRegister(reg0(w))
    } else if op == POP {
        Instruction::PopRegister(reg0(w))
    } else if op == PUSHS {
        Instruction::PushRegisters
    } else if op == POPS {
        Instruction::PopRegisters
    } else if op == MOVE_RR {
        Instruction::Move(reg0(w), reg1(w))
    } else if op == LD {
        Instruction::Load(reg0(w), reg1(w))
    } else if op == SAV {
        Instruction::Save(reg0(w), reg1(w))
    } else if op == ADD {
        Instruction::Add(reg0(w), reg1(w))
    } else if op == SUB {
        Instruction::Subtract(reg0(w), reg1(w))
    } else if op == MUL {
        Instruction::Multiply(reg0(w), reg1(w))
    } else if op == DIV {
        Instruction::Divide(reg0(w), reg1(w))
    } else if op == CMP_EQ {
        Instruction::Equal(reg0(w), reg1(w))
    } else if op == CMP_NE {
        Instruction::NotEqual(reg0(w), reg1(w))
    } else if op == CMP_GT {
        Instruction::GreaterThan(reg0(w), reg1(w))
    } else if op == CMP_LT {
        Instruction::LessThan(reg0(w), reg1(w))
    } else if op == CMP_XOR {
        Instruction::Xor(reg0(w), reg1(w))
    } else if op == CMP_NOT {
        Instruction::Not(reg0(w))
    } else if op == JMP {
        Instruction::Jump(reg0(w), reg1(w))
    } else if op == INT {
        Instruction::Interrupt(arg8(w))
    } else if op == BSL {
        Instruction::BitShiftLeft(reg0(w), reg1(w))
    } else if op == BSR {
        Instruction::BitShiftRight(reg0(w), reg1(w))
    } else if op == BNOT {
        Instruction::BitNot(reg0(w))
    } else if op == BXOR {
        Instruction::BitXor(reg0(w), reg1(w))
    } else if op == BAND {
        Instruction::BitAnd(reg0(w), reg1(w))
    } else if op == BOR {
        Instruction::BitOr(reg0(w), reg1(w))
    } else if op == BNOR {
        Instruction::BitNor(reg0(w), reg1(w))
    } else if op == LD_REL {
        Instruction::LoadRelative(as_signed(arg8(w)))
    } else if op == JREL {
        Instruction::JumpRelative(as_signed(arg8(w)), jump_cond(w))
    } else if op == SAV_REL {
        Instruction::SaveRelative(as_signed(arg8(w)))
    } else {
        Instruction::Invalid(w)
    }
}

/// The word an instruction encodes to. Total: `Invalid` canonicalizes to the
/// no-op word, which loses the captured word on purpose.
pub open spec fn spec_encode(i: Instruction) -> WordType {
    match i {
        Instruction::Nop => NOP,
        Instruction::PushRegister(r) => PUSH | ((r as WordType) << 5),
        Instruction::PopRegister(r) => POP | ((r as WordType) << 5),
        Instruction::PushRegisters => PUSHS,
        Instruction::PopRegisters => POPS,
        Instruction::Move(a, b) => MOVE_RR | ((a as WordType) << 5) | ((b as WordType) << 9),
        Instruction::Load(a, b) => LD | ((a as WordType) << 5) | ((b as WordType) << 9),
        Instruction::Save(a, b) => SAV | ((a as WordType) << 5) | ((b as WordType) << 9),
        Instruction::Add(a, b) => ADD | ((a as WordType) << 5) | ((b as WordType) << 9),
        Instruction::Subtract(a, b) => SUB | ((a as WordType) << 5) | ((b as WordType) << 9),
        Instruction::Multiply(a, b) => MUL | ((a as WordType) << 5) | ((b as WordType) << 9),
        Instruction::Divide(a, b) => DIV | ((a as WordType) << 5) | ((b as WordType) << 9),
        Instruction::Equal(a, b) => CMP_EQ | ((a as WordType) << 5) | ((b as WordType) << 9),
        Instruction::NotEqual(a, b) => CMP_NE | ((a as WordType) << 5) | ((b as WordType) << 9),
        Instruction::GreaterThan(a, b) => CMP_GT | ((a as WordType) << 5) | ((b as WordType) << 9),
        Instruction::LessThan(a, b) => CMP_LT | ((a as WordType) << 5) | ((b as WordType) << 9),
        Instruction::Xor(a, b) => CMP_XOR | ((a as WordType) << 5) | ((b as WordType) << 9),
        Instruction::Not(r) => CMP_NOT | ((r as WordType) << 5),
        Instruction::Jump(r, c) => JMP | ((r as WordType) << 5) | ((c as WordType) << 9),
        Instruction::Interrupt(v) => INT | (((v as WordType) << 8) & 0xFF00),
        Instruction::BitShiftLeft(a, b) => BSL | ((a as WordType) << 5) | ((b as WordType) << 9),
        Instruction::BitShiftRight(a, b) => BSR | ((a as WordType) << 5) | ((b as WordType) << 9),
        Instruction::BitNot(r) => BNOT | ((r as WordType) << 5),
        Instruction::BitXor(a, b) => BXOR | ((a as WordType) << 5) | ((b as WordType) << 9),
        Instruction::BitAnd(a, b) => BAND | ((a as WordType) << 5) | ((b as WordType) << 9),
        Instruction::BitOr(a, b) => BOR | ((a as WordType) << 5) | ((b as WordType) << 9),
        Instruction::BitNor(a, b) => BNOR | ((a as WordType) << 5) | ((b as WordType) << 9),
        Instruction::LoadRelative(rel) => LD_REL | (((as_byte(rel) as WordType) << 8) & 0xFF00),
        Instruction::SaveRelative(rel) => SAV_REL | (((as_byte(rel) as WordType) << 8) & 0xFF00),
        Instruction::JumpRelative(rel, c) => JREL | (((as_byte(rel) as WordType) << 8) & 0xFF00)
            | (((c as WordType) << 5) & 0xE0),
        Instruction::Invalid(_) => NOP,
    }
}

impl Instruction {
    /// Every operand lies within its field: register indices and absolute
    /// jump condition codes below 16, relative jump condition codes below 8.
    pub open spec fn wf(self) -> bool {
        match self {
            Instruction::Nop => true,
            Instruction::PushRegister(r) => r < 16,
            Instruction::PopRegister(r) => r < 16,
            Instruction::PushRegisters => true,
            Instruction::PopRegisters => true,
            Instruction::Move(a, b) => a < 16 && b < 16,
            Instruction::Load(a, b) => a < 16 && b < 16,
            Instruction::Save(a, b) => a < 16 && b < 16,
            Instruction::Add(a, b) => a < 16 && b < 16,
            Instruction::Subtract(a, b) => a < 16 && b < 16,
            Instruction::Multiply(a, b) => a < 16 && b < 16,
            Instruction::Divide(a, b) => a < 16 && b < 16,
            Instruction::Equal(a, b) => a < 16 && b < 16,
            Instruction::NotEqual(a, b) => a < 16 && b < 16,
            Instruction::GreaterThan(a, b) => a < 16 && b < 16,
            Instruction::LessThan(a, b) => a < 16 && b < 16,
            Instruction::Xor(a, b) => a < 16 && b < 16,
            Instruction::Not(r) => r < 16,
            Instruction::Jump(r, c) => r < 16 && c < 16,
            Instruction::Interrupt(_) => true,
            Instruction::BitShiftLeft(a, b) => a < 16 && b < 16,
            Instruction::BitShiftRight(a, b) => a < 16 && b < 16,
            Instruction::BitNot(r) => r < 16,
            Instruction::BitXor(a, b) => a < 16 && b < 16,
            Instruction::BitAnd(a, b) => a < 16 && b < 16,
            Instruction::BitOr(a, b) => a < 16 && b < 16,
            Instruction::BitNor(a, b) => a < 16 && b < 16,
            Instruction::LoadRelative(_) => true,
            Instruction::SaveRelative(_) => true,
            Instruction::JumpRelative(_, c) => c < 8,
            Instruction::Invalid(_) => true,
        }
    }

    /// Decodes a word into its instruction.
    pub fn decode(w: WordType) -> (i: Instruction)
        ensures
            i == spec_decode(w),
    {
        proof {
            assert((w >> 5) & 0xF < 0x100 && (w >> 9) & 0xF < 0x100 && (w >> 8) & 0xFF < 0x100
                && (w >> 5) & 0x7 < 0x100) by (bit_vector);
        }
        let op = w & 0x1F;
        let r0 = ((w >> 5) & 0xF) as u8;
        let r1 = ((w >> 9) & 0xF) as u8;
        let arg = ((w >> 8) & 0xFF) as u8;
        let cond = ((w >> 5) & 0x7) as u8;
        match op {
            NOP => Instruction::Nop,
            PUSH => Instruction::PushRegister(r0),
            POP => Instruction::PopRegister(r0),
            PUSHS => Instruction::PushRegisters,
            POPS => Instruction::PopRegisters,
            MOVE_RR => Instruction::Move(r0, r1),
            LD => Instruction::Load(r0, r1),
            SAV => Instruction::Save(r0, r1),
            ADD => Instruction::Add(r0, r1),
            SUB => Instruction::Subtract(r0, r1),
            MUL => Instruction::Multiply(r0, r1),
            DIV => Instruction::Divide(r0, r1),
            CMP_EQ => Instruction::Equal(r0, r1),
            CMP_NE => Instruction::NotEqual(r0, r1),
            CMP_GT => Instruction::GreaterThan(r0, r1),
            CMP_LT => Instruction::LessThan(r0, r1),
            CMP_XOR => Instruction::Xor(r0, r1),
            CMP_NOT => Instruction::Not(r0),
            JMP => Instruction::Jump(r0, r1),
            INT => Instruction::Interrupt(arg),
            BSL => Instruction::BitShiftLeft(r0, r1),
            BSR => Instruction::BitShiftRight(r0, r1),
            BNOT => Instruction::BitNot(r0),
            BXOR => Instruction::BitXor(r0, r1),
            BAND => Instruction::BitAnd(r0, r1),
            BOR => Instruction::BitOr(r0, r1),
            BNOR => Instruction::BitNor(r0, r1),
            LD_REL => Instruction::LoadRelative(Self::signed_of(arg)),
            JREL => Instruction::JumpRelative(Self::signed_of(arg), cond),
            SAV_REL => Instruction::SaveRelative(Self::signed_of(arg)),
            _ => Instruction::Invalid(w),
        }
    }

    /// Encodes this instruction into its word.
    pub fn encode(&self) -> (w: WordType)
        ensures
            w == spec_encode(*self),
    {
        match *self {
            Instruction::Nop => NOP,
            Instruction::PushRegister(r) => PUSH | ((r as WordType) << 5),
            Instruction::PopRegister(r) => POP | ((r as WordType) << 5),
            Instruction::PushRegisters => PUSHS,
            Instruction::PopRegisters => POPS,
            Instruction::Move(a, b) => MOVE_RR | ((a as WordType) << 5) | ((b as WordType) << 9),
            Instruction::Load(a, b) => LD | ((a as WordType) << 5) | ((b as WordType) << 9),
            Instruction::Save(a, b) => SAV | ((a as WordType) << 5) | ((b as WordType) << 9),
            Instruction::Add(a, b) => ADD | ((a as WordType) << 5) | ((b as WordType) << 9),
            Instruction::Subtract(a, b) => SUB | ((a as WordType) << 5) | ((b as WordType) << 9),
            Instruction::Multiply(a, b) => MUL | ((a as WordType) << 5) | ((b as WordType) << 9),
            Instruction::Divide(a, b) => DIV | ((a as WordType) << 5) | ((b as WordType) << 9),
            Instruction::Equal(a, b) => CMP_EQ | ((a as WordType) << 5) | ((b as WordType) << 9),
            Instruction::NotEqual(a, b) => CMP_NE | ((a as WordType) << 5) | ((b as WordType) << 9),
            Instruction::GreaterThan(a, b) => CMP_GT | ((a as WordType) << 5) | (
            (b as WordType) << 9),
            Instruction::LessThan(a, b) => CMP_LT | ((a as WordType) << 5) | ((b as WordType) << 9),
            Instruction::Xor(a, b) => CMP_XOR | ((a as WordType) << 5) | ((b as WordType) << 9),
            Instruction::Not(r) => CMP_NOT | ((r as WordType) << 5),
            Instruction::Jump(r, c) => JMP | ((r as WordType) << 5) | ((c as WordType) << 9),
            Instruction::Interrupt(v) => INT | (((v as WordType) << 8) & 0xFF00),
            Instruction::BitShiftLeft(a, b) => BSL | ((a as WordType) << 5) | ((b as WordType) << 9),
            Instruction::BitShiftRight(a, b) => BSR | ((a as WordType) << 5) | (
            (b as WordType) << 9),
            Instruction::BitNot(r) => BNOT | ((r as WordType) << 5),
            Instruction::BitXor(a, b) => BXOR | ((a as WordType) << 5) | ((b as WordType) << 9),
            Instruction::BitAnd(a, b) => BAND | ((a as WordType) << 5) | ((b as WordType) << 9),
            Instruction::BitOr(a, b) => BOR | ((a as WordType) << 5) | ((b as WordType) << 9),
            Instruction::BitNor(a, b) => BNOR | ((a as WordType) << 5) | ((b as WordType) << 9),
            Instruction::LoadRelative(rel) => LD_REL | (((Self::byte_of(rel) as WordType) << 8)
                & 0xFF00),
            Instruction::SaveRelative(rel) => SAV_REL | (((Self::byte_of(rel) as WordType) << 8)
                & 0xFF00),
            Instruction::JumpRelative(rel, c) => JREL | (((Self::byte_of(rel) as WordType) << 8)
                & 0xFF00) | (((c as WordType) << 5) & 0xE0),
            Instruction::Invalid(_) => NOP,
        }
    }

    /// The two's complement reading of a byte.
    fn signed_of(b: u8) -> (r: i8)
        ensures
            r == as_signed(b),
    {
        if b < 0x80 {
            b as i8
        } else {
            ((b as i16) - 0x100) as i8
        }
    }

    /// The byte whose two's complement reading is `r`.
    fn byte_of(r: i8) -> (b: u8)
        ensures
            b == as_byte(r),
    {
        if r >= 0 {
            r as u8
        } else {
            ((r as i16) + 0x100) as u8
        }
    }
}

/// A bare opcode word, with no operand bits set, reads back exactly.
proof fn lemma_opcode_bare(op: WordType)
    by (bit_vector)
    requires
        op < 0x20,
    ensures
        op & 0x1F == op,
{
}

/// Packing an opcode with two 4-bit register fields loses nothing: each field
/// reads back exactly.
proof fn lemma_pack_two(op: WordType, a: WordType, b: WordType)
    by (bit_vector)
    requires
        op < 0x20,
        a < 0x10,
        b < 0x10,
    ensures
        (op | (a << 5) | (b << 9)) & 0x1F == op,
        ((op | (a << 5) | (b << 9)) >> 5) & 0xF == a,
        ((op | (a << 5) | (b << 9)) >> 9) & 0xF == b,
{
}

/// Packing an opcode with one 4-bit register field loses nothing.
proof fn lemma_pack_one(op: WordType, a: WordType)
    by (bit_vector)
    requires
        op < 0x20,
        a < 0x10,
    ensures
        (op | (a << 5)) & 0x1F == op,
        ((op | (a << 5)) >> 5) & 0xF == a,
{
}

/// Packing an opcode with an 8-bit immediate loses nothing.
proof fn lemma_pack_arg(op: WordType, a: WordType)
    by (bit_vector)
    requires
        op < 0x20,
        a < 0x100,
    ensures
        (op | ((a << 8) & 0xFF00)) & 0x1F == op,
        ((op | ((a << 8) & 0xFF00)) >> 8) & 0xFF == a,
{
}

/// Packing an opcode with an 8-bit immediate and a 3-bit condition code
/// loses nothing.
proof fn lemma_pack_rel_cond(op: WordType, a: WordType, c: WordType)
    by (bit_vector)
    requires
        op < 0x20,
        a < 0x100,
        c < 0x8,
    ensures
        (op | ((a << 8) & 0xFF00) | ((c << 5) & 0xE0)) & 0x1F == op,
        ((op | ((a << 8) & 0xFF00) | ((c << 5) & 0xE0)) >> 8) & 0xFF == a,
        ((op | ((a << 8) & 0xFF00) | ((c << 5) & 0xE0)) >> 5) & 0x7 == c,
{
}

/// The two's complement readings are mutual inverses on bytes.
proof fn lemma_signed_byte_roundtrip(r: i8)
    ensures
        as_signed(as_byte(r)) == r,
{
}

/// Decoding never yields an operand outside its field: every decoded
/// instruction is well formed.
pub proof fn lemma_decode_wf(w: WordType)
    ensures
        spec_decode(w).wf(),
{
    assert((w >> 5) & 0xF < 0x10 && (w >> 9) & 0xF < 0x10 && (w >> 5) & 0x7 < 0x8) by (bit_vector);
}

/// Decode inverts encode: for every well-formed instruction except
/// `Invalid`, decoding its encoding gives the instruction back.
pub proof fn lemma_decode_encode_roundtrip(i: Instruction)
    requires
        i.wf(),
        !(i is Invalid),
    ensures
        spec_decode(spec_encode(i)) == i,
{
    match i {
        Instruction::Nop => lemma_opcode_bare(NOP),
        Instruction::PushRegister(r) => lemma_pack_one(PUSH, r as WordType),
        Instruction::PopRegister(r) => lemma_pack_one(POP, r as WordType),
        Instruction::PushRegisters => lemma_opcode_bare(PUSHS),
        Instruction::PopRegisters => lemma_opcode_bare(POPS),
        Instruction::Move(a, b) => lemma_pack_two(MOVE_RR, a as WordType, b as WordType),
        Instruction::Load(a, b) => lemma_pack_two(LD, a as WordType, b as WordType),
        Instruction::Save(a, b) => lemma_pack_two(SAV, a as WordType, b as WordType),
        Instruction::Add(a, b) => lemma_pack_two(ADD, a as WordType, b as WordType),
        Instruction::Subtract(a, b) => lemma_pack_two(SUB, a as WordType, b as WordType),
        Instruction::Multiply(a, b) => lemma_pack_two(MUL, a as WordType, b as WordType),
        Instruction::Divide(a, b) => lemma_pack_two(DIV, a as WordType, b as WordType),
        Instruction::Equal(a, b) => lemma_pack_two(CMP_EQ, a as WordType, b as WordType),
        Instruction::NotEqual(a, b) => lemma_pack_two(CMP_NE, a as WordType, b as WordType),
        Instruction::GreaterThan(a, b) => lemma_pack_two(CMP_GT, a as WordType, b as WordType),
        Instruction::LessThan(a, b) => lemma_pack_two(CMP_LT, a as WordType, b as WordType),
        Instruction::Xor(a, b) => lemma_pack_two(CMP_XOR, a as WordType, b as WordType),
        Instruction::Not(r) => lemma_pack_one(CMP_NOT, r as WordType),
        Instruction::Jump(r, c) => lemma_pack_two(JMP, r as WordType, c as WordType),
        Instruction::Interrupt(v) => lemma_pack_arg(INT, v as WordType),
        Instruction::BitShiftLeft(a, b) => lemma_pack_two(BSL, a as WordType, b as WordType),
        Instruction::BitShiftRight(a, b) => lemma_pack_two(BSR, a as WordType, b as WordType),
        Instruction::BitNot(r) => lemma_pack_one(BNOT, r as WordType),
        Instruction::BitXor(a, b) => lemma_pack_two(BXOR, a as WordType, b as WordType),
        Instruction::BitAnd(a, b) => lemma_pack_two(BAND, a as WordType, b as WordType),
        Instruction::BitOr(a, b) => lemma_pack_two(BOR, a as WordType, b as WordType),
        Instruction::BitNor(a, b) => lemma_pack_two(BNOR, a as WordType, b as WordType),
        Instruction::LoadRelative(rel) => {
            lemma_pack_arg(LD_REL, as_byte(rel) as WordType);
            lemma_signed_byte_roundtrip(rel);
        },
        Instruction::SaveRelative(rel) => {
            lemma_pack_arg(SAV_REL, as_byte(rel) as WordType);
            lemma_signed_byte_roundtrip(rel);
        },
        Instruction::JumpRelative(rel, c) => {
            lemma_pack_rel_cond(JREL, as_byte(rel) as WordType, c as WordType);
            lemma_signed_byte_roundtrip(rel);
        },
        Instruction::Invalid(_) => {},
    }
}

/// Every word whose opcode field is one of the reserved codes decodes to
/// `Invalid` carrying that word.
pub proof fn lemma_reserved_decodes_invalid(w: WordType)
    requires
        opcode(w) == UNUSED_2 || opcode(w) == UNUSED_4,
    ensures
        spec_decode(w) == Instruction::Invalid(w),
{
}

} // verus!
