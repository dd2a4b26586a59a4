//! The instruction set: instruction variants, the 32-bit word layout, and the decoder.
//!
//! Word layout, high bit first: bits 31-28 primary opcode, 27-26 secondary
//! opcode, 25-18 field A, 17-10 field B, 9-0 field C.
use vstd::prelude::*;
use crate::utils::{sign_extend_10, sign_extend_10_spec};

verus! {

/// A decoded instruction.
#[allow(inconsistent_fields)]
#[derive(Debug, Clone, Copy, PartialEq, Eq, Structural)]
pub enum Instruction {
    // Memory
    Load { dst: u8, addr: u16 },
    LoadImm { dst: u8, value: i16 },
    Store { src: u8, addr: u16 },
    // Moves, predicated on the zero flag; `src` is a 10-bit register index
    Move { dst: u8, src: u16 },
    MoveIfZero { dst: u8, src: u16 },
    MoveIfNotZero { dst: u8, src: u16 },
    // Moves to a 10-bit destination index; no encoding decodes to these
    MoveWide { dst: u16, src: u8 },
    MoveWideIfZero { dst: u16, src: u8 },
    MoveWideIfNotZero { dst: u16, src: u8 },
    // Arithmetic; `src2` is a 10-bit register index
    Add { dst: u8, src1: u8, src2: u16 },
    Sub { dst: u8, src1: u8, src2: u16 },
    AddImm { dst: u8, src: u8, imm: i16 },
    SubImm { dst: u8, src: u8, imm: i16 },
    // Complex arithmetic
    Mult { dst: u8, src1: u8, src2: u16 },
    MultImm { dst: u8, src: u8, imm: i16 },
    Div { dst: u8, src1: u8, src2: u16 },
    Mod { dst: u8, src1: u8, src2: u16 },
    // Jumps and branches
    Jump { addr: u16 },
    JumpReg { reg: u16 },
    BranchEqual { src1: u8, src2: u16, addr: u16 },
    BranchNotEqual { src1: u8, src2: u16, addr: u16 },
    BranchLessThan { src1: u8, src2: u16, addr: u16 },
    BranchGreaterThan { src1: u8, src2: u16, addr: u16 },
    // Comparison: flags only
    Cmp { src1: u8, src2: u16 },
    CmpImm { src: u8, imm: i16 },
    // Logic
    And { dst: u8, src1: u8, src2: u16 },
    Or { dst: u8, src1: u8, src2: u16 },
    Xor { dst: u8, src1: u8, src2: u16 },
    Not { dst: u8, src: u8 },
    // Shifts by an immediate amount
    ShiftLeft { dst: u8, src: u8, amount: u16 },
    ShiftRight { dst: u8, src: u8, amount: u16 },
    // Stack, with 10-bit register indices
    Push { src: u16 },
    Pop { dst: u16 },
    Nop,
    Halt,
}

pub open spec fn field_primary(raw: u32) -> u8 {
    ((raw >> 28u32) & 0xFu32) as u8
}

pub open spec fn field_secondary(raw: u32) -> u8 {
    ((raw >> 26u32) & 0x3u32) as u8
}

pub open spec fn field_a(raw: u32) -> u8 {
    ((raw >> 18u32) & 0xFFu32) as u8
}

pub open spec fn field_b(raw: u32) -> u8 {
    ((raw >> 10u32) & 0xFFu32) as u8
}

pub open spec fn field_c(raw: u32) -> u16 {
    (raw & 0x3FFu32) as u16
}

pub open spec fn decode_memory_spec(sec: u8, a: u8, c: u16) -> Option<Instruction> {
    if sec == 0 {
        Some(Instruction::Load { dst: a, addr: c })
    } else if sec == 1 {
        Some(Instruction::LoadImm { dst: a, value: sign_extend_10_spec(c) })
    } else if sec == 2 {
        Some(Instruction::Store { src: a, addr: c })
    } else {
        None
    }
}

pub open spec fn decode_arithmetic_spec(sec: u8, a: u8, b: u8, c: u16) -> Option<Instruction> {
    if sec == 0 {
        Some(Instruction::Add { dst: a, src1: b, src2: c })
    } else if sec == 1 {
        Some(Instruction::Sub { dst: a, src1: b, src2: c })
    } else if sec == 2 {
        Some(Instruction::AddImm { dst: a, src: b, imm: sign_extend_10_spec(c) })
    } else if sec == 3 {
        Some(Instruction::SubImm { dst: a, src: b, imm: sign_extend_10_spec(c) })
    } else {
        None
    }
}

pub open spec fn decode_complex_spec(sec: u8, a: u8, b: u8, c: u16) -> Option<Instruction> {
    if sec == 0 {
        Some(Instruction::Mult { dst: a, src1: b, src2: c })
    } else if sec == 1 {
        Some(Instruction::MultImm { dst: a, src: b, imm: sign_extend_10_spec(c) })
    } else if sec == 2 {
        Some(Instruction::Div { dst: a, src1: b, src2: c })
    } else if sec == 3 {
        Some(Instruction::Mod { dst: a, src1: b, src2: c })
    } else {
        None
    }
}

pub open spec fn decode_logical_spec(sec: u8, a: u8, b: u8, c: u16) -> Option<Instruction> {
    if sec == 0 {
        Some(Instruction::And { dst: a, src1: b, src2: c })
    } else if sec == 1 {
        Some(Instruction::Or { dst: a, src1: b, src2: c })
    } else if sec == 2 {
        Some(Instruction::Xor { dst: a, src1: b, src2: c })
    } else if sec == 3 {
        Some(Instruction::Not { dst: a, src: b })
    } else {
        None
    }
}

pub open spec fn decode_branch_spec(sec: u8, b: u8, c: u16, a: u8) -> Option<Instruction> {
    let addr = a as u16;
    if sec == 0 {
        Some(Instruction::BranchEqual { src1: b, src2: c, addr })
    } else if sec == 1 {
        Some(Instruction::BranchNotEqual { src1: b, src2: c, addr })
    } else if sec == 2 {
        Some(Instruction::BranchLessThan { src1: b, src2: c, addr })
    } else if sec == 3 {
        Some(Instruction::BranchGreaterThan { src1: b, src2: c, addr })
    } else {
        None
    }
}

pub open spec fn decode_jump_spec(sec: u8, c: u16, b: u8) -> Option<Instruction> {
    if sec == 0 {
        Some(Instruction::Jump { addr: c })
    } else if sec == 1 {
        Some(Instruction::JumpReg { reg: b as u16 })
    } else {
        None
    }
}

pub open spec fn decode_compare_spec(sec: u8, b: u8, c: u16) -> Option<Instruction> {
    if sec == 0 {
        Some(Instruction::Cmp { src1: b, src2: c })
    } else if sec == 1 {
        Some(Instruction::CmpImm { src: b, imm: sign_extend_10_spec(c) })
    } else {
        None
    }
}

pub open spec fn decode_shift_spec(sec: u8, a: u8, b: u8, c: u16) -> Option<Instruction> {
    if sec == 0 {
        Some(Instruction::ShiftLeft { dst: a, src: b, amount: c })
    } else if sec == 1 {
        Some(Instruction::ShiftRight { dst: a, src: b, amount: c })
    } else {
        None
    }
}

pub open spec fn decode_stack_spec(sec: u8, c: u16) -> Option<Instruction> {
    if sec == 0 {
        Some(Instruction::Push { src: c })
    } else if sec == 1 {
        Some(Instruction::Pop { dst: c })
    } else {
        None
    }
}

pub open spec fn decode_move_spec(sec: u8, a: u8, c: u16) -> Option<Instruction> {
    if sec == 0 {
        Some(Instruction::Move { dst: a, src: c })
    } else if sec == 1 {
        Some(Instruction::MoveIfZero { dst: a, src: c })
    } else if sec == 2 {
        Some(Instruction::MoveIfNotZero { dst: a, src: c })
    } else {
        None
    }
}

/// What a 32-bit word decodes to: absent for an unknown primary opcode or an
/// unused secondary opcode within a group.
pub open spec fn decode_spec(raw: u32) -> Option<Instruction> {
    let p = field_primary(raw);
    let s = field_secondary(raw);
    let a = field_a(raw);
    let b = field_b(raw);
    let c = field_c(raw);
    if p == 0xF {
        Some(Instruction::Nop)
    } else if p == 0xE {
        Some(Instruction::Halt)
    } else if p == 0x0 {
        decode_memory_spec(s, a, c)
    } else if p == 0x1 {
        decode_arithmetic_spec(s, a, b, c)
    } else if p == 0x2 {
        decode_logical_spec(s, a, b, c)
    } else if p == 0x3 {
        decode_branch_spec(s, b, c, a)
    } else if p == 0x4 {
        decode_jump_spec(s, c, b)
    } else if p == 0x5 {
        decode_compare_spec(s, b, c)
    } else if p == 0x6 {
        decode_shift_spec(s, a, b, c)
    } else if p == 0x7 {
        decode_stack_spec(s, c)
    } else if p == 0x8 {
        decode_move_spec(s, a, c)
    } else if p == 0x9 {
        decode_complex_spec(s, a, b, c)
    } else {
        None
    }
}

/// Decodes a 32-bit instruction word.
pub fn decode(raw: u32) -> (r: Option<Instruction>)
    ensures
        r == decode_spec(raw),
{
    let primary_opcode = ((raw >> 28) & 0xF) as u8;
    let secondary_opcode = ((raw >> 26) & 0x3) as u8;
    let a = ((raw >> 18) & 0xFF) as u8;
    let b = ((raw >> 10) & 0xFF) as u8;
    let c = (raw & 0x3FF) as u16;
    match primary_opcode {
        0xF => Some(Instruction::Nop),
        0xE => Some(Instruction::Halt),
        0x0 => decode_memory(secondary_opcode, a, c),
        0x1 => decode_arithmetic(secondary_opcode, a, b, c),
        0x2 => decode_logical(secondary_opcode, a, b, c),
        0x3 => decode_branch(secondary_opcode, b, c, a),
        0x4 => decode_jump(secondary_opcode, c, b),
        0x5 => decode_compare(secondary_opcode, b, c),
        0x6 => decode_shift(secondary_opcode, a, b, c),
        0x7 => decode_stack(secondary_opcode, c),
        0x8 => decode_move(secondary_opcode, a, c),
        0x9 => decode_complex_arithmetic(secondary_opcode, a, b, c),
        _ => None,
    }
}

fn decode_memory(secondary: u8, dst: u8, addr10: u16) -> (r: Option<Instruction>)
    ensures
        r == decode_memory_spec(secondary, dst, addr10),
{
    match secondary {
        0b00 => Some(Instruction::Load { dst, addr: addr10 }),
        0b01 => Some(Instruction::LoadImm { dst, value: sign_extend_10(addr10) }),
        0b10 => Some(Instruction::Store { src: dst, addr: addr10 }),
        _ => None,
    }
}

fn decode_arithmetic(secondary: u8, dst: u8, src1: u8, src2_imm10: u16) -> (r: Option<Instruction>)
    ensures
        r == decode_arithmetic_spec(secondary, dst, src1, src2_imm10),
{
    match secondary {
        0b00 => Some(Instruction::Add { dst, src1, src2: src2_imm10 }),
        0b01 => Some(Instruction::Sub { dst, src1, src2: src2_imm10 }),
        0b10 => Some(Instruction::AddImm { dst, src: src1, imm: sign_extend_10(src2_imm10) }),
        0b11 => Some(Instruction::SubImm { dst, src: src1, imm: sign_extend_10(src2_imm10) }),
        _ => None,
    }
}

fn decode_complex_arithmetic(secondary: u8, dst: u8, src1: u8, src2_imm10: u16) -> (r: Option<
    Instruction,
>)
    ensures
        r == decode_complex_spec(secondary, dst, src1, src2_imm10),
{
    match secondary {
        0b00 => Some(Instruction::Mult { dst, src1, src2: src2_imm10 }),
        0b01 => Some(Instruction::MultImm { dst, src: src1, imm: sign_extend_10(src2_imm10) }),
        0b10 => Some(Instruction::Div { dst, src1, src2: src2_imm10 }),
        0b11 => Some(Instruction::Mod { dst, src1, src2: src2_imm10 }),
        _ => None,
    }
}

fn decode_logical(secondary: u8, dst: u8, src1: u8, src2_imm10: u16) -> (r: Option<Instruction>)
    ensures
        r == decode_logical_spec(secondary, dst, src1, src2_imm10),
{
    match secondary {
        0b00 => Some(Instruction::And { dst, src1, src2: src2_imm10 }),
        0b01 => Some(Instruction::Or { dst, src1, src2: src2_imm10 }),
        0b10 => Some(Instruction::Xor { dst, src1, src2: src2_imm10 }),
        0b11 => Some(Instruction::Not { dst, src: src1 }),
        _ => None,
    }
}

fn decode_branch(secondary: u8, src1: u8, src2_10: u16, addr8: u8) -> (r: Option<Instruction>)
    ensures
        r == decode_branch_spec(secondary, src1, src2_10, addr8),
{
    let addr = addr8 as u16;
    match secondary {
        0b00 => Some(Instruction::BranchEqual { src1, src2: src2_10, addr }),
        0b01 => Some(Instruction::BranchNotEqual { src1, src2: src2_10, addr }),
        0b10 => Some(Instruction::BranchLessThan { src1, src2: src2_10, addr }),
        0b11 => Some(Instruction::BranchGreaterThan { src1, src2: src2_10, addr }),
        _ => None,
    }
}

fn decode_jump(secondary: u8, addr10: u16, reg8: u8) -> (r: Option<Instruction>)
    ensures
        r == decode_jump_spec(secondary, addr10, reg8),
{
    match secondary {
        0b00 => Some(Instruction::Jump { addr: addr10 }),
        0b01 => Some(Instruction::JumpReg { reg: reg8 as u16 }),
        _ => None,
    }
}

fn decode_compare(secondary: u8, src1: u8, src2_imm10: u16) -> (r: Option<Instruction>)
    ensures
        r == decode_compare_spec(secondary, src1, src2_imm10),
{
    match secondary {
        0b00 => Some(Instruction::Cmp { src1, src2: src2_imm10 }),
        0b01 => Some(Instruction::CmpImm { src: src1, imm: sign_extend_10(src2_imm10) }),
        _ => None,
    }
}

fn decode_shift(secondary: u8, dst: u8, src: u8, amt10: u16) -> (r: Option<Instruction>)
    ensures
        r == decode_shift_spec(secondary, dst, src, amt10),
{
    match secondary {
        0b00 => Some(Instruction::ShiftLeft { dst, src, amount: amt10 }),
        0b01 => Some(Instruction::ShiftRight { dst, src, amount: amt10 }),
        _ => None,
    }
}

fn decode_stack(secondary: u8, reg10: u16) -> (r: Option<Instruction>)
    ensures
        r == decode_stack_spec(secondary, reg10),
{
    match secondary {
        0b00 => Some(Instruction::Push { src: reg10 }),
        0b01 => Some(Instruction::Pop { dst: reg10 }),
        _ => None,
    }
}

fn decode_move(secondary: u8, dst: u8, src10: u16) -> (r: Option<Instruction>)
    ensures
        r == decode_move_spec(secondary, dst, src10),
{
    match secondary {
        0b00 => Some(Instruction::Move { dst, src: src10 }),
        0b01 => Some(Instruction::MoveIfZero { dst, src: src10 }),
        0b10 => Some(Instruction::MoveIfNotZero { dst, src: src10 }),
        _ => None,
    }
}

/// Assembles a word from its five fields.
pub open spec fn word(p: u32, s: u32, a: u32, b: u32, c: u32) -> u32 {
    (p << 28u32) | (s << 26u32) | (a << 18u32) | (b << 10u32) | c
}

/// Whether a 10-bit two's-complement field holds `v`.
pub open spec fn fits_imm10(v: i16) -> bool {
    -512 <= v < 512
}

/// The 10-bit two's-complement field for `v`.
pub open spec fn imm10(v: i16) -> u32 {
    if v < 0 {
        (v + 1024) as u32
    } else {
        v as u32
    }
}

/// Whether every field of `inst` fits the width that the word layout gives it.
/// The wide moves have no encoding.
pub open spec fn encodable(inst: Instruction) -> bool {
    match inst {
        Instruction::Load { addr, .. } => addr < 1024,
        Instruction::LoadImm { value, .. } => fits_imm10(value),
        Instruction::Store { addr, .. } => addr < 1024,
        Instruction::Move { src, .. } => src < 1024,
        Instruction::MoveIfZero { src, .. } => src < 1024,
        Instruction::MoveIfNotZero { src, .. } => src < 1024,
        Instruction::MoveWide { .. } => false,
        Instruction::MoveWideIfZero { .. } => false,
        Instruction::MoveWideIfNotZero { .. } => false,
        Instruction::Add { src2, .. } => src2 < 1024,
        Instruction::Sub { src2, .. } => src2 < 1024,
        Instruction::AddImm { imm, .. } => fits_imm10(imm),
        Instruction::SubImm { imm, .. } => fits_imm10(imm),
        Instruction::Mult { src2, .. } => src2 < 1024,
        Instruction::MultImm { imm, .. } => fits_imm10(imm),
        Instruction::Div { src2, .. } => src2 < 1024,
        Instruction::Mod { src2, .. } => src2 < 1024,
        Instruction::Jump { addr } => addr < 1024,
        Instruction::JumpReg { reg } => reg < 256,
        Instruction::BranchEqual { src2, addr, .. } => src2 < 1024 && addr < 256,
        Instruction::BranchNotEqual { src2, addr, .. } => src2 < 1024 && addr < 256,
        Instruction::BranchLessThan { src2, addr, .. } => src2 < 1024 && addr < 256,
        Instruction::BranchGreaterThan { src2, addr, .. } => src2 < 1024 && addr < 256,
        Instruction::Cmp { src2, .. } => src2 < 1024,
        Instruction::CmpImm { imm, .. } => fits_imm10(imm),
        Instruction::And { src2, .. } => src2 < 1024,
        Instruction::Or { src2, .. } => src2 < 1024,
        Instruction::Xor { src2, .. } => src2 < 1024,
        Instruction::Not { .. } => true,
        Instruction::ShiftLeft { amount, .. } => amount < 1024,
        Instruction::ShiftRight { amount, .. } => amount < 1024,
        Instruction::Push { src } => src < 1024,
        Instruction::Pop { dst } => dst < 1024,
        Instruction::Nop => true,
        Instruction::Halt => true,
    }
}

/// The word that an encodable instruction is written as; unused fields are zero.
pub open spec fn encode_spec(inst: Instruction) -> u32 {
    match inst {
        Instruction::Load { dst, addr } => word(0, 0, dst as u32, 0, addr as u32),
        Instruction::LoadImm { dst, value } => word(0, 1, dst as u32, 0, imm10(value)),
        Instruction::Store { src, addr } => word(0, 2, src as u32, 0, addr as u32),
        Instruction::Move { dst, src } => word(8, 0, dst as u32, 0, src as u32),
        Instruction::MoveIfZero { dst, src } => word(8, 1, dst as u32, 0, src as u32),
        Instruction::MoveIfNotZero { dst, src } => word(8, 2, dst as u32, 0, src as u32),
        Instruction::MoveWide { .. } => 0,
        Instruction::MoveWideIfZero { .. } => 0,
        Instruction::MoveWideIfNotZero { .. } => 0,
        Instruction::Add { dst, src1, src2 } => word(1, 0, dst as u32, src1 as u32, src2 as u32),
        Instruction::Sub { dst, src1, src2 } => word(1, 1, dst as u32, src1 as u32, src2 as u32),
        Instruction::AddImm { dst, src, imm } => word(1, 2, dst as u32, src as u32, imm10(imm)),
        Instruction::SubImm { dst, src, imm } => word(1, 3, dst as u32, src as u32, imm10(imm)),
        Instruction::Mult { dst, src1, src2 } => word(9, 0, dst as u32, src1 as u32, src2 as u32),
        Instruction::MultImm { dst, src, imm } => word(9, 1, dst as u32, src as u32, imm10(imm)),
        Instruction::Div { dst, src1, src2 } => word(9, 2, dst as u32, src1 as u32, src2 as u32),
        Instruction::Mod { dst, src1, src2 } => word(9, 3, dst as u32, src1 as u32, src2 as u32),
        Instruction::Jump { addr } => word(4, 0, 0, 0, addr as u32),
        Instruction::JumpReg { reg } => word(4, 1, 0, reg as u32, 0),
        Instruction::BranchEqual { src1, src2, addr } => word(
            3,
            0,
            addr as u32,
            src1 as u32,
            src2 as u32,
        ),
        Instruction::BranchNotEqual { src1, src2, addr } => word(
            3,
            1,
            addr as u32,
            src1 as u32,
            src2 as u32,
        ),
        Instruction::BranchLessThan { src1, src2, addr } => word(
            3,
            2,
            addr as u32,
            src1 as u32,
            src2 as u32,
        ),
        Instruction::BranchGreaterThan { src1, src2, addr } => word(
            3,
            3,
            addr as u32,
            src1 as u32,
            src2 as u32,
        ),
        Instruction::Cmp { src1, src2 } => word(5, 0, 0, src1 as u32, src2 as u32),
        Instruction::CmpImm { src, imm } => word(5, 1, 0, src as u32, imm10(imm)),
        Instruction::And { dst, src1, src2 } => word(2, 0, dst as u32, src1 as u32, src2 as u32),
        Instruction::Or { dst, src1, src2 } => word(2, 1, dst as u32, src1 as u32, src2 as u32),
        Instruction::Xor { dst, src1, src2 } => word(2, 2, dst as u32, src1 as u32, src2 as u32),
        Instruction::Not { dst, src } => word(2, 3, dst as u32, src as u32, 0),
        Instruction::ShiftLeft { dst, src, amount } => word(
            6,
            0,
            dst as u32,
            src as u32,
            amount as u32,
        ),
        Instruction::ShiftRight { dst, src, amount } => word(
            6,
            1,
            dst as u32,
            src as u32,
            amount as u32,
        ),
        Instruction::Push { src } => word(7, 0, 0, 0, src as u32),
        Instruction::Pop { dst } => word(7, 1, 0, 0, dst as u32),
        Instruction::Nop => word(0xF, 0, 0, 0, 0),
        Instruction::Halt => word(0xE, 0, 0, 0, 0),
    }
}

/// Each field of an assembled word reads back as written.
proof fn lemma_word_fields(p: u32, s: u32, a: u32, b: u32, c: u32)
    requires
        p < 16,
        s < 4,
        a < 256,
        b < 256,
        c < 1024,
    ensures
        field_primary(word(p, s, a, b, c)) == p as u8,
        field_secondary(word(p, s, a, b, c)) == s as u8,
        field_a(word(p, s, a, b, c)) == a as u8,
        field_b(word(p, s, a, b, c)) == b as u8,
        field_c(word(p, s, a, b, c)) == c as u16,
{
    let w = word(p, s, a, b, c);
    assert(((w >> 28u32) & 0xFu32) == p && ((w >> 26u32) & 0x3u32) == s && ((w >> 18u32)
        & 0xFFu32) == a && ((w >> 10u32) & 0xFFu32) == b && (w & 0x3FFu32) == c) by (bit_vector)
        requires
            w == (p << 28u32) | (s << 26u32) | (a << 18u32) | (b << 10u32) | c,
            p < 16,
            s < 4,
            a < 256,
            b < 256,
            c < 1024,
    ;
}

/// A 10-bit immediate field sign-extends back to the value it was made from.
proof fn lemma_imm10_round_trip(v: i16)
    requires
        fits_imm10(v),
    ensures
        imm10(v) < 1024,
        sign_extend_10_spec(imm10(v) as u16) == v,
{
}

/// Encoding an encodable instruction and decoding the word gives the instruction back.
pub proof fn lemma_decode_encode(inst: Instruction)
    requires
        encodable(inst),
    ensures
        decode_spec(encode_spec(inst)) == Some(inst),
{
    match inst {
        Instruction::Load { dst, addr } => lemma_word_fields(0, 0, dst as u32, 0, addr as u32),
        Instruction::LoadImm { dst, value } => {
            lemma_imm10_round_trip(value);
            lemma_word_fields(0, 1, dst as u32, 0, imm10(value));
        },
        Instruction::Store { src, addr } => lemma_word_fields(0, 2, src as u32, 0, addr as u32),
        Instruction::Move { dst, src } => lemma_word_fields(8, 0, dst as u32, 0, src as u32),
        Instruction::MoveIfZero { dst, src } => lemma_word_fields(8, 1, dst as u32, 0, src as u32),
        Instruction::MoveIfNotZero { dst, src } => lemma_word_fields(
            8,
            2,
            dst as u32,
            0,
            src as u32,
        ),
        Instruction::MoveWide { .. } => {},
        Instruction::MoveWideIfZero { .. } => {},
        Instruction::MoveWideIfNotZero { .. } => {},
        Instruction::Add { dst, src1, src2 } => lemma_word_fields(
            1,
            0,
            dst as u32,
            src1 as u32,
            src2 as u32,
        ),
        Instruction::Sub { dst, src1, src2 } => lemma_word_fields(
            1,
            1,
            dst as u32,
            src1 as u32,
            src2 as u32,
        ),
        Instruction::AddImm { dst, src, imm } => {
            lemma_imm10_round_trip(imm);
            lemma_word_fields(1, 2, dst as u32, src as u32, imm10(imm));
        },
        Instruction::SubImm { dst, src, imm } => {
            lemma_imm10_round_trip(imm);
            lemma_word_fields(1, 3, dst as u32, src as u32, imm10(imm));
        },
        Instruction::Mult { dst, src1, src2 } => lemma_word_fields(
            9,
            0,
            dst as u32,
            src1 as u32,
            src2 as u32,
        ),
        Instruction::MultImm { dst, src, imm } => {
            lemma_imm10_round_trip(imm);
            lemma_word_fields(9, 1, dst as u32, src as u32, imm10(imm));
        },
        Instruction::Div { dst, src1, src2 } => lemma_word_fields(
            9,
            2,
            dst as u32,
            src1 as u32,
            src2 as u32,
        ),
        Instruction::Mod { dst, src1, src2 } => lemma_word_fields(
            9,
            3,
            dst as u32,
            src1 as u32,
            src2 as u32,
        ),
        Instruction::Jump { addr } => lemma_word_fields(4, 0, 0, 0, addr as u32),
        Instruction::JumpReg { reg } => lemma_word_fields(4, 1, 0, reg as u32, 0),
        Instruction::BranchEqual { src1, src2, addr } => lemma_word_fields(
            3,
            0,
            addr as u32,
            src1 as u32,
            src2 as u32,
        ),
        Instruction::BranchNotEqual { src1, src2, addr } => lemma_word_fields(
            3,
            1,
            addr as u32,
            src1 as u32,
            src2 as u32,
        ),
        Instruction::BranchLessThan { src1, src2, addr } => lemma_word_fields(
            3,
            2,
            addr as u32,
            src1 as u32,
            src2 as u32,
        ),
        Instruction::BranchGreaterThan { src1, src2, addr } => lemma_word_fields(
            3,
            3,
            addr as u32,
            src1 as u32,
            src2 as u32,
        ),
        Instruction::Cmp { src1, src2 } => lemma_word_fields(5, 0, 0, src1 as u32, src2 as u32),
        Instruction::CmpImm { src, imm } => {
            lemma_imm10_round_trip(imm);
            lemma_word_fields(5, 1, 0, src as u32, imm10(imm));
        },
        Instruction::And { dst, src1, src2 } => lemma_word_fields(
            2,
            0,
            dst as u32,
            src1 as u32,
            src2 as u32,
        ),
        Instruction::Or { dst, src1, src2 } => lemma_word_fields(
            2,
            1,
            dst as u32,
            src1 as u32,
            src2 as u32,
        ),
        Instruction::Xor { dst, src1, src2 } => lemma_word_fields(
            2,
            2,
            dst as u32,
            src1 as u32,
            src2 as u32,
        ),
        Instruction::Not { dst, src } => lemma_word_fields(2, 3, dst as u32, src as u32, 0),
        Instruction::ShiftLeft { dst, src, amount } => lemma_word_fields(
            6,
            0,
            dst as u32,
            src as u32,
            amount as u32,
        ),
        Instruction::ShiftRight { dst, src, amount } => lemma_word_fields(
            6,
            1,
            dst as u32,
            src as u32,
            amount as u32,
        ),
        Instruction::Push { src } => lemma_word_fields(7, 0, 0, 0, src as u32),
        Instruction::Pop { dst } => lemma_word_fields(7, 1, 0, 0, dst as u32),
        Instruction::Nop => lemma_word_fields(0xF, 0, 0, 0, 0),
        Instruction::Halt => lemma_word_fields(0xE, 0, 0, 0, 0),
    }
}

fn make_word(p: u32, s: u32, a: u32, b: u32, c: u32) -> (r: u32)
    ensures
        r == word(p, s, a, b, c),
{
    (p << 28) | (s << 26) | (a << 18) | (b << 10) | c
}

fn to_imm10(v: i16) -> (r: u32)
    requires
        fits_imm10(v),
    ensures
        r == imm10(v),
{
    if v < 0 {
        (v as i32 + 1024) as u32
    } else {
        v as u32
    }
}

/// Encodes an instruction as a 32-bit word, or gives `None` where a field does
/// not fit its width (and for the wide moves, which have no encoding).
pub fn encode(inst: Instruction) -> (r: Option<u32>)
    ensures
        r == (if encodable(inst) {
            Some(encode_spec(inst))
        } else {
            None
        }),
{
    match inst {
        Instruction::Load { dst, addr } => if addr < 1024 {
            Some(make_word(0, 0, dst as u32, 0, addr as u32))
        } else {
            None
        },
        Instruction::LoadImm { dst, value } => if -512 <= value && value < 512 {
            Some(make_word(0, 1, dst as u32, 0, to_imm10(value)))
        } else {
            None
        },
        Instruction::Store { src, addr } => if addr < 1024 {
            Some(make_word(0, 2, src as u32, 0, addr as u32))
        } else {
            None
        },
        Instruction::Move { dst, src } => if src < 1024 {
            Some(make_word(8, 0, dst as u32, 0, src as u32))
        } else {
            None
        },
        Instruction::MoveIfZero { dst, src } => if src < 1024 {
            Some(make_word(8, 1, dst as u32, 0, src as u32))
        } else {
            None
        },
        Instruction::MoveIfNotZero { dst, src } => if src < 1024 {
            Some(make_word(8, 2, dst as u32, 0, src as u32))
        } else {
            None
        },
        Instruction::Add { dst, src1, src2 } => if src2 < 1024 {
            Some(make_word(1, 0, dst as u32, src1 as u32, src2 as u32))
        } else {
            None
        },
        Instruction::Sub { dst, src1, src2 } => if src2 < 1024 {
            Some(make_word(1, 1, dst as u32, src1 as u32, src2 as u32))
        } else {
            None
        },
        Instruction::AddImm { dst, src, imm } => if -512 <= imm && imm < 512 {
            Some(make_word(1, 2, dst as u32, src as u32, to_imm10(imm)))
        } else {
            None
        },
        Instruction::SubImm { dst, src, imm } => if -512 <= imm && imm < 512 {
            Some(make_word(1, 3, dst as u32, src as u32, to_imm10(imm)))
        } else {
            None
        },
        Instruction::Mult { dst, src1, src2 } => if src2 < 1024 {
            Some(make_word(9, 0, dst as u32, src1 as u32, src2 as u32))
        } else {
            None
        },
        Instruction::MultImm { dst, src, imm } => if -512 <= imm && imm < 512 {
            Some(make_word(9, 1, dst as u32, src as u32, to_imm10(imm)))
        } else {
            None
        },
        Instruction::Div { dst, src1, src2 } => if src2 < 1024 {
            Some(make_word(9, 2, dst as u32, src1 as u32, src2 as u32))
        } else {
            None
        },
        Instruction::Mod { dst, src1, src2 } => if src2 < 1024 {
            Some(make_word(9, 3, dst as u32, src1 as u32, src2 as u32))
        } else {
            None
        },
        Instruction::Jump { addr } => if addr < 1024 {
            Some(make_word(4, 0, 0, 0, addr as u32))
        } else {
            None
        },
        Instruction::JumpReg { reg } => if reg < 256 {
            Some(make_word(4, 1, 0, reg as u32, 0))
        } else {
            None
        },
        Instruction::BranchEqual { src1, src2, addr } => if src2 < 1024 && addr < 256 {
            Some(make_word(3, 0, addr as u32, src1 as u32, src2 as u32))
        } else {
            None
        },
        Instruction::BranchNotEqual { src1, src2, addr } => if src2 < 1024 && addr < 256 {
            Some(make_word(3, 1, addr as u32, src1 as u32, src2 as u32))
        } else {
            None
        },
        Instruction::BranchLessThan { src1, src2, addr } => if src2 < 1024 && addr < 256 {
            Some(make_word(3, 2, addr as u32, src1 as u32, src2 as u32))
        } else {
            None
        },
        Instruction::BranchGreaterThan { src1, src2, addr } => if src2 < 1024 && addr < 256 {
            Some(make_word(3, 3, addr as u32, src1 as u32, src2 as u32))
        } else {
            None
        },
        Instruction::Cmp { src1, src2 } => if src2 < 1024 {
            Some(make_word(5, 0, 0, src1 as u32, src2 as u32))
        } else {
            None
        },
        Instruction::CmpImm { src, imm } => if -512 <= imm && imm < 512 {
            Some(make_word(5, 1, 0, src as u32, to_imm10(imm)))
        } else {
            None
        },
        Instruction::And { dst, src1, src2 } => if src2 < 1024 {
            Some(make_word(2, 0, dst as u32, src1 as u32, src2 as u32))
        } else {
            None
        },
        Instruction::Or { dst, src1, src2 } => if src2 < 1024 {
            Some(make_word(2, 1, dst as u32, src1 as u32, src2 as u32))
        } else {
            None
        },
        Instruction::Xor { dst, src1, src2 } => if src2 < 1024 {
            Some(make_word(2, 2, dst as u32, src1 as u32, src2 as u32))
        } else {
            None
        },
        Instruction::Not { dst, src } => Some(make_word(2, 3, dst as u32, src as u32, 0)),
        Instruction::ShiftLeft { dst, src, amount } => if amount < 1024 {
            Some(make_word(6, 0, dst as u32, src as u32, amount as u32))
        } else {
            None
        },
        Instruction::ShiftRight { dst, src, amount } => if amount < 1024 {
            Some(make_word(6, 1, dst as u32, src as u32, amount as u32))
        } else {
            None
        },
        Instruction::Push { src } => if src < 1024 {
            Some(make_word(7, 0, 0, 0, src as u32))
        } else {
            None
        },
        Instruction::Pop { dst } => if dst < 1024 {
            Some(make_word(7, 1, 0, 0, dst as u32))
        } else {
            None
        },
        Instruction::Nop => Some(make_word(0xF, 0, 0, 0, 0)),
        Instruction::Halt => Some(make_word(0xE, 0, 0, 0, 0)),
        Instruction::MoveWide { .. } => None,
        Instruction::MoveWideIfZero { .. } => None,
        Instruction::MoveWideIfNotZero { .. } => None,
    }
}

} // verus!
