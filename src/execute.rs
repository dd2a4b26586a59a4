//! The architectural meaning of each instruction, and the interpreter that
//! carries it out on a processor and its memory.
use vstd::prelude::*;
use crate::alu;
use crate::alu::{add_spec, sub_spec, shl_spec, shr_spec};
use crate::cpu::{flags_from_result, CpuState, StatusFlags};
use crate::isa::Instruction;
use crate::memory::{load_u16_spec, store_u16_spec, Memory};
use crate::register_file::{read_10bit_spec, write_10bit_spec};

verus! {

/// The software-visible state: register file, PC, halted flag, status flags and memory.
pub struct Arch {
    pub regs: Seq<u16>,
    pub pc: u16,
    pub halted: bool,
    pub flags: StatusFlags,
    pub mem: Seq<u8>,
}

/// The architectural state of `cpu` with `mem`.
pub open spec fn arch_of(cpu: CpuState, mem: Memory) -> Arch {
    Arch { regs: cpu.regs@, pc: cpu.pc, halted: cpu.halted, flags: cpu.flags, mem: mem@ }
}

/// Every part of `a` outside the architectural state equals that part of `b`.
pub open spec fn same_engine(a: CpuState, b: CpuState) -> bool {
    &&& a.reservation_stations == b.reservation_stations
    &&& a.reorder_buffer == b.reorder_buffer
    &&& a.rename_table == b.rename_table
    &&& a.common_data_bus == b.common_data_bus
    &&& a.pipeline == b.pipeline
    &&& a.out_of_order_enabled == b.out_of_order_enabled
}

/// The low 16 bits of `a * b`.
pub open spec fn mul_spec(a: u16, b: u16) -> u16 {
    ((a as int * b as int) % 0x10000) as u16
}

/// Unsigned quotient; a zero divisor gives 0.
pub open spec fn div_spec(a: u16, b: u16) -> u16 {
    if b == 0 {
        0
    } else {
        (a / b) as u16
    }
}

/// Unsigned remainder; a zero divisor gives 0.
pub open spec fn rem_spec(a: u16, b: u16) -> u16 {
    if b == 0 {
        0
    } else {
        (a % b) as u16
    }
}

/// `dst` takes `result`; zero and negative follow it.
pub open spec fn with_result(s: Arch, dst: u8, result: u16) -> Arch {
    Arch { regs: s.regs.update(dst as int, result), flags: flags_from_result(s.flags, result), ..s }
}

/// `dst` takes `result`; carry is `carry`, zero and negative follow the result.
pub open spec fn with_result_carry(s: Arch, dst: u8, result: u16, carry: bool) -> Arch {
    Arch {
        regs: s.regs.update(dst as int, result),
        flags: flags_from_result(StatusFlags { carry, ..s.flags }, result),
        ..s
    }
}

/// Flags as a comparison of `a` with `b` sets them: those of `a - b`, carry the borrow.
pub open spec fn compared(s: Arch, a: u16, b: u16) -> Arch {
    Arch { flags: flags_from_result(StatusFlags { carry: a < b, ..s.flags }, sub_spec(a, b)), ..s }
}

/// The state with register `dst` set to `v`.
pub open spec fn with_reg(s: Arch, dst: u8, v: u16) -> Arch {
    Arch { regs: s.regs.update(dst as int, v), ..s }
}

/// The state with the PC at `addr` when `taken`.
pub open spec fn branch_to(s: Arch, taken: bool, addr: u16) -> Arch {
    if taken {
        Arch { pc: addr, ..s }
    } else {
        s
    }
}

/// What executing `inst` does to the architectural state (the PC advance
/// that follows is the caller's).
pub open spec fn execute_spec(inst: Instruction, s: Arch) -> Arch {
    let r = s.regs;
    match inst {
        Instruction::Load { dst, addr } => with_reg(s, dst, load_u16_spec(s.mem, addr)),
        Instruction::LoadImm { dst, value } => with_reg(s, dst, value as u16),
        Instruction::Store { src, addr } => Arch {
            mem: store_u16_spec(s.mem, addr, r[src as int]),
            ..s
        },
        Instruction::Move { dst, src } => with_reg(s, dst, read_10bit_spec(r, src)),
        Instruction::MoveIfZero { dst, src } => if s.flags.zero {
            with_reg(s, dst, read_10bit_spec(r, src))
        } else {
            s
        },
        Instruction::MoveIfNotZero { dst, src } => if !s.flags.zero {
            with_reg(s, dst, read_10bit_spec(r, src))
        } else {
            s
        },
        Instruction::MoveWide { dst, src } => Arch {
            regs: write_10bit_spec(r, dst, r[src as int]),
            ..s
        },
        Instruction::MoveWideIfZero { dst, src } => if s.flags.zero {
            Arch { regs: write_10bit_spec(r, dst, r[src as int]), ..s }
        } else {
            s
        },
        Instruction::MoveWideIfNotZero { dst, src } => if !s.flags.zero {
            Arch { regs: write_10bit_spec(r, dst, r[src as int]), ..s }
        } else {
            s
        },
        Instruction::Add { dst, src1, src2 } => {
            let (a, b) = (r[src1 as int], read_10bit_spec(r, src2));
            with_result_carry(s, dst, add_spec(a, b), a as int + b as int > 0xFFFF)
        },
        Instruction::Sub { dst, src1, src2 } => {
            let (a, b) = (r[src1 as int], read_10bit_spec(r, src2));
            with_result_carry(s, dst, sub_spec(a, b), a < b)
        },
        Instruction::AddImm { dst, src, imm } => {
            let (a, b) = (r[src as int], imm as u16);
            with_result_carry(s, dst, add_spec(a, b), a as int + b as int > 0xFFFF)
        },
        Instruction::SubImm { dst, src, imm } => {
            let (a, b) = (r[src as int], imm as u16);
            with_result_carry(s, dst, sub_spec(a, b), a < b)
        },
        Instruction::Mult { dst, src1, src2 } => with_result(
            s,
            dst,
            mul_spec(r[src1 as int], read_10bit_spec(r, src2)),
        ),
        Instruction::MultImm { dst, src, imm } => with_result(
            s,
            dst,
            mul_spec(r[src as int], imm as u16),
        ),
        Instruction::Div { dst, src1, src2 } => with_result(
            s,
            dst,
            div_spec(r[src1 as int], read_10bit_spec(r, src2)),
        ),
        Instruction::Mod { dst, src1, src2 } => with_result(
            s,
            dst,
            rem_spec(r[src1 as int], read_10bit_spec(r, src2)),
        ),
        Instruction::Jump { addr } => Arch { pc: addr, ..s },
        Instruction::JumpReg { reg } => Arch { pc: read_10bit_spec(r, reg), ..s },
        Instruction::BranchEqual { src1, src2, addr } => branch_to(
            s,
            r[src1 as int] == read_10bit_spec(r, src2),
            addr,
        ),
        Instruction::BranchNotEqual { src1, src2, addr } => branch_to(
            s,
            r[src1 as int] != read_10bit_spec(r, src2),
            addr,
        ),
        Instruction::BranchLessThan { src1, src2, addr } => branch_to(
            s,
            (r[src1 as int] as i16) < (read_10bit_spec(r, src2) as i16),
            addr,
        ),
        Instruction::BranchGreaterThan { src1, src2, addr } => branch_to(
            s,
            (r[src1 as int] as i16) > (read_10bit_spec(r, src2) as i16),
            addr,
        ),
        Instruction::Cmp { src1, src2 } => compared(s, r[src1 as int], read_10bit_spec(r, src2)),
        Instruction::CmpImm { src, imm } => compared(s, r[src as int], imm as u16),
        Instruction::And { dst, src1, src2 } => with_result(
            s,
            dst,
            r[src1 as int] & read_10bit_spec(r, src2),
        ),
        Instruction::Or { dst, src1, src2 } => with_result(
            s,
            dst,
            r[src1 as int] | read_10bit_spec(r, src2),
        ),
        Instruction::Xor { dst, src1, src2 } => with_result(
            s,
            dst,
            r[src1 as int] ^ read_10bit_spec(r, src2),
        ),
        Instruction::Not { dst, src } => with_result(s, dst, !r[src as int]),
        Instruction::ShiftLeft { dst, src, amount } => with_result(
            s,
            dst,
            shl_spec(r[src as int], amount),
        ),
        Instruction::ShiftRight { dst, src, amount } => with_result(
            s,
            dst,
            shr_spec(r[src as int], amount),
        ),
        Instruction::Push { .. } => s,
        Instruction::Pop { .. } => s,
        Instruction::Nop => s,
        Instruction::Halt => Arch { halted: true, ..s },
    }
}

/// Writes `result` to `dst` and sets zero and negative from it.
fn write_result(cpu: &mut CpuState, dst: u8, result: u16)
    requires
        old(cpu).wf(),
    ensures
        final(cpu).wf(),
        same_engine(*final(cpu), *old(cpu)),
        final(cpu).regs@ == old(cpu).regs@.update(dst as int, result),
        final(cpu).flags == flags_from_result(old(cpu).flags, result),
        final(cpu).pc == old(cpu).pc,
        final(cpu).halted == old(cpu).halted,
{
    cpu.regs.write(dst, result);
    cpu.set_flags_from_result(result);
}

/// Carries out `instruction` on the architectural state of `cpu` and `mem`;
/// the out-of-order engine is left as it was.
pub fn execute(instruction: Instruction, cpu: &mut CpuState, mem: &mut Memory)
    requires
        old(cpu).wf(),
        old(mem).wf(),
    ensures
        final(cpu).wf(),
        final(mem).wf(),
        same_engine(*final(cpu), *old(cpu)),
        arch_of(*final(cpu), *final(mem)) == execute_spec(instruction, arch_of(*old(cpu), *old(mem))),
{
    match instruction {
        Instruction::Load { dst, addr } => {
            let value = mem.load_u16(addr);
            cpu.regs.write(dst, value);
        },
        Instruction::LoadImm { dst, value } => {
            cpu.regs.write(dst, value as u16);
        },
        Instruction::Store { src, addr } => {
            let value = cpu.regs.read(src);
            mem.store_u16(addr, value);
        },
        Instruction::Move { dst, src } => {
            let value = cpu.regs.read_10bit(src);
            cpu.regs.write(dst, value);
        },
        Instruction::MoveIfZero { dst, src } => {
            if cpu.flags.zero {
                let value = cpu.regs.read_10bit(src);
                cpu.regs.write(dst, value);
            }
        },
        Instruction::MoveIfNotZero { dst, src } => {
            if !cpu.flags.zero {
                let value = cpu.regs.read_10bit(src);
                cpu.regs.write(dst, value);
            }
        },
        Instruction::MoveWide { dst, src } => {
            let value = cpu.regs.read(src);
            cpu.regs.write_10bit(dst, value);
        },
        Instruction::MoveWideIfZero { dst, src } => {
            if cpu.flags.zero {
                let value = cpu.regs.read(src);
                cpu.regs.write_10bit(dst, value);
            }
        },
        Instruction::MoveWideIfNotZero { dst, src } => {
            if !cpu.flags.zero {
                let value = cpu.regs.read(src);
                cpu.regs.write_10bit(dst, value);
            }
        },
        Instruction::Add { dst, src1, src2 } => {
            let val1 = cpu.regs.read(src1);
            let val2 = cpu.regs.read_10bit(src2);
            let (result, carry) = alu::add(val1, val2);
            cpu.regs.write(dst, result);
            cpu.flags.carry = carry;
            cpu.set_flags_from_result(result);
        },
        Instruction::Sub { dst, src1, src2 } => {
            let val1 = cpu.regs.read(src1);
            let val2 = cpu.regs.read_10bit(src2);
            let (result, carry) = alu::sub(val1, val2);
            cpu.regs.write(dst, result);
            cpu.flags.carry = carry;
            cpu.set_flags_from_result(result);
        },
        Instruction::AddImm { dst, src, imm } => {
            let val = cpu.regs.read(src);
            let (result, carry) = alu::add(val, imm as u16);
            cpu.regs.write(dst, result);
            cpu.flags.carry = carry;
            cpu.set_flags_from_result(result);
        },
        Instruction::SubImm { dst, src, imm } => {
            let val = cpu.regs.read(src);
            let (result, carry) = alu::sub(val, imm as u16);
            cpu.regs.write(dst, result);
            cpu.flags.carry = carry;
            cpu.set_flags_from_result(result);
        },
        Instruction::Mult { dst, src1, src2 } => {
            let val1 = cpu.regs.read(src1);
            let val2 = cpu.regs.read_10bit(src2);
            write_result(cpu, dst, val1.wrapping_mul(val2));
        },
        Instruction::MultImm { dst, src, imm } => {
            let val = cpu.regs.read(src);
            write_result(cpu, dst, val.wrapping_mul(imm as u16));
        },
        Instruction::Div { dst, src1, src2 } => {
            let val1 = cpu.regs.read(src1);
            let val2 = cpu.regs.read_10bit(src2);
            let result = if val2 == 0 {
                0
            } else {
                val1 / val2
            };
            write_result(cpu, dst, result);
        },
        Instruction::Mod { dst, src1, src2 } => {
            let val1 = cpu.regs.read(src1);
            let val2 = cpu.regs.read_10bit(src2);
            let result = if val2 == 0 {
                0
            } else {
                val1 % val2
            };
            write_result(cpu, dst, result);
        },
        Instruction::Jump { addr } => {
            cpu.pc = addr;
        },
        Instruction::JumpReg { reg } => {
            cpu.pc = cpu.regs.read_10bit(reg);
        },
        Instruction::BranchEqual { src1, src2, addr } => {
            let val1 = cpu.regs.read(src1);
            let val2 = cpu.regs.read_10bit(src2);
            if val1 == val2 {
                cpu.pc = addr;
            }
        },
        Instruction::BranchNotEqual { src1, src2, addr } => {
            let val1 = cpu.regs.read(src1);
            let val2 = cpu.regs.read_10bit(src2);
            if val1 != val2 {
                cpu.pc = addr;
            }
        },
        Instruction::BranchLessThan { src1, src2, addr } => {
            let val1 = cpu.regs.read(src1) as i16;
            let val2 = cpu.regs.read_10bit(src2) as i16;
            if val1 < val2 {
                cpu.pc = addr;
            }
        },
        Instruction::BranchGreaterThan { src1, src2, addr } => {
            let val1 = cpu.regs.read(src1) as i16;
            let val2 = cpu.regs.read_10bit(src2) as i16;
            if val1 > val2 {
                cpu.pc = addr;
            }
        },
        Instruction::Cmp { src1, src2 } => {
            let val1 = cpu.regs.read(src1);
            let val2 = cpu.regs.read_10bit(src2);
            let (result, carry) = alu::sub(val1, val2);
            cpu.flags.carry = carry;
            cpu.set_flags_from_result(result);
        },
        Instruction::CmpImm { src, imm } => {
            let val = cpu.regs.read(src);
            let (result, carry) = alu::sub(val, imm as u16);
            cpu.flags.carry = carry;
            cpu.set_flags_from_result(result);
        },
        Instruction::And { dst, src1, src2 } => {
            let val1 = cpu.regs.read(src1);
            let val2 = cpu.regs.read_10bit(src2);
            write_result(cpu, dst, alu::and(val1, val2));
        },
        Instruction::Or { dst, src1, src2 } => {
            let val1 = cpu.regs.read(src1);
            let val2 = cpu.regs.read_10bit(src2);
            write_result(cpu, dst, alu::or(val1, val2));
        },
        Instruction::Xor { dst, src1, src2 } => {
            let val1 = cpu.regs.read(src1);
            let val2 = cpu.regs.read_10bit(src2);
            write_result(cpu, dst, alu::xor(val1, val2));
        },
        Instruction::Not { dst, src } => {
            let val = cpu.regs.read(src);
            write_result(cpu, dst, alu::not(val));
        },
        Instruction::ShiftLeft { dst, src, amount } => {
            let val = cpu.regs.read(src);
            write_result(cpu, dst, alu::shift_left(val, amount));
        },
        Instruction::ShiftRight { dst, src, amount } => {
            let val = cpu.regs.read(src);
            write_result(cpu, dst, alu::shift_right(val, amount));
        },
        Instruction::Push { .. } => {},
        Instruction::Pop { .. } => {},
        Instruction::Nop => {},
        Instruction::Halt => {
            cpu.halted = true;
        },
    }
}

/// Ordering branches compare the registers as signed 16-bit numbers, equality
/// branches as plain 16-bit values, and a comparison changes the flags alone:
/// registers, memory, PC and halted flag are left as they were.
pub proof fn lemma_branches_and_compares(inst: Instruction, s: Arch)
    ensures
        inst matches Instruction::BranchLessThan { src1, src2, addr } ==> execute_spec(inst, s) == (
        if (s.regs[src1 as int] as i16) < (read_10bit_spec(s.regs, src2) as i16) {
            Arch { pc: addr, ..s }
        } else {
            s
        }),
        inst matches Instruction::BranchGreaterThan { src1, src2, addr } ==> execute_spec(inst, s)
            == (if (s.regs[src1 as int] as i16) > (read_10bit_spec(s.regs, src2) as i16) {
            Arch { pc: addr, ..s }
        } else {
            s
        }),
        inst matches Instruction::BranchEqual { src1, src2, addr } ==> execute_spec(inst, s) == (
        if s.regs[src1 as int] == read_10bit_spec(s.regs, src2) {
            Arch { pc: addr, ..s }
        } else {
            s
        }),
        inst matches Instruction::BranchNotEqual { src1, src2, addr } ==> execute_spec(inst, s)
            == (if s.regs[src1 as int] != read_10bit_spec(s.regs, src2) {
            Arch { pc: addr, ..s }
        } else {
            s
        }),
        (inst is Cmp || inst is CmpImm) ==> {
            let t = execute_spec(inst, s);
            &&& t.regs == s.regs
            &&& t.mem == s.mem
            &&& t.pc == s.pc
            &&& t.halted == s.halted
        },
{
}

} // verus!
