use tomasulo_sim::control_unit::{run, run_cycles, step, step_in_order};
use tomasulo_sim::cpu::{CpuState, ModeSwitchError};
use tomasulo_sim::isa::{decode, encode, Instruction};
use tomasulo_sim::memory::Memory;

fn image(insts: &[Instruction]) -> Vec<u8> {
    let mut bytes = Vec::new();
    for inst in insts {
        let word = encode(*inst).expect("encodable");
        bytes.extend_from_slice(&word.to_le_bytes());
    }
    bytes
}

fn machine(insts: &[Instruction], out_of_order: bool) -> (CpuState, Memory) {
    let mut cpu = CpuState::new();
    let mut mem = Memory::new();
    mem.load_program(&image(insts), 0);
    if out_of_order {
        cpu.enable_out_of_order().unwrap();
    }
    (cpu, mem)
}

fn dependent_chain() -> Vec<Instruction> {
    vec![
        Instruction::LoadImm { dst: 0, value: 10 },
        Instruction::LoadImm { dst: 1, value: 20 },
        Instruction::LoadImm { dst: 2, value: 5 },
        Instruction::LoadImm { dst: 3, value: 3 },
        Instruction::Add { dst: 4, src1: 0, src2: 1 },
        Instruction::Sub { dst: 5, src1: 2, src2: 3 },
        Instruction::Add { dst: 6, src1: 4, src2: 5 },
        Instruction::And { dst: 7, src1: 0, src2: 1 },
        Instruction::Or { dst: 8, src1: 2, src2: 3 },
        Instruction::Halt,
    ]
}

#[test]
fn decode_sanity() {
    assert_eq!(decode(0xE000_0000), Some(Instruction::Halt));
    assert_eq!(decode(0xF000_0000), Some(Instruction::Nop));
    assert_eq!(decode(0), Some(Instruction::Load { dst: 0, addr: 0 }));
}

#[test]
fn in_order_add_chain() {
    let prog = vec![
        Instruction::LoadImm { dst: 0, value: 10 },
        Instruction::LoadImm { dst: 1, value: 20 },
        Instruction::Add { dst: 4, src1: 0, src2: 1 },
        Instruction::Halt,
    ];
    let (mut cpu, mut mem) = machine(&prog, false);
    run(&mut cpu, &mut mem);
    assert_eq!(cpu.regs.read(4), 30);
    assert!(cpu.halted);
    assert!(!cpu.flags.zero);
    // Halt stops the PC on its own address.
    assert_eq!(cpu.pc, 12);
}

#[test]
fn out_of_order_matches_in_order_on_dependent_chain() {
    let prog = dependent_chain();
    let (mut a, mut ma) = machine(&prog, false);
    let (mut b, mut mb) = machine(&prog, true);
    run(&mut a, &mut ma);
    run(&mut b, &mut mb);
    assert!(a.halted && b.halted);
    let expected: [u16; 9] = [10, 20, 5, 3, 30, 2, 32, 10 & 20, 5 | 3];
    for i in 0..9u8 {
        assert_eq!(a.regs.read(i), expected[i as usize]);
        assert_eq!(b.regs.read(i), expected[i as usize]);
    }
    for i in 0..=255u8 {
        assert_eq!(a.regs.read(i), b.regs.read(i));
    }
    assert_eq!(a.flags, b.flags);
    assert_eq!(a.pc, b.pc);
    assert_eq!(b.reorder_buffer.count, 0);
    assert_eq!(b.pipeline.instruction_queue.len(), 0);
    assert!(b.pipeline.cycles > 0);
}

#[test]
fn flag_after_zero_compare() {
    let prog = vec![
        Instruction::LoadImm { dst: 0, value: 0 },
        Instruction::Cmp { src1: 0, src2: 0 },
        Instruction::Halt,
    ];
    for ooo in [false, true] {
        let (mut cpu, mut mem) = machine(&prog, ooo);
        run(&mut cpu, &mut mem);
        assert!(cpu.flags.zero);
        assert!(!cpu.flags.negative);
        assert_eq!(cpu.regs.read(0), 0);
    }
}

#[test]
fn shift_by_sixteen_gives_zero() {
    let prog = vec![
        Instruction::LoadImm { dst: 0, value: -1 },
        Instruction::ShiftLeft { dst: 1, src: 0, amount: 16 },
        Instruction::Halt,
    ];
    for ooo in [false, true] {
        let (mut cpu, mut mem) = machine(&prog, ooo);
        run(&mut cpu, &mut mem);
        assert_eq!(cpu.regs.read(0), 0xFFFF);
        assert_eq!(cpu.regs.read(1), 0);
        assert!(cpu.flags.zero);
    }
}

#[test]
fn reorder_buffer_commits_in_program_order() {
    let (mut cpu, mut mem) = machine(&dependent_chain(), true);
    let mut writes: Vec<u8> = Vec::new();
    let mut guard = 0;
    while !cpu.halted && guard < 1000 {
        let rob = &cpu.reorder_buffer;
        if rob.count > 0 && rob.entries[rob.head].ready {
            if let Some(reg) = rob.entries[rob.head].dest_reg {
                writes.push(reg);
            }
        }
        step(&mut cpu, &mut mem);
        guard += 1;
    }
    assert_eq!(writes, vec![0, 1, 2, 3, 4, 5, 6, 7, 8]);
}

#[test]
fn step_on_halted_cpu_is_a_no_op() {
    for ooo in [false, true] {
        let (mut cpu, mut mem) = machine(&dependent_chain(), ooo);
        run(&mut cpu, &mut mem);
        assert!(cpu.halted);
        let pc = cpu.pc;
        let cycles = cpu.pipeline.cycles;
        let regs: Vec<u16> = cpu.regs.regs.clone();
        assert!(!step(&mut cpu, &mut mem));
        assert_eq!(cpu.pc, pc);
        assert_eq!(cpu.pipeline.cycles, cycles);
        assert_eq!(cpu.regs.regs, regs);
        assert_eq!(run_cycles(&mut cpu, &mut mem, 5), 0);
    }
}

#[test]
fn signed_branch_and_compare_leave_registers() {
    // r0 = -1, r1 = 1: -1 < 1 signed, so the branch to 16 is taken and r2 stays 0.
    let prog = vec![
        Instruction::LoadImm { dst: 0, value: -1 },
        Instruction::LoadImm { dst: 1, value: 1 },
        Instruction::BranchLessThan { src1: 0, src2: 1, addr: 16 },
        Instruction::LoadImm { dst: 2, value: 7 },
        Instruction::CmpImm { src: 0, imm: 5 },
        Instruction::Halt,
    ];
    for ooo in [false, true] {
        let (mut cpu, mut mem) = machine(&prog, ooo);
        run(&mut cpu, &mut mem);
        assert_eq!(cpu.regs.read(2), 0);
        assert_eq!(cpu.regs.read(0), 0xFFFF);
        assert_eq!(cpu.regs.read(1), 1);
        assert!(cpu.flags.negative);
        assert!(!cpu.flags.carry);
        assert_eq!(cpu.pc, 20);
    }
}

#[test]
fn greater_than_branch_is_signed() {
    // 1 > -1 signed (though not unsigned): taken.
    let prog = vec![
        Instruction::LoadImm { dst: 0, value: 1 },
        Instruction::LoadImm { dst: 1, value: -1 },
        Instruction::BranchGreaterThan { src1: 0, src2: 1, addr: 16 },
        Instruction::LoadImm { dst: 2, value: 7 },
        Instruction::Halt,
    ];
    for ooo in [false, true] {
        let (mut cpu, mut mem) = machine(&prog, ooo);
        run(&mut cpu, &mut mem);
        assert_eq!(cpu.regs.read(2), 0);
        assert_eq!(cpu.pc, 16);
    }
}

#[test]
fn decode_failure_halts_without_advancing() {
    let mut cpu = CpuState::new();
    let mut mem = Memory::new();
    mem.load_program(&0xB000_0000u32.to_le_bytes(), 0);
    assert!(!step_in_order(&mut cpu, &mut mem));
    assert!(cpu.halted);
    assert_eq!(cpu.pc, 0);
}

#[test]
fn decode_failure_halts_out_of_order_after_earlier_work() {
    let mut bytes = image(&[
        Instruction::LoadImm { dst: 0, value: 3 },
        Instruction::AddImm { dst: 1, src: 0, imm: 4 },
    ]);
    bytes.extend_from_slice(&0xB000_0000u32.to_le_bytes());
    let mut cpu = CpuState::new();
    let mut mem = Memory::new();
    mem.load_program(&bytes, 0);
    cpu.enable_out_of_order().unwrap();
    run(&mut cpu, &mut mem);
    assert!(cpu.halted);
    assert_eq!(cpu.regs.read(0), 3);
    assert_eq!(cpu.regs.read(1), 7);
    assert_eq!(cpu.pc, 8);
}

#[test]
fn loads_and_stores_agree_between_engines() {
    let prog = vec![
        Instruction::LoadImm { dst: 0, value: 300 },
        Instruction::Store { src: 0, addr: 512 },
        Instruction::Load { dst: 1, addr: 512 },
        Instruction::AddImm { dst: 2, src: 1, imm: 1 },
        Instruction::Halt,
    ];
    let (mut a, mut ma) = machine(&prog, false);
    let (mut b, mut mb) = machine(&prog, true);
    run(&mut a, &mut ma);
    run(&mut b, &mut mb);
    assert_eq!(a.regs.read(1), 300);
    assert_eq!(b.regs.read(1), 300);
    assert_eq!(b.regs.read(2), 301);
    assert_eq!(ma.load_u16(512), 300);
    assert_eq!(mb.load_u16(512), 300);
    assert_eq!(ma.data, mb.data);
}

#[test]
fn jump_and_moves_agree_between_engines() {
    let prog = vec![
        Instruction::LoadImm { dst: 0, value: 9 },
        Instruction::Jump { addr: 12 },
        Instruction::LoadImm { dst: 0, value: 1 },
        Instruction::SubImm { dst: 1, src: 0, imm: 9 },
        Instruction::MoveIfZero { dst: 2, src: 0 },
        Instruction::MoveIfNotZero { dst: 3, src: 0 },
        Instruction::Move { dst: 4, src: 700 },
        Instruction::Halt,
    ];
    let (mut a, mut ma) = machine(&prog, false);
    let (mut b, mut mb) = machine(&prog, true);
    run(&mut a, &mut ma);
    run(&mut b, &mut mb);
    for cpu in [&a, &b] {
        assert_eq!(cpu.regs.read(0), 9);
        assert_eq!(cpu.regs.read(1), 0);
        assert_eq!(cpu.regs.read(2), 9);
        assert_eq!(cpu.regs.read(3), 0);
        assert_eq!(cpu.regs.read(4), 0);
    }
    assert_eq!(a.flags, b.flags);
}

#[test]
fn complex_arithmetic_in_order() {
    let prog = vec![
        Instruction::LoadImm { dst: 0, value: 300 },
        Instruction::LoadImm { dst: 1, value: 7 },
        Instruction::Mult { dst: 2, src1: 0, src2: 1 },
        Instruction::Div { dst: 3, src1: 0, src2: 1 },
        Instruction::Mod { dst: 4, src1: 0, src2: 1 },
        Instruction::Div { dst: 5, src1: 0, src2: 9 },
        Instruction::MultImm { dst: 6, src: 1, imm: -1 },
        Instruction::Halt,
    ];
    for ooo in [false, true] {
        let (mut cpu, mut mem) = machine(&prog, ooo);
        run(&mut cpu, &mut mem);
        assert_eq!(cpu.regs.read(2), 2100);
        assert_eq!(cpu.regs.read(3), 42);
        assert_eq!(cpu.regs.read(4), 6);
        assert_eq!(cpu.regs.read(5), 0);
        assert_eq!(cpu.regs.read(6), 0xFFF9);
    }
}

#[test]
fn mode_switch_refused_while_in_flight() {
    let (mut cpu, mut mem) = machine(&dependent_chain(), true);
    step(&mut cpu, &mut mem);
    step(&mut cpu, &mut mem);
    assert!(!cpu.is_quiescent());
    assert_eq!(cpu.disable_out_of_order(), Err(ModeSwitchError::InFlight));
    assert!(cpu.out_of_order_enabled);
    run(&mut cpu, &mut mem);
    assert!(cpu.is_quiescent());
    assert_eq!(cpu.disable_out_of_order(), Ok(()));
    assert!(!cpu.out_of_order_enabled);
    assert_eq!(cpu.enable_out_of_order(), Ok(()));
}

#[test]
fn run_cycles_counts_steps() {
    let (mut cpu, mut mem) = machine(&dependent_chain(), false);
    assert_eq!(run_cycles(&mut cpu, &mut mem, 3), 3);
    assert_eq!(cpu.pc, 12);
    assert_eq!(run_cycles(&mut cpu, &mut mem, 100), 7);
    assert!(cpu.halted);
}

#[test]
fn reorder_buffer_occupancy_matches_head_and_tail() {
    let mut rob = tomasulo_sim::tomasulo::ReorderBuffer::new(4);
    for pc in 0..3u16 {
        assert!(rob.allocate(Instruction::Nop, None, pc).is_some());
    }
    rob.complete(0, Some(0));
    assert!(rob.commit().is_some());
    assert!(rob.allocate(Instruction::Nop, None, 3).is_some());
    assert!(rob.allocate(Instruction::Nop, None, 4).is_some());
    assert_eq!(rob.count, 4);
    assert!(rob.is_full());
    rob.complete(1, Some(0));
    assert!(rob.commit().is_some());
    let size = rob.size as i64;
    let expected = ((rob.tail as i64 - rob.head as i64) % size + size) % size;
    assert_eq!(rob.count as i64, expected);
    let valid = rob.entries.iter().filter(|e| e.valid).count();
    assert_eq!(valid, rob.count);
}

#[test]
fn one_value_reaches_the_bus_per_cycle() {
    let (mut cpu, mut mem) = machine(&dependent_chain(), true);
    let mut broadcasts = 0;
    while !cpu.halted {
        let before: Vec<bool> = cpu.reorder_buffer.entries.iter().map(|e| e.valid && e.ready).collect();
        step(&mut cpu, &mut mem);
        let newly_ready = cpu
            .reorder_buffer
            .entries
            .iter()
            .zip(before.iter())
            .filter(|(e, was)| e.valid && e.ready && !**was)
            .count();
        assert!(newly_ready <= 1);
        if cpu.common_data_bus.valid {
            broadcasts += 1;
        }
    }
    // one broadcast for each of the nine register-writing instructions
    assert_eq!(broadcasts, 9);
}

#[test]
fn rename_table_names_the_youngest_writer() {
    let prog = vec![
        Instruction::LoadImm { dst: 1, value: 1 },
        Instruction::LoadImm { dst: 1, value: 2 },
        Instruction::Add { dst: 2, src1: 1, src2: 1 },
        Instruction::Halt,
    ];
    let (mut cpu, mut mem) = machine(&prog, true);
    step(&mut cpu, &mut mem);
    assert_eq!(cpu.rename_table.entries[1].producer_tag, Some(0));
    step(&mut cpu, &mut mem);
    assert_eq!(cpu.rename_table.entries[1].producer_tag, Some(1));
    assert!(!cpu.rename_table.entries[1].ready);
    run(&mut cpu, &mut mem);
    assert_eq!(cpu.regs.read(1), 2);
    assert_eq!(cpu.regs.read(2), 4);
    assert_eq!(cpu.rename_table.entries[1].producer_tag, None);
    assert!(cpu.rename_table.entries[1].ready);
}

fn generated_program(seed: u64, len: usize) -> Vec<Instruction> {
    let mut state = seed;
    let mut next = move |bound: u64| {
        state = state.wrapping_mul(6364136223846793005).wrapping_add(1442695040888963407);
        (state >> 33) % bound
    };
    let mut prog = Vec::new();
    for i in 0..len {
        let dst = next(8) as u8;
        let a = next(8) as u8;
        let b = next(8) as u16;
        let imm = next(1024) as i16 - 512;
        let addr = 512 + 2 * next(8) as u16;
        let target = (4 * (i as u64 + 1 + next(4))).min(4 * len as u64) as u16;
        let inst = match next(19) {
            16 => Instruction::BranchLessThan { src1: a, src2: b, addr: target },
            17 => Instruction::BranchEqual { src1: a, src2: b, addr: target },
            18 => Instruction::Jump { addr: target },
            0 => Instruction::Add { dst, src1: a, src2: b },
            1 => Instruction::Sub { dst, src1: a, src2: b },
            2 => Instruction::And { dst, src1: a, src2: b },
            3 => Instruction::Or { dst, src1: a, src2: b },
            4 => Instruction::Xor { dst, src1: a, src2: b },
            5 => Instruction::AddImm { dst, src: a, imm },
            6 => Instruction::SubImm { dst, src: a, imm },
            7 => Instruction::Not { dst, src: a },
            8 => Instruction::ShiftLeft { dst, src: a, amount: next(20) as u16 },
            9 => Instruction::ShiftRight { dst, src: a, amount: next(20) as u16 },
            10 => Instruction::LoadImm { dst, value: imm },
            11 => Instruction::Load { dst, addr },
            12 => Instruction::Store { src: a, addr },
            13 => Instruction::Cmp { src1: a, src2: b },
            14 => Instruction::MoveIfZero { dst, src: b },
            _ => Instruction::Mult { dst, src1: a, src2: b },
        };
        prog.push(inst);
    }
    prog.push(Instruction::Halt);
    prog
}

#[test]
fn engines_agree_on_generated_programs() {
    for seed in 1..40u64 {
        let prog = generated_program(seed, 60);
        assert!(4 * prog.len() <= 256);
        let (mut a, mut ma) = machine(&prog, false);
        let (mut b, mut mb) = machine(&prog, true);
        run(&mut a, &mut ma);
        run(&mut b, &mut mb);
        assert!(a.halted && b.halted, "seed {}", seed);
        assert_eq!(a.regs.regs, b.regs.regs, "seed {}", seed);
        assert_eq!(ma.data, mb.data, "seed {}", seed);
        assert_eq!(a.flags, b.flags, "seed {}", seed);
        assert_eq!(a.pc, b.pc, "seed {}", seed);
        assert!(b.is_quiescent());
    }
}

#[test]
fn run_counts_steps_and_cycles() {
    let prog = vec![
        Instruction::LoadImm { dst: 0, value: 10 },
        Instruction::LoadImm { dst: 1, value: 20 },
        Instruction::Add { dst: 4, src1: 0, src2: 1 },
        Instruction::Halt,
    ];
    let (mut a, mut ma) = machine(&prog, false);
    assert_eq!(run(&mut a, &mut ma), 4);
    assert_eq!(a.pipeline.cycles, 0);
    let (mut b, mut mb) = machine(&prog, true);
    let steps = run(&mut b, &mut mb);
    assert!(b.halted);
    assert_eq!(b.pipeline.cycles, steps + 1);
    assert!(b.is_quiescent());
    let (mut c, mut mc) = machine(&prog, true);
    let r = run_cycles(&mut c, &mut mc, 1000);
    assert!(r < 1000 && c.halted);
    assert_eq!(c.pipeline.cycles, r as u64 + 1);
}

#[test]
fn fresh_processor_is_reset() {
    let cpu = CpuState::new();
    assert_eq!((cpu.reorder_buffer.head, cpu.reorder_buffer.tail, cpu.reorder_buffer.count), (0, 0, 0));
    assert_eq!(cpu.reorder_buffer.size, 16);
    assert!(cpu.reorder_buffer.entries.iter().all(|e| !e.valid));
    assert_eq!(cpu.rename_table.entries.len(), 256);
    assert!(!cpu.common_data_bus.valid);
    assert!(cpu.is_quiescent());
}
