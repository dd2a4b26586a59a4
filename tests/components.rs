use tomasulo_sim::alu::{add, and, not, or, shift_left, shift_right, sub, xor};
use tomasulo_sim::cpu::CpuState;
use tomasulo_sim::execute::execute;
use tomasulo_sim::isa::{decode, encode, Instruction};
use tomasulo_sim::memory::Memory;
use tomasulo_sim::peripherals::{Gpio, Timer, Uart};
use tomasulo_sim::pipeline::PipelineController;
use tomasulo_sim::register_file::RegisterFile;
use tomasulo_sim::tomasulo::{
    CommonDataBus, RegisterRenameTable, ReorderBuffer, ReorderBufferEntry, RenameEntry,
    ReservationStation, ReservationStationPool,
};
use tomasulo_sim::utils::sign_extend_10;

#[test]
fn alu_add_and_sub_with_carry() {
    assert_eq!(add(1, 2), (3, false));
    assert_eq!(add(0xFFFF, 1), (0, true));
    assert_eq!(add(0x8000, 0x8001), (1, true));
    assert_eq!(sub(5, 3), (2, false));
    assert_eq!(sub(3, 5), (0xFFFE, true));
    assert_eq!(sub(7, 7), (0, false));
}

#[test]
fn alu_bitwise_and_shifts() {
    assert_eq!(and(0b1100, 0b1010), 0b1000);
    assert_eq!(or(0b1100, 0b1010), 0b1110);
    assert_eq!(xor(0b1100, 0b1010), 0b0110);
    assert_eq!(not(0x00FF), 0xFF00);
    assert_eq!(shift_left(1, 15), 0x8000);
    assert_eq!(shift_left(0xFFFF, 16), 0);
    assert_eq!(shift_left(3, 1000), 0);
    assert_eq!(shift_right(0x8000, 15), 1);
    assert_eq!(shift_right(0xFFFF, 16), 0);
}

#[test]
fn sign_extension_of_ten_bits() {
    assert_eq!(sign_extend_10(0), 0);
    assert_eq!(sign_extend_10(511), 511);
    assert_eq!(sign_extend_10(512), -512);
    assert_eq!(sign_extend_10(0x3FF), -1);
    assert_eq!(sign_extend_10(0x400 | 5), 5);
}

#[test]
fn decode_fields_and_failures() {
    // Add: primary 1, secondary 0, A = 4, B = 0, C = 1
    let raw = (1u32 << 28) | (4 << 18) | (0 << 10) | 1;
    assert_eq!(decode(raw), Some(Instruction::Add { dst: 4, src1: 0, src2: 1 }));
    // LoadImm with C = 0x3FF is -1
    let raw = (1u32 << 26) | (2 << 18) | 0x3FF;
    assert_eq!(decode(raw), Some(Instruction::LoadImm { dst: 2, value: -1 }));
    // Branch: A is the target, B the first source, C the second
    let raw = (3u32 << 28) | (2 << 26) | (0x40 << 18) | (7 << 10) | 300;
    assert_eq!(
        decode(raw),
        Some(Instruction::BranchLessThan { src1: 7, src2: 300, addr: 0x40 })
    );
    // JumpReg takes its register from field B
    let raw = (4u32 << 28) | (1 << 26) | (9 << 10);
    assert_eq!(decode(raw), Some(Instruction::JumpReg { reg: 9 }));
    // unused secondaries and primaries
    assert_eq!(decode(3u32 << 26), None);
    assert_eq!(decode((4u32 << 28) | (2 << 26)), None);
    assert_eq!(decode(0xA000_0000), None);
    assert_eq!(decode(0xB000_0000), None);
    assert_eq!(decode(0xD123_4567), None);
}

#[test]
fn encode_then_decode_round_trips() {
    let samples = [
        Instruction::Load { dst: 1, addr: 1023 },
        Instruction::LoadImm { dst: 255, value: -512 },
        Instruction::LoadImm { dst: 0, value: 511 },
        Instruction::Store { src: 3, addr: 40 },
        Instruction::Move { dst: 1, src: 700 },
        Instruction::MoveIfZero { dst: 2, src: 3 },
        Instruction::MoveIfNotZero { dst: 2, src: 3 },
        Instruction::Add { dst: 1, src1: 2, src2: 3 },
        Instruction::Sub { dst: 1, src1: 2, src2: 1000 },
        Instruction::AddImm { dst: 1, src: 2, imm: -7 },
        Instruction::SubImm { dst: 1, src: 2, imm: 7 },
        Instruction::Mult { dst: 1, src1: 2, src2: 3 },
        Instruction::MultImm { dst: 1, src: 2, imm: -3 },
        Instruction::Div { dst: 1, src1: 2, src2: 3 },
        Instruction::Mod { dst: 1, src1: 2, src2: 3 },
        Instruction::Jump { addr: 1020 },
        Instruction::JumpReg { reg: 200 },
        Instruction::BranchEqual { src1: 1, src2: 2, addr: 255 },
        Instruction::BranchNotEqual { src1: 1, src2: 2, addr: 0 },
        Instruction::BranchLessThan { src1: 1, src2: 2, addr: 8 },
        Instruction::BranchGreaterThan { src1: 1, src2: 2, addr: 8 },
        Instruction::Cmp { src1: 1, src2: 2 },
        Instruction::CmpImm { src: 1, imm: -1 },
        Instruction::And { dst: 1, src1: 2, src2: 3 },
        Instruction::Or { dst: 1, src1: 2, src2: 3 },
        Instruction::Xor { dst: 1, src1: 2, src2: 3 },
        Instruction::Not { dst: 1, src: 2 },
        Instruction::ShiftLeft { dst: 1, src: 2, amount: 16 },
        Instruction::ShiftRight { dst: 1, src: 2, amount: 3 },
        Instruction::Push { src: 5 },
        Instruction::Pop { dst: 5 },
        Instruction::Nop,
        Instruction::Halt,
    ];
    for inst in samples {
        let word = encode(inst).expect("encodable");
        assert_eq!(decode(word), Some(inst));
    }
    assert_eq!(encode(Instruction::Halt), Some(0xE000_0000));
    assert_eq!(encode(Instruction::Nop), Some(0xF000_0000));
    assert_eq!(encode(Instruction::Add { dst: 4, src1: 0, src2: 1 }), Some(0x1010_0001));
}

#[test]
fn encode_rejects_fields_that_do_not_fit() {
    assert_eq!(encode(Instruction::LoadImm { dst: 0, value: 512 }), None);
    assert_eq!(encode(Instruction::AddImm { dst: 0, src: 0, imm: -513 }), None);
    assert_eq!(encode(Instruction::Load { dst: 0, addr: 1024 }), None);
    assert_eq!(encode(Instruction::BranchEqual { src1: 0, src2: 0, addr: 256 }), None);
    assert_eq!(encode(Instruction::JumpReg { reg: 256 }), None);
    assert_eq!(encode(Instruction::MoveWide { dst: 1, src: 1 }), None);
}

#[test]
fn register_file_ten_bit_access() {
    let mut regs = RegisterFile::new();
    regs.write(7, 42);
    assert_eq!(regs.read(7), 42);
    assert_eq!(regs.read_10bit(7), 42);
    assert_eq!(regs.read_10bit(300), 0);
    regs.write_10bit(300, 9);
    assert_eq!(regs.read_10bit(300), 0);
    regs.write_10bit(255, 9);
    assert_eq!(regs.read(255), 9);
}

#[test]
fn memory_little_endian_access() {
    let mut mem = Memory::new();
    assert_eq!(mem.size(), 65536);
    mem.store_u16(10, 0xABCD);
    assert_eq!(mem.read(10), 0xCD);
    assert_eq!(mem.read(11), 0xAB);
    assert_eq!(mem.load_u16(10), 0xABCD);
    mem.store_u16(0xFFFF, 0x1234);
    assert_eq!(mem.read(0xFFFF), 0x34);
    assert_eq!(mem.read(0), 0x12);
    assert_eq!(mem.load_u16(0xFFFF), 0x1234);
    mem.load_program(&[1, 2, 3, 4], 100);
    assert_eq!(mem.fetch(100), 0x0403_0201);
    assert_eq!(mem.fetch(0xFFFD), 0);
}

#[test]
fn load_program_is_clipped_at_the_end() {
    let mut mem = Memory::new();
    mem.load_program(&[9, 8, 7, 6], 0xFFFE);
    assert_eq!(mem.read(0xFFFE), 9);
    assert_eq!(mem.read(0xFFFF), 8);
    assert_eq!(mem.read(0), 0);
    mem.write(5, 1);
    assert_eq!(mem.read(5), 1);
}

#[test]
fn set_flags_from_result_follows_sign_and_zero() {
    let mut cpu = CpuState::new();
    cpu.set_flags_from_result(0);
    assert!(cpu.flags.zero && !cpu.flags.negative);
    cpu.set_flags_from_result(0x8000);
    assert!(!cpu.flags.zero && cpu.flags.negative);
    cpu.set_flags_from_result(0x7FFF);
    assert!(!cpu.flags.zero && !cpu.flags.negative);
    assert!(!cpu.flags.carry && !cpu.flags.overflow);
}

#[test]
fn execute_compare_keeps_registers() {
    let mut cpu = CpuState::new();
    let mut mem = Memory::new();
    cpu.regs.write(1, 3);
    cpu.regs.write(2, 5);
    let before = cpu.regs.regs.clone();
    execute(Instruction::Cmp { src1: 1, src2: 2 }, &mut cpu, &mut mem);
    assert_eq!(cpu.regs.regs, before);
    assert!(cpu.flags.carry && cpu.flags.negative && !cpu.flags.zero);
    execute(Instruction::Sub { dst: 3, src1: 2, src2: 1 }, &mut cpu, &mut mem);
    assert_eq!(cpu.regs.read(3), 2);
    assert!(!cpu.flags.carry);
    execute(Instruction::Halt, &mut cpu, &mut mem);
    assert!(cpu.halted);
}

#[test]
fn reservation_station_pool_scans_first_fit() {
    let mut pool = ReservationStationPool::new();
    assert_eq!(pool.alu_stations.len(), 4);
    assert_eq!(pool.load_stations.len(), 2);
    assert_eq!(pool.store_stations.len(), 2);
    assert_eq!(pool.find_free_alu_station(), Some(0));
    pool.alu_stations[0].busy = true;
    pool.alu_stations[2].busy = true;
    assert_eq!(pool.find_free_alu_station(), Some(1));
    pool.load_stations[0].busy = true;
    pool.load_stations[1].busy = true;
    assert_eq!(pool.find_free_load_station(), None);
    assert_eq!(pool.find_free_store_station(), Some(0));
}

#[test]
fn ready_stations_and_snooping() {
    let mut pool = ReservationStationPool::new();
    pool.alu_stations[1] = ReservationStation {
        busy: true,
        op: Some(Instruction::Add { dst: 1, src1: 2, src2: 3 }),
        vj: Some(4),
        vk: None,
        qj: None,
        qk: Some(7),
        tag: 3,
        cycles_remaining: 0,
    };
    pool.store_stations[0] = ReservationStation {
        busy: true,
        op: Some(Instruction::Store { src: 1, addr: 8 }),
        vj: Some(1),
        vk: Some(8),
        qj: None,
        qk: None,
        tag: 5,
        cycles_remaining: 0,
    };
    assert!(!pool.alu_stations[1].is_ready());
    let ready = pool.get_ready_instructions();
    assert_eq!(ready.len(), 1);
    assert_eq!(ready[0].0, 5);
    pool.update_from_cdb(7, 11);
    assert!(pool.alu_stations[1].is_ready());
    assert_eq!(pool.alu_stations[1].vk, Some(11));
    assert_eq!(pool.alu_stations[1].qk, None);
    let ready = pool.get_ready_instructions();
    assert_eq!(ready.len(), 2);
    assert_eq!((ready[0].0, ready[0].2, ready[0].3), (3, 4, 11));
    pool.clear_by_tag(3);
    assert!(!pool.alu_stations[1].busy);
    let mut rs = pool.store_stations[0];
    rs.clear();
    assert_eq!(rs, ReservationStation::new());
}

#[test]
fn reorder_buffer_is_a_circular_fifo() {
    let mut rob = ReorderBuffer::new(2);
    assert!(rob.is_empty());
    assert_eq!(rob.allocate(Instruction::Nop, Some(1), 0), Some(0));
    assert_eq!(rob.allocate(Instruction::Nop, Some(2), 4), Some(1));
    assert!(rob.is_full());
    assert_eq!(rob.allocate(Instruction::Nop, Some(3), 8), None);
    assert!(!rob.can_commit());
    rob.complete(1, Some(9));
    assert!(!rob.can_commit());
    rob.update_from_cdb(0, 5);
    assert!(rob.can_commit());
    let e = rob.commit().unwrap();
    assert_eq!((e.dest_reg, e.result, e.pc), (Some(1), Some(5), 0));
    assert_eq!(rob.head, 1);
    assert_eq!(rob.count, 1);
    assert_eq!(rob.allocate(Instruction::Halt, None, 8), Some(0));
    let e = rob.commit().unwrap();
    assert_eq!(e.result, Some(9));
    assert_eq!(rob.commit(), None);
    assert_eq!(rob.count, 1);
    // A slot outside the in-flight window is left alone.
    rob.complete(1, Some(1));
    assert!(!rob.entries[1].valid);
    let mut entry = rob.entries[0];
    entry.clear();
    assert_eq!(entry, ReorderBufferEntry::new());
}

#[test]
fn reorder_buffer_of_no_slots_never_allocates() {
    let mut rob = ReorderBuffer::new(0);
    assert!(rob.is_full() && rob.is_empty());
    assert_eq!(rob.allocate(Instruction::Nop, None, 0), None);
    assert_eq!(rob.commit(), None);
}

#[test]
fn rename_table_tracks_producers() {
    let mut table = RegisterRenameTable::new(256);
    assert_eq!(table.get_register_info(4), (true, None));
    table.rename_register(4, 2);
    table.rename_register(5, 2);
    assert_eq!(table.get_register_info(4), (false, Some(2)));
    table.update_from_cdb(2);
    assert_eq!(table.get_register_info(4), (true, None));
    assert_eq!(table.get_register_info(5), (true, None));
    table.rename_register(6, 3);
    table.release(6, 1);
    assert_eq!(table.get_register_info(6), (false, Some(3)));
    table.release(6, 3);
    assert_eq!(table.entries[6], RenameEntry::new());
    let small = RegisterRenameTable::new(4);
    assert_eq!(small.get_register_info(9), (true, None));
}

#[test]
fn common_data_bus_holds_one_value() {
    let mut cdb = CommonDataBus::new();
    assert!(!cdb.valid);
    cdb.broadcast(3, 99);
    assert_eq!((cdb.valid, cdb.tag, cdb.value), (true, 3, 99));
    cdb.broadcast(4, 1);
    assert_eq!((cdb.tag, cdb.value), (4, 1));
    cdb.clear();
    assert!(!cdb.valid);
}

#[test]
fn pipeline_counts_cycles() {
    let mut cpu = CpuState::new();
    let mut mem = Memory::new();
    mem.load_program(&0xE000_0000u32.to_le_bytes(), 0);
    assert_eq!(cpu.pipeline.cycles, 0);
    assert!(!PipelineController::step(&mut cpu, &mut mem));
    assert_eq!(cpu.pipeline.cycles, 1);
    assert!(cpu.halted);
    assert_eq!(cpu.pc, 0);
    let fresh = PipelineController::new();
    assert_eq!(fresh.instruction_queue.len(), 0);
}

#[test]
fn timer_wraps_at_period() {
    let mut t = Timer::new();
    assert!(!t.tick());
    assert_eq!(t.counter, 0);
    t.enabled = true;
    t.period = 3;
    assert!(!t.tick());
    assert!(!t.tick());
    assert!(t.tick());
    assert_eq!(t.counter, 0);
}

#[test]
fn uart_ring_buffers() {
    let mut u = Uart::new();
    assert_eq!(u.receive_byte(), None);
    for i in 0..255u32 {
        assert!(u.send_byte(i as u8));
    }
    assert!(!u.send_byte(0));
    assert_eq!(u.tx_buffer[254], 254);
    u.rx_buffer[0] = 7;
    u.rx_head = 1;
    assert_eq!(u.receive_byte(), Some(7));
    assert_eq!(u.receive_byte(), None);
}

#[test]
fn gpio_pins() {
    let mut g = Gpio::new();
    assert!(!g.get_pin(3));
    g.set_pin(3, true);
    assert!(g.get_pin(3));
    g.set_pin(16, true);
    assert!(!g.get_pin(16));
}
