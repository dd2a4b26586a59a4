//! The four-stage out-of-order cycle driver: Commit, Write-Result, Execute and
//! Issue, run in that (reverse) order within each cycle.
use vstd::prelude::*;
use crate::alu;
use crate::alu::{add_spec, sub_spec, shl_spec, shr_spec};
use crate::cpu::{
    disjoint_tags,
    engine_consistent,
    flags_from_result,
    owned_by,
    owned_or,
    pending,
    station_consistent,
    stations_consistent,
    stations_paired,
    unique_tags,
    CpuState,
    StatusFlags,
    FETCH_QUEUE_CAPACITY,
};
use crate::execute::{arch_of, execute, execute_spec, same_engine, Arch};
use crate::isa::{decode, decode_spec, Instruction};
use crate::memory::{fetch_spec, load_u16_spec, store_u16_spec, Memory};
use crate::program_order::{
    in_program_order,
    lemma_commit_executes_in_order,
    lemma_commit_in_program_order,
    lemma_execute_in_program_order,
    lemma_issue_step_in_program_order,
    lemma_quiet_in_program_order,
    lemma_renames_irrelevant,
    lemma_writeback_in_program_order,
    source_j,
    source_k,
};
use crate::tomasulo::{
    architectural_entry,
    count_down,
    empty_entry,
    slot_at,
    is_first_free,
    issued_entry,
    release_station,
    snoop_station,
    CommonDataBus,
    RenameEntry,
    ReorderBuffer,
    ReorderBufferEntry,
    ReservationStation,
    ReservationStationPool,
    slot_offset,
};

verus! {

/// The fetch queue of (instruction, PC) pairs, oldest first, and the cycle counter.
#[derive(Debug)]
pub struct PipelineController {
    pub cycles: u64,
    pub instruction_queue: Vec<(Instruction, u16)>,
}

/// Control flow and Halt: fetch stops behind them until they have executed.
pub open spec fn is_control(inst: Instruction) -> bool {
    match inst {
        Instruction::Jump { .. } => true,
        Instruction::JumpReg { .. } => true,
        Instruction::BranchEqual { .. } => true,
        Instruction::BranchNotEqual { .. } => true,
        Instruction::BranchLessThan { .. } => true,
        Instruction::BranchGreaterThan { .. } => true,
        Instruction::Halt => true,
        _ => false,
    }
}

/// The value an out-of-order unit computes from the captured operands, with its carry.
pub open spec fn compute_spec(inst: Instruction, vj: u16, vk: u16, mem: Seq<u8>) -> (u16, bool) {
    match inst {
        Instruction::Add { .. } => (add_spec(vj, vk), vj as int + vk as int > 0xFFFF),
        Instruction::AddImm { .. } => (add_spec(vj, vk), vj as int + vk as int > 0xFFFF),
        Instruction::Sub { .. } => (sub_spec(vj, vk), vj < vk),
        Instruction::SubImm { .. } => (sub_spec(vj, vk), vj < vk),
        Instruction::And { .. } => (vj & vk, false),
        Instruction::Or { .. } => (vj | vk, false),
        Instruction::Xor { .. } => (vj ^ vk, false),
        Instruction::Not { .. } => (!vj, false),
        Instruction::ShiftLeft { .. } => (shl_spec(vj, vk), false),
        Instruction::ShiftRight { .. } => (shr_spec(vj, vk), false),
        Instruction::LoadImm { .. } => (vj, false),
        Instruction::Load { .. } => (load_u16_spec(mem, vj), false),
        Instruction::Store { .. } => (vj, false),
        _ => (0, false),
    }
}

/// The flags after `inst` retires with `result` and `carry`, as the in-order
/// engine would have set them.
pub open spec fn retire_flags(inst: Instruction, f: StatusFlags, result: u16, carry: bool) -> StatusFlags {
    match inst {
        Instruction::Add { .. } => flags_from_result(StatusFlags { carry, ..f }, result),
        Instruction::Sub { .. } => flags_from_result(StatusFlags { carry, ..f }, result),
        Instruction::AddImm { .. } => flags_from_result(StatusFlags { carry, ..f }, result),
        Instruction::SubImm { .. } => flags_from_result(StatusFlags { carry, ..f }, result),
        Instruction::And { .. } => flags_from_result(f, result),
        Instruction::Or { .. } => flags_from_result(f, result),
        Instruction::Xor { .. } => flags_from_result(f, result),
        Instruction::Not { .. } => flags_from_result(f, result),
        Instruction::ShiftLeft { .. } => flags_from_result(f, result),
        Instruction::ShiftRight { .. } => flags_from_result(f, result),
        _ => f,
    }
}

/// What retiring `e` does to the architectural state: a store writes memory,
/// anything else with a destination writes the register file and the flags.
pub open spec fn retire_spec(e: ReorderBufferEntry, s: Arch) -> Arch {
    match (e.instruction, e.result) {
        (Some(Instruction::Store { addr, .. }), Some(v)) => Arch {
            mem: store_u16_spec(s.mem, addr, v),
            ..s
        },
        (Some(Instruction::Store { .. }), None) => s,
        (Some(inst), Some(v)) => match e.dest_reg {
            Some(reg) => Arch {
                regs: s.regs.update(reg as int, v),
                flags: retire_flags(inst, s.flags, v, e.carry),
                ..s
            },
            None => s,
        },
        _ => s,
    }
}

/// What a station receives for a register source `src`: (value, producer tag).
pub open spec fn operand_spec(cpu: CpuState, src: u16) -> (Option<u16>, Option<usize>) {
    if src >= 256 {
        (Some(0), None)
    } else {
        let e = cpu.rename_table@[src as int];
        if e.ready || e.producer_tag.is_none() {
            (Some(cpu.regs@[src as int]), None)
        } else {
            let tag = e.producer_tag.unwrap();
            let rob = cpu.reorder_buffer;
            if rob.live(tag as int) && rob.entries@[tag as int].ready
                && rob.entries@[tag as int].result.is_some() {
                (rob.entries@[tag as int].result, None)
            } else {
                (None, Some(tag))
            }
        }
    }
}

/// The operations that the out-of-order engine issues into its stations.
pub open spec fn is_engine_op(inst: Instruction) -> bool {
    match inst {
        Instruction::Add { .. } => true,
        Instruction::Sub { .. } => true,
        Instruction::And { .. } => true,
        Instruction::Or { .. } => true,
        Instruction::Xor { .. } => true,
        Instruction::AddImm { .. } => true,
        Instruction::SubImm { .. } => true,
        Instruction::Not { .. } => true,
        Instruction::ShiftLeft { .. } => true,
        Instruction::ShiftRight { .. } => true,
        Instruction::LoadImm { .. } => true,
        Instruction::Load { .. } => true,
        Instruction::Store { .. } => true,
        _ => false,
    }
}

/// The register an engine operation writes at commit; stores write none.
pub open spec fn dest_of(inst: Instruction) -> Option<u8> {
    match inst {
        Instruction::Add { dst, .. } => Some(dst),
        Instruction::Sub { dst, .. } => Some(dst),
        Instruction::And { dst, .. } => Some(dst),
        Instruction::Or { dst, .. } => Some(dst),
        Instruction::Xor { dst, .. } => Some(dst),
        Instruction::AddImm { dst, .. } => Some(dst),
        Instruction::SubImm { dst, .. } => Some(dst),
        Instruction::Not { dst, .. } => Some(dst),
        Instruction::ShiftLeft { dst, .. } => Some(dst),
        Instruction::ShiftRight { dst, .. } => Some(dst),
        Instruction::LoadImm { dst, .. } => Some(dst),
        Instruction::Load { dst, .. } => Some(dst),
        _ => None,
    }
}

/// `pc + 4`, wrapping at 2^16.
pub open spec fn next_pc(pc: u16) -> u16 {
    ((pc as int + 4) % 0x10000) as u16
}

/// Executing `inst` as the instruction at `s.pc`, then moving to the next
/// instruction unless it jumped, branched or halted.
pub open spec fn advance(inst: Instruction, s: Arch) -> Arch {
    let s1 = execute_spec(inst, s);
    if s1.pc == s.pc && !s1.halted {
        Arch { pc: next_pc(s.pc), ..s1 }
    } else {
        s1
    }
}

/// What the in-order fallback does with `inst`, fetched at `pc`: control flow
/// runs as the instruction at `pc`; anything else leaves the PC (the fetch
/// address) alone.
pub open spec fn fallback_spec(inst: Instruction, pc: u16, s: Arch) -> Arch {
    if is_control(inst) {
        advance(inst, Arch { pc, ..s })
    } else {
        execute_spec(inst, s)
    }
}

/// Issue may fetch: the queue has room, the processor runs, and no control-flow
/// instruction waits in the queue.
pub open spec fn fetch_allowed(cpu: CpuState) -> bool {
    let q = cpu.pipeline.instruction_queue@;
    q.len() < FETCH_QUEUE_CAPACITY && !cpu.halted && !(q.len() > 0 && is_control(q.last().0))
}

/// A source given as a register index, or as `None` for the immediate `imm`.
pub open spec fn source_spec(cpu: CpuState, src: Option<u16>, imm: u16) -> (Option<u16>, Option<usize>) {
    match src {
        Some(reg) => operand_spec(cpu, reg),
        None => (Some(imm), None),
    }
}

/// The immediate operand that an operation carries in place of a register.
pub open spec fn immediate_spec(instruction: Instruction) -> u16 {
    match instruction {
        Instruction::AddImm { imm, .. } => imm as u16,
        Instruction::SubImm { imm, .. } => imm as u16,
        Instruction::LoadImm { value, .. } => value as u16,
        Instruction::ShiftLeft { amount, .. } => amount,
        Instruction::ShiftRight { amount, .. } => amount,
        _ => 0u16,
    }
}

/// Cycles each kind of operation spends in its unit: 2 for a load, 1 otherwise.
pub open spec fn latency_spec(instruction: Instruction) -> u32 {
    if instruction is Load {
        2u32
    } else {
        1u32
    }
}

/// A busy station holding `instruction` for slot `tag`, with operands `j` and `k`
/// given as (value, producer tag).
pub open spec fn station_for(
    instruction: Instruction,
    j: (Option<u16>, Option<usize>),
    k: (Option<u16>, Option<usize>),
    tag: usize,
) -> ReservationStation {
    ReservationStation {
        busy: true,
        op: Some(instruction),
        vj: j.0,
        vk: k.0,
        qj: j.1,
        qk: k.1,
        tag,
        cycles_remaining: latency_spec(instruction),
    }
}

/// Some station of `s` is free.
pub open spec fn has_free(s: Seq<ReservationStation>) -> bool {
    exists|i: int| 0 <= i < s.len() && !(#[trigger] s[i]).busy
}

/// `new` is `old` with its first free station replaced by `rs`.
pub open spec fn fills_first_free(
    new: Seq<ReservationStation>,
    old: Seq<ReservationStation>,
    rs: ReservationStation,
) -> bool {
    exists|i: int| is_first_free(old, Some(i as usize)) && new == old.update(i, rs)
}

/// `new` is `old` with `e` allocated at its tail.
pub open spec fn allocated(new: ReorderBuffer, old: ReorderBuffer, e: ReorderBufferEntry) -> bool {
    &&& new.wf()
    &&& new.size == old.size
    &&& new.head == old.head
    &&& new.count == old.count + 1
    &&& new.entries@ == old.entries@.update(old.tail as int, e)
    &&& new@ == old@.push(e)
}

/// What Commit does, from `c0` with `m0` to `c1` with `m1`: if the oldest
/// entry is ready it retires, otherwise nothing changes.
pub open spec fn commit_post(c0: CpuState, m0: Memory, c1: CpuState, m1: Memory) -> bool {
    &&& c1.pc == c0.pc
    &&& c1.halted == c0.halted
    &&& c1.reservation_stations == c0.reservation_stations
    &&& c1.pipeline == c0.pipeline
    &&& c1.out_of_order_enabled == c0.out_of_order_enabled
    &&& c1.common_data_bus == c0.common_data_bus
    &&& !c0.reorder_buffer.can_commit_spec() ==> c1 == c0 && m1 == m0
    &&& c0.reorder_buffer.can_commit_spec() ==> {
        &&& arch_of(c1, m1) == retire_spec(c0.reorder_buffer@[0], arch_of(c0, m0))
        &&& c1.reorder_buffer@ == c0.reorder_buffer@.drop_first()
        &&& c1.reorder_buffer.count == c0.reorder_buffer.count - 1
        &&& c1.reorder_buffer.head == slot_at(c0.reorder_buffer.head, c0.reorder_buffer.size, 1)
        &&& c1.reorder_buffer.size == c0.reorder_buffer.size
        &&& c1.reorder_buffer.entries@ == c0.reorder_buffer.entries@.update(
            c0.reorder_buffer.head as int,
            empty_entry(),
        )
        &&& c1.rename_table@ == (match c0.reorder_buffer@[0].dest_reg {
            Some(reg) => if c0.rename_table@[reg as int].producer_tag == Some(c0.reorder_buffer.head) {
                c0.rename_table@.update(reg as int, architectural_entry())
            } else {
                c0.rename_table@
            },
            None => c0.rename_table@,
        })
    }
}

/// What Execute does: every busy countdown above zero goes down by one.
pub open spec fn execute_post(c0: CpuState, c1: CpuState) -> bool {
    &&& c1 == (CpuState { reservation_stations: c1.reservation_stations, ..c0 })
    &&& c1.reservation_stations.alu_stations@ == c0.reservation_stations.alu_stations@.map_values(
        |rs| count_down(rs),
    )
    &&& c1.reservation_stations.load_stations@ == c0.reservation_stations.load_stations@.map_values(
        |rs| count_down(rs),
    )
    &&& c1.reservation_stations.store_stations@ == c0.reservation_stations.store_stations@.map_values(
        |rs| count_down(rs),
    )
}

/// What Write-Result does with memory `mem`: the first finished station, if
/// any, broadcasts its result, which completes its entry, frees the station
/// and feeds every operand waiting on it. One value at most reaches the bus,
/// and one reorder-buffer entry at most changes.
pub open spec fn writeback_post(c0: CpuState, mem: Memory, c1: CpuState) -> bool {
    &&& c1.regs == c0.regs
    &&& c1.pc == c0.pc
    &&& c1.halted == c0.halted
    &&& c1.flags == c0.flags
    &&& c1.rename_table == c0.rename_table
    &&& c1.pipeline == c0.pipeline
    &&& c1.out_of_order_enabled == c0.out_of_order_enabled
    &&& c1.reorder_buffer.head == c0.reorder_buffer.head
    &&& c1.reorder_buffer.tail == c0.reorder_buffer.tail
    &&& c1.reorder_buffer.count == c0.reorder_buffer.count
    &&& c1.reorder_buffer.size == c0.reorder_buffer.size
    &&& ({
        let ready = c0.reservation_stations.ready_spec();
        if ready.len() == 0 {
            &&& !c1.common_data_bus.valid
            &&& c1.reorder_buffer == c0.reorder_buffer
            &&& c1.reservation_stations == c0.reservation_stations
        } else {
            let (tag, inst, vj, vk) = ready[0];
            let (value, carry) = compute_spec(inst, vj, vk, mem@);
            &&& c1.common_data_bus == (CommonDataBus { valid: true, tag, value })
            &&& c1.reorder_buffer.entries@ == (if c0.reorder_buffer.live(tag as int) {
                c0.reorder_buffer.entries@.update(
                    tag as int,
                    ReorderBufferEntry {
                        ready: true,
                        result: Some(value),
                        carry,
                        ..c0.reorder_buffer.entries@[tag as int]
                    },
                )
            } else {
                c0.reorder_buffer.entries@
            })
            &&& c1.reservation_stations.after_broadcast(c0.reservation_stations, tag, value)
        }
    })
    &&& c1.common_data_bus.valid ==> forall|i: int|
        0 <= i < c1.reorder_buffer.size && i != c1.common_data_bus.tag
            ==> #[trigger] c1.reorder_buffer.entries@[i] == c0.reorder_buffer.entries@[i]
}

/// What Issue does: fetch appends the instruction at the PC to the queue
/// (or, for a word that does not decode with nothing queued or in flight,
/// halts); then the oldest queued instruction either stays (a stall) or
/// leaves the queue, entering the reorder buffer at its tail if the engine
/// handles it. Registers, memory and flags change only through the in-order
/// fallback, which runs with nothing in flight.
pub open spec fn issue_post(c0: CpuState, m0: Memory, c1: CpuState, m1: Memory) -> bool {
    let word = decode_spec(fetch_spec(m0@, c0.pc));
    let fetched = fetch_allowed(c0) && word is Some;
    let queue = if fetched {
        c0.pipeline.instruction_queue@.push((word.unwrap(), c0.pc))
    } else {
        c0.pipeline.instruction_queue@
    };
    let halting = fetch_allowed(c0) && word is None && c0.pipeline.instruction_queue@.len() == 0
        && c0.reorder_buffer.count == 0;
    &&& c1.pipeline.cycles == c0.pipeline.cycles
    &&& c1.out_of_order_enabled == c0.out_of_order_enabled
    &&& fetched ==> c1.pc == next_pc(c0.pc) || (queue.len() == 1 && is_control(queue[0].0))
    &&& halting ==> c1.halted && m1 == m0 && c1.pc == c0.pc && c1.pipeline == c0.pipeline
    &&& c1.pipeline.instruction_queue@ == queue || (queue.len() > 0
        && c1.pipeline.instruction_queue@ == queue.drop_first())
    &&& c1.pipeline.instruction_queue@ == queue ==> c1.reorder_buffer == c0.reorder_buffer
    &&& (c1.regs == c0.regs && m1 == m0 && c1.flags == c0.flags) || (c0.reorder_buffer.count == 0
        && c1.reorder_buffer.count == 0)
    &&& (queue.len() > 0 && c1.pipeline.instruction_queue@ == queue.drop_first() && is_engine_op(
        queue[0].0,
    )) ==> c1.reorder_buffer@ == c0.reorder_buffer@.push(
        issued_entry(queue[0].0, dest_of(queue[0].0), queue[0].1),
    )
    // the oldest queued instruction leaves exactly when it can be issued
    &&& queue.len() > 0 ==> (c1.pipeline.instruction_queue@ == queue.drop_first() <==> can_issue(
        c0,
        queue[0].0,
    ))
    // what the engine does not handle runs in order, as the instruction at its own PC
    &&& (queue.len() > 0 && c1.pipeline.instruction_queue@ == queue.drop_first() && !is_engine_op(
        queue[0].0,
    )) ==> {
        &&& c1.reorder_buffer == c0.reorder_buffer
        &&& arch_of(c1, m1) == fallback_spec(
            queue[0].0,
            queue[0].1,
            Arch {
                pc: if fetched {
                    next_pc(c0.pc)
                } else {
                    c0.pc
                },
                ..arch_of(c0, m0)
            },
        )
    }
}

/// Nothing queued and nothing in flight.
pub open spec fn drained(c: CpuState) -> bool {
    c.reorder_buffer.count == 0 && c.pipeline.instruction_queue@.len() == 0
}

/// Whether `inst` can leave the queue now: a free station of its unit and a
/// free reorder-buffer slot (and, for a load, no store in flight); for what
/// the engine does not handle, nothing in flight.
pub open spec fn can_issue(c: CpuState, inst: Instruction) -> bool {
    let rob = c.reorder_buffer;
    let room = rob.count < rob.size;
    let st = c.reservation_stations;
    match inst {
        Instruction::Load { .. } => !rob.store_in_flight() && has_free(st.load_stations@) && room,
        Instruction::Store { .. } => has_free(st.store_stations@) && room,
        _ => if is_engine_op(inst) {
            has_free(st.alu_stations@) && room
        } else {
            rob.count == 0
        },
    }
}

/// What one cycle of the out-of-order engine does, from `c0` with `m0` to `c1`
/// with `m1`: the four stages run in order, the cycle counter goes up by one
/// (saturating), and registers, memory and flags change only by retiring the
/// oldest in-flight entry (as executing it in order does, while the engine
/// agrees with in-order execution) or through the in-order fallback with
/// nothing in flight.
pub open spec fn cycle_post(c0: CpuState, m0: Memory, c1: CpuState, m1: Memory) -> bool {
    // the engine halts only with nothing queued or in flight
    &&& (c0.halted ==> drained(c0)) ==> (c1.halted ==> drained(c1))
    &&& c1.pipeline.cycles == (if c0.pipeline.cycles < u64::MAX {
        c0.pipeline.cycles + 1
    } else {
        c0.pipeline.cycles as int
    })
    // the four stages, in this order
    &&& exists|a1: CpuState, n1: Memory, a2: CpuState, a3: CpuState, a4: CpuState|
        {
            &&& commit_post(c0, m0, a1, n1)
            &&& writeback_post(a1, n1, a2)
            &&& execute_post(a2, a3)
            &&& issue_post(a3, n1, a4, m1)
            &&& c1 == (CpuState {
                pipeline: PipelineController { cycles: c1.pipeline.cycles, ..a4.pipeline },
                ..a4
            })
        }
    // registers, memory and flags change only by retiring the oldest in-flight
    // entry, or through the in-order fallback with nothing in flight
    &&& ({
        let before = arch_of(c0, m0);
        let committed = c0.reorder_buffer.can_commit_spec();
        let retired = if committed {
            retire_spec(c0.reorder_buffer@[0], before)
        } else {
            before
        };
        let after = arch_of(c1, m1);
        ||| after.regs == retired.regs && after.mem == retired.mem && after.flags == retired.flags
        ||| c0.reorder_buffer.count == (if committed {
            1usize
        } else {
            0usize
        }) && c1.reorder_buffer.count == 0
    })
    // while the engine agrees with in-order execution, retiring is executing in order
    &&& in_program_order(c0, m0@) ==> ({
        let before = arch_of(c0, m0);
        let committed = c0.reorder_buffer.can_commit_spec();
        let retired = if committed {
            execute_spec(c0.reorder_buffer@[0].instruction.unwrap(), before)
        } else {
            before
        };
        let after = arch_of(c1, m1);
        ||| after.regs == retired.regs && after.mem == retired.mem && after.flags == retired.flags
        ||| c0.reorder_buffer.count == (if committed {
            1usize
        } else {
            0usize
        }) && c1.reorder_buffer.count == 0
    })
}

impl PipelineController {
    pub fn new() -> (r: Self)
        ensures
            r.cycles == 0,
            r.instruction_queue@.len() == 0,
    {
        PipelineController { cycles: 0, instruction_queue: Vec::new() }
    }

    /// Cycles each kind of operation spends in its unit: 2 for a load, 1 otherwise.
    fn get_execution_cycles(instruction: &Instruction) -> (r: u32)
        ensures
            r == latency_spec(*instruction),
    {
        match instruction {
            Instruction::Load { .. } => 2,
            _ => 1,
        }
    }

    /// The immediate operand that an operation carries in place of a register.
    fn get_immediate_value(instruction: &Instruction) -> (r: u16)
        ensures
            r == immediate_spec(*instruction),
    {
        match instruction {
            Instruction::AddImm { imm, .. } => *imm as u16,
            Instruction::SubImm { imm, .. } => *imm as u16,
            Instruction::LoadImm { value, .. } => *value as u16,
            Instruction::ShiftLeft { amount, .. } => *amount,
            Instruction::ShiftRight { amount, .. } => *amount,
            _ => 0,
        }
    }

    fn compute_result(instruction: Instruction, vj: u16, vk: u16, mem: &Memory) -> (r: (u16, bool))
        requires
            mem.wf(),
        ensures
            r == compute_spec(instruction, vj, vk, mem@),
    {
        match instruction {
            Instruction::Add { .. } => alu::add(vj, vk),
            Instruction::AddImm { .. } => alu::add(vj, vk),
            Instruction::Sub { .. } => alu::sub(vj, vk),
            Instruction::SubImm { .. } => alu::sub(vj, vk),
            Instruction::And { .. } => (alu::and(vj, vk), false),
            Instruction::Or { .. } => (alu::or(vj, vk), false),
            Instruction::Xor { .. } => (alu::xor(vj, vk), false),
            Instruction::Not { .. } => (alu::not(vj), false),
            Instruction::ShiftLeft { .. } => (alu::shift_left(vj, vk), false),
            Instruction::ShiftRight { .. } => (alu::shift_right(vj, vk), false),
            Instruction::LoadImm { .. } => (vj, false),
            Instruction::Load { .. } => (mem.load_u16(vj), false),
            Instruction::Store { .. } => (vj, false),
            _ => (0, false),
        }
    }

    /// Sets the flags for an entry retiring with `result` and `carry`.
    fn apply_retire_flags(cpu: &mut CpuState, instruction: Instruction, result: u16, carry: bool)
        ensures
            *final(cpu) == (CpuState {
                flags: retire_flags(instruction, old(cpu).flags, result, carry),
                ..*old(cpu)
            }),
    {
        match instruction {
            Instruction::Add { .. } | Instruction::Sub { .. } | Instruction::AddImm { .. }
            | Instruction::SubImm { .. } => {
                cpu.flags.carry = carry;
                cpu.set_flags_from_result(result);
            },
            Instruction::And { .. } | Instruction::Or { .. } | Instruction::Xor { .. }
            | Instruction::Not { .. } | Instruction::ShiftLeft { .. }
            | Instruction::ShiftRight { .. } => {
                cpu.set_flags_from_result(result);
            },
            _ => {},
        }
    }

    /// Commit: retires the head of the reorder buffer if it is ready, writing
    /// memory (stores) or the register file and flags, and reverting the rename
    /// entry of its register if it still names this slot.
    fn commit_stage(cpu: &mut CpuState, mem: &mut Memory)
        requires
            old(cpu).wf(),
            old(mem).wf(),
        ensures
            final(cpu).wf(),
            final(mem).wf(),
            commit_post(*old(cpu), *old(mem), *final(cpu), *final(mem)),
            in_program_order(*old(cpu), old(mem)@) ==> in_program_order(*final(cpu), final(mem)@),
    {
        proof {
            reveal(engine_consistent);
        }
        let tag = cpu.reorder_buffer.head;
        let ghost stations = cpu.reservation_stations;
        if let Some(entry) = cpu.reorder_buffer.commit() {
            proof {
                lemma_paired_shrink(
                    old(cpu).reorder_buffer,
                    cpu.reorder_buffer,
                    stations.alu_stations@,
                    stations.load_stations@,
                    stations.store_stations@,
                    stations.alu_stations@,
                    stations.load_stations@,
                    stations.store_stations@,
                    -1,
                );
            }
            if let Some(reg) = entry.dest_reg {
                cpu.rename_table.release(reg, tag);
            }
            match (entry.instruction, entry.result) {
                (Some(Instruction::Store { addr, .. }), Some(value)) => {
                    mem.store_u16(addr, value);
                },
                (Some(Instruction::Store { .. }), None) => {},
                (Some(instruction), Some(value)) => {
                    if let Some(reg) = entry.dest_reg {
                        cpu.regs.write(reg, value);
                        Self::apply_retire_flags(cpu, instruction, value, entry.carry);
                    }
                },
                _ => {},
            }
        }
        proof {
            if in_program_order(*old(cpu), old(mem)@) {
                lemma_commit_in_program_order(*old(cpu), *old(mem), *cpu, *mem);
            }
        }
    }

    /// Execute: every busy countdown above zero goes down by one.
    fn execute_stage(cpu: &mut CpuState)
        requires
            old(cpu).wf(),
        ensures
            final(cpu).wf(),
            execute_post(*old(cpu), *final(cpu)),
            forall|m: Seq<u8>|
                in_program_order(*old(cpu), m) ==> #[trigger] in_program_order(*final(cpu), m),
    {
        proof {
            reveal(engine_consistent);
        }
        cpu.reservation_stations.count_down();
        proof {
            lemma_paired_shrink(
                old(cpu).reorder_buffer,
                cpu.reorder_buffer,
                old(cpu).reservation_stations.alu_stations@,
                old(cpu).reservation_stations.load_stations@,
                old(cpu).reservation_stations.store_stations@,
                cpu.reservation_stations.alu_stations@,
                cpu.reservation_stations.load_stations@,
                cpu.reservation_stations.store_stations@,
                -1,
            );
        }
        assert(cpu.reservation_stations.alu_stations@ =~= old(cpu).reservation_stations.alu_stations@.map_values(|rs| count_down(rs)));
        assert(cpu.reservation_stations.load_stations@ =~= old(cpu).reservation_stations.load_stations@.map_values(|rs| count_down(rs)));
        assert(cpu.reservation_stations.store_stations@ =~= old(cpu).reservation_stations.store_stations@.map_values(|rs| count_down(rs)));
        proof {
            assert forall|m: Seq<u8>| in_program_order(*old(cpu), m) implies #[trigger] in_program_order(*cpu, m) by {
                lemma_execute_in_program_order(*old(cpu), *cpu, m);
            }
        }
    }

    /// Write-Result: clears the bus, picks the first finished station (ALU,
    /// then load, then store), computes its result (a load reads memory now),
    /// broadcasts it, marks its reorder-buffer entry ready, frees the station,
    /// and lets every waiting operand capture the value.
    ///
    /// The rename table keeps naming the producer until it commits: the
    /// register file only changes at commit, so an instruction issued in
    /// between takes the value from the reorder buffer instead.
    fn writeback_stage(cpu: &mut CpuState, mem: &Memory)
        requires
            old(cpu).wf(),
            mem.wf(),
        ensures
            final(cpu).wf(),
            writeback_post(*old(cpu), *mem, *final(cpu)),
            in_program_order(*old(cpu), mem@) ==> in_program_order(*final(cpu), mem@),
    {
        cpu.common_data_bus.clear();
        let ready = cpu.reservation_stations.get_ready_instructions();
        if ready.len() > 0 {
            let (tag, instruction, vj, vk) = ready[0];
            let (result, carry) = Self::compute_result(instruction, vj, vk, mem);
            cpu.common_data_bus.broadcast(tag, result);
            cpu.reorder_buffer.complete(tag, Some(result));
            cpu.reorder_buffer.record_carry(tag, carry);
            assert(cpu.reorder_buffer.entries@ =~= (if old(cpu).reorder_buffer.live(tag as int) {
                old(cpu).reorder_buffer.entries@.update(
                    tag as int,
                    ReorderBufferEntry {
                        ready: true,
                        result: Some(result),
                        carry,
                        ..old(cpu).reorder_buffer.entries@[tag as int]
                    },
                )
            } else {
                old(cpu).reorder_buffer.entries@
            }));
            cpu.reservation_stations.clear_by_tag(tag);
            cpu.reservation_stations.update_from_cdb(tag, result);
            let ghost f = |rs| snoop_station(release_station(rs, tag), tag, result);
            assert(cpu.reservation_stations.alu_stations@ =~= old(
                cpu,
            ).reservation_stations.alu_stations@.map_values(f));
            assert(cpu.reservation_stations.load_stations@ =~= old(
                cpu,
            ).reservation_stations.load_stations@.map_values(f));
            assert(cpu.reservation_stations.store_stations@ =~= old(
                cpu,
            ).reservation_stations.store_stations@.map_values(f));
            proof {
                lemma_broadcast_keeps_consistency(
                    old(cpu).reorder_buffer,
                    cpu.reorder_buffer,
                    cpu.rename_table@,
                    old(cpu).reservation_stations,
                    cpu.reservation_stations,
                    tag,
                    result,
                    carry,
                );
            }
        }
        proof {
            if in_program_order(*old(cpu), mem@) {
                lemma_writeback_in_program_order(*old(cpu), *mem, *cpu);
            }
        }
    }

    /// Reads a source operand for a station: its value when it is available
    /// (register file, or the finished result of its producer), else the
    /// producer's tag. Indices above 255 read as 0.
    fn capture_operand(cpu: &CpuState, src: u16) -> (r: (Option<u16>, Option<usize>))
        requires
            cpu.wf(),
        ensures
            r == operand_spec(*cpu, src),
    {
        if src >= 256 {
            return (Some(0), None);
        }
        let (ready, producer) = cpu.rename_table.get_register_info(src as u8);
        if ready {
            return (Some(cpu.regs.read(src as u8)), None);
        }
        match producer {
            None => (Some(cpu.regs.read(src as u8)), None),
            Some(tag) => {
                if tag < cpu.reorder_buffer.entries.len() {
                    let e = cpu.reorder_buffer.entries[tag];
                    if e.valid && e.ready {
                        if let Some(v) = e.result {
                            return (Some(v), None);
                        }
                    }
                }
                (None, Some(tag))
            },
        }
    }

    /// Issues an ALU operation into the first free ALU station and a new
    /// reorder-buffer slot, then renames `dst` to that slot. A source given
    /// as `None` is the operation's immediate. Stalls (changing nothing) when
    /// no station or slot is free.
    fn issue_alu_instruction(
        instruction: Instruction,
        dst: u8,
        src1: Option<u16>,
        src2: Option<u16>,
        pc: u16,
        cpu: &mut CpuState,
    ) -> (r: bool)
        requires
            old(cpu).wf(),
            is_engine_op(instruction),
            !(instruction is Load),
            !(instruction is Store),
            dest_of(instruction) == Some(dst),
            src1 == (match source_j(instruction) {
                Some(reg) => Some(reg as u16),
                None => None,
            }),
            src2 == source_k(instruction),
        ensures
            final(cpu).wf(),
            forall|m: Seq<u8>|
                in_program_order(*old(cpu), m) ==> #[trigger] in_program_order(*final(cpu), m),
            r == (has_free(old(cpu).reservation_stations.alu_stations@)
                && old(cpu).reorder_buffer.count < old(cpu).reorder_buffer.size),
            !r ==> *final(cpu) == *old(cpu),
            r ==> {
                let tag = old(cpu).reorder_buffer.tail;
                let imm = immediate_spec(instruction);
                &&& allocated(final(cpu).reorder_buffer, old(cpu).reorder_buffer, issued_entry(instruction, Some(dst), pc))
                &&& exists|i: int|
                    is_first_free(old(cpu).reservation_stations.alu_stations@, Some(i as usize))
                        && final(cpu).reservation_stations.alu_stations@ == old(
                        cpu,
                    ).reservation_stations.alu_stations@.update(
                        i,
                        station_for(
                            instruction,
                            source_spec(*old(cpu), src1, imm),
                            source_spec(*old(cpu), src2, imm),
                            tag,
                        ),
                    )
                &&& final(cpu).reservation_stations.load_stations == old(cpu).reservation_stations.load_stations
                &&& final(cpu).reservation_stations.store_stations == old(cpu).reservation_stations.store_stations
                &&& final(cpu).rename_table@ == old(cpu).rename_table@.update(
                    dst as int,
                    RenameEntry { producer_tag: Some(tag), ready: false },
                )
                &&& final(cpu).regs == old(cpu).regs
                &&& final(cpu).pc == old(cpu).pc
                &&& final(cpu).halted == old(cpu).halted
                &&& final(cpu).flags == old(cpu).flags
                &&& final(cpu).common_data_bus == old(cpu).common_data_bus
                &&& final(cpu).pipeline == old(cpu).pipeline
                &&& final(cpu).out_of_order_enabled == old(cpu).out_of_order_enabled
            },
    {
        proof {
            reveal(engine_consistent);
        }
        let idx = match cpu.reservation_stations.find_free_alu_station() {
            Some(i) => i,
            None => return false,
        };
        let imm = Self::get_immediate_value(&instruction);
        let (vj, qj) = match src1 {
            Some(reg) => Self::capture_operand(cpu, reg),
            None => (Some(imm), None),
        };
        let (vk, qk) = match src2 {
            Some(reg) => Self::capture_operand(cpu, reg),
            None => (Some(imm), None),
        };
        let tag = match cpu.reorder_buffer.allocate(instruction, Some(dst), pc) {
            Some(t) => t,
            None => return false,
        };
        let ghost before = cpu.reservation_stations.alu_stations@;
        let ghost c0 = *cpu;
        let rs = ReservationStation {
            busy: true,
            op: Some(instruction),
            vj,
            vk,
            qj,
            qk,
            tag,
            cycles_remaining: Self::get_execution_cycles(&instruction),
        };
        cpu.reservation_stations.alu_stations.set(idx, rs);
        let ghost before_rename = *cpu;
        proof {
            lemma_issue_step_in_program_order(*old(cpu), before_rename, instruction, pc, (vj, qj), (vk, qk));
        }
        proof {
            lemma_paired_issue(
                old(cpu).reorder_buffer,
                cpu.reorder_buffer,
                before,
                cpu.reservation_stations.load_stations@,
                cpu.reservation_stations.store_stations@,
                cpu.reservation_stations.alu_stations@,
                idx as int,
                rs,
            );
        }
        cpu.rename_table.rename_register(dst, tag);
        proof {
            assert forall|m: Seq<u8>| in_program_order(*old(cpu), m) implies #[trigger] in_program_order(*cpu, m) by {
                lemma_renames_irrelevant(before_rename, *cpu, m);
            }
        }
        true
    }

    /// Issues a load into the first free load station and a new slot, with the
    /// address in Vj, then renames `dst`. Stalls (changing nothing) when no
    /// station or slot is free, or while a store is in flight: loads are not
    /// moved past earlier stores.
    fn issue_load_instruction(instruction: Instruction, dst: u8, addr: u16, pc: u16, cpu: &mut CpuState) -> (r: bool)
        requires
            old(cpu).wf(),
            instruction == (Instruction::Load { dst, addr }),
        ensures
            final(cpu).wf(),
            forall|m: Seq<u8>|
                in_program_order(*old(cpu), m) ==> #[trigger] in_program_order(*final(cpu), m),
            r == (!old(cpu).reorder_buffer.store_in_flight() && has_free(
                old(cpu).reservation_stations.load_stations@,
            ) && old(cpu).reorder_buffer.count < old(cpu).reorder_buffer.size),
            !r ==> *final(cpu) == *old(cpu),
            r ==> {
                let tag = old(cpu).reorder_buffer.tail;
                &&& allocated(final(cpu).reorder_buffer, old(cpu).reorder_buffer, issued_entry(instruction, Some(dst), pc))
                &&& fills_first_free(
                    final(cpu).reservation_stations.load_stations@,
                    old(cpu).reservation_stations.load_stations@,
                    station_for(instruction, (Some(addr), None), (Some(0u16), None), tag),
                )
                &&& final(cpu).reservation_stations.alu_stations == old(cpu).reservation_stations.alu_stations
                &&& final(cpu).reservation_stations.store_stations == old(cpu).reservation_stations.store_stations
                &&& final(cpu).rename_table@ == old(cpu).rename_table@.update(
                    dst as int,
                    RenameEntry { producer_tag: Some(tag), ready: false },
                )
                &&& final(cpu).regs == old(cpu).regs
                &&& final(cpu).pc == old(cpu).pc
                &&& final(cpu).halted == old(cpu).halted
                &&& final(cpu).flags == old(cpu).flags
                &&& final(cpu).common_data_bus == old(cpu).common_data_bus
                &&& final(cpu).pipeline == old(cpu).pipeline
                &&& final(cpu).out_of_order_enabled == old(cpu).out_of_order_enabled
            },
    {
        proof {
            reveal(engine_consistent);
        }
        if cpu.reorder_buffer.has_store_in_flight() {
            return false;
        }
        let idx = match cpu.reservation_stations.find_free_load_station() {
            Some(i) => i,
            None => return false,
        };
        let tag = match cpu.reorder_buffer.allocate(instruction, Some(dst), pc) {
            Some(t) => t,
            None => return false,
        };
        let ghost before = cpu.reservation_stations.load_stations@;
        let rs = ReservationStation {
            busy: true,
            op: Some(instruction),
            vj: Some(addr),
            vk: Some(0),
            qj: None,
            qk: None,
            tag,
            cycles_remaining: Self::get_execution_cycles(&instruction),
        };
        cpu.reservation_stations.load_stations.set(idx, rs);
        let ghost before_rename = *cpu;
        proof {
            lemma_issue_step_in_program_order(
                *old(cpu),
                before_rename,
                instruction,
                pc,
                (Some(addr), None),
                (Some(0u16), None),
            );
        }
        proof {
            let alu = cpu.reservation_stations.alu_stations@;
            let store = cpu.reservation_stations.store_stations@;
            assert(owned_or(old(cpu).reorder_buffer, before, alu, store));
            assert(disjoint_tags(before, alu));
            lemma_paired_issue(
                old(cpu).reorder_buffer,
                cpu.reorder_buffer,
                before,
                alu,
                store,
                cpu.reservation_stations.load_stations@,
                idx as int,
                rs,
            );
            assert(owned_or(cpu.reorder_buffer, alu, cpu.reservation_stations.load_stations@, store));
            assert(disjoint_tags(alu, cpu.reservation_stations.load_stations@));
        }
        cpu.rename_table.rename_register(dst, tag);
        proof {
            assert forall|m: Seq<u8>| in_program_order(*old(cpu), m) implies #[trigger] in_program_order(*cpu, m) by {
                lemma_renames_irrelevant(before_rename, *cpu, m);
            }
        }
        true
    }

    /// Issues a store into the first free store station and a new slot with no
    /// destination: the value of `src` (or its producer) in Vj, the address in Vk.
    /// Stalls (changing nothing) when no station or slot is free.
    fn issue_store_instruction(instruction: Instruction, src: u8, addr: u16, pc: u16, cpu: &mut CpuState) -> (r: bool)
        requires
            old(cpu).wf(),
            instruction == (Instruction::Store { src, addr }),
        ensures
            final(cpu).wf(),
            forall|m: Seq<u8>|
                in_program_order(*old(cpu), m) ==> #[trigger] in_program_order(*final(cpu), m),
            r == (has_free(old(cpu).reservation_stations.store_stations@)
                && old(cpu).reorder_buffer.count < old(cpu).reorder_buffer.size),
            !r ==> *final(cpu) == *old(cpu),
            r ==> {
                let tag = old(cpu).reorder_buffer.tail;
                &&& allocated(final(cpu).reorder_buffer, old(cpu).reorder_buffer, issued_entry(instruction, None, pc))
                &&& fills_first_free(
                    final(cpu).reservation_stations.store_stations@,
                    old(cpu).reservation_stations.store_stations@,
                    station_for(instruction, operand_spec(*old(cpu), src as u16), (Some(addr), None), tag),
                )
                &&& final(cpu).reservation_stations.alu_stations == old(cpu).reservation_stations.alu_stations
                &&& final(cpu).reservation_stations.load_stations == old(cpu).reservation_stations.load_stations
                &&& final(cpu).rename_table == old(cpu).rename_table
                &&& final(cpu).regs == old(cpu).regs
                &&& final(cpu).pc == old(cpu).pc
                &&& final(cpu).halted == old(cpu).halted
                &&& final(cpu).flags == old(cpu).flags
                &&& final(cpu).common_data_bus == old(cpu).common_data_bus
                &&& final(cpu).pipeline == old(cpu).pipeline
                &&& final(cpu).out_of_order_enabled == old(cpu).out_of_order_enabled
            },
    {
        proof {
            reveal(engine_consistent);
        }
        let idx = match cpu.reservation_stations.find_free_store_station() {
            Some(i) => i,
            None => return false,
        };
        let (vj, qj) = Self::capture_operand(cpu, src as u16);
        let tag = match cpu.reorder_buffer.allocate(instruction, None, pc) {
            Some(t) => t,
            None => return false,
        };
        let ghost before = cpu.reservation_stations.store_stations@;
        let rs = ReservationStation {
            busy: true,
            op: Some(instruction),
            vj,
            vk: Some(addr),
            qj,
            qk: None,
            tag,
            cycles_remaining: Self::get_execution_cycles(&instruction),
        };
        cpu.reservation_stations.store_stations.set(idx, rs);
        proof {
            lemma_issue_step_in_program_order(
                *old(cpu),
                *cpu,
                instruction,
                pc,
                (vj, qj),
                (Some(addr), None),
            );
        }
        proof {
            let alu = cpu.reservation_stations.alu_stations@;
            let load = cpu.reservation_stations.load_stations@;
            assert(owned_or(old(cpu).reorder_buffer, before, alu, load));
            assert(disjoint_tags(before, alu));
            assert(disjoint_tags(before, load));
            lemma_paired_issue(
                old(cpu).reorder_buffer,
                cpu.reorder_buffer,
                before,
                alu,
                load,
                cpu.reservation_stations.store_stations@,
                idx as int,
                rs,
            );
            assert(owned_or(cpu.reorder_buffer, alu, load, cpu.reservation_stations.store_stations@));
            assert(disjoint_tags(alu, cpu.reservation_stations.store_stations@));
            assert(disjoint_tags(load, cpu.reservation_stations.store_stations@));
        }
        true
    }

    /// Issues `instruction` (fetched at `pc`) into the out-of-order engine, or,
    /// for what that engine does not handle, executes it in order once every
    /// earlier instruction has committed. Returns false on a stall.
    fn try_issue_instruction(instruction: Instruction, pc: u16, cpu: &mut CpuState, mem: &mut Memory) -> (r: bool)
        requires
            old(cpu).wf(),
            old(mem).wf(),
        ensures
            final(cpu).wf(),
            final(mem).wf(),
            final(cpu).pipeline == old(cpu).pipeline,
            final(cpu).out_of_order_enabled == old(cpu).out_of_order_enabled,
            !r ==> *final(cpu) == *old(cpu) && *final(mem) == *old(mem),
            !is_control(instruction) ==> final(cpu).pc == old(cpu).pc,
            is_engine_op(instruction) ==> {
                &&& *final(mem) == *old(mem)
                &&& final(cpu).regs == old(cpu).regs
                &&& final(cpu).flags == old(cpu).flags
                &&& r ==> final(cpu).reorder_buffer@ == old(cpu).reorder_buffer@.push(
                    issued_entry(instruction, dest_of(instruction), pc),
                )
            },
            !is_engine_op(instruction) ==> {
                &&& r == (old(cpu).reorder_buffer.count == 0)
                &&& r ==> same_engine(*final(cpu), *old(cpu)) && arch_of(*final(cpu), *final(mem))
                    == fallback_spec(instruction, pc, arch_of(*old(cpu), *old(mem)))
            },
            in_program_order(*old(cpu), old(mem)@) ==> in_program_order(*final(cpu), final(mem)@),
            r == can_issue(*old(cpu), instruction),
            !(instruction is Halt) ==> final(cpu).halted == old(cpu).halted,
    {
        match instruction {
            Instruction::Add { dst, src1, src2 }
            | Instruction::Sub { dst, src1, src2 }
            | Instruction::And { dst, src1, src2 }
            | Instruction::Or { dst, src1, src2 }
            | Instruction::Xor { dst, src1, src2 } => {
                Self::issue_alu_instruction(instruction, dst, Some(src1 as u16), Some(src2), pc, cpu)
            },
            Instruction::AddImm { dst, src, .. }
            | Instruction::SubImm { dst, src, .. }
            | Instruction::Not { dst, src }
            | Instruction::ShiftLeft { dst, src, .. }
            | Instruction::ShiftRight { dst, src, .. } => {
                Self::issue_alu_instruction(instruction, dst, Some(src as u16), None, pc, cpu)
            },
            Instruction::LoadImm { dst, .. } => {
                Self::issue_alu_instruction(instruction, dst, None, None, pc, cpu)
            },
            Instruction::Load { dst, addr } => {
                Self::issue_load_instruction(instruction, dst, addr, pc, cpu)
            },
            Instruction::Store { src, addr } => {
                Self::issue_store_instruction(instruction, src, addr, pc, cpu)
            },
            _ => {
                // Everything else runs on the in-order interpreter, and only with
                // nothing in flight, so that architectural state still changes
                // in program order.
                if cpu.reorder_buffer.count != 0 {
                    return false;
                }
                if is_control_flow(&instruction) {
                    cpu.pc = pc;
                    execute(instruction, cpu, mem);
                    if cpu.pc == pc && !cpu.halted {
                        cpu.pc = pc.wrapping_add(4);
                    }
                } else {
                    execute(instruction, cpu, mem);
                    assert(execute_spec(instruction, arch_of(*old(cpu), *old(mem))).pc == old(cpu).pc);
                }
                proof {
                    lemma_quiet_in_program_order(*cpu, mem@);
                }
                true
            },
        }
    }

    /// Issue: fetches one instruction into the queue when there is room (a
    /// word that does not decode halts the processor once nothing is queued or
    /// in flight, and stops fetch until then), then tries to issue the oldest
    /// queued instruction.
    fn issue_stage(cpu: &mut CpuState, mem: &mut Memory)
        requires
            old(cpu).wf(),
            old(mem).wf(),
        ensures
            final(cpu).wf(),
            final(mem).wf(),
            issue_post(*old(cpu), *old(mem), *final(cpu), *final(mem)),
            in_program_order(*old(cpu), old(mem)@) ==> in_program_order(*final(cpu), final(mem)@),
            (old(cpu).halted ==> drained(*old(cpu))) ==> (final(cpu).halted ==> drained(*final(cpu))),
    {
        if cpu.pipeline.instruction_queue.len() < FETCH_QUEUE_CAPACITY && !cpu.halted
            && !fetch_blocked(&cpu.pipeline.instruction_queue) {
            let raw = mem.fetch(cpu.pc);
            match decode(raw) {
                Some(instruction) => {
                    let pc = cpu.pc;
                    cpu.pipeline.instruction_queue.push((instruction, pc));
                    cpu.pc = pc.wrapping_add(4);
                },
                None => {
                    if cpu.pipeline.instruction_queue.len() == 0 && cpu.reorder_buffer.count == 0 {
                        cpu.halted = true;
                        proof {
                            if in_program_order(*old(cpu), old(mem)@) {
                                lemma_renames_irrelevant(*old(cpu), *cpu, mem@);
                            }
                        }
                        return ;
                    }
                },
            }
        }
        assert(cpu.pipeline.instruction_queue@.len() > 1 ==> !is_control(
            cpu.pipeline.instruction_queue@[0].0,
        ));
        assert(cpu.halted ==> old(cpu).halted);
        proof {
            if in_program_order(*old(cpu), old(mem)@) {
                lemma_renames_irrelevant(*old(cpu), *cpu, mem@);
            }
        }
        if cpu.pipeline.instruction_queue.len() > 0 {
            let (instruction, pc) = cpu.pipeline.instruction_queue[0];
            if Self::try_issue_instruction(instruction, pc, cpu, mem) {
                let ghost issued = *cpu;
                cpu.pipeline.instruction_queue.remove(0);
                proof {
                    if in_program_order(issued, mem@) {
                        lemma_renames_irrelevant(issued, *cpu, mem@);
                    }
                }
            }
        }
    }

    /// One cycle of the out-of-order engine: Commit, Write-Result, Execute,
    /// Issue, then the cycle counter (which saturates) goes up by one.
    /// Returns whether the processor is still running.
    pub fn step(cpu: &mut CpuState, mem: &mut Memory) -> (r: bool)
        requires
            old(cpu).wf(),
            old(mem).wf(),
        ensures
            final(cpu).wf(),
            final(mem).wf(),
            r == !final(cpu).halted,
            cycle_post(*old(cpu), *old(mem), *final(cpu), *final(mem)),
            final(cpu).out_of_order_enabled == old(cpu).out_of_order_enabled,
            in_program_order(*old(cpu), old(mem)@) ==> in_program_order(*final(cpu), final(mem)@),
    {
        Self::commit_stage(cpu, mem);
        let ghost (c1, m1) = (*cpu, *mem);
        proof {
            if in_program_order(*old(cpu), old(mem)@) && old(cpu).reorder_buffer.can_commit_spec() {
                lemma_commit_executes_in_order(*old(cpu), *old(mem), c1, m1);
            }
        }
        Self::writeback_stage(cpu, mem);
        let ghost c2 = *cpu;
        Self::execute_stage(cpu);
        let ghost c3 = *cpu;
        Self::issue_stage(cpu, mem);
        let ghost c4 = *cpu;
        if cpu.pipeline.cycles < u64::MAX {
            cpu.pipeline.cycles = cpu.pipeline.cycles + 1;
        }
        assert(*cpu == (CpuState {
            pipeline: PipelineController { cycles: cpu.pipeline.cycles, ..c4.pipeline },
            ..c4
        }));
        proof {
            if in_program_order(c4, mem@) {
                lemma_renames_irrelevant(c4, *cpu, mem@);
            }
        }
        !cpu.halted
    }
}

fn is_control_flow(instruction: &Instruction) -> (r: bool)
    ensures
        r == is_control(*instruction),
{
    match instruction {
        Instruction::Jump { .. } | Instruction::JumpReg { .. } | Instruction::BranchEqual { .. }
        | Instruction::BranchNotEqual { .. } | Instruction::BranchLessThan { .. }
        | Instruction::BranchGreaterThan { .. } | Instruction::Halt => true,
        _ => false,
    }
}

/// Fetch waits behind a queued control-flow instruction.
fn fetch_blocked(queue: &Vec<(Instruction, u16)>) -> (r: bool)
    ensures
        r == (queue@.len() > 0 && is_control(queue@.last().0)),
{
    if queue.len() == 0 {
        false
    } else {
        is_control_flow(&queue[queue.len() - 1].0)
    }
}

/// A station stays consistent when `tag` finishes with `value`: its owner is
/// freed, and whatever waited on `tag` captures `value`.
proof fn lemma_station_after_broadcast(
    rs: ReservationStation,
    rob: ReorderBuffer,
    rob2: ReorderBuffer,
    tag: usize,
    value: u16,
)
    requires
        station_consistent(rs, rob),
        rob2.size == rob.size,
        forall|i: int| 0 <= i < rob.size && i != tag ==> rob2.entries@[i] == rob.entries@[i],
        rob2.live(tag as int) == rob.live(tag as int),
    ensures
        station_consistent(snoop_station(release_station(rs, tag), tag, value), rob2),
{
}

/// Write-Result keeps the engine's tags consistent.
proof fn lemma_broadcast_keeps_consistency(
    rob: ReorderBuffer,
    rob2: ReorderBuffer,
    renames: Seq<RenameEntry>,
    pool: ReservationStationPool,
    pool2: ReservationStationPool,
    tag: usize,
    value: u16,
    carry: bool,
)
    requires
        rob.wf(),
        rob2.wf(),
        rob2.size == rob.size,
        rob2.head == rob.head,
        rob2.count == rob.count,
        rob2.entries@ == (if rob.live(tag as int) {
            rob.entries@.update(
                tag as int,
                ReorderBufferEntry { ready: true, result: Some(value), carry, ..rob.entries@[tag as int] },
            )
        } else {
            rob.entries@
        }),
        pool2.after_broadcast(pool, tag, value),
        engine_consistent(
            rob,
            renames,
            pool.alu_stations@,
            pool.load_stations@,
            pool.store_stations@,
        ),
    ensures
        engine_consistent(
            rob2,
            renames,
            pool2.alu_stations@,
            pool2.load_stations@,
            pool2.store_stations@,
        ),
{
    reveal(engine_consistent);
    lemma_paired_shrink(
        rob,
        rob2,
        pool.alu_stations@,
        pool.load_stations@,
        pool.store_stations@,
        pool2.alu_stations@,
        pool2.load_stations@,
        pool2.store_stations@,
        tag as int,
    );
    assert forall|i: int| 0 <= i < pool2.alu_stations@.len() implies station_consistent(
        #[trigger] pool2.alu_stations@[i],
        rob2,
    ) by {
        lemma_station_after_broadcast(pool.alu_stations@[i], rob, rob2, tag, value);
    }
    assert forall|i: int| 0 <= i < pool2.load_stations@.len() implies station_consistent(
        #[trigger] pool2.load_stations@[i],
        rob2,
    ) by {
        lemma_station_after_broadcast(pool.load_stations@[i], rob, rob2, tag, value);
    }
    assert forall|i: int| 0 <= i < pool2.store_stations@.len() implies station_consistent(
        #[trigger] pool2.store_stations@[i],
        rob2,
    ) by {
        lemma_station_after_broadcast(pool.store_stations@[i], rob, rob2, tag, value);
    }
    assert forall|r: int, i: int|
        0 <= r < renames.len() && rob2.live(i) && (#[trigger] rob2.entries@[i]).dest_reg == Some(
            r as u8,
        ) implies match (#[trigger] renames[r]).producer_tag {
        Some(t) => slot_offset(rob2.head, rob2.size, i) <= slot_offset(rob2.head, rob2.size, t as int),
        None => false,
    } by {
        assert(rob.entries@[i].valid && rob.entries@[i].dest_reg == Some(r as u8));
    }
}

/// `s2` is `s` with stations at most released, none claimed, and only stations
/// working for `gone` released.
pub open spec fn keeps_claims(s: Seq<ReservationStation>, s2: Seq<ReservationStation>, gone: int) -> bool {
    &&& s2.len() == s.len()
    &&& forall|i: int|
        0 <= i < s.len() ==> (#[trigger] s2[i].busy ==> s[i].busy && s2[i].tag == s[i].tag)
    &&& forall|i: int| 0 <= i < s.len() && (#[trigger] s[i]).busy && s[i].tag != gone ==> s2[i].busy
}

/// The pairing of stations with unfinished entries survives when entries only
/// finish or leave, and stations only release the entry `gone`.
proof fn lemma_paired_shrink(
    rob: ReorderBuffer,
    rob2: ReorderBuffer,
    alu: Seq<ReservationStation>,
    load: Seq<ReservationStation>,
    store: Seq<ReservationStation>,
    alu2: Seq<ReservationStation>,
    load2: Seq<ReservationStation>,
    store2: Seq<ReservationStation>,
    gone: int,
)
    requires
        stations_paired(rob, alu, load, store),
        rob2.size == rob.size,
        forall|t: int|
            0 <= t < rob2.size && #[trigger] pending(rob2, t as usize) ==> pending(rob, t as usize)
                && t != gone,
        keeps_claims(alu, alu2, gone),
        keeps_claims(load, load2, gone),
        keeps_claims(store, store2, gone),
    ensures
        stations_paired(rob2, alu2, load2, store2),
{
    assert forall|t: int| 0 <= t < rob2.size && #[trigger] pending(rob2, t as usize) implies owned_by(
        alu2,
        t,
    ) || owned_by(load2, t) || owned_by(store2, t) by {
        assert(pending(rob, t as usize));
        if owned_by(alu, t) {
            let i = choose|i: int| 0 <= i < alu.len() && (#[trigger] alu[i]).busy && alu[i].tag == t;
            assert(alu2[i].busy);
        } else if owned_by(load, t) {
            let i = choose|i: int| 0 <= i < load.len() && (#[trigger] load[i]).busy && load[i].tag == t;
            assert(load2[i].busy);
        } else {
            let i = choose|i: int|
                0 <= i < store.len() && (#[trigger] store[i]).busy && store[i].tag == t;
            assert(store2[i].busy);
        }
    }
}

/// The pairing survives issue: a free station of one unit is claimed for the
/// slot that was just allocated at the tail.
proof fn lemma_paired_issue(
    rob: ReorderBuffer,
    rob2: ReorderBuffer,
    a: Seq<ReservationStation>,
    b: Seq<ReservationStation>,
    c: Seq<ReservationStation>,
    a2: Seq<ReservationStation>,
    idx: int,
    rs: ReservationStation,
)
    requires
        rob.wf(),
        rob.count < rob.size,
        rob2.size == rob.size,
        forall|t: int|
            0 <= t < rob.size && t != rob.tail ==> #[trigger] pending(rob2, t as usize) == pending(
                rob,
                t as usize,
            ),
        stations_consistent(a, rob),
        stations_consistent(b, rob),
        stations_consistent(c, rob),
        owned_or(rob, a, b, c),
        unique_tags(a),
        disjoint_tags(a, b),
        disjoint_tags(a, c),
        0 <= idx < a.len(),
        !a[idx].busy,
        rs.busy,
        rs.tag == rob.tail,
        a2 == a.update(idx, rs),
    ensures
        owned_or(rob2, a2, b, c),
        unique_tags(a2),
        disjoint_tags(a2, b),
        disjoint_tags(a2, c),
{
    assert(!rob.live(rob.tail as int));
    assert forall|t: int| 0 <= t < rob2.size && #[trigger] pending(rob2, t as usize) implies owned_by(
        a2,
        t,
    ) || owned_by(b, t) || owned_by(c, t) by {
        if t == rob.tail {
            assert(a2[idx].busy && a2[idx].tag == t);
        } else {
            assert(pending(rob, t as usize));
            if owned_by(a, t) {
                let i = choose|i: int| 0 <= i < a.len() && (#[trigger] a[i]).busy && a[i].tag == t;
                assert(i != idx);
                assert(a2[i].busy && a2[i].tag == t);
            }
        }
    }
    assert forall|i: int, j: int|
        0 <= i < a2.len() && 0 <= j < a2.len() && i != j && (#[trigger] a2[i]).busy
            && (#[trigger] a2[j]).busy implies a2[i].tag != a2[j].tag by {
        if i == idx {
            assert(station_consistent(a[j], rob));
        } else if j == idx {
            assert(station_consistent(a[i], rob));
        }
    }
    assert forall|i: int, j: int|
        0 <= i < a2.len() && 0 <= j < b.len() && (#[trigger] a2[i]).busy && (#[trigger] b[j]).busy
            implies a2[i].tag != b[j].tag by {
        assert(station_consistent(b[j], rob));
    }
    assert forall|i: int, j: int|
        0 <= i < a2.len() && 0 <= j < c.len() && (#[trigger] a2[i]).busy && (#[trigger] c[j]).busy
            implies a2[i].tag != c[j].tag by {
        assert(station_consistent(c[j], rob));
    }
}

/// At most one value is broadcast per cycle. After Write-Result the bus is
/// valid exactly when some station had finished; it then carries the first
/// finished station's tag and result, only stations working for that tag are
/// released (every other station keeps its busy bit), and at most the
/// reorder-buffer entry of that tag changes.
pub proof fn lemma_one_broadcast_per_cycle(c0: CpuState, mem: Memory, c1: CpuState)
    requires
        writeback_post(c0, mem, c1),
    ensures
        c1.common_data_bus.valid == (c0.reservation_stations.ready_spec().len() > 0),
        c1.common_data_bus.valid ==> ({
            let (tag, inst, vj, vk) = c0.reservation_stations.ready_spec()[0];
            &&& c1.common_data_bus.tag == tag
            &&& c1.common_data_bus.value == compute_spec(inst, vj, vk, mem@).0
            &&& keeps_claims(
                c0.reservation_stations.alu_stations@,
                c1.reservation_stations.alu_stations@,
                tag as int,
            )
            &&& keeps_claims(
                c0.reservation_stations.load_stations@,
                c1.reservation_stations.load_stations@,
                tag as int,
            )
            &&& keeps_claims(
                c0.reservation_stations.store_stations@,
                c1.reservation_stations.store_stations@,
                tag as int,
            )
            &&& forall|i: int|
                0 <= i < c1.reorder_buffer.size && i != tag ==> #[trigger] c1.reorder_buffer.entries@[i]
                    == c0.reorder_buffer.entries@[i]
        }),
        !c1.common_data_bus.valid ==> c1.reorder_buffer == c0.reorder_buffer
            && c1.reservation_stations == c0.reservation_stations,
{
}

} // verus!
