//! In-order meaning of the reorder buffer's contents: the register and memory
//! values that executing the in-flight instructions one after another, oldest
//! first, would produce. Results and operands of the out-of-order engine are
//! stated against it.
use vstd::prelude::*;
use crate::cpu::{
    engine_consistent,
    renames_consistent,
    renames_youngest,
    station_consistent,
    CpuState,
};
use crate::execute::{arch_of, execute_spec, Arch};
use crate::isa::Instruction;
use crate::memory::{store_u16_spec, Memory};
use crate::pipeline::{
    allocated,
    commit_post,
    compute_spec,
    dest_of,
    execute_post,
    is_engine_op,
    operand_spec,
    retire_flags,
    retire_spec,
    station_for,
    writeback_post,
};
use crate::register_file::read_10bit_spec;
use crate::tomasulo::{
    empty_entry,
    issued_entry,
    is_store,
    ready_ops,
    release_station,
    snoop_station,
    station_done,
    slot_at,
    slot_offset,
    ReorderBuffer,
    ReorderBufferEntry,
    ReservationStation,
};

verus! {

/// Register and memory contents.
pub type Data = (Seq<u16>, Seq<u8>);

/// The register that an engine operation reads for its first operand.
pub open spec fn source_j(inst: Instruction) -> Option<u8> {
    match inst {
        Instruction::Add { src1, .. } => Some(src1),
        Instruction::Sub { src1, .. } => Some(src1),
        Instruction::And { src1, .. } => Some(src1),
        Instruction::Or { src1, .. } => Some(src1),
        Instruction::Xor { src1, .. } => Some(src1),
        Instruction::AddImm { src, .. } => Some(src),
        Instruction::SubImm { src, .. } => Some(src),
        Instruction::Not { src, .. } => Some(src),
        Instruction::ShiftLeft { src, .. } => Some(src),
        Instruction::ShiftRight { src, .. } => Some(src),
        Instruction::Store { src, .. } => Some(src),
        _ => None,
    }
}

/// The register that an engine operation reads for its second operand; an
/// index above 255 reads as 0.
pub open spec fn source_k(inst: Instruction) -> Option<u16> {
    match inst {
        Instruction::Add { src2, .. } => Some(src2),
        Instruction::Sub { src2, .. } => Some(src2),
        Instruction::And { src2, .. } => Some(src2),
        Instruction::Or { src2, .. } => Some(src2),
        Instruction::Xor { src2, .. } => Some(src2),
        _ => None,
    }
}

/// The first operand of an engine operation on registers `regs`.
pub open spec fn operand_j(inst: Instruction, regs: Seq<u16>) -> u16 {
    match source_j(inst) {
        Some(r) => regs[r as int],
        None => match inst {
            Instruction::LoadImm { value, .. } => value as u16,
            Instruction::Load { addr, .. } => addr,
            _ => 0,
        },
    }
}

/// The second operand of an engine operation on registers `regs`.
pub open spec fn operand_k(inst: Instruction, regs: Seq<u16>) -> u16 {
    match source_k(inst) {
        Some(r) => read_10bit_spec(regs, r),
        None => match inst {
            Instruction::AddImm { imm, .. } => imm as u16,
            Instruction::SubImm { imm, .. } => imm as u16,
            Instruction::ShiftLeft { amount, .. } => amount,
            Instruction::ShiftRight { amount, .. } => amount,
            Instruction::LoadImm { value, .. } => value as u16,
            Instruction::Store { addr, .. } => addr,
            _ => 0,
        },
    }
}

/// The result and carry of an engine operation on `d`.
pub open spec fn expected(inst: Instruction, d: Data) -> (u16, bool) {
    compute_spec(inst, operand_j(inst, d.0), operand_k(inst, d.0), d.1)
}

/// What an engine operation does to `d`: a store writes memory, anything else
/// writes its destination register.
pub open spec fn effect(inst: Instruction, d: Data) -> Data {
    let v = expected(inst, d).0;
    match inst {
        Instruction::Store { addr, .. } => (d.0, store_u16_spec(d.1, addr, v)),
        _ => match dest_of(inst) {
            Some(r) => (d.0.update(r as int, v), d.1),
            None => d,
        },
    }
}

/// `d` after the first `k` entries of `v`, executed in order.
pub open spec fn replay(d: Data, v: Seq<ReorderBufferEntry>, k: int) -> Data
    decreases k,
{
    if k <= 0 {
        d
    } else {
        match v[k - 1].instruction {
            Some(inst) => effect(inst, replay(d, v, k - 1)),
            None => replay(d, v, k - 1),
        }
    }
}

/// Entry `e` writes register `r`.
pub open spec fn writes(e: ReorderBufferEntry, r: u8) -> bool {
    e.dest_reg == Some(r)
}

/// The entry is an engine operation whose destination is recorded.
pub open spec fn engine_entry(e: ReorderBufferEntry) -> bool {
    match e.instruction {
        Some(inst) => is_engine_op(inst) && e.dest_reg == dest_of(inst),
        None => false,
    }
}

/// Executing an engine operation in order changes registers and memory as
/// `effect` says, and the flags as its retirement does.
pub proof fn lemma_engine_op_in_order(inst: Instruction, s: Arch)
    requires
        is_engine_op(inst),
        s.regs.len() == 256,
    ensures
        ({
            let (v, c) = expected(inst, (s.regs, s.mem));
            let t = execute_spec(inst, s);
            &&& (t.regs, t.mem) == effect(inst, (s.regs, s.mem))
            &&& t.flags == retire_flags(inst, s.flags, v, c)
            &&& t.pc == s.pc
            &&& t.halted == s.halted
        }),
{
}

/// Replaying one entry more extends the replay by that entry.
proof fn lemma_replay_step(d: Data, v: Seq<ReorderBufferEntry>, k: int)
    requires
        0 <= k,
    ensures
        replay(d, v, k + 1) == match v[k].instruction {
            Some(inst) => effect(inst, replay(d, v, k)),
            None => replay(d, v, k),
        },
{
}

/// Replaying the rest after the first entry's effect is replaying the whole.
pub proof fn lemma_replay_drop_first(d: Data, v: Seq<ReorderBufferEntry>, k: int)
    requires
        0 <= k < v.len(),
    ensures
        replay(replay(d, v, 1), v.drop_first(), k) == replay(d, v, k + 1),
    decreases k,
{
    if k > 0 {
        lemma_replay_drop_first(d, v, k - 1);
        assert(v.drop_first()[k - 1] == v[k]);
    }
}

/// Appending an entry leaves the replay of the existing entries alone.
pub proof fn lemma_replay_push(d: Data, v: Seq<ReorderBufferEntry>, e: ReorderBufferEntry, k: int)
    requires
        0 <= k <= v.len(),
    ensures
        replay(d, v.push(e), k) == replay(d, v, k),
    decreases k,
{
    if k > 0 {
        lemma_replay_push(d, v, e, k - 1);
        assert(v.push(e)[k - 1] == v[k - 1]);
    }
}

/// The replay depends on the instructions alone.
pub proof fn lemma_replay_instructions(d: Data, v: Seq<ReorderBufferEntry>, w: Seq<ReorderBufferEntry>, k: int)
    requires
        0 <= k <= v.len(),
        v.len() == w.len(),
        forall|i: int| 0 <= i < v.len() ==> (#[trigger] v[i]).instruction == w[i].instruction,
    ensures
        replay(d, v, k) == replay(d, w, k),
    decreases k,
{
    if k > 0 {
        lemma_replay_instructions(d, v, w, k - 1);
        assert(v[k - 1].instruction == w[k - 1].instruction);
    }
}

/// A register that none of the entries from `j` to `k` writes keeps, over
/// them, the value it had after the first `j`; likewise memory when none of
/// them is a store.
pub proof fn lemma_replay_untouched(d: Data, v: Seq<ReorderBufferEntry>, j: int, k: int, r: u8)
    requires
        0 <= j <= k <= v.len(),
        d.0.len() == 256,
        forall|i: int| j <= i < k ==> engine_entry(#[trigger] v[i]),
    ensures
        replay(d, v, k).0.len() == 256,
        (forall|i: int| j <= i < k ==> !writes(#[trigger] v[i], r)) ==> replay(d, v, k).0[r as int]
            == replay(d, v, j).0[r as int],
        (forall|i: int| j <= i < k ==> !((#[trigger] v[i]).instruction matches Some(
            Instruction::Store { .. },
        ))) ==> replay(d, v, k).1 == replay(d, v, j).1,
    decreases k - j,
{
    lemma_replay_len(d, v, k);
    if k > j {
        lemma_replay_untouched(d, v, j, k - 1, r);
        assert(engine_entry(v[k - 1]));
    }
}

/// The register file keeps its 256 entries under replay.
pub proof fn lemma_replay_len(d: Data, v: Seq<ReorderBufferEntry>, k: int)
    requires
        d.0.len() == 256,
    ensures
        replay(d, v, k).0.len() == 256,
    decreases k,
{
    if k > 0 {
        lemma_replay_len(d, v, k - 1);
    }
}

/// The entry is a load.
pub open spec fn is_load(inst: Option<Instruction>) -> bool {
    inst matches Some(Instruction::Load { .. })
}

/// Slot `t` holds the last in-flight entry before position `k` that writes `r`.
pub open spec fn last_writer_before(rob: ReorderBuffer, k: int, r: u8, t: usize) -> bool {
    let p = slot_offset(rob.head, rob.size, t as int);
    &&& rob.live(t as int)
    &&& p < k
    &&& writes(rob@[p], r)
    &&& forall|q: int| p < q < k ==> !writes(#[trigger] rob@[q], r)
}

/// A busy station holds the instruction of its entry, operand values equal to
/// what in-order execution reads for it, and waits only on the last older
/// writer of the register it reads.
pub open spec fn station_in_order(rs: ReservationStation, rob: ReorderBuffer, d: Data) -> bool {
    rs.busy ==> {
        let k = slot_offset(rob.head, rob.size, rs.tag as int);
        let inst = rob@[k].instruction.unwrap();
        let regs = replay(d, rob@, k).0;
        &&& rs.op == rob@[k].instruction
        &&& (match rs.vj {
            Some(x) => x == operand_j(inst, regs),
            None => true,
        })
        &&& (match rs.vk {
            Some(x) => x == operand_k(inst, regs),
            None => true,
        })
        &&& (match rs.qj {
            Some(t) => match source_j(inst) {
                Some(r) => last_writer_before(rob, k, r, t),
                None => false,
            },
            None => true,
        })
        &&& (match rs.qk {
            Some(t) => match source_k(inst) {
                Some(r) => r < 256 && last_writer_before(rob, k, r as u8, t),
                None => false,
            },
            None => true,
        })
    }
}

pub open spec fn stations_in_order(s: Seq<ReservationStation>, rob: ReorderBuffer, d: Data) -> bool {
    forall|i: int| 0 <= i < s.len() ==> station_in_order(#[trigger] s[i], rob, d)
}

/// The out-of-order engine agrees with executing its in-flight entries in
/// order, oldest first, from the current registers and memory `mem`: each
/// finished entry holds the result that in-order execution computes for it,
/// each station holds the operands that in-order execution reads, and no
/// load has an older store in flight.
#[verifier::opaque]
pub open spec fn in_program_order(cpu: CpuState, mem: Seq<u8>) -> bool {
    let rob = cpu.reorder_buffer;
    let v = rob@;
    let d = (cpu.regs@, mem);
    &&& forall|k: int| 0 <= k < v.len() ==> engine_entry(#[trigger] v[k])
    &&& forall|k: int|
        0 <= k < v.len() && (#[trigger] v[k]).ready ==> v[k].result == Some(
            expected(v[k].instruction.unwrap(), replay(d, v, k)).0,
        ) && v[k].carry == expected(v[k].instruction.unwrap(), replay(d, v, k)).1
    &&& forall|k: int, i: int|
        0 <= i < k < v.len() && is_load((#[trigger] v[k]).instruction) ==> !is_store(
            (#[trigger] v[i]).instruction,
        )
    &&& stations_in_order(cpu.reservation_stations.alu_stations@, rob, d)
    &&& stations_in_order(cpu.reservation_stations.load_stations@, rob, d)
    &&& stations_in_order(cpu.reservation_stations.store_stations@, rob, d)
}

/// A processor with nothing in flight agrees with in-order execution on any memory.
pub proof fn lemma_quiet_in_program_order(cpu: CpuState, mem: Seq<u8>)
    requires
        cpu.wf(),
        cpu.reorder_buffer.count == 0,
    ensures
        in_program_order(cpu, mem),
{
    reveal(in_program_order);
    reveal(engine_consistent);
    let rob = cpu.reorder_buffer;
    let d = (cpu.regs@, mem);
    assert forall|i: int| 0 <= i < cpu.reservation_stations.alu_stations@.len() implies station_in_order(
        #[trigger] cpu.reservation_stations.alu_stations@[i],
        rob,
        d,
    ) by {
        assert(station_consistent(cpu.reservation_stations.alu_stations@[i], rob));
    }
    assert forall|i: int| 0 <= i < cpu.reservation_stations.load_stations@.len() implies station_in_order(
        #[trigger] cpu.reservation_stations.load_stations@[i],
        rob,
        d,
    ) by {
        assert(station_consistent(cpu.reservation_stations.load_stations@[i], rob));
    }
    assert forall|i: int| 0 <= i < cpu.reservation_stations.store_stations@.len() implies station_in_order(
        #[trigger] cpu.reservation_stations.store_stations@[i],
        rob,
        d,
    ) by {
        assert(station_consistent(cpu.reservation_stations.store_stations@[i], rob));
    }
}

/// A live slot sits at its offset in the in-flight view.
pub proof fn lemma_view_at_slot(rob: ReorderBuffer, t: int)
    requires
        rob.wf(),
        rob.live(t),
    ensures
        0 <= slot_offset(rob.head, rob.size, t) < rob.count,
        slot_at(rob.head, rob.size, slot_offset(rob.head, rob.size, t)) == t,
        rob@[slot_offset(rob.head, rob.size, t)] == rob.entries@[t],
{
    assert(rob.entries@[t].valid);
}

/// After the head leaves, every other slot is one place nearer the head.
proof fn lemma_offset_after_commit(rob0: ReorderBuffer, rob1: ReorderBuffer, t: int)
    requires
        rob0.wf(),
        rob0.count > 0,
        rob1.size == rob0.size,
        rob1.head == slot_at(rob0.head, rob0.size, 1),
        0 <= t < rob0.size,
        t != rob0.head,
    ensures
        slot_offset(rob1.head, rob1.size, t) == slot_offset(rob0.head, rob0.size, t) - 1,
{
}

/// Retiring the oldest entry, when it is finished, is executing it in order.
proof fn lemma_retire_is_effect(e: ReorderBufferEntry, s: Arch)
    requires
        engine_entry(e),
        e.ready,
        e.result == Some(expected(e.instruction.unwrap(), (s.regs, s.mem)).0),
        e.carry == expected(e.instruction.unwrap(), (s.regs, s.mem)).1,
    ensures
        (retire_spec(e, s).regs, retire_spec(e, s).mem) == effect(e.instruction.unwrap(), (s.regs, s.mem)),
        s.regs.len() == 256 ==> retire_spec(e, s) == execute_spec(e.instruction.unwrap(), s),
{
    if s.regs.len() == 256 {
        lemma_engine_op_in_order(e.instruction.unwrap(), s);
    }
}

proof fn lemma_station_after_commit(
    rs: ReservationStation,
    rob0: ReorderBuffer,
    rob1: ReorderBuffer,
    d0: Data,
    d1: Data,
)
    requires
        rob0.wf(),
        rob1.wf(),
        rob0.count > 0,
        rob0.entries@[rob0.head as int].ready,
        rob1.size == rob0.size,
        rob1.head == slot_at(rob0.head, rob0.size, 1),
        rob1.entries@ == rob0.entries@.update(rob0.head as int, empty_entry()),
        rob1@ == rob0@.drop_first(),
        d1 == replay(d0, rob0@, 1),
        forall|k: int| 0 <= k < rob1@.len() ==> #[trigger] replay(d1, rob1@, k) == replay(d0, rob0@, k + 1),
        station_consistent(rs, rob0),
        station_in_order(rs, rob0, d0),
    ensures
        station_in_order(rs, rob1, d1),
{
    if rs.busy {
        let t = rs.tag as int;
        lemma_view_at_slot(rob0, t);
        lemma_offset_after_commit(rob0, rob1, t);
        let k0 = slot_offset(rob0.head, rob0.size, t);
        let k1 = slot_offset(rob1.head, rob1.size, t);
        assert(k1 == k0 - 1);
        assert(rob1@[k1] == rob0@[k0]);
        assert(replay(d1, rob1@, k1) == replay(d0, rob0@, k0));
        if let Some(w) = rs.qj {
            let w = w as int;
            lemma_offset_after_commit(rob0, rob1, w);
            assert forall|q: int| slot_offset(rob1.head, rob1.size, w) < q < k1 implies rob1@[q] == rob0@[q + 1] by {}
        }
        if let Some(w) = rs.qk {
            let w = w as int;
            lemma_offset_after_commit(rob0, rob1, w);
            assert forall|q: int| slot_offset(rob1.head, rob1.size, w) < q < k1 implies rob1@[q] == rob0@[q + 1] by {}
        }
    }
}

/// Commit keeps the engine in agreement with in-order execution.
pub proof fn lemma_commit_in_program_order(c0: CpuState, m0: Memory, c1: CpuState, m1: Memory)
    requires
        c0.wf(),
        c1.wf(),
        m0.wf(),
        commit_post(c0, m0, c1, m1),
        in_program_order(c0, m0@),
    ensures
        in_program_order(c1, m1@),
{
    if !c0.reorder_buffer.can_commit_spec() {
        return;
    }
    reveal(in_program_order);
    reveal(engine_consistent);
    let rob0 = c0.reorder_buffer;
    let rob1 = c1.reorder_buffer;
    let v0 = rob0@;
    let v1 = rob1@;
    let d0 = (c0.regs@, m0@);
    let d1 = (c1.regs@, m1@);
    assert(v0[0] == rob0.entries@[rob0.head as int]);
    assert(engine_entry(v0[0]));
    assert(v0[0].ready);
    assert(replay(d0, v0, 0) == d0);
    lemma_retire_is_effect(v0[0], arch_of(c0, m0));
    assert(d1 == replay(d0, v0, 1));
    assert forall|k: int| 0 <= k < v1.len() implies #[trigger] replay(d1, v1, k) == replay(
        d0,
        v0,
        k + 1,
    ) by {
        lemma_replay_drop_first(d0, v0, k);
    }
    assert forall|k: int| 0 <= k < v1.len() implies engine_entry(#[trigger] v1[k]) by {
        assert(v1[k] == v0[k + 1]);
    }
    assert forall|k: int| 0 <= k < v1.len() && (#[trigger] v1[k]).ready implies v1[k].result == Some(
        expected(v1[k].instruction.unwrap(), replay(d1, v1, k)).0,
    ) && v1[k].carry == expected(v1[k].instruction.unwrap(), replay(d1, v1, k)).1 by {
        assert(v1[k] == v0[k + 1]);
    }
    assert forall|k: int, i: int|
        0 <= i < k < v1.len() && is_load((#[trigger] v1[k]).instruction) implies !is_store(
        (#[trigger] v1[i]).instruction,
    ) by {
        assert(v1[k] == v0[k + 1]);
        assert(v1[i] == v0[i + 1]);
    }
    let pool = c1.reservation_stations;
    assert forall|i: int| 0 <= i < pool.alu_stations@.len() implies station_in_order(
        #[trigger] pool.alu_stations@[i],
        rob1,
        d1,
    ) by {
        lemma_station_after_commit(pool.alu_stations@[i], rob0, rob1, d0, d1);
    }
    assert forall|i: int| 0 <= i < pool.load_stations@.len() implies station_in_order(
        #[trigger] pool.load_stations@[i],
        rob1,
        d1,
    ) by {
        lemma_station_after_commit(pool.load_stations@[i], rob0, rob1, d0, d1);
    }
    assert forall|i: int| 0 <= i < pool.store_stations@.len() implies station_in_order(
        #[trigger] pool.store_stations@[i],
        rob1,
        d1,
    ) by {
        lemma_station_after_commit(pool.store_stations@[i], rob0, rob1, d0, d1);
    }
}

/// Every finished station that write-back may pick is a busy station of `s`.
pub proof fn lemma_ready_op_from_station(s: Seq<ReservationStation>, j: int)
    requires
        0 <= j < ready_ops(s).len(),
    ensures
        exists|i: int|
            0 <= i < s.len() && station_done(#[trigger] s[i]) && ready_ops(s)[j] == (
                s[i].tag,
                s[i].op.unwrap(),
                s[i].vj.unwrap(),
                s[i].vk.unwrap(),
            ),
    decreases s.len(),
{
    let rest = s.drop_last();
    if j < ready_ops(rest).len() {
        lemma_ready_op_from_station(rest, j);
        let i = choose|i: int|
            0 <= i < rest.len() && station_done(#[trigger] rest[i]) && ready_ops(rest)[j] == (
                rest[i].tag,
                rest[i].op.unwrap(),
                rest[i].vj.unwrap(),
                rest[i].vk.unwrap(),
            );
        assert(s[i] == rest[i]);
    } else {
        assert(s[s.len() - 1] == s.last());
    }
}

/// Only a load reads memory.
proof fn lemma_compute_memory(inst: Instruction, a: u16, b: u16, m1: Seq<u8>, m2: Seq<u8>)
    requires
        !is_load(Some(inst)),
    ensures
        compute_spec(inst, a, b, m1) == compute_spec(inst, a, b, m2),
{
}

/// A station keeps agreeing with in-order execution when the entry at
/// position `k` (slot `tag`) finishes with `value`.
proof fn lemma_station_after_broadcast_in_order(
    rs: ReservationStation,
    rob0: ReorderBuffer,
    rob1: ReorderBuffer,
    d: Data,
    tag: usize,
    value: u16,
    k: int,
)
    requires
        rob0.wf(),
        rob1.wf(),
        rob0.live(tag as int),
        k == slot_offset(rob0.head, rob0.size, tag as int),
        rob1.size == rob0.size,
        rob1.head == rob0.head,
        rob1.count == rob0.count,
        forall|i: int| 0 <= i < rob0.size ==> (#[trigger] rob1.entries@[i]).valid == rob0.entries@[i].valid
            && rob1.entries@[i].dest_reg == rob0.entries@[i].dest_reg
            && rob1.entries@[i].instruction == rob0.entries@[i].instruction,
        forall|j: int| 0 <= j <= rob0.count ==> #[trigger] replay(d, rob1@, j) == replay(d, rob0@, j),
        forall|r: u8| writes(rob0@[k], r) ==> replay(d, rob0@, k + 1).0[r as int] == value,
        d.0.len() == 256,
        forall|i: int| 0 <= i < rob0@.len() ==> engine_entry(#[trigger] rob0@[i]),
        station_consistent(rs, rob0),
        station_in_order(rs, rob0, d),
    ensures
        station_in_order(snoop_station(release_station(rs, tag), tag, value), rob1, d),
{
    let rs2 = snoop_station(release_station(rs, tag), tag, value);
    if rs2.busy {
        assert(rs.busy && rs.tag != tag);
        let t = rs.tag as int;
        lemma_view_at_slot(rob0, t);
        lemma_view_at_slot(rob1, t);
        let kk = slot_offset(rob0.head, rob0.size, t);
        assert(rob1@[kk].instruction == rob0@[kk].instruction);
        let inst = rob0@[kk].instruction.unwrap();
        assert(forall|q: int| 0 <= q < rob0.count ==> #[trigger] rob1@[q].dest_reg == rob0@[q].dest_reg
            && rob1@[q].instruction == rob0@[q].instruction);
        if rs.qj == Some(tag) {
            let r = source_j(inst).unwrap();
            assert(last_writer_before(rob0, kk, r, tag));
            lemma_replay_untouched(d, rob0@, k + 1, kk, r);
        }
        if rs.qk == Some(tag) {
            let r = source_k(inst).unwrap();
            assert(last_writer_before(rob0, kk, r as u8, tag));
            lemma_replay_untouched(d, rob0@, k + 1, kk, r as u8);
        }
        if let Some(w) = rs2.qj {
            lemma_view_at_slot(rob0, w as int);
        }
        if let Some(w) = rs2.qk {
            lemma_view_at_slot(rob0, w as int);
        }
    }
}

/// Write-Result keeps the engine in agreement with in-order execution: the
/// broadcast result is the one in-order execution computes.
pub proof fn lemma_writeback_in_program_order(c0: CpuState, m: Memory, c1: CpuState)
    requires
        c0.wf(),
        c1.wf(),
        m.wf(),
        writeback_post(c0, m, c1),
        in_program_order(c0, m@),
    ensures
        in_program_order(c1, m@),
{
    reveal(in_program_order);
    let pool0 = c0.reservation_stations;
    let ready = pool0.ready_spec();
    if ready.len() == 0 {
        return;
    }
    reveal(engine_consistent);
    let rob0 = c0.reorder_buffer;
    let rob1 = c1.reorder_buffer;
    let v0 = rob0@;
    let v1 = rob1@;
    let d = (c0.regs@, m@);
    let (tag, inst, vj, vk) = ready[0];
    let (value, carry) = compute_spec(inst, vj, vk, m@);
    // the station that finished
    let ra = ready_ops(pool0.alu_stations@);
    let rl = ready_ops(pool0.load_stations@);
    let rst = ready_ops(pool0.store_stations@);
    assert(ready == ra + rl + rst);
    let rs = if ra.len() > 0 {
        lemma_ready_op_from_station(pool0.alu_stations@, 0);
        let i = choose|i: int|
            0 <= i < pool0.alu_stations@.len() && station_done(#[trigger] pool0.alu_stations@[i])
                && ra[0] == (
                pool0.alu_stations@[i].tag,
                pool0.alu_stations@[i].op.unwrap(),
                pool0.alu_stations@[i].vj.unwrap(),
                pool0.alu_stations@[i].vk.unwrap(),
            );
        assert(station_consistent(pool0.alu_stations@[i], rob0));
        assert(station_in_order(pool0.alu_stations@[i], rob0, d));
        pool0.alu_stations@[i]
    } else if rl.len() > 0 {
        lemma_ready_op_from_station(pool0.load_stations@, 0);
        let i = choose|i: int|
            0 <= i < pool0.load_stations@.len() && station_done(#[trigger] pool0.load_stations@[i])
                && rl[0] == (
                pool0.load_stations@[i].tag,
                pool0.load_stations@[i].op.unwrap(),
                pool0.load_stations@[i].vj.unwrap(),
                pool0.load_stations@[i].vk.unwrap(),
            );
        assert(station_consistent(pool0.load_stations@[i], rob0));
        assert(station_in_order(pool0.load_stations@[i], rob0, d));
        pool0.load_stations@[i]
    } else {
        lemma_ready_op_from_station(pool0.store_stations@, 0);
        let i = choose|i: int|
            0 <= i < pool0.store_stations@.len() && station_done(#[trigger] pool0.store_stations@[i])
                && rst[0] == (
                pool0.store_stations@[i].tag,
                pool0.store_stations@[i].op.unwrap(),
                pool0.store_stations@[i].vj.unwrap(),
                pool0.store_stations@[i].vk.unwrap(),
            );
        assert(station_consistent(pool0.store_stations@[i], rob0));
        assert(station_in_order(pool0.store_stations@[i], rob0, d));
        pool0.store_stations@[i]
    };
    assert(station_done(rs) && station_consistent(rs, rob0) && station_in_order(rs, rob0, d));
    assert(rs.tag == tag && rs.op == Some(inst) && rs.vj == Some(vj) && rs.vk == Some(vk));
    let t = tag as int;
    lemma_view_at_slot(rob0, t);
    let k = slot_offset(rob0.head, rob0.size, t);
    assert(v0[k].instruction == Some(inst));
    assert(engine_entry(v0[k]));
    let sk = replay(d, v0, k);
    lemma_replay_len(d, v0, k);
    // a load has no older store in flight, so memory is as in-order execution left it
    if is_load(Some(inst)) {
        assert forall|i: int| 0 <= i < k implies !((#[trigger] v0[i]).instruction matches Some(
            Instruction::Store { .. },
        )) by {
            assert(!is_store(v0[i].instruction));
        }
        assert forall|i: int| 0 <= i < k implies engine_entry(#[trigger] v0[i]) by {}
        lemma_replay_untouched(d, v0, 0, k, 0);
        assert(sk.1 == m@);
    } else {
        lemma_compute_memory(inst, vj, vk, m@, sk.1);
    }
    assert((value, carry) == expected(inst, sk));
    // rob1 differs from rob0 only in the finished entry's result fields
    assert forall|i: int| 0 <= i < rob0.size implies (#[trigger] rob1.entries@[i]).valid
        == rob0.entries@[i].valid && rob1.entries@[i].dest_reg == rob0.entries@[i].dest_reg
        && rob1.entries@[i].instruction == rob0.entries@[i].instruction by {}
    assert forall|q: int| 0 <= q < v0.len() implies (#[trigger] v1[q]).instruction == v0[q].instruction
        && v1[q].dest_reg == v0[q].dest_reg && (slot_at(rob0.head, rob0.size, q) != t ==> v1[q] == v0[q]) by {}
    assert forall|j: int| 0 <= j <= rob0.count implies #[trigger] replay(d, v1, j) == replay(d, v0, j) by {
        lemma_replay_instructions(d, v1, v0, j);
    }
    assert forall|r: u8| writes(v0[k], r) implies replay(d, v0, k + 1).0[r as int] == value by {
        lemma_replay_step(d, v0, k);
    }
    assert forall|q: int| 0 <= q < v1.len() implies engine_entry(#[trigger] v1[q]) by {
        assert(engine_entry(v0[q]));
    }
    assert forall|q: int| 0 <= q < v1.len() && (#[trigger] v1[q]).ready implies v1[q].result == Some(
        expected(v1[q].instruction.unwrap(), replay(d, v1, q)).0,
    ) && v1[q].carry == expected(v1[q].instruction.unwrap(), replay(d, v1, q)).1 by {
        if slot_at(rob0.head, rob0.size, q) == t {
            assert(q == k);
        } else {
            assert(v1[q] == v0[q]);
        }
    }
    assert forall|q: int, i: int|
        0 <= i < q < v1.len() && is_load((#[trigger] v1[q]).instruction) implies !is_store(
        (#[trigger] v1[i]).instruction,
    ) by {
        assert(v1[q].instruction == v0[q].instruction);
        assert(v1[i].instruction == v0[i].instruction);
    }
    let pool1 = c1.reservation_stations;
    assert forall|i: int| 0 <= i < pool1.alu_stations@.len() implies station_in_order(
        #[trigger] pool1.alu_stations@[i],
        rob1,
        d,
    ) by {
        lemma_station_after_broadcast_in_order(pool0.alu_stations@[i], rob0, rob1, d, tag, value, k);
    }
    assert forall|i: int| 0 <= i < pool1.load_stations@.len() implies station_in_order(
        #[trigger] pool1.load_stations@[i],
        rob1,
        d,
    ) by {
        lemma_station_after_broadcast_in_order(pool0.load_stations@[i], rob0, rob1, d, tag, value, k);
    }
    assert forall|i: int| 0 <= i < pool1.store_stations@.len() implies station_in_order(
        #[trigger] pool1.store_stations@[i],
        rob1,
        d,
    ) by {
        lemma_station_after_broadcast_in_order(pool0.store_stations@[i], rob0, rob1, d, tag, value, k);
    }
}

/// A register read at issue, behind every in-flight entry, gets what
/// in-order execution would read there, or waits on the last in-flight
/// writer of the register.
pub proof fn lemma_operand_in_order(cpu: CpuState, mem: Seq<u8>, src: u16)
    requires
        cpu.wf(),
        in_program_order(cpu, mem),
    ensures
        ({
            let (v, q) = operand_spec(cpu, src);
            let rob = cpu.reorder_buffer;
            let n = rob.count as int;
            let regs = replay((cpu.regs@, mem), rob@, n).0;
            &&& v.is_some() || q.is_some()
            &&& (v matches Some(x) ==> x == read_10bit_spec(regs, src))
            &&& (q matches Some(t) ==> src < 256 && last_writer_before(rob, n, src as u8, t))
        }),
{
    if src >= 256 {
        return;
    }
    reveal(in_program_order);
    reveal(engine_consistent);
    let rob = cpu.reorder_buffer;
    let v = rob@;
    let n = rob.count as int;
    let d = (cpu.regs@, mem);
    let r = src as u8;
    let e = cpu.rename_table@[src as int];
    assert forall|i: int| 0 <= i < n implies engine_entry(#[trigger] v[i]) by {}
    lemma_replay_len(d, v, n);
    match e.producer_tag {
        None => {
            // no in-flight entry writes the register
            assert forall|i: int| 0 <= i < n implies !writes(#[trigger] v[i], r) by {
                let slot = slot_at(rob.head, rob.size, i);
                assert(v[i] == rob.entries@[slot]);
                assert(rob.entries@[slot].valid);
                if writes(v[i], r) {
                    assert(renames_youngest(cpu.rename_table@, rob));
                    assert(rob.live(slot) && rob.entries@[slot].dest_reg == Some(r));
                }
            }
            lemma_replay_untouched(d, v, 0, n, r);
        },
        Some(t) => {
            let t = t as int;
            assert(renames_consistent(cpu.rename_table@, rob));
            lemma_view_at_slot(rob, t);
            let p = slot_offset(rob.head, rob.size, t);
            assert(writes(v[p], r));
            assert forall|q: int| p < q < n implies !writes(#[trigger] v[q], r) by {
                let slot = slot_at(rob.head, rob.size, q);
                assert(v[q] == rob.entries@[slot]);
                assert(rob.entries@[slot].valid);
                if writes(v[q], r) {
                    assert(renames_youngest(cpu.rename_table@, rob));
                    assert(slot_offset(rob.head, rob.size, slot) == q);
                }
            }
            assert(last_writer_before(rob, n, r, t as usize));
            lemma_replay_untouched(d, v, p + 1, n, r);
            lemma_replay_step(d, v, p);
            lemma_replay_len(d, v, p);
        },
    }
}

/// A station issued for the entry just allocated behind every in-flight one
/// agrees with in-order execution.
pub proof fn lemma_new_station_in_order(
    c0: CpuState,
    rob1: ReorderBuffer,
    mem: Seq<u8>,
    inst: Instruction,
    pc: u16,
    j: (Option<u16>, Option<usize>),
    k: (Option<u16>, Option<usize>),
)
    requires
        c0.wf(),
        in_program_order(c0, mem),
        c0.reorder_buffer.count < c0.reorder_buffer.size,
        allocated(rob1, c0.reorder_buffer, issued_entry(inst, dest_of(inst), pc)),
        j == (match source_j(inst) {
            Some(r) => operand_spec(c0, r as u16),
            None => (Some(operand_j(inst, c0.regs@)), None),
        }),
        k == (match source_k(inst) {
            Some(r) => operand_spec(c0, r),
            None => (Some(operand_k(inst, c0.regs@)), None),
        }),
    ensures
        station_in_order(station_for(inst, j, k, c0.reorder_buffer.tail), rob1, (c0.regs@, mem)),
{
    let rob0 = c0.reorder_buffer;
    let d = (c0.regs@, mem);
    let n = rob0.count as int;
    let tail = rob0.tail as int;
    assert(rob1.live(tail));
    lemma_view_at_slot(rob1, tail);
    assert(slot_offset(rob1.head, rob1.size, tail) == n);
    assert(rob1@[n] == issued_entry(inst, dest_of(inst), pc));
    lemma_replay_push(d, rob0@, issued_entry(inst, dest_of(inst), pc), n);
    assert(rob0@.push(issued_entry(inst, dest_of(inst), pc)) == rob1@);
    let regs = replay(d, rob0@, n).0;
    if let Some(r) = source_j(inst) {
        lemma_operand_in_order(c0, mem, r as u16);
    }
    if let Some(r) = source_k(inst) {
        lemma_operand_in_order(c0, mem, r);
    }
    // waits name the same last writer in the grown buffer
    assert forall|q: int| 0 <= q < n implies #[trigger] rob1@[q] == rob0@[q] by {}
    if let Some(t) = j.1 {
        lemma_view_at_slot(rob0, t as int);
        assert(rob1.entries@[t as int] == rob0.entries@[t as int]);
    }
    if let Some(t) = k.1 {
        lemma_view_at_slot(rob0, t as int);
        assert(rob1.entries@[t as int] == rob0.entries@[t as int]);
    }
}

proof fn lemma_old_station_after_issue(rs: ReservationStation, rob0: ReorderBuffer, rob1: ReorderBuffer, d: Data, e: ReorderBufferEntry)
    requires
        rob0.wf(),
        rob0.count < rob0.size,
        allocated(rob1, rob0, e),
        station_consistent(rs, rob0),
        station_in_order(rs, rob0, d),
    ensures
        station_in_order(rs, rob1, d),
{
    if rs.busy {
        let t = rs.tag as int;
        lemma_view_at_slot(rob0, t);
        assert(t != rob0.tail);
        assert(rob1.entries@[t] == rob0.entries@[t]);
        lemma_view_at_slot(rob1, t);
        let k = slot_offset(rob0.head, rob0.size, t);
        lemma_replay_push(d, rob0@, e, k);
        assert forall|q: int| 0 <= q < rob0.count implies #[trigger] rob1@[q] == rob0@[q] by {}
        if let Some(w) = rs.qj {
            lemma_view_at_slot(rob0, w as int);
            assert(w != rob0.tail);
            assert(rob1.entries@[w as int] == rob0.entries@[w as int]);
        }
        if let Some(w) = rs.qk {
            lemma_view_at_slot(rob0, w as int);
            assert(w != rob0.tail);
            assert(rob1.entries@[w as int] == rob0.entries@[w as int]);
        }
    }
}

/// `s1` is `s0` with some stations replaced by `rs`.
pub open spec fn same_or(s0: Seq<ReservationStation>, s1: Seq<ReservationStation>, rs: ReservationStation) -> bool {
    &&& s1.len() == s0.len()
    &&& forall|i: int| 0 <= i < s0.len() ==> #[trigger] s1[i] == s0[i] || s1[i] == rs
}

/// Issue into the engine keeps it in agreement with in-order execution.
pub proof fn lemma_issue_in_program_order(
    c0: CpuState,
    c1: CpuState,
    mem: Seq<u8>,
    inst: Instruction,
    pc: u16,
    rs: ReservationStation,
)
    requires
        c0.wf(),
        in_program_order(c0, mem),
        c0.reorder_buffer.count < c0.reorder_buffer.size,
        is_engine_op(inst),
        c1.regs == c0.regs,
        allocated(c1.reorder_buffer, c0.reorder_buffer, issued_entry(inst, dest_of(inst), pc)),
        station_in_order(rs, c1.reorder_buffer, (c0.regs@, mem)),
        same_or(c0.reservation_stations.alu_stations@, c1.reservation_stations.alu_stations@, rs),
        same_or(c0.reservation_stations.load_stations@, c1.reservation_stations.load_stations@, rs),
        same_or(c0.reservation_stations.store_stations@, c1.reservation_stations.store_stations@, rs),
        is_load(Some(inst)) ==> !c0.reorder_buffer.store_in_flight(),
    ensures
        in_program_order(c1, mem),
{
    reveal(in_program_order);
    reveal(engine_consistent);
    let rob0 = c0.reorder_buffer;
    let rob1 = c1.reorder_buffer;
    let e = issued_entry(inst, dest_of(inst), pc);
    let d = (c0.regs@, mem);
    let v0 = rob0@;
    let v1 = rob1@;
    let n = rob0.count as int;
    assert forall|q: int| 0 <= q < v1.len() implies engine_entry(#[trigger] v1[q]) by {
        if q < n {
            assert(v1[q] == v0[q]);
        }
    }
    assert forall|q: int| 0 <= q < v1.len() && (#[trigger] v1[q]).ready implies v1[q].result == Some(
        expected(v1[q].instruction.unwrap(), replay(d, v1, q)).0,
    ) && v1[q].carry == expected(v1[q].instruction.unwrap(), replay(d, v1, q)).1 by {
        assert(q < n);
        assert(v1[q] == v0[q]);
        lemma_replay_push(d, v0, e, q);
    }
    assert forall|q: int, i: int|
        0 <= i < q < v1.len() && is_load((#[trigger] v1[q]).instruction) implies !is_store(
        (#[trigger] v1[i]).instruction,
    ) by {
        assert(v1[i] == v0[i]);
        if q == n {
            let slot = slot_at(rob0.head, rob0.size, i);
            assert(v0[i] == rob0.entries@[slot]);
            assert(rob0.entries@[slot].valid);
        } else {
            assert(v1[q] == v0[q]);
        }
    }
    let p0 = c0.reservation_stations;
    let p1 = c1.reservation_stations;
    assert forall|i: int| 0 <= i < p1.alu_stations@.len() implies station_in_order(
        #[trigger] p1.alu_stations@[i],
        rob1,
        d,
    ) by {
        if p1.alu_stations@[i] != rs {
            lemma_old_station_after_issue(p0.alu_stations@[i], rob0, rob1, d, e);
        }
    }
    assert forall|i: int| 0 <= i < p1.load_stations@.len() implies station_in_order(
        #[trigger] p1.load_stations@[i],
        rob1,
        d,
    ) by {
        if p1.load_stations@[i] != rs {
            lemma_old_station_after_issue(p0.load_stations@[i], rob0, rob1, d, e);
        }
    }
    assert forall|i: int| 0 <= i < p1.store_stations@.len() implies station_in_order(
        #[trigger] p1.store_stations@[i],
        rob1,
        d,
    ) by {
        if p1.store_stations@[i] != rs {
            lemma_old_station_after_issue(p0.store_stations@[i], rob0, rob1, d, e);
        }
    }
}

/// Execute only counts down, which keeps the engine in agreement with in-order execution.
pub proof fn lemma_execute_in_program_order(c0: CpuState, c1: CpuState, mem: Seq<u8>)
    requires
        execute_post(c0, c1),
        in_program_order(c0, mem),
    ensures
        in_program_order(c1, mem),
{
    reveal(in_program_order);
    let d = (c0.regs@, mem);
    let rob = c0.reorder_buffer;
    assert forall|i: int| 0 <= i < c1.reservation_stations.alu_stations@.len() implies station_in_order(
        #[trigger] c1.reservation_stations.alu_stations@[i],
        rob,
        d,
    ) by {
        assert(station_in_order(c0.reservation_stations.alu_stations@[i], rob, d));
    }
    assert forall|i: int| 0 <= i < c1.reservation_stations.load_stations@.len() implies station_in_order(
        #[trigger] c1.reservation_stations.load_stations@[i],
        rob,
        d,
    ) by {
        assert(station_in_order(c0.reservation_stations.load_stations@[i], rob, d));
    }
    assert forall|i: int| 0 <= i < c1.reservation_stations.store_stations@.len() implies station_in_order(
        #[trigger] c1.reservation_stations.store_stations@[i],
        rob,
        d,
    ) by {
        assert(station_in_order(c0.reservation_stations.store_stations@[i], rob, d));
    }
}

/// Agreement with in-order execution reads only the registers, the reorder
/// buffer and the stations.
pub proof fn lemma_renames_irrelevant(c0: CpuState, c1: CpuState, mem: Seq<u8>)
    requires
        in_program_order(c0, mem),
        c1.regs == c0.regs,
        c1.reorder_buffer == c0.reorder_buffer,
        c1.reservation_stations == c0.reservation_stations,
    ensures
        in_program_order(c1, mem),
{
    reveal(in_program_order);
}

/// While the engine agrees with in-order execution (as a processor with
/// nothing in flight does, and as every cycle keeps it), committing the
/// oldest entry changes the architectural state exactly as executing that
/// instruction in order does.
pub proof fn lemma_commit_executes_in_order(c0: CpuState, m0: Memory, c1: CpuState, m1: Memory)
    requires
        c0.wf(),
        m0.wf(),
        in_program_order(c0, m0@),
        commit_post(c0, m0, c1, m1),
        c0.reorder_buffer.can_commit_spec(),
    ensures
        arch_of(c1, m1) == execute_spec(c0.reorder_buffer@[0].instruction.unwrap(), arch_of(c0, m0)),
{
    reveal(in_program_order);
    let rob = c0.reorder_buffer;
    let v = rob@;
    let d = (c0.regs@, m0@);
    assert(v[0] == rob.entries@[rob.head as int]);
    assert(engine_entry(v[0]));
    assert(replay(d, v, 0) == d);
    lemma_retire_is_effect(v[0], arch_of(c0, m0));
}

/// Issuing an engine operation into a free station keeps the engine in
/// agreement with in-order execution.
pub proof fn lemma_issue_step_in_program_order(
    c0: CpuState,
    c1: CpuState,
    inst: Instruction,
    pc: u16,
    j: (Option<u16>, Option<usize>),
    k: (Option<u16>, Option<usize>),
)
    requires
        c0.wf(),
        c0.reorder_buffer.count < c0.reorder_buffer.size,
        is_engine_op(inst),
        c1.regs == c0.regs,
        allocated(c1.reorder_buffer, c0.reorder_buffer, issued_entry(inst, dest_of(inst), pc)),
        j == (match source_j(inst) {
            Some(r) => operand_spec(c0, r as u16),
            None => (Some(operand_j(inst, c0.regs@)), None),
        }),
        k == (match source_k(inst) {
            Some(r) => operand_spec(c0, r),
            None => (Some(operand_k(inst, c0.regs@)), None),
        }),
        same_or(
            c0.reservation_stations.alu_stations@,
            c1.reservation_stations.alu_stations@,
            station_for(inst, j, k, c0.reorder_buffer.tail),
        ),
        same_or(
            c0.reservation_stations.load_stations@,
            c1.reservation_stations.load_stations@,
            station_for(inst, j, k, c0.reorder_buffer.tail),
        ),
        same_or(
            c0.reservation_stations.store_stations@,
            c1.reservation_stations.store_stations@,
            station_for(inst, j, k, c0.reorder_buffer.tail),
        ),
        is_load(Some(inst)) ==> !c0.reorder_buffer.store_in_flight(),
    ensures
        forall|m: Seq<u8>| in_program_order(c0, m) ==> #[trigger] in_program_order(c1, m),
{
    assert forall|m: Seq<u8>| in_program_order(c0, m) implies #[trigger] in_program_order(c1, m) by {
        lemma_new_station_in_order(c0, c1.reorder_buffer, m, inst, pc, j, k);
        lemma_issue_in_program_order(c0, c1, m, inst, pc, station_for(inst, j, k, c0.reorder_buffer.tail));
    }
}

} // verus!
