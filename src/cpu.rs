//! The aggregate processor state and the execution-mode switch.
use vstd::prelude::*;
use crate::pipeline::{is_control, PipelineController};
use crate::program_order::{in_program_order, lemma_quiet_in_program_order};
use crate::register_file::RegisterFile;
use crate::tomasulo::{
    architectural_entry,
    empty_entry,
    free_station,
    slot_offset,
    CommonDataBus,
    RegisterRenameTable,
    RenameEntry,
    ReorderBuffer,
    ReservationStation,
    ReservationStationPool,
};

verus! {

/// The number of general registers.
pub const NUM_REGISTERS: usize = 256;

/// The fetch queue holds at most this many (instruction, PC) pairs.
pub const FETCH_QUEUE_CAPACITY: usize = 4;

/// The number of reorder-buffer slots of a fresh processor.
pub const ROB_CAPACITY: usize = 16;

#[derive(Debug, Clone, Copy, PartialEq, Eq, Structural)]
pub struct StatusFlags {
    pub zero: bool,
    pub carry: bool,
    pub negative: bool,
    /// Reserved: no operation writes it.
    pub overflow: bool,
}

/// The flags after an operation produced `result`: zero and negative follow
/// the result, carry and overflow are kept.
pub open spec fn flags_from_result(f: StatusFlags, result: u16) -> StatusFlags {
    StatusFlags { zero: result == 0, negative: (result as i16) < 0, ..f }
}

/// Every in-flight entry that is ready holds its result.
pub open spec fn finished_have_results(rob: ReorderBuffer) -> bool {
    forall|i: int|
        0 <= i < rob.size && (#[trigger] rob.entries@[i]).valid && rob.entries@[i].ready
            ==> rob.entries@[i].result is Some
}

/// Slot `tag` holds an in-flight entry whose result is not yet available.
pub open spec fn pending(rob: ReorderBuffer, tag: usize) -> bool {
    rob.live(tag as int) && !rob.entries@[tag as int].ready
}

/// Each register has at most one producer, and it is an in-flight entry that
/// writes that register; a register is ready exactly when it has no producer.
pub open spec fn renames_consistent(renames: Seq<RenameEntry>, rob: ReorderBuffer) -> bool {
    forall|r: int|
        0 <= r < renames.len() ==> {
            &&& (#[trigger] renames[r]).ready == renames[r].producer_tag.is_none()
            &&& renames[r].producer_tag matches Some(t) ==> rob.live(t as int)
                && rob.entries@[t as int].dest_reg == Some(r as u8)
        }
}

/// The producer of a register is the youngest in-flight entry that writes it,
/// and a register without one has no in-flight writer at all.
pub open spec fn renames_youngest(renames: Seq<RenameEntry>, rob: ReorderBuffer) -> bool {
    forall|r: int, i: int|
        0 <= r < renames.len() && rob.live(i) && (#[trigger] rob.entries@[i]).dest_reg == Some(
            r as u8,
        ) ==> match (#[trigger] renames[r]).producer_tag {
            Some(t) => slot_offset(rob.head, rob.size, i) <= slot_offset(rob.head, rob.size, t as int),
            None => false,
        }
}

/// A busy station works for an in-flight entry whose result is not yet
/// available, and every tag that a station waits on is such an entry: no tag
/// of a committed or reused slot is left behind.
pub open spec fn station_consistent(rs: ReservationStation, rob: ReorderBuffer) -> bool {
    &&& rs.busy ==> pending(rob, rs.tag)
    &&& rs.qj matches Some(t) ==> pending(rob, t)
    &&& rs.qk matches Some(t) ==> pending(rob, t)
}

/// Every station of `s` is consistent with `rob`.
pub open spec fn stations_consistent(s: Seq<ReservationStation>, rob: ReorderBuffer) -> bool {
    forall|i: int| 0 <= i < s.len() ==> station_consistent(#[trigger] s[i], rob)
}

/// The tags held by the rename table and the stations agree with the reorder buffer.
#[verifier::opaque]
pub open spec fn engine_consistent(
    rob: ReorderBuffer,
    renames: Seq<RenameEntry>,
    alu: Seq<ReservationStation>,
    load: Seq<ReservationStation>,
    store: Seq<ReservationStation>,
) -> bool {
    &&& finished_have_results(rob)
    &&& renames_consistent(renames, rob)
    &&& renames_youngest(renames, rob)
    &&& stations_consistent(alu, rob)
    &&& stations_consistent(load, rob)
    &&& stations_consistent(store, rob)
    &&& stations_paired(rob, alu, load, store)
}

/// Some busy station of `s` works for `tag`.
pub open spec fn owned_by(s: Seq<ReservationStation>, tag: int) -> bool {
    exists|i: int| 0 <= i < s.len() && (#[trigger] s[i]).busy && s[i].tag == tag
}

/// Every in-flight entry still waiting for its result has a busy station in `a`, `b` or `c`.
pub open spec fn owned_or(
    rob: ReorderBuffer,
    a: Seq<ReservationStation>,
    b: Seq<ReservationStation>,
    c: Seq<ReservationStation>,
) -> bool {
    forall|t: int|
        0 <= t < rob.size && #[trigger] pending(rob, t as usize) ==> owned_by(a, t) || owned_by(b, t)
            || owned_by(c, t)
}

/// No two busy stations of `s` work for one tag.
pub open spec fn unique_tags(s: Seq<ReservationStation>) -> bool {
    forall|i: int, j: int|
        0 <= i < s.len() && 0 <= j < s.len() && i != j && (#[trigger] s[i]).busy
            && (#[trigger] s[j]).busy ==> s[i].tag != s[j].tag
}

/// No busy station of `a` works for the tag of a busy station of `b`.
pub open spec fn disjoint_tags(a: Seq<ReservationStation>, b: Seq<ReservationStation>) -> bool {
    forall|i: int, j: int|
        0 <= i < a.len() && 0 <= j < b.len() && (#[trigger] a[i]).busy && (#[trigger] b[j]).busy
            ==> a[i].tag != b[j].tag
}

/// Each in-flight entry still waiting for its result is worked on by exactly
/// one busy station: a station is claimed at issue and released when its
/// result is broadcast.
pub open spec fn stations_paired(
    rob: ReorderBuffer,
    alu: Seq<ReservationStation>,
    load: Seq<ReservationStation>,
    store: Seq<ReservationStation>,
) -> bool {
    &&& owned_or(rob, alu, load, store)
    &&& unique_tags(alu)
    &&& unique_tags(load)
    &&& unique_tags(store)
    &&& disjoint_tags(alu, load)
    &&& disjoint_tags(alu, store)
    &&& disjoint_tags(load, store)
}

/// Why a mode switch was refused.
#[derive(Debug, Clone, Copy, PartialEq, Eq, Structural)]
pub enum ModeSwitchError {
    /// The out-of-order engine still holds queued or in-flight instructions.
    InFlight,
}

/// The whole processor: architectural state, the out-of-order engine, and
/// which engine `step` drives.
#[derive(Debug)]
pub struct CpuState {
    pub regs: RegisterFile,
    pub pc: u16,
    pub halted: bool,
    pub flags: StatusFlags,
    pub reservation_stations: ReservationStationPool,
    pub reorder_buffer: ReorderBuffer,
    pub rename_table: RegisterRenameTable,
    pub common_data_bus: CommonDataBus,
    pub pipeline: PipelineController,
    pub out_of_order_enabled: bool,
}

impl CpuState {
    /// The shapes that every operation relies on, and the agreement of the
    /// out-of-order engine's tags with its reorder buffer.
    pub open spec fn wf(&self) -> bool {
        &&& self.regs.wf()
        &&& self.reorder_buffer.wf()
        &&& self.rename_table.entries@.len() == NUM_REGISTERS
        &&& self.pipeline.instruction_queue@.len() <= FETCH_QUEUE_CAPACITY
        &&& forall|i: int|
            0 <= i < self.pipeline.instruction_queue@.len() - 1 ==> !is_control(
                (#[trigger] self.pipeline.instruction_queue@[i]).0,
            )
        &&& engine_consistent(
            self.reorder_buffer,
            self.rename_table@,
            self.reservation_stations.alu_stations@,
            self.reservation_stations.load_stations@,
            self.reservation_stations.store_stations@,
        )
    }

    /// No queued instruction, no busy station, no in-flight entry.
    pub open spec fn quiescent(&self) -> bool {
        &&& self.pipeline.instruction_queue@.len() == 0
        &&& self.reorder_buffer.count == 0
        &&& forall|i: int|
            0 <= i < self.reservation_stations.alu_stations@.len()
                ==> !(#[trigger] self.reservation_stations.alu_stations@[i]).busy
        &&& forall|i: int|
            0 <= i < self.reservation_stations.load_stations@.len()
                ==> !(#[trigger] self.reservation_stations.load_stations@[i]).busy
        &&& forall|i: int|
            0 <= i < self.reservation_stations.store_stations@.len()
                ==> !(#[trigger] self.reservation_stations.store_stations@[i]).busy
    }

    /// A reset processor: zero registers and flags, PC 0, running, in-order mode,
    /// and an idle out-of-order engine with a 16-slot reorder buffer.
    pub fn new() -> (r: Self)
        ensures
            r.wf(),
            r.quiescent(),
            forall|i: int| 0 <= i < NUM_REGISTERS ==> r.regs@[i] == 0,
            r.pc == 0,
            !r.halted,
            r.flags == (StatusFlags { zero: false, carry: false, negative: false, overflow: false }),
            !r.out_of_order_enabled,
            r.reorder_buffer.size == ROB_CAPACITY,
            r.reorder_buffer.count == 0,
            r.reorder_buffer.head == 0,
            r.reorder_buffer.tail == 0,
            forall|i: int| 0 <= i < ROB_CAPACITY ==> r.reorder_buffer.entries@[i] == empty_entry(),
            r.pipeline.instruction_queue@.len() == 0,
            r.rename_table@.len() == NUM_REGISTERS,
            r.pipeline.cycles == 0,
            !r.common_data_bus.valid,
            forall|i: int| 0 <= i < NUM_REGISTERS ==> r.rename_table@[i] == architectural_entry(),
            r.reservation_stations.alu_stations@.len() == 4,
            r.reservation_stations.load_stations@.len() == 2,
            r.reservation_stations.store_stations@.len() == 2,
            forall|i: int| 0 <= i < 4 ==> r.reservation_stations.alu_stations@[i] == free_station(),
            forall|i: int| 0 <= i < 2 ==> r.reservation_stations.load_stations@[i] == free_station(),
            forall|i: int| 0 <= i < 2 ==> r.reservation_stations.store_stations@[i] == free_station(),
            forall|m: Seq<u8>| #[trigger] in_program_order(r, m),
    {
        proof {
            reveal(engine_consistent);
        }
        let cpu = CpuState {
            regs: RegisterFile::new(),
            pc: 0,
            halted: false,
            flags: StatusFlags { zero: false, carry: false, negative: false, overflow: false },
            reservation_stations: ReservationStationPool::new(),
            reorder_buffer: ReorderBuffer::new(ROB_CAPACITY),
            rename_table: RegisterRenameTable::new(NUM_REGISTERS),
            common_data_bus: CommonDataBus::new(),
            pipeline: PipelineController::new(),
            out_of_order_enabled: false,
        };
        proof {
            assert forall|m: Seq<u8>| #[trigger] in_program_order(cpu, m) by {
                lemma_quiet_in_program_order(cpu, m);
            }
        }
        cpu
    }

    /// Sets zero iff `result == 0` and negative iff `result`, read as signed, is below 0.
    pub fn set_flags_from_result(&mut self, result: u16)
        ensures
            final(self).flags.zero == (result == 0),
            final(self).flags.negative == ((result as i16) < 0),
            *final(self) == (CpuState {
                flags: flags_from_result(old(self).flags, result),
                ..*old(self)
            }),
    {
        self.flags.zero = result == 0;
        self.flags.negative = (result as i16) < 0;
    }

    pub fn is_quiescent(&self) -> (r: bool)
        ensures
            r == self.quiescent(),
    {
        if self.pipeline.instruction_queue.len() != 0 || self.reorder_buffer.count != 0 {
            return false;
        }
        all_free(&self.reservation_stations.alu_stations) && all_free(
            &self.reservation_stations.load_stations,
        ) && all_free(&self.reservation_stations.store_stations)
    }

    /// Switches to the out-of-order engine; refused, with nothing changed,
    /// while that engine holds work.
    pub fn enable_out_of_order(&mut self) -> (r: Result<(), ModeSwitchError>)
        ensures
            old(self).quiescent() ==> r is Ok && *final(self) == (CpuState {
                out_of_order_enabled: true,
                ..*old(self)
            }),
            !old(self).quiescent() ==> r == Err::<(), _>(ModeSwitchError::InFlight) && *final(self)
                == *old(self),
    {
        if !self.is_quiescent() {
            return Err(ModeSwitchError::InFlight);
        }
        self.out_of_order_enabled = true;
        Ok(())
    }

    /// Switches to the in-order engine; refused, with nothing changed,
    /// while the out-of-order engine holds work.
    pub fn disable_out_of_order(&mut self) -> (r: Result<(), ModeSwitchError>)
        ensures
            old(self).quiescent() ==> r is Ok && *final(self) == (CpuState {
                out_of_order_enabled: false,
                ..*old(self)
            }),
            !old(self).quiescent() ==> r == Err::<(), _>(ModeSwitchError::InFlight) && *final(self)
                == *old(self),
    {
        if !self.is_quiescent() {
            return Err(ModeSwitchError::InFlight);
        }
        self.out_of_order_enabled = false;
        Ok(())
    }
}

fn all_free(s: &Vec<ReservationStation>) -> (r: bool)
    ensures
        r == forall|i: int| 0 <= i < s@.len() ==> !(#[trigger] s@[i]).busy,
{
    let mut i: usize = 0;
    while i < s.len()
        invariant
            i <= s@.len(),
            forall|j: int| 0 <= j < i ==> !(#[trigger] s@[j]).busy,
        decreases s@.len() - i,
    {
        if s[i].busy {
            return false;
        }
        i = i + 1;
    }
    true
}

/// Each architectural register has at most one in-flight producer: the rename
/// table names the youngest in-flight entry that writes the register, or
/// nothing when no in-flight entry writes it. Every tag that a station waits
/// on, or works for, is an in-flight entry whose result is still outstanding.
pub proof fn lemma_one_producer_per_register(cpu: CpuState)
    requires
        cpu.wf(),
    ensures
        forall|r: int, i: int|
            #![trigger cpu.reorder_buffer.entries@[i], cpu.rename_table@[r]]
            0 <= r < NUM_REGISTERS && cpu.reorder_buffer.live(i)
                && cpu.reorder_buffer.entries@[i].dest_reg == Some(r as u8)
                ==> cpu.rename_table@[r].producer_tag is Some,
        forall|r: int|
            0 <= r < NUM_REGISTERS && (#[trigger] cpu.rename_table@[r]).producer_tag is Some ==> {
                let t = cpu.rename_table@[r].producer_tag.unwrap() as int;
                &&& !cpu.rename_table@[r].ready
                &&& cpu.reorder_buffer.live(t)
                &&& cpu.reorder_buffer.entries@[t].dest_reg == Some(r as u8)
                &&& forall|i: int|
                    cpu.reorder_buffer.live(i) && (#[trigger] cpu.reorder_buffer.entries@[i]).dest_reg
                        == Some(r as u8) ==> slot_offset(
                        cpu.reorder_buffer.head,
                        cpu.reorder_buffer.size,
                        i,
                    ) <= slot_offset(cpu.reorder_buffer.head, cpu.reorder_buffer.size, t)
            },
        stations_consistent(cpu.reservation_stations.alu_stations@, cpu.reorder_buffer),
        stations_consistent(cpu.reservation_stations.load_stations@, cpu.reorder_buffer),
        stations_consistent(cpu.reservation_stations.store_stations@, cpu.reorder_buffer),
{
    reveal(engine_consistent);
}

/// Reservation stations pair with the reorder buffer: every in-flight entry
/// whose result is outstanding is worked on by a busy station, no two busy
/// stations work for the same entry, and each busy station works for such an
/// entry. A station is claimed at issue and released at its broadcast.
pub proof fn lemma_stations_pair_with_entries(cpu: CpuState)
    requires
        cpu.wf(),
    ensures
        stations_paired(
            cpu.reorder_buffer,
            cpu.reservation_stations.alu_stations@,
            cpu.reservation_stations.load_stations@,
            cpu.reservation_stations.store_stations@,
        ),
        forall|i: int|
            0 <= i < cpu.reservation_stations.alu_stations@.len() && (#[trigger] cpu.reservation_stations.alu_stations@[i]).busy
                ==> pending(cpu.reorder_buffer, cpu.reservation_stations.alu_stations@[i].tag),
        forall|i: int|
            0 <= i < cpu.reservation_stations.load_stations@.len() && (#[trigger] cpu.reservation_stations.load_stations@[i]).busy
                ==> pending(cpu.reorder_buffer, cpu.reservation_stations.load_stations@[i].tag),
        forall|i: int|
            0 <= i < cpu.reservation_stations.store_stations@.len() && (#[trigger] cpu.reservation_stations.store_stations@[i]).busy
                ==> pending(cpu.reorder_buffer, cpu.reservation_stations.store_stations@[i].tag),
{
    reveal(engine_consistent);
}

/// With nothing queued or in flight, every station is free.
pub proof fn lemma_drained_is_quiescent(cpu: CpuState)
    requires
        cpu.wf(),
        cpu.reorder_buffer.count == 0,
        cpu.pipeline.instruction_queue@.len() == 0,
    ensures
        cpu.quiescent(),
{
    reveal(engine_consistent);
    let p = cpu.reservation_stations;
    assert forall|i: int| 0 <= i < p.alu_stations@.len() implies !(#[trigger] p.alu_stations@[i]).busy by {
        assert(station_consistent(p.alu_stations@[i], cpu.reorder_buffer));
    }
    assert forall|i: int| 0 <= i < p.load_stations@.len() implies !(#[trigger] p.load_stations@[i]).busy by {
        assert(station_consistent(p.load_stations@[i], cpu.reorder_buffer));
    }
    assert forall|i: int| 0 <= i < p.store_stations@.len() implies !(#[trigger] p.store_stations@[i]).busy by {
        assert(station_consistent(p.store_stations@[i], cpu.reorder_buffer));
    }
}

} // verus!
