//! The out-of-order machinery: reservation stations, the reorder buffer, the
//! register rename table and the common data bus. A tag is a reorder-buffer
//! slot index.
use vstd::prelude::*;
use crate::isa::Instruction;
use vstd::arithmetic::div_mod::{lemma_mod_sub_multiples_vanish, lemma_small_mod};

verus! {

/// An operand-capture slot in front of a functional unit. An operand is ready
/// when its value (`vj`, `vk`) is present; otherwise `qj`/`qk` name the tag
/// that will produce it.
#[derive(Debug, Clone, Copy, PartialEq, Eq, Structural)]
pub struct ReservationStation {
    pub busy: bool,
    pub op: Option<Instruction>,
    pub vj: Option<u16>,
    pub vk: Option<u16>,
    pub qj: Option<usize>,
    pub qk: Option<usize>,
    pub tag: usize,
    pub cycles_remaining: u32,
}

/// A station with nothing in it.
pub open spec fn free_station() -> ReservationStation {
    ReservationStation {
        busy: false,
        op: None,
        vj: None,
        vk: None,
        qj: None,
        qk: None,
        tag: 0,
        cycles_remaining: 0,
    }
}

/// Busy with both operands captured.
pub open spec fn station_ready(rs: ReservationStation) -> bool {
    rs.busy && rs.vj.is_some() && rs.vk.is_some()
}

/// Ready, with its countdown at zero and an operation held: it may write its result.
pub open spec fn station_done(rs: ReservationStation) -> bool {
    station_ready(rs) && rs.cycles_remaining == 0 && rs.op.is_some()
}

/// The station after `tag` was broadcast with `value`: each operand waiting on
/// `tag` captures `value`.
pub open spec fn snoop_station(rs: ReservationStation, tag: usize, value: u16) -> ReservationStation {
    let rs1 = if rs.qj == Some(tag) {
        ReservationStation { vj: Some(value), qj: None, ..rs }
    } else {
        rs
    };
    if rs1.qk == Some(tag) {
        ReservationStation { vk: Some(value), qk: None, ..rs1 }
    } else {
        rs1
    }
}

/// The station after one execute phase: a busy countdown above zero goes down by one.
pub open spec fn count_down(rs: ReservationStation) -> ReservationStation {
    if rs.busy && rs.cycles_remaining > 0 {
        ReservationStation { cycles_remaining: (rs.cycles_remaining - 1) as u32, ..rs }
    } else {
        rs
    }
}

/// The station after the result of `tag` was broadcast: a busy station that owns `tag` is freed.
pub open spec fn release_station(rs: ReservationStation, tag: usize) -> ReservationStation {
    if rs.busy && rs.tag == tag {
        free_station()
    } else {
        rs
    }
}

/// Index of the first free station, if any.
pub open spec fn is_first_free(s: Seq<ReservationStation>, r: Option<usize>) -> bool {
    match r {
        Some(i) => i < s.len() && !s[i as int].busy && forall|j: int| 0 <= j < i ==> s[j].busy,
        None => forall|j: int| 0 <= j < s.len() ==> s[j].busy,
    }
}

/// What a finished station hands to write-back: (tag, operation, Vj, Vk).
pub type ReadyOp = (usize, Instruction, u16, u16);

/// The finished stations of `s`, in scan order.
pub open spec fn ready_ops(s: Seq<ReservationStation>) -> Seq<ReadyOp>
    decreases s.len(),
{
    if s.len() == 0 {
        Seq::empty()
    } else {
        let rest = ready_ops(s.drop_last());
        let rs = s.last();
        if station_done(rs) {
            rest.push((rs.tag, rs.op.unwrap(), rs.vj.unwrap(), rs.vk.unwrap()))
        } else {
            rest
        }
    }
}

impl ReservationStation {
    pub fn new() -> (r: Self)
        ensures
            r == free_station(),
    {
        ReservationStation {
            busy: false,
            op: None,
            vj: None,
            vk: None,
            qj: None,
            qk: None,
            tag: 0,
            cycles_remaining: 0,
        }
    }

    pub fn is_ready(&self) -> (r: bool)
        ensures
            r == station_ready(*self),
    {
        self.busy && self.vj.is_some() && self.vk.is_some()
    }

    pub fn clear(&mut self)
        ensures
            *final(self) == free_station(),
    {
        self.busy = false;
        self.op = None;
        self.vj = None;
        self.vk = None;
        self.qj = None;
        self.qk = None;
        self.tag = 0;
        self.cycles_remaining = 0;
    }
}

fn free_stations(n: usize) -> (r: Vec<ReservationStation>)
    ensures
        r@.len() == n,
        forall|i: int| 0 <= i < n ==> r@[i] == free_station(),
{
    let mut v: Vec<ReservationStation> = Vec::new();
    let mut i: usize = 0;
    while i < n
        invariant
            i <= n,
            v@.len() == i,
            forall|j: int| 0 <= j < i ==> v@[j] == free_station(),
        decreases n - i,
    {
        v.push(ReservationStation::new());
        i = i + 1;
    }
    v
}

fn first_free(s: &Vec<ReservationStation>) -> (r: Option<usize>)
    ensures
        is_first_free(s@, r),
{
    let mut i: usize = 0;
    while i < s.len()
        invariant
            i <= s@.len(),
            forall|j: int| 0 <= j < i ==> s@[j].busy,
        decreases s@.len() - i,
    {
        if !s[i].busy {
            return Some(i);
        }
        i = i + 1;
    }
    None
}

fn collect_ready(s: &Vec<ReservationStation>, out: &mut Vec<ReadyOp>)
    ensures
        final(out)@ == old(out)@ + ready_ops(s@),
{
    let mut i: usize = 0;
    while i < s.len()
        invariant
            i <= s@.len(),
            out@ == old(out)@ + ready_ops(s@.take(i as int)),
        decreases s@.len() - i,
    {
        assert(s@.take(i + 1).drop_last() =~= s@.take(i as int));
        let rs = s[i];
        if rs.busy && rs.cycles_remaining == 0 {
            match (rs.op, rs.vj, rs.vk) {
                (Some(inst), Some(vj), Some(vk)) => {
                    out.push((rs.tag, inst, vj, vk));
                },
                _ => {},
            }
        }
        i = i + 1;
        assert(out@ =~= old(out)@ + ready_ops(s@.take(i as int)));
    }
    assert(s@.take(s@.len() as int) =~= s@);
}

fn snoop_stations(s: &mut Vec<ReservationStation>, tag: usize, value: u16)
    ensures
        final(s)@.len() == old(s)@.len(),
        forall|i: int|
            0 <= i < old(s)@.len() ==> final(s)@[i] == snoop_station(old(s)@[i], tag, value),
{
    let mut i: usize = 0;
    while i < s.len()
        invariant
            i <= s@.len(),
            s@.len() == old(s)@.len(),
            forall|j: int| 0 <= j < i ==> s@[j] == snoop_station(old(s)@[j], tag, value),
            forall|j: int| i <= j < s@.len() ==> s@[j] == old(s)@[j],
        decreases s@.len() - i,
    {
        let mut rs = s[i];
        if rs.qj == Some(tag) {
            rs.vj = Some(value);
            rs.qj = None;
        }
        if rs.qk == Some(tag) {
            rs.vk = Some(value);
            rs.qk = None;
        }
        s[i] = rs;
        i = i + 1;
    }
}

fn count_down_stations(s: &mut Vec<ReservationStation>)
    ensures
        final(s)@.len() == old(s)@.len(),
        forall|i: int| 0 <= i < old(s)@.len() ==> final(s)@[i] == count_down(old(s)@[i]),
{
    let mut i: usize = 0;
    while i < s.len()
        invariant
            i <= s@.len(),
            s@.len() == old(s)@.len(),
            forall|j: int| 0 <= j < i ==> s@[j] == count_down(old(s)@[j]),
            forall|j: int| i <= j < s@.len() ==> s@[j] == old(s)@[j],
        decreases s@.len() - i,
    {
        let mut rs = s[i];
        if rs.busy && rs.cycles_remaining > 0 {
            rs.cycles_remaining = rs.cycles_remaining - 1;
        }
        s[i] = rs;
        i = i + 1;
    }
}

fn release_stations(s: &mut Vec<ReservationStation>, tag: usize)
    ensures
        final(s)@.len() == old(s)@.len(),
        forall|i: int| 0 <= i < old(s)@.len() ==> final(s)@[i] == release_station(old(s)@[i], tag),
{
    let mut i: usize = 0;
    while i < s.len()
        invariant
            i <= s@.len(),
            s@.len() == old(s)@.len(),
            forall|j: int| 0 <= j < i ==> s@[j] == release_station(old(s)@[j], tag),
            forall|j: int| i <= j < s@.len() ==> s@[j] == old(s)@[j],
        decreases s@.len() - i,
    {
        if s[i].busy && s[i].tag == tag {
            s[i] = ReservationStation::new();
        }
        i = i + 1;
    }
}

/// The stations, partitioned by functional unit: ALU, load, store.
#[derive(Debug)]
pub struct ReservationStationPool {
    pub alu_stations: Vec<ReservationStation>,
    pub load_stations: Vec<ReservationStation>,
    pub store_stations: Vec<ReservationStation>,
}

impl ReservationStationPool {
    /// Every finished station, in scan order: ALU, then load, then store.
    pub open spec fn ready_spec(&self) -> Seq<ReadyOp> {
        ready_ops(self.alu_stations@) + ready_ops(self.load_stations@) + ready_ops(
            self.store_stations@,
        )
    }

    /// `self` is `old` after the owner of `tag` was freed and every operand
    /// waiting on `tag` captured `value`.
    pub open spec fn after_broadcast(&self, old: ReservationStationPool, tag: usize, value: u16) -> bool {
        &&& self.alu_stations@ == old.alu_stations@.map_values(
            |rs| snoop_station(release_station(rs, tag), tag, value),
        )
        &&& self.load_stations@ == old.load_stations@.map_values(
            |rs| snoop_station(release_station(rs, tag), tag, value),
        )
        &&& self.store_stations@ == old.store_stations@.map_values(
            |rs| snoop_station(release_station(rs, tag), tag, value),
        )
    }

    /// Four ALU stations, two load stations and two store stations, all free.
    pub fn new() -> (r: Self)
        ensures
            r.alu_stations@.len() == 4,
            r.load_stations@.len() == 2,
            r.store_stations@.len() == 2,
            forall|i: int| 0 <= i < 4 ==> r.alu_stations@[i] == free_station(),
            forall|i: int| 0 <= i < 2 ==> r.load_stations@[i] == free_station(),
            forall|i: int| 0 <= i < 2 ==> r.store_stations@[i] == free_station(),
    {
        ReservationStationPool {
            alu_stations: free_stations(4),
            load_stations: free_stations(2),
            store_stations: free_stations(2),
        }
    }

    /// The index of the first free ALU station.
    pub fn find_free_alu_station(&self) -> (r: Option<usize>)
        ensures
            is_first_free(self.alu_stations@, r),
    {
        first_free(&self.alu_stations)
    }

    /// The index of the first free load station.
    pub fn find_free_load_station(&self) -> (r: Option<usize>)
        ensures
            is_first_free(self.load_stations@, r),
    {
        first_free(&self.load_stations)
    }

    /// The index of the first free store station.
    pub fn find_free_store_station(&self) -> (r: Option<usize>)
        ensures
            is_first_free(self.store_stations@, r),
    {
        first_free(&self.store_stations)
    }

    /// Every finished station, in scan order: ALU, then load, then store.
    pub fn get_ready_instructions(&self) -> (r: Vec<ReadyOp>)
        ensures
            r@ == self.ready_spec(),
    {
        let mut ready: Vec<ReadyOp> = Vec::new();
        collect_ready(&self.alu_stations, &mut ready);
        collect_ready(&self.load_stations, &mut ready);
        collect_ready(&self.store_stations, &mut ready);
        assert(ready@ =~= ready_ops(self.alu_stations@) + ready_ops(self.load_stations@)
            + ready_ops(self.store_stations@));
        ready
    }

    /// Every operand waiting on `tag` captures `value`.
    pub fn update_from_cdb(&mut self, tag: usize, value: u16)
        ensures
            final(self).alu_stations@.len() == old(self).alu_stations@.len(),
            final(self).load_stations@.len() == old(self).load_stations@.len(),
            final(self).store_stations@.len() == old(self).store_stations@.len(),
            forall|i: int|
                0 <= i < old(self).alu_stations@.len() ==> final(self).alu_stations@[i]
                    == snoop_station(old(self).alu_stations@[i], tag, value),
            forall|i: int|
                0 <= i < old(self).load_stations@.len() ==> final(self).load_stations@[i]
                    == snoop_station(old(self).load_stations@[i], tag, value),
            forall|i: int|
                0 <= i < old(self).store_stations@.len() ==> final(self).store_stations@[i]
                    == snoop_station(old(self).store_stations@[i], tag, value),
    {
        snoop_stations(&mut self.alu_stations, tag, value);
        snoop_stations(&mut self.load_stations, tag, value);
        snoop_stations(&mut self.store_stations, tag, value);
    }

    /// One execute phase: every busy countdown above zero goes down by one.
    pub fn count_down(&mut self)
        ensures
            final(self).alu_stations@.len() == old(self).alu_stations@.len(),
            final(self).load_stations@.len() == old(self).load_stations@.len(),
            final(self).store_stations@.len() == old(self).store_stations@.len(),
            forall|i: int|
                0 <= i < old(self).alu_stations@.len() ==> final(self).alu_stations@[i]
                    == count_down(old(self).alu_stations@[i]),
            forall|i: int|
                0 <= i < old(self).load_stations@.len() ==> final(self).load_stations@[i]
                    == count_down(old(self).load_stations@[i]),
            forall|i: int|
                0 <= i < old(self).store_stations@.len() ==> final(self).store_stations@[i]
                    == count_down(old(self).store_stations@[i]),
    {
        count_down_stations(&mut self.alu_stations);
        count_down_stations(&mut self.load_stations);
        count_down_stations(&mut self.store_stations);
    }

    /// Frees every busy station that owns `tag`.
    pub fn clear_by_tag(&mut self, tag: usize)
        ensures
            final(self).alu_stations@.len() == old(self).alu_stations@.len(),
            final(self).load_stations@.len() == old(self).load_stations@.len(),
            final(self).store_stations@.len() == old(self).store_stations@.len(),
            forall|i: int|
                0 <= i < old(self).alu_stations@.len() ==> final(self).alu_stations@[i]
                    == release_station(old(self).alu_stations@[i], tag),
            forall|i: int|
                0 <= i < old(self).load_stations@.len() ==> final(self).load_stations@[i]
                    == release_station(old(self).load_stations@[i], tag),
            forall|i: int|
                0 <= i < old(self).store_stations@.len() ==> final(self).store_stations@[i]
                    == release_station(old(self).store_stations@[i], tag),
    {
        release_stations(&mut self.alu_stations, tag);
        release_stations(&mut self.load_stations, tag);
        release_stations(&mut self.store_stations, tag);
    }
}

/// An in-flight instruction, from issue to commit.
#[derive(Debug, Clone, Copy, PartialEq, Eq, Structural)]
pub struct ReorderBufferEntry {
    pub valid: bool,
    /// The result is available.
    pub ready: bool,
    pub instruction: Option<Instruction>,
    /// The architectural register written at commit; absent for stores.
    pub dest_reg: Option<u8>,
    pub result: Option<u16>,
    /// The carry out of the operation, for those that set the carry flag.
    pub carry: bool,
    /// Reserved: nothing sets it.
    pub exception: bool,
    pub pc: u16,
}

pub open spec fn empty_entry() -> ReorderBufferEntry {
    ReorderBufferEntry {
        valid: false,
        ready: false,
        instruction: None,
        dest_reg: None,
        result: None,
        carry: false,
        exception: false,
        pc: 0,
    }
}

/// A freshly allocated entry.
pub open spec fn issued_entry(instruction: Instruction, dest_reg: Option<u8>, pc: u16) -> ReorderBufferEntry {
    ReorderBufferEntry {
        valid: true,
        ready: false,
        instruction: Some(instruction),
        dest_reg,
        result: None,
        carry: false,
        exception: false,
        pc,
    }
}

/// The slot `k` places after `head` in a ring of `size` slots (`k < size`).
pub open spec fn slot_at(head: usize, size: usize, k: int) -> int {
    if head + k < size {
        head + k
    } else {
        head + k - size
    }
}

/// How many places slot `i` lies after `head` in a ring of `size` slots.
pub open spec fn slot_offset(head: usize, size: usize, i: int) -> int {
    if i >= head {
        i - head
    } else {
        i - head + size
    }
}

impl ReorderBufferEntry {
    pub fn new() -> (r: Self)
        ensures
            r == empty_entry(),
    {
        ReorderBufferEntry {
            valid: false,
            ready: false,
            instruction: None,
            dest_reg: None,
            result: None,
            carry: false,
            exception: false,
            pc: 0,
        }
    }

    pub fn clear(&mut self)
        ensures
            *final(self) == empty_entry(),
    {
        self.valid = false;
        self.ready = false;
        self.instruction = None;
        self.dest_reg = None;
        self.result = None;
        self.carry = false;
        self.exception = false;
        self.pc = 0;
    }
}

/// A circular FIFO of in-flight instructions: allocation at `tail`, commit at `head`.
#[derive(Debug)]
pub struct ReorderBuffer {
    pub entries: Vec<ReorderBufferEntry>,
    pub head: usize,
    pub tail: usize,
    pub size: usize,
    pub count: usize,
}

impl ReorderBuffer {
    /// The slots from `head` onwards, `count` of them, are exactly the valid ones,
    /// and `tail` is the slot after the last of them.
    pub open spec fn wf(&self) -> bool {
        &&& self.entries@.len() == self.size
        &&& self.count <= self.size
        &&& self.size == 0 ==> self.head == 0 && self.tail == 0
        &&& self.size > 0 ==> self.head < self.size && self.tail < self.size && self.tail
            == slot_at(self.head, self.size, self.count as int)
        &&& forall|i: int|
            0 <= i < self.size ==> (#[trigger] self.entries@[i]).valid == (slot_offset(
                self.head,
                self.size,
                i,
            ) < self.count)
    }

    /// The in-flight entries, oldest first.
    pub open spec fn view(&self) -> Seq<ReorderBufferEntry> {
        Seq::new(self.count as nat, |k: int| self.entries@[slot_at(self.head, self.size, k)])
    }

    /// Whether slot `tag` holds an in-flight entry.
    pub open spec fn live(&self, tag: int) -> bool {
        0 <= tag < self.size && self.entries@[tag].valid
    }

    /// An empty buffer of `size` slots.
    pub fn new(size: usize) -> (r: Self)
        ensures
            r.wf(),
            r.size == size,
            r.count == 0,
            r.head == 0,
            r.tail == 0,
            forall|i: int| 0 <= i < size ==> r.entries@[i] == empty_entry(),
    {
        let mut entries: Vec<ReorderBufferEntry> = Vec::new();
        let mut i: usize = 0;
        while i < size
            invariant
                i <= size,
                entries@.len() == i,
                forall|j: int| 0 <= j < i ==> entries@[j] == empty_entry(),
            decreases size - i,
        {
            entries.push(ReorderBufferEntry::new());
            i = i + 1;
        }
        ReorderBuffer { entries, head: 0, tail: 0, size, count: 0 }
    }

    pub fn is_full(&self) -> (r: bool)
        ensures
            r == (self.count == self.size),
    {
        self.count == self.size
    }

    pub fn is_empty(&self) -> (r: bool)
        ensures
            r == (self.count == 0),
    {
        self.count == 0
    }

    /// Appends an entry at the tail and returns its tag, or `None` when full.
    pub fn allocate(&mut self, instruction: Instruction, dest_reg: Option<u8>, pc: u16) -> (r: Option<
        usize,
    >)
        requires
            old(self).wf(),
        ensures
            final(self).wf(),
            final(self).size == old(self).size,
            old(self).count == old(self).size ==> r.is_none() && *final(self) == *old(self),
            old(self).count < old(self).size ==> {
                &&& r == Some(old(self).tail)
                &&& final(self).entries@ == old(self).entries@.update(
                    old(self).tail as int,
                    issued_entry(instruction, dest_reg, pc),
                )
                &&& final(self).head == old(self).head
                &&& final(self).count == old(self).count + 1
                &&& final(self)@ == old(self)@.push(issued_entry(instruction, dest_reg, pc))
            },
    {
        if self.is_full() {
            return None;
        }
        let tag = self.tail;
        self.entries[tag] = ReorderBufferEntry {
            valid: true,
            ready: false,
            instruction: Some(instruction),
            dest_reg,
            result: None,
            carry: false,
            exception: false,
            pc,
        };
        self.tail = if self.tail + 1 == self.size {
            0
        } else {
            self.tail + 1
        };
        self.count = self.count + 1;
        assert(self@ =~= old(self)@.push(issued_entry(instruction, dest_reg, pc)));
        Some(tag)
    }

    /// Marks the in-flight entry `tag` ready with `result`; does nothing for
    /// a slot that holds no in-flight entry.
    pub fn complete(&mut self, tag: usize, result: Option<u16>)
        requires
            old(self).wf(),
        ensures
            final(self).wf(),
            final(self).size == old(self).size,
            final(self).head == old(self).head,
            final(self).tail == old(self).tail,
            final(self).count == old(self).count,
            final(self).entries@ == (if old(self).live(tag as int) {
                old(self).entries@.update(
                    tag as int,
                    ReorderBufferEntry { ready: true, result, ..old(self).entries@[tag as int] },
                )
            } else {
                old(self).entries@
            }),
    {
        if tag < self.entries.len() && self.entries[tag].valid {
            let mut e = self.entries[tag];
            e.ready = true;
            e.result = result;
            self.entries[tag] = e;
        }
    }

    /// Records the carry out of the in-flight entry `tag`.
    pub fn record_carry(&mut self, tag: usize, carry: bool)
        requires
            old(self).wf(),
        ensures
            final(self).wf(),
            final(self).size == old(self).size,
            final(self).head == old(self).head,
            final(self).tail == old(self).tail,
            final(self).count == old(self).count,
            final(self).entries@ == (if old(self).live(tag as int) {
                old(self).entries@.update(
                    tag as int,
                    ReorderBufferEntry { carry, ..old(self).entries@[tag as int] },
                )
            } else {
                old(self).entries@
            }),
    {
        if tag < self.entries.len() && self.entries[tag].valid {
            let mut e = self.entries[tag];
            e.carry = carry;
            self.entries[tag] = e;
        }
    }

    /// The head entry is in flight and ready.
    pub open spec fn can_commit_spec(&self) -> bool {
        self.count > 0 && self.entries@[self.head as int].ready
    }

    /// The head entry is in flight and ready.
    pub fn can_commit(&self) -> (r: bool)
        requires
            self.wf(),
        ensures
            r == (self.count > 0 && self.entries@[self.head as int].ready),
            r ==> self@[0] == self.entries@[self.head as int],
    {
        !self.is_empty() && self.entries[self.head].valid && self.entries[self.head].ready
    }

    /// Pops the head entry if it is ready.
    pub fn commit(&mut self) -> (r: Option<ReorderBufferEntry>)
        requires
            old(self).wf(),
        ensures
            final(self).wf(),
            final(self).size == old(self).size,
            !(old(self).count > 0 && old(self).entries@[old(self).head as int].ready) ==> r.is_none()
                && *final(self) == *old(self),
            old(self).count > 0 && old(self).entries@[old(self).head as int].ready ==> {
                &&& r == Some(old(self)@[0])
                &&& r == Some(old(self).entries@[old(self).head as int])
                &&& final(self).entries@ == old(self).entries@.update(
                    old(self).head as int,
                    empty_entry(),
                )
                &&& final(self).tail == old(self).tail
                &&& final(self).head == slot_at(old(self).head, old(self).size, 1)
                &&& final(self).count == old(self).count - 1
                &&& final(self)@ == old(self)@.drop_first()
            },
    {
        if !self.can_commit() {
            return None;
        }
        let head = self.head;
        let entry = self.entries[head];
        self.entries[head] = ReorderBufferEntry::new();
        self.head = if self.head + 1 == self.size {
            0
        } else {
            self.head + 1
        };
        self.count = self.count - 1;
        assert(self@ =~= old(self)@.drop_first());
        Some(entry)
    }

    /// The result of `tag` came off the bus.
    pub fn update_from_cdb(&mut self, tag: usize, value: u16)
        requires
            old(self).wf(),
        ensures
            final(self).wf(),
            final(self).size == old(self).size,
            final(self).head == old(self).head,
            final(self).tail == old(self).tail,
            final(self).count == old(self).count,
            final(self).entries@ == (if old(self).live(tag as int) {
                old(self).entries@.update(
                    tag as int,
                    ReorderBufferEntry {
                        ready: true,
                        result: Some(value),
                        ..old(self).entries@[tag as int]
                    },
                )
            } else {
                old(self).entries@
            }),
    {
        self.complete(tag, Some(value))
    }

    /// Some in-flight entry is a store.
    pub open spec fn store_in_flight(&self) -> bool {
        exists|i: int|
            0 <= i < self.size && #[trigger] self.entries@[i].valid && is_store(
                self.entries@[i].instruction,
            )
    }

    /// Some in-flight entry is a store.
    pub fn has_store_in_flight(&self) -> (r: bool)
        requires
            self.wf(),
        ensures
            r == self.store_in_flight(),
    {
        let mut i: usize = 0;
        while i < self.entries.len()
            invariant
                self.wf(),
                i <= self.size,
                forall|j: int|
                    0 <= j < i ==> !(#[trigger] self.entries@[j].valid && is_store(
                        self.entries@[j].instruction,
                    )),
            decreases self.size - i,
        {
            let e = self.entries[i];
            if e.valid {
                if let Some(Instruction::Store { .. }) = e.instruction {
                    return true;
                }
            }
            i = i + 1;
        }
        false
    }
}

pub open spec fn is_store(inst: Option<Instruction>) -> bool {
    match inst {
        Some(Instruction::Store { .. }) => true,
        _ => false,
    }
}

/// The producer of an architectural register. With no producer the value in
/// the register file is current; otherwise the named reorder-buffer slot will write it.
#[derive(Debug, Clone, Copy, PartialEq, Eq, Structural)]
pub struct RenameEntry {
    pub producer_tag: Option<usize>,
    pub ready: bool,
}

pub open spec fn architectural_entry() -> RenameEntry {
    RenameEntry { producer_tag: None, ready: true }
}

/// The entry after `tag` was broadcast: a register that waited on it is ready.
pub open spec fn snoop_rename(e: RenameEntry, tag: usize) -> RenameEntry {
    if e.producer_tag == Some(tag) {
        architectural_entry()
    } else {
        e
    }
}

impl RenameEntry {
    pub fn new() -> (r: Self)
        ensures
            r == architectural_entry(),
    {
        RenameEntry { producer_tag: None, ready: true }
    }
}

/// One rename entry per architectural register.
#[derive(Debug)]
pub struct RegisterRenameTable {
    pub entries: Vec<RenameEntry>,
}

impl RegisterRenameTable {
    pub open spec fn view(&self) -> Seq<RenameEntry> {
        self.entries@
    }

    pub fn new(num_registers: usize) -> (r: Self)
        ensures
            r.entries@.len() == num_registers,
            forall|i: int| 0 <= i < num_registers ==> r.entries@[i] == architectural_entry(),
    {
        let mut entries: Vec<RenameEntry> = Vec::new();
        let mut i: usize = 0;
        while i < num_registers
            invariant
                i <= num_registers,
                entries@.len() == i,
                forall|j: int| 0 <= j < i ==> entries@[j] == architectural_entry(),
            decreases num_registers - i,
        {
            entries.push(RenameEntry::new());
            i = i + 1;
        }
        RegisterRenameTable { entries }
    }

    /// `reg` is now produced by `producer_tag`.
    pub fn rename_register(&mut self, reg: u8, producer_tag: usize)
        ensures
            final(self).entries@ == (if reg < old(self).entries@.len() {
                old(self).entries@.update(
                    reg as int,
                    RenameEntry { producer_tag: Some(producer_tag), ready: false },
                )
            } else {
                old(self).entries@
            }),
    {
        if (reg as usize) < self.entries.len() {
            self.entries[reg as usize] = RenameEntry { producer_tag: Some(producer_tag), ready: false };
        }
    }

    /// (ready, producer) of `reg`; a register beyond the table is ready.
    pub fn get_register_info(&self, reg: u8) -> (r: (bool, Option<usize>))
        ensures
            reg < self.entries@.len() ==> r == (
                self.entries@[reg as int].ready,
                self.entries@[reg as int].producer_tag,
            ),
            reg >= self.entries@.len() ==> r == (true, None::<usize>),
    {
        if (reg as usize) < self.entries.len() {
            let e = self.entries[reg as usize];
            (e.ready, e.producer_tag)
        } else {
            (true, None)
        }
    }

    /// Every register produced by `tag` becomes ready, with no producer.
    pub fn update_from_cdb(&mut self, tag: usize)
        ensures
            final(self).entries@.len() == old(self).entries@.len(),
            forall|i: int|
                0 <= i < old(self).entries@.len() ==> final(self).entries@[i] == snoop_rename(
                    old(self).entries@[i],
                    tag,
                ),
    {
        let mut i: usize = 0;
        while i < self.entries.len()
            invariant
                i <= self.entries@.len(),
                self.entries@.len() == old(self).entries@.len(),
                forall|j: int| 0 <= j < i ==> self.entries@[j] == snoop_rename(old(self).entries@[j], tag),
                forall|j: int| i <= j < self.entries@.len() ==> self.entries@[j] == old(self).entries@[j],
            decreases self.entries@.len() - i,
        {
            if self.entries[i].producer_tag == Some(tag) {
                self.entries[i] = RenameEntry::new();
            }
            i = i + 1;
        }
    }

    /// Reverts `reg` to its architectural value if `tag` is still its producer;
    /// a later producer of `reg` is left alone.
    pub fn release(&mut self, reg: u8, tag: usize)
        ensures
            final(self).entries@ == (if reg < old(self).entries@.len()
                && old(self).entries@[reg as int].producer_tag == Some(tag) {
                old(self).entries@.update(reg as int, architectural_entry())
            } else {
                old(self).entries@
            }),
    {
        if (reg as usize) < self.entries.len() && self.entries[reg as usize].producer_tag == Some(tag) {
            self.entries[reg as usize] = RenameEntry::new();
        }
    }
}

/// The one-slot broadcast of (tag, value) for the current cycle.
#[derive(Debug, Clone, Copy, PartialEq, Eq, Structural)]
pub struct CommonDataBus {
    pub valid: bool,
    pub tag: usize,
    pub value: u16,
}

impl CommonDataBus {
    pub fn new() -> (r: Self)
        ensures
            r == (CommonDataBus { valid: false, tag: 0, value: 0 }),
    {
        CommonDataBus { valid: false, tag: 0, value: 0 }
    }

    pub fn broadcast(&mut self, tag: usize, value: u16)
        ensures
            *final(self) == (CommonDataBus { valid: true, tag, value }),
    {
        self.valid = true;
        self.tag = tag;
        self.value = value;
    }

    pub fn clear(&mut self)
        ensures
            *final(self) == (CommonDataBus { valid: false, tag: 0, value: 0 }),
    {
        self.valid = false;
        self.tag = 0;
        self.value = 0;
    }
}

/// Occupancy of the reorder buffer. The slots `head`, `head + 1`, ... (wrapping),
/// `count` of them, are pairwise distinct and are exactly the valid slots; and
/// when the buffer is not full, `count` is `(tail - head) mod size`.
pub proof fn lemma_rob_occupancy(rob: ReorderBuffer)
    requires
        rob.wf(),
    ensures
        forall|k1: int, k2: int|
            0 <= k1 < k2 < rob.count ==> slot_at(rob.head, rob.size, k1) != slot_at(
                rob.head,
                rob.size,
                k2,
            ),
        forall|i: int|
            0 <= i < rob.size ==> (rob.entries@[i].valid <==> exists|k: int|
                0 <= k < rob.count && slot_at(rob.head, rob.size, k) == i),
        rob.count < rob.size ==> rob.count as int == (rob.tail as int - rob.head as int) % (
        rob.size as int),
{
    assert forall|i: int| 0 <= i < rob.size implies (rob.entries@[i].valid <==> exists|k: int|
        0 <= k < rob.count && slot_at(rob.head, rob.size, k) == i) by {
        if rob.entries@[i].valid {
            let k = slot_offset(rob.head, rob.size, i);
            assert(slot_at(rob.head, rob.size, k) == i);
        }
    }
    if rob.count < rob.size {
        if rob.head + rob.count < rob.size {
            lemma_small_mod(rob.count as nat, rob.size as nat);
        } else {
            lemma_small_mod(rob.count as nat, rob.size as nat);
            lemma_mod_sub_multiples_vanish(rob.count as int, rob.size as int);
        }
    }
}

} // verus!
