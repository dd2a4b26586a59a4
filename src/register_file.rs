//! The 256-entry file of 16-bit general registers.
use vstd::prelude::*;

verus! {

/// The general registers; `regs` holds 256 of them.
#[derive(Debug)]
pub struct RegisterFile {
    pub regs: Vec<u16>,
}

/// The value that a 10-bit register index reads: indices above 255 read as 0.
pub open spec fn read_10bit_spec(regs: Seq<u16>, idx: u16) -> u16 {
    if idx < 256 {
        regs[idx as int]
    } else {
        0
    }
}

/// The registers after a write through a 10-bit index: indices above 255 are discarded.
pub open spec fn write_10bit_spec(regs: Seq<u16>, idx: u16, value: u16) -> Seq<u16> {
    if idx < 256 {
        regs.update(idx as int, value)
    } else {
        regs
    }
}

impl RegisterFile {
    pub open spec fn wf(&self) -> bool {
        self.regs@.len() == 256
    }

    pub open spec fn view(&self) -> Seq<u16> {
        self.regs@
    }

    /// All registers zero.
    pub fn new() -> (r: Self)
        ensures
            r.wf(),
            forall|i: int| 0 <= i < 256 ==> r.regs@[i] == 0,
    {
        let mut regs: Vec<u16> = Vec::new();
        let mut i: usize = 0;
        while i < 256
            invariant
                i <= 256,
                regs@.len() == i,
                forall|j: int| 0 <= j < i ==> regs@[j] == 0,
            decreases 256 - i,
        {
            regs.push(0);
            i = i + 1;
        }
        RegisterFile { regs }
    }

    pub fn read(&self, idx: u8) -> (r: u16)
        requires
            self.wf(),
        ensures
            r == self.regs@[idx as int],
    {
        self.regs[idx as usize]
    }

    pub fn read_10bit(&self, idx: u16) -> (r: u16)
        requires
            self.wf(),
        ensures
            r == read_10bit_spec(self.regs@, idx),
    {
        if idx < 256 {
            self.regs[idx as usize]
        } else {
            0
        }
    }

    pub fn write(&mut self, idx: u8, value: u16)
        requires
            old(self).wf(),
        ensures
            final(self).wf(),
            final(self).regs@ == old(self).regs@.update(idx as int, value),
    {
        self.regs[idx as usize] = value;
    }

    pub fn write_10bit(&mut self, idx: u16, value: u16)
        requires
            old(self).wf(),
        ensures
            final(self).wf(),
            final(self).regs@ == write_10bit_spec(old(self).regs@, idx, value),
    {
        if idx < 256 {
            self.regs[idx as usize] = value;
        }
    }
}

} // verus!
