//! The 64 KiB little-endian byte-addressed memory.
use vstd::prelude::*;

verus! {

/// The number of bytes of memory.
pub const MEMORY_SIZE: usize = 65536;

/// The memory bytes; `data` holds 65536 of them.
#[derive(Debug)]
pub struct Memory {
    pub data: Vec<u8>,
}

/// The 16-bit value at `addr`: low byte at `addr`, high byte at `addr + 1`, mod 2^16.
pub open spec fn load_u16_spec(data: Seq<u8>, addr: u16) -> u16 {
    (data[addr as int] as int + 256 * data[(addr as int + 1) % 0x10000] as int) as u16
}

/// The bytes after storing `value` at `addr`, little-endian, the second byte at
/// `addr + 1` mod 2^16.
pub open spec fn store_u16_spec(data: Seq<u8>, addr: u16, value: u16) -> Seq<u8> {
    data.update(addr as int, (value % 256) as u8).update(
        (addr as int + 1) % 0x10000,
        (value / 256) as u8,
    )
}

/// The 32-bit word at `addr`, little-endian; 0 where the word runs past the end.
pub open spec fn fetch_spec(data: Seq<u8>, addr: u16) -> u32 {
    if addr as int + 3 < 0x10000 {
        (data[addr as int] as int + 0x100 * data[addr as int + 1] as int + 0x10000
            * data[addr as int + 2] as int + 0x1000000 * data[addr as int + 3] as int) as u32
    } else {
        0
    }
}

/// The bytes after copying `program` to `start`, clipped at the end of memory.
pub open spec fn load_program_spec(data: Seq<u8>, program: Seq<u8>, start: u16) -> Seq<u8> {
    Seq::new(
        data.len(),
        |i: int|
            if start <= i < start + program.len() {
                program[i - start]
            } else {
                data[i]
            },
    )
}

impl Memory {
    pub open spec fn wf(&self) -> bool {
        self.data@.len() == 0x10000
    }

    pub open spec fn view(&self) -> Seq<u8> {
        self.data@
    }

    /// All bytes zero.
    pub fn new() -> (r: Self)
        ensures
            r.wf(),
            forall|i: int| 0 <= i < 0x10000 ==> r.data@[i] == 0,
    {
        let mut data: Vec<u8> = Vec::new();
        let mut i: usize = 0;
        while i < MEMORY_SIZE
            invariant
                i <= MEMORY_SIZE,
                data@.len() == i,
                forall|j: int| 0 <= j < i ==> data@[j] == 0,
            decreases MEMORY_SIZE - i,
        {
            data.push(0);
            i = i + 1;
        }
        Memory { data }
    }

    /// Every 16-bit address lies inside memory, so a read never fails.
    pub fn read(&self, addr: u16) -> (r: u8)
        requires
            self.wf(),
        ensures
            r == self.data@[addr as int],
    {
        self.data[addr as usize]
    }

    pub fn write(&mut self, addr: u16, value: u8)
        requires
            old(self).wf(),
        ensures
            final(self).wf(),
            final(self).data@ == old(self).data@.update(addr as int, value),
    {
        self.data[addr as usize] = value;
    }

    pub fn load_u16(&self, addr: u16) -> (r: u16)
        requires
            self.wf(),
        ensures
            r == load_u16_spec(self.data@, addr),
    {
        let low = self.read(addr);
        let high = self.read(addr.wrapping_add(1));
        (high as u16) * 256 + (low as u16)
    }

    pub fn store_u16(&mut self, addr: u16, value: u16)
        requires
            old(self).wf(),
        ensures
            final(self).wf(),
            final(self).data@ == store_u16_spec(old(self).data@, addr, value),
    {
        self.write(addr, (value % 256) as u8);
        self.write(addr.wrapping_add(1), (value / 256) as u8);
    }

    pub fn fetch(&self, addr: u16) -> (r: u32)
        requires
            self.wf(),
        ensures
            r == fetch_spec(self.data@, addr),
    {
        let idx = addr as usize;
        if idx + 3 < MEMORY_SIZE {
            (self.data[idx] as u32) + (self.data[idx + 1] as u32) * 0x100 + (self.data[idx + 2]
                as u32) * 0x10000 + (self.data[idx + 3] as u32) * 0x1000000
        } else {
            0
        }
    }

    /// Copies `program` into memory from `start_addr`, dropping what runs past the end.
    pub fn load_program(&mut self, program: &[u8], start_addr: u16)
        requires
            old(self).wf(),
        ensures
            final(self).wf(),
            final(self).data@ == load_program_spec(old(self).data@, program@, start_addr),
    {
        let start = start_addr as usize;
        let mut i: usize = 0;
        while i < program.len() && start + i < MEMORY_SIZE
            invariant
                self.wf(),
                start == start_addr,
                i <= program@.len(),
                start + i <= MEMORY_SIZE,
                forall|j: int|
                    0 <= j < 0x10000 ==> self.data@[j] == (if start <= j < start + i {
                        program@[j - start]
                    } else {
                        old(self).data@[j]
                    }),
            decreases program@.len() - i,
        {
            self.data[start + i] = program[i];
            i = i + 1;
        }
        assert(self.data@ =~= load_program_spec(old(self).data@, program@, start_addr));
    }

    pub fn size(&self) -> (r: usize)
        requires
            self.wf(),
        ensures
            r == 0x10000,
    {
        self.data.len()
    }
}

} // verus!
