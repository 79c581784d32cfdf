//! A bounds-checked address space with a cursor: 32768 zero-initialized
//! cells and a program counter used both for sequential reads and for error
//! reports.

use vstd::prelude::*;
use crate::constants::MEM_ADDR_SPACE;
use crate::error::Error;

verus! {

/// A fixed-size address space together with the position being read.
pub struct Memory {
    mem: Vec<u16>,
    pc: usize,
}

impl Memory {
    /// Well-formedness: the full address space is allocated.
    pub closed spec fn wf(self) -> bool {
        self.mem@.len() == MEM_ADDR_SPACE
    }

    /// The cell contents.
    pub closed spec fn spec_mem(&self) -> Seq<u16> {
        self.mem@
    }

    /// The read position.
    pub closed spec fn spec_pc(&self) -> int {
        self.pc as int
    }

    /// A zeroed address space with the cursor at the start.
    pub fn new() -> (r: Memory)
        ensures
            r.wf(),
            r.spec_mem() =~= Seq::new(MEM_ADDR_SPACE as nat, |i: int| 0u16),
            r.spec_pc() == 0,
    {
        let mut mem: Vec<u16> = Vec::new();
        let mut i: usize = 0;
        while i < MEM_ADDR_SPACE
            invariant
                i <= MEM_ADDR_SPACE,
                mem@.len() == i,
                forall|j: int| 0 <= j < i ==> mem@[j] == 0u16,
            decreases MEM_ADDR_SPACE - i,
        {
            mem.push(0);
            i = i + 1;
        }
        let r = Memory { mem, pc: 0 };
        proof {
            assert(r.spec_mem() =~= Seq::new(MEM_ADDR_SPACE as nat, |i: int| 0u16));
        }
        r
    }

    /// Advances the cursor by one cell.
    pub fn next(&mut self)
        requires
            old(self).wf(),
            old(self).spec_pc() < usize::MAX,
        ensures
            final(self).wf(),
            final(self).spec_mem() == old(self).spec_mem(),
            final(self).spec_pc() == old(self).spec_pc() + 1,
    {
        self.pc = self.pc + 1;
    }

    /// Reads the cell under the cursor; a cursor beyond the address space is
    /// an out-of-bounds access.
    pub fn read(&self) -> (r: Result<u16, Error>)
        requires
            self.wf(),
        ensures
            self.spec_pc() < MEM_ADDR_SPACE ==> r == Ok::<u16, Error>(
                self.spec_mem()[self.spec_pc()],
            ),
            self.spec_pc() >= MEM_ADDR_SPACE ==> r == Err::<u16, Error>(
                Error::MemOutOfBoundsAccess { pc: self.spec_pc() as usize },
            ),
    {
        if self.pc >= MEM_ADDR_SPACE {
            return Err(Error::MemOutOfBoundsAccess { pc: self.pc });
        }
        Ok(self.mem[self.pc])
    }

    /// Reads the cell under the cursor as one character.
    pub fn read_char(&self) -> (r: Result<char, Error>)
        requires
            self.wf(),
        ensures
            self.spec_pc() < MEM_ADDR_SPACE ==> r == Ok::<char, Error>(
                ((self.spec_mem()[self.spec_pc()] % 256) as u8) as char,
            ),
            self.spec_pc() >= MEM_ADDR_SPACE ==> r == Err::<char, Error>(
                Error::MemOutOfBoundsAccess { pc: self.spec_pc() as usize },
            ),
    {
        match self.read() {
            Ok(w) => Ok(((w % 256) as u8) as char),
            Err(e) => Err(e),
        }
    }

    /// Writes a cell; an address beyond the address space is an
    /// out-of-bounds access, reported with the current cursor.
    pub fn write(&mut self, addr: usize, val: u16) -> (r: Result<(), Error>)
        requires
            old(self).wf(),
        ensures
            final(self).wf(),
            final(self).spec_pc() == old(self).spec_pc(),
            addr < MEM_ADDR_SPACE ==> r is Ok && final(self).spec_mem() == old(
                self,
            ).spec_mem().update(addr as int, val),
            addr >= MEM_ADDR_SPACE ==> r == Err::<(), Error>(
                Error::MemOutOfBoundsAccess { pc: old(self).spec_pc() as usize },
            ) && final(self).spec_mem() == old(self).spec_mem(),
    {
        if addr >= MEM_ADDR_SPACE {
            return Err(Error::MemOutOfBoundsAccess { pc: self.pc });
        }
        self.mem.set(addr, val);
        Ok(())
    }
}

} // verus!
