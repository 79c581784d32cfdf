//! A bounds-checked register file of eight words, addressed through the
//! register alias range.

use vstd::prelude::*;
use crate::constants::{MEM_ADDR_SPACE, REG_COUNT};
use crate::error::Error;

verus! {

/// The eight registers, zero-initialized.
pub struct Registers(Vec<u16>);

impl Registers {
    /// Well-formedness: exactly eight registers exist.
    pub closed spec fn wf(self) -> bool {
        self.0@.len() == REG_COUNT
    }

    /// The register contents.
    pub closed spec fn spec_regs(&self) -> Seq<u16> {
        self.0@
    }

    /// A zeroed register file.
    pub fn new() -> (r: Registers)
        ensures
            r.wf(),
            r.spec_regs() =~= Seq::new(REG_COUNT as nat, |i: int| 0u16),
    {
        let mut regs: Vec<u16> = Vec::new();
        let mut i: usize = 0;
        while i < REG_COUNT
            invariant
                i <= REG_COUNT,
                regs@.len() == i,
                forall|j: int| 0 <= j < i ==> regs@[j] == 0u16,
            decreases REG_COUNT - i,
        {
            regs.push(0);
            i = i + 1;
        }
        let r = Registers(regs);
        proof {
            assert(r.spec_regs() =~= Seq::new(REG_COUNT as nat, |i: int| 0u16));
        }
        r
    }

    /// Writes a register through its alias address.  The raw address must
    /// lie at or above the alias base before the base is subtracted, so that
    /// no low address silently aliases a register; an address outside the
    /// alias range is an invalid register.  A standalone register file has
    /// no program counter: the reported position is zero.
    pub fn write(&mut self, register: u16, val: u16) -> (r: Result<(), Error>)
        requires
            old(self).wf(),
        ensures
            final(self).wf(),
            0x8000 <= register <= 0x8007 ==> r is Ok && final(self).spec_regs() == old(
                self,
            ).spec_regs().update(register - 0x8000, val),
            !(0x8000 <= register <= 0x8007) ==> r == Err::<(), Error>(
                Error::InvalidRegister { pc: 0, register },
            ) && final(self).spec_regs() == old(self).spec_regs(),
    {
        if register < (MEM_ADDR_SPACE as u16) {
            return Err(Error::InvalidRegister { pc: 0, register });
        }
        let reg_idx = (register as usize) - MEM_ADDR_SPACE;
        if reg_idx > 7 {
            return Err(Error::InvalidRegister { pc: 0, register });
        }
        self.0.set(reg_idx, val);
        Ok(())
    }
}

} // verus!
