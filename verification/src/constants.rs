//! Shared numeric constants of the instruction set architecture.

use vstd::prelude::*;

verus! {

/// All arithmetic results are reduced modulo this value; it is also the first
/// address outside the real memory range.
pub const FIFTEEN_BIT_MODULO: u16 = 0x8000;

/// The largest value a 15-bit word can hold.
pub const FIFTEEN_BIT_MAX: u16 = 0x7fff;

/// Number of cells in the address space.
pub const MEM_ADDR_SPACE: usize = 0x8000;

/// Number of registers in the register file.
pub const REG_COUNT: usize = 8;

} // verus!
