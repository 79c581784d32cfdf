//! A virtual machine for a 15-bit-word instruction set: 22 opcodes, 8
//! registers, a 32768-word address space, together with the binary encoding it
//! executes, an assembler and disassembler sharing the same instruction table,
//! and a snapshot format for the complete machine state.

pub mod assembler;
pub mod compiler;
pub mod constants;
pub mod error;
pub mod roundtrip;
pub mod text;
pub mod types;
pub mod vm;
