//! The error taxonomy of the virtual machine.
//!
//! Load-time errors (`BadBytecodeFormat`, `BadBytecodeLength`) prevent any
//! execution from starting.  Execution-time errors carry enough context (the
//! program counter and, where relevant, the offending raw word) to reproduce
//! the failure.  Serialization and I/O failures happen outside the verified
//! core; their variants carry the program counter at which they were noticed.

use vstd::prelude::*;
use crate::text::{chars_to_string, push_dec_u64, push_hex4, push_str_chars, spec_dec_u64, spec_hex4};

verus! {

/// Standard error type for the virtual machine.
#[derive(Clone, Copy, Debug, PartialEq, Eq, Structural)]
pub enum Error {
    /// The bytecode byte stream has odd length.
    BadBytecodeFormat,
    /// The bytecode holds more words than the address space (carries the byte
    /// length).
    BadBytecodeLength(usize),
    /// A word outside the valid opcode range was executed, or an instruction
    /// was given an operand it cannot act on.
    InvalidOperation { pc: usize, operation: u16 },
    /// An address outside the register alias range was used as a register.
    InvalidRegister { pc: usize, register: u16 },
    /// A memory access beyond the address space.
    MemOutOfBoundsAccess { pc: usize },
    /// `POP` was executed while the call stack was empty.
    PopFromEmptyStack { pc: usize },
    /// The input source failed while the machine blocked on `IN`.
    ReadInputErr { pc: usize },
    /// A state file could not be decoded into a machine state.
    DeserializeErr { pc: usize },
    /// A machine state could not be encoded into a state file.
    SerializeErr { pc: usize },
    /// A file system failure while saving or loading.
    IoErr { pc: usize },
    /// A token could not be parsed as a number.
    ParseIntErr,
}

/// A position rendered as four hex digits behind the `0x` prefix; positions
/// beyond the sixteen-bit range are shown truncated.
pub open spec fn spec_pos(pc: usize) -> Seq<char> {
    "0x"@ + spec_hex4((pc % 0x10000) as u16)
}

/// The operator-readable description of an error.
pub open spec fn spec_error_message(e: Error) -> Seq<char> {
    match e {
        Error::BadBytecodeFormat => "Invalid bytecode format."@,
        Error::BadBytecodeLength(x) => "Bytecode of length "@ + spec_dec_u64(x as u64)
            + " exceeds memory address space of 32768."@,
        Error::InvalidOperation { pc, operation } => "Invalid operation 0x"@ + spec_hex4(operation)
            + " at "@ + spec_pos(pc) + "."@,
        Error::InvalidRegister { pc, register } => "Invalid register address 0x"@ + spec_hex4(
            register,
        ) + " at "@ + spec_pos(pc) + "."@,
        Error::MemOutOfBoundsAccess { pc } => "Attempted to access out of bounds memory address at "@
            + spec_pos(pc) + "."@,
        Error::PopFromEmptyStack { pc } => "Attempted to pop value out of empty stack at "@
            + spec_pos(pc) + "."@,
        Error::ReadInputErr { pc } => "Could not read user input from stdin at "@ + spec_pos(pc)
            + "."@,
        Error::DeserializeErr { pc } => "Could not deserialize VM state at "@ + spec_pos(pc)
            + "."@,
        Error::SerializeErr { pc } => "Could not serialize VM state at "@ + spec_pos(pc) + "."@,
        Error::IoErr { pc } => "IO error at "@ + spec_pos(pc) + "."@,
        Error::ParseIntErr => "ParseInt error."@,
    }
}

impl Error {
    /// The operator-readable description of this error, with enough context
    /// (position and offending value) to reproduce the failure.
    pub fn message(&self) -> (r: String)
        ensures
            r@ == spec_error_message(*self),
    {
        let mut out: Vec<char> = Vec::new();
        match self {
            Error::BadBytecodeFormat => push_str_chars(&mut out, "Invalid bytecode format."),
            Error::BadBytecodeLength(x) => {
                push_str_chars(&mut out, "Bytecode of length ");
                push_dec_u64(&mut out, *x as u64);
                push_str_chars(&mut out, " exceeds memory address space of 32768.");
            },
            Error::InvalidOperation { pc, operation } => {
                push_str_chars(&mut out, "Invalid operation 0x");
                push_hex4(&mut out, *operation);
                push_str_chars(&mut out, " at ");
                push_pos(&mut out, *pc);
                push_str_chars(&mut out, ".");
            },
            Error::InvalidRegister { pc, register } => {
                push_str_chars(&mut out, "Invalid register address 0x");
                push_hex4(&mut out, *register);
                push_str_chars(&mut out, " at ");
                push_pos(&mut out, *pc);
                push_str_chars(&mut out, ".");
            },
            Error::MemOutOfBoundsAccess { pc } => {
                push_str_chars(&mut out, "Attempted to access out of bounds memory address at ");
                push_pos(&mut out, *pc);
                push_str_chars(&mut out, ".");
            },
            Error::PopFromEmptyStack { pc } => {
                push_str_chars(&mut out, "Attempted to pop value out of empty stack at ");
                push_pos(&mut out, *pc);
                push_str_chars(&mut out, ".");
            },
            Error::ReadInputErr { pc } => {
                push_str_chars(&mut out, "Could not read user input from stdin at ");
                push_pos(&mut out, *pc);
                push_str_chars(&mut out, ".");
            },
            Error::DeserializeErr { pc } => {
                push_str_chars(&mut out, "Could not deserialize VM state at ");
                push_pos(&mut out, *pc);
                push_str_chars(&mut out, ".");
            },
            Error::SerializeErr { pc } => {
                push_str_chars(&mut out, "Could not serialize VM state at ");
                push_pos(&mut out, *pc);
                push_str_chars(&mut out, ".");
            },
            Error::IoErr { pc } => {
                push_str_chars(&mut out, "IO error at ");
                push_pos(&mut out, *pc);
                push_str_chars(&mut out, ".");
            },
            Error::ParseIntErr => push_str_chars(&mut out, "ParseInt error."),
        }
        chars_to_string(&out)
    }
}

/// Appends a position rendered as four hex digits behind the `0x` prefix.
fn push_pos(out: &mut Vec<char>, pc: usize)
    ensures
        final(out)@ == old(out)@ + spec_pos(pc),
{
    push_str_chars(out, "0x");
    push_hex4(out, (pc % 0x10000) as u16);
    proof {
        assert(out@ =~= old(out)@ + spec_pos(pc));
    }
}

} // verus!
