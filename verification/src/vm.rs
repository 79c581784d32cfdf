//! The virtual machine: the execution engine with its fetch-decode-execute
//! semantics, the state snapshot, and the disassembler.
//!
//! The engine owns the address space, the register file, the call stack and
//! the program counter.  A single step of the machine is specified by
//! [`spec_step`], a total mathematical function from machine state (and an
//! optional input byte) to either the next state with an event, or a fault.

pub mod command;
pub mod input_buffer;
pub mod mem;
pub mod op;
pub mod reg;

use vstd::prelude::*;
use crate::constants::{MEM_ADDR_SPACE, REG_COUNT};
use crate::error::Error;
use crate::text::{chars_to_string, push_hex4, push_str_chars, spec_hex4};
use crate::vm::op::{
    Op, TOTAL_OP_COUNT, spec_arg_count, spec_is_op, spec_is_reg_alias, spec_op_of,
    spec_padded_mnemonic, spec_reg_name,
};

verus! {

/// The mathematical model of the machine: memory, registers, stack and the
/// program counter.  The sentinel program counter value `0x8000` (one past
/// the last address) signals that the machine has halted.
#[verifier::ext_equal]
pub ghost struct MState {
    pub mem: Seq<u16>,
    pub reg: Seq<u16>,
    pub stack: Seq<u16>,
    pub pc: int,
}

/// Well-formedness of a machine state.
pub open spec fn spec_state_inv(s: MState) -> bool {
    &&& s.mem.len() == MEM_ADDR_SPACE
    &&& s.reg.len() == REG_COUNT
    &&& 0 <= s.pc
}

/// What one step of the machine produced, besides the state change.
#[derive(Clone, Copy, Debug, PartialEq, Eq, Structural)]
pub enum StepEvent {
    /// An ordinary instruction completed.
    Continue,
    /// The machine stopped: `HALT`, or `RET` on an empty stack.
    Halted,
    /// `OUT` emitted one byte.
    Output(u8),
    /// `IN` needs a byte and none was supplied; the state is unchanged.
    NeedInput,
    /// `IN` consumed the supplied byte.
    Consumed,
}

/// How a bounded run ended.
#[derive(Clone, Copy, Debug, PartialEq, Eq, Structural)]
pub enum RunStatus {
    /// The machine halted cleanly.
    Halted,
    /// The machine blocked on `IN` with no input left.
    NeedInput,
    /// The step bound ran out before the machine stopped.
    OutOfFuel,
}

/// A value-operand read at an instruction-stream position: the raw cell is
/// fetched, and a word in the register alias range is substituted by the
/// register's content; any other word is the literal value.
pub open spec fn spec_read_val(s: MState, at: int) -> Result<u16, Error> {
    if at >= MEM_ADDR_SPACE {
        Err(Error::MemOutOfBoundsAccess { pc: at as usize })
    } else {
        let w = s.mem[at];
        if spec_is_reg_alias(w) {
            Ok(s.reg[w - 0x8000])
        } else {
            Ok(w)
        }
    }
}

/// A destination-operand read: the raw cell, never substituted.
pub open spec fn spec_read_raw(s: MState, at: int) -> Result<u16, Error> {
    if at >= MEM_ADDR_SPACE {
        Err(Error::MemOutOfBoundsAccess { pc: at as usize })
    } else {
        Ok(s.mem[at])
    }
}

/// An indirect read (`RMEM`): a register alias reads the register, a real
/// address reads memory, anything else is out of bounds.
pub open spec fn spec_read_from_addr(s: MState, addr: u16, err_pc: int) -> Result<u16, Error> {
    if spec_is_reg_alias(addr) {
        Ok(s.reg[addr - 0x8000])
    } else if addr >= 0x8000 {
        Err(Error::MemOutOfBoundsAccess { pc: err_pc as usize })
    } else {
        Ok(s.mem[addr as int])
    }
}

/// An alias-aware write: a register alias writes the register, a real address
/// writes memory, anything else is out of bounds.
pub open spec fn spec_write_word(s: MState, addr: u16, val: u16, err_pc: int) -> Result<
    MState,
    Error,
> {
    if spec_is_reg_alias(addr) {
        Ok(MState { reg: s.reg.update(addr - 0x8000, val), ..s })
    } else if addr >= 0x8000 {
        Err(Error::MemOutOfBoundsAccess { pc: err_pc as usize })
    } else {
        Ok(MState { mem: s.mem.update(addr as int, val), ..s })
    }
}

/// One fetch-decode-execute step of the machine.
///
/// `input` is the byte available to an `IN` instruction, if any.  The opcode
/// itself is fetched like a value operand, so a cell in the alias range
/// executes the opcode held in the register.  Arithmetic wraps modulo
/// `0x8000`; `MOD` with a zero modulus is an invalid operation.
pub open spec fn spec_step(s: MState, input: Option<u8>) -> Result<(MState, StepEvent), Error> {
    let pc = s.pc;
    match spec_read_val(s, pc) {
        Err(e) => Err(e),
        Ok(code) => match spec_op_of(code) {
            Op::HALT => Ok((MState { pc: 0x8000, ..s }, StepEvent::Halted)),
            Op::SET => match spec_read_raw(s, pc + 1) {
                Err(e) => Err(e),
                Ok(d) => match spec_read_val(s, pc + 2) {
                    Err(e) => Err(e),
                    Ok(v) => match spec_write_word(s, d, v, pc + 2) {
                        Err(e) => Err(e),
                        Ok(s2) => Ok((MState { pc: pc + 3, ..s2 }, StepEvent::Continue)),
                    },
                },
            },
            Op::PUSH => match spec_read_val(s, pc + 1) {
                Err(e) => Err(e),
                Ok(v) => Ok(
                    (MState { stack: s.stack.push(v), pc: pc + 2, ..s }, StepEvent::Continue),
                ),
            },
            Op::POP => match spec_read_raw(s, pc + 1) {
                Err(e) => Err(e),
                Ok(d) => if s.stack.len() == 0 {
                    Err(Error::PopFromEmptyStack { pc: (pc + 1) as usize })
                } else {
                    let v = s.stack.last();
                    match spec_write_word(s, d, v, pc + 1) {
                        Err(e) => Err(e),
                        Ok(s2) => Ok(
                            (
                                MState { stack: s.stack.drop_last(), pc: pc + 2, ..s2 },
                                StepEvent::Continue,
                            ),
                        ),
                    }
                },
            },
            Op::EQ => match spec_read_raw(s, pc + 1) {
                Err(e) => Err(e),
                Ok(d) => match spec_read_val(s, pc + 2) {
                    Err(e) => Err(e),
                    Ok(a) => match spec_read_val(s, pc + 3) {
                        Err(e) => Err(e),
                        Ok(b) => match spec_write_word(
                            s,
                            d,
                            if a == b { 1u16 } else { 0u16 },
                            pc + 3,
                        ) {
                            Err(e) => Err(e),
                            Ok(s2) => Ok((MState { pc: pc + 4, ..s2 }, StepEvent::Continue)),
                        },
                    },
                },
            },
            Op::GT => match spec_read_raw(s, pc + 1) {
                Err(e) => Err(e),
                Ok(d) => match spec_read_val(s, pc + 2) {
                    Err(e) => Err(e),
                    Ok(a) => match spec_read_val(s, pc + 3) {
                        Err(e) => Err(e),
                        Ok(b) => match spec_write_word(
                            s,
                            d,
                            if a > b { 1u16 } else { 0u16 },
                            pc + 3,
                        ) {
                            Err(e) => Err(e),
                            Ok(s2) => Ok((MState { pc: pc + 4, ..s2 }, StepEvent::Continue)),
                        },
                    },
                },
            },
            Op::JMP => match spec_read_val(s, pc + 1) {
                Err(e) => Err(e),
                Ok(a) => Ok((MState { pc: a as int, ..s }, StepEvent::Continue)),
            },
            Op::JT => match spec_read_val(s, pc + 1) {
                Err(e) => Err(e),
                Ok(p) => match spec_read_val(s, pc + 2) {
                    Err(e) => Err(e),
                    Ok(a) => if p != 0 {
                        Ok((MState { pc: a as int, ..s }, StepEvent::Continue))
                    } else {
                        Ok((MState { pc: pc + 3, ..s }, StepEvent::Continue))
                    },
                },
            },
            Op::JF => match spec_read_val(s, pc + 1) {
                Err(e) => Err(e),
                Ok(p) => match spec_read_val(s, pc + 2) {
                    Err(e) => Err(e),
                    Ok(a) => if p == 0 {
                        Ok((MState { pc: a as int, ..s }, StepEvent::Continue))
                    } else {
                        Ok((MState { pc: pc + 3, ..s }, StepEvent::Continue))
                    },
                },
            },
            Op::ADD => match spec_read_raw(s, pc + 1) {
                Err(e) => Err(e),
                Ok(d) => match spec_read_val(s, pc + 2) {
                    Err(e) => Err(e),
                    Ok(a) => match spec_read_val(s, pc + 3) {
                        Err(e) => Err(e),
                        Ok(b) => match spec_write_word(s, d, ((a + b) % 0x8000) as u16, pc + 3) {
                            Err(e) => Err(e),
                            Ok(s2) => Ok((MState { pc: pc + 4, ..s2 }, StepEvent::Continue)),
                        },
                    },
                },
            },
            Op::MULT => match spec_read_raw(s, pc + 1) {
                Err(e) => Err(e),
                Ok(d) => match spec_read_val(s, pc + 2) {
                    Err(e) => Err(e),
                    Ok(a) => match spec_read_val(s, pc + 3) {
                        Err(e) => Err(e),
                        Ok(b) => match spec_write_word(s, d, ((a * b) % 0x8000) as u16, pc + 3) {
                            Err(e) => Err(e),
                            Ok(s2) => Ok((MState { pc: pc + 4, ..s2 }, StepEvent::Continue)),
                        },
                    },
                },
            },
            Op::MOD => match spec_read_raw(s, pc + 1) {
                Err(e) => Err(e),
                Ok(d) => match spec_read_val(s, pc + 2) {
                    Err(e) => Err(e),
                    Ok(a) => match spec_read_val(s, pc + 3) {
                        Err(e) => Err(e),
                        Ok(b) => if b == 0 {
                            Err(Error::InvalidOperation { pc: pc as usize, operation: code })
                        } else {
                            match spec_write_word(s, d, (a % b) as u16, pc + 3) {
                                Err(e) => Err(e),
                                Ok(s2) => Ok((MState { pc: pc + 4, ..s2 }, StepEvent::Continue)),
                            }
                        },
                    },
                },
            },
            Op::AND => match spec_read_raw(s, pc + 1) {
                Err(e) => Err(e),
                Ok(d) => match spec_read_val(s, pc + 2) {
                    Err(e) => Err(e),
                    Ok(a) => match spec_read_val(s, pc + 3) {
                        Err(e) => Err(e),
                        Ok(b) => match spec_write_word(s, d, a & b, pc + 3) {
                            Err(e) => Err(e),
                            Ok(s2) => Ok((MState { pc: pc + 4, ..s2 }, StepEvent::Continue)),
                        },
                    },
                },
            },
            Op::OR => match spec_read_raw(s, pc + 1) {
                Err(e) => Err(e),
                Ok(d) => match spec_read_val(s, pc + 2) {
                    Err(e) => Err(e),
                    Ok(a) => match spec_read_val(s, pc + 3) {
                        Err(e) => Err(e),
                        Ok(b) => match spec_write_word(s, d, a | b, pc + 3) {
                            Err(e) => Err(e),
                            Ok(s2) => Ok((MState { pc: pc + 4, ..s2 }, StepEvent::Continue)),
                        },
                    },
                },
            },
            Op::NOT => match spec_read_raw(s, pc + 1) {
                Err(e) => Err(e),
                Ok(d) => match spec_read_val(s, pc + 2) {
                    Err(e) => Err(e),
                    Ok(a) => match spec_write_word(s, d, ((!a) % 0x8000) as u16, pc + 2) {
                        Err(e) => Err(e),
                        Ok(s2) => Ok((MState { pc: pc + 3, ..s2 }, StepEvent::Continue)),
                    },
                },
            },
            Op::RMEM => match spec_read_raw(s, pc + 1) {
                Err(e) => Err(e),
                Ok(d) => match spec_read_val(s, pc + 2) {
                    Err(e) => Err(e),
                    Ok(a) => match spec_read_from_addr(s, a, pc + 2) {
                        Err(e) => Err(e),
                        Ok(v) => match spec_write_word(s, d, v, pc + 2) {
                            Err(e) => Err(e),
                            Ok(s2) => Ok((MState { pc: pc + 3, ..s2 }, StepEvent::Continue)),
                        },
                    },
                },
            },
            Op::WMEM => match spec_read_val(s, pc + 1) {
                Err(e) => Err(e),
                Ok(d) => match spec_read_val(s, pc + 2) {
                    Err(e) => Err(e),
                    Ok(v) => match spec_write_word(s, d, v, pc + 2) {
                        Err(e) => Err(e),
                        Ok(s2) => Ok((MState { pc: pc + 3, ..s2 }, StepEvent::Continue)),
                    },
                },
            },
            Op::CALL => match spec_read_val(s, pc + 1) {
                Err(e) => Err(e),
                Ok(a) => Ok(
                    (
                        MState { stack: s.stack.push((pc + 2) as u16), pc: a as int, ..s },
                        StepEvent::Continue,
                    ),
                ),
            },
            Op::RET => if s.stack.len() == 0 {
                Ok((MState { pc: 0x8000, ..s }, StepEvent::Halted))
            } else {
                Ok(
                    (
                        MState { stack: s.stack.drop_last(), pc: s.stack.last() as int, ..s },
                        StepEvent::Continue,
                    ),
                )
            },
            Op::OUT => match spec_read_val(s, pc + 1) {
                Err(e) => Err(e),
                Ok(v) => Ok(
                    (MState { pc: pc + 2, ..s }, StepEvent::Output((v % 256) as u8)),
                ),
            },
            Op::IN => match input {
                None => Ok((s, StepEvent::NeedInput)),
                Some(b) => match spec_read_raw(s, pc + 1) {
                    Err(e) => Err(e),
                    Ok(d) => match spec_write_word(s, d, b as u16, pc + 1) {
                        Err(e) => Err(e),
                        Ok(s2) => Ok((MState { pc: pc + 2, ..s2 }, StepEvent::Consumed)),
                    },
                },
            },
            Op::NOOP => Ok((MState { pc: pc + 1, ..s }, StepEvent::Continue)),
            Op::RegOrData(x) => Err(
                Error::InvalidOperation { pc: pc as usize, operation: x },
            ),
        },
    }
}

/// A bounded run: iterates [`spec_step`], feeding input bytes in order and
/// collecting output bytes, until the machine stops, blocks on input, faults,
/// or the step bound runs out.
pub open spec fn spec_run(s: MState, input: Seq<u8>, fuel: nat) -> (
    MState,
    Seq<u8>,
    Result<RunStatus, Error>,
)
    decreases fuel,
{
    if fuel == 0 {
        (s, Seq::empty(), Ok(RunStatus::OutOfFuel))
    } else {
        let inb: Option<u8> = if input.len() > 0 {
            Some(input[0])
        } else {
            None
        };
        match spec_step(s, inb) {
            Err(e) => (s, Seq::empty(), Err(e)),
            Ok((s2, ev)) => match ev {
                StepEvent::Halted => (s2, Seq::empty(), Ok(RunStatus::Halted)),
                StepEvent::NeedInput => (s2, Seq::empty(), Ok(RunStatus::NeedInput)),
                StepEvent::Continue => spec_run(s2, input, (fuel - 1) as nat),
                StepEvent::Consumed => spec_run(s2, input.skip(1), (fuel - 1) as nat),
                StepEvent::Output(b) => {
                    let (s3, out, st) = spec_run(s2, input, (fuel - 1) as nat);
                    (s3, seq![b] + out, st)
                },
            },
        }
    }
}

/// The little-endian 16-bit word at word index `i` of a byte stream.
pub open spec fn spec_le_word(bytes: Seq<u8>, i: int) -> u16 {
    (bytes[2 * i] + bytes[2 * i + 1] * 0x100) as u16
}

/// The execution engine.  It owns the address space (32768 words, zero
/// initialized), the register file (8 words), the call stack and the program
/// counter, and is driven one instruction at a time by [`VirtualMachine::step`].
pub struct VirtualMachine {
    mem: Vec<u16>,
    reg: Vec<u16>,
    stack: Vec<u16>,
    pc: usize,
    loaded_len: usize,
}

impl View for VirtualMachine {
    type V = MState;

    closed spec fn view(&self) -> MState {
        MState { mem: self.mem@, reg: self.reg@, stack: self.stack@, pc: self.pc as int }
    }
}

impl VirtualMachine {
    /// The number of words the disassembler will walk: the loaded length.
    pub closed spec fn spec_loaded_len(&self) -> int {
        self.loaded_len as int
    }

    /// Well-formedness: the containers have their fixed sizes.
    pub open spec fn inv(&self) -> bool {
        &&& spec_state_inv(self@)
        &&& 0 <= self.spec_loaded_len() <= MEM_ADDR_SPACE
    }

    /// Creates a new machine: memory and registers zeroed, stack empty,
    /// program counter at zero.
    pub fn new() -> (r: VirtualMachine)
        ensures
            r.inv(),
            r@.mem =~= Seq::new(MEM_ADDR_SPACE as nat, |i: int| 0u16),
            r@.reg =~= Seq::new(REG_COUNT as nat, |i: int| 0u16),
            r@.stack =~= Seq::<u16>::empty(),
            r@.pc == 0,
            r.spec_loaded_len() == 0,
    {
        let mut mem: Vec<u16> = Vec::new();
        let mut i: usize = 0;
        while i < MEM_ADDR_SPACE
            invariant
                i <= MEM_ADDR_SPACE,
                mem@.len() == i,
                forall|j: int| 0 <= j < i ==> mem@[j] == 0u16,
            decreases MEM_ADDR_SPACE - i,
        {
            mem.push(0);
            i = i + 1;
        }
        let mut reg: Vec<u16> = Vec::new();
        let mut k: usize = 0;
        while k < REG_COUNT
            invariant
                k <= REG_COUNT,
                reg@.len() == k,
                forall|j: int| 0 <= j < k ==> reg@[j] == 0u16,
            decreases REG_COUNT - k,
        {
            reg.push(0);
            k = k + 1;
        }
        let r = VirtualMachine { mem, reg, stack: Vec::new(), pc: 0, loaded_len: 0 };
        proof {
            assert(r@.mem =~= Seq::new(MEM_ADDR_SPACE as nat, |i: int| 0u16));
            assert(r@.reg =~= Seq::new(REG_COUNT as nat, |i: int| 0u16));
        }
        r
    }

    /// Loads little-endian bytecode into memory.  An odd byte length or more
    /// words than the address space holds is a load-time fatal error,
    /// reported before any instruction runs.
    pub fn load_bytecode(self, bytecode: &[u8]) -> (r: Result<VirtualMachine, Error>)
        requires
            self.inv(),
        ensures
            bytecode@.len() % 2 != 0 ==> r == Err::<VirtualMachine, Error>(
                Error::BadBytecodeFormat,
            ),
            bytecode@.len() % 2 == 0 && bytecode@.len() / 2 > MEM_ADDR_SPACE ==> r == Err::<
                VirtualMachine,
                Error,
            >(Error::BadBytecodeLength(bytecode@.len() as usize)),
            bytecode@.len() % 2 == 0 && bytecode@.len() / 2 <= MEM_ADDR_SPACE ==> {
                &&& r is Ok
                &&& {
                    let vm = r->Ok_0;
                    &&& vm.inv()
                    &&& vm@.mem =~= Seq::new(
                        MEM_ADDR_SPACE as nat,
                        |i: int|
                            if i < bytecode@.len() / 2 {
                                spec_le_word(bytecode@, i)
                            } else {
                                self@.mem[i]
                            },
                    )
                    &&& vm@.reg == self@.reg
                    &&& vm@.stack == self@.stack
                    &&& vm@.pc == self@.pc
                    &&& vm.spec_loaded_len() == bytecode@.len() / 2
                }
            },
    {
        if bytecode.len() % 2 != 0 {
            return Err(Error::BadBytecodeFormat);
        }
        let n = bytecode.len() / 2;
        if n > MEM_ADDR_SPACE {
            return Err(Error::BadBytecodeLength(bytecode.len()));
        }
        let mut vm = self;
        let mut i: usize = 0;
        while i < n
            invariant
                vm.inv(),
                n == bytecode@.len() / 2,
                bytecode@.len() % 2 == 0,
                n <= MEM_ADDR_SPACE,
                i <= n,
                vm@.mem.len() == MEM_ADDR_SPACE,
                forall|j: int| 0 <= j < i ==> vm@.mem[j] == spec_le_word(bytecode@, j),
                forall|j: int| i <= j < MEM_ADDR_SPACE ==> vm@.mem[j] == self@.mem[j],
                vm@.reg == self@.reg,
                vm@.stack == self@.stack,
                vm@.pc == self@.pc,
                vm.spec_loaded_len() == self.spec_loaded_len(),
            decreases n - i,
        {
            let lo = *vstd::slice::slice_index_get(bytecode, 2 * i);
            let hi = *vstd::slice::slice_index_get(bytecode, 2 * i + 1);
            let w: u16 = lo as u16 + (hi as u16) * 0x100;
            vm.mem.set(i, w);
            i = i + 1;
        }
        vm.loaded_len = n;
        proof {
            assert(vm@.mem =~= Seq::new(
                MEM_ADDR_SPACE as nat,
                |i: int|
                    if i < bytecode@.len() / 2 {
                        spec_le_word(bytecode@, i)
                    } else {
                        self@.mem[i]
                    },
            ));
        }
        Ok(vm)
    }

    /// Whether a word falls in the register alias range.
    pub fn is_reg(addr: u16) -> (r: bool)
        ensures
            r == spec_is_reg_alias(addr),
    {
        0x8000 <= addr && addr <= 0x8007
    }

    /// A value-operand read at an instruction-stream position.
    fn read_val_at(&self, at: usize) -> (r: Result<u16, Error>)
        requires
            self.inv(),
        ensures
            r == spec_read_val(self@, at as int),
    {
        if at >= MEM_ADDR_SPACE {
            return Err(Error::MemOutOfBoundsAccess { pc: at });
        }
        let w = self.mem[at];
        if 0x8000 <= w && w <= 0x8007 {
            Ok(self.reg[(w - 0x8000) as usize])
        } else {
            Ok(w)
        }
    }

    /// A destination-operand read: the raw cell, never substituted.
    fn read_raw_at(&self, at: usize) -> (r: Result<u16, Error>)
        requires
            self.inv(),
        ensures
            r == spec_read_raw(self@, at as int),
    {
        if at >= MEM_ADDR_SPACE {
            return Err(Error::MemOutOfBoundsAccess { pc: at });
        }
        Ok(self.mem[at])
    }

    /// An indirect read for `RMEM`.
    fn read_from_addr(&self, addr: u16, err_pc: usize) -> (r: Result<u16, Error>)
        requires
            self.inv(),
        ensures
            r == spec_read_from_addr(self@, addr, err_pc as int),
    {
        if 0x8000 <= addr && addr <= 0x8007 {
            Ok(self.reg[(addr - 0x8000) as usize])
        } else if addr >= 0x8000 {
            Err(Error::MemOutOfBoundsAccess { pc: err_pc })
        } else {
            Ok(self.mem[addr as usize])
        }
    }

    /// An alias-aware write.
    fn write_word(&mut self, addr: u16, val: u16, err_pc: usize) -> (r: Result<(), Error>)
        requires
            old(self).inv(),
        ensures
            final(self).inv(),
            final(self).spec_loaded_len() == old(self).spec_loaded_len(),
            match spec_write_word(old(self)@, addr, val, err_pc as int) {
                Ok(s2) => r is Ok && final(self)@ == s2,
                Err(e) => r == Err::<(), Error>(e) && final(self)@ == old(self)@,
            },
    {
        if 0x8000 <= addr && addr <= 0x8007 {
            self.reg.set((addr - 0x8000) as usize, val);
            proof {
                assert(self@ =~= (MState {
                    reg: old(self)@.reg.update(addr - 0x8000, val),
                    ..old(self)@
                }));
            }
            Ok(())
        } else if addr >= 0x8000 {
            Err(Error::MemOutOfBoundsAccess { pc: err_pc })
        } else {
            self.mem.set(addr as usize, val);
            proof {
                assert(self@ =~= (MState {
                    mem: old(self)@.mem.update(addr as int, val),
                    ..old(self)@
                }));
            }
            Ok(())
        }
    }

    /// Executes exactly one instruction.
    ///
    /// `input` is the byte available to an `IN` instruction, if any; the
    /// event says whether it was consumed.  On a fault the machine is left
    /// unchanged and the error carries the position and offending value.
    #[verifier::rlimit(60)]
    pub fn step(&mut self, input: Option<u8>) -> (r: Result<StepEvent, Error>)
        requires
            old(self).inv(),
        ensures
            final(self).inv(),
            final(self).spec_loaded_len() == old(self).spec_loaded_len(),
            match spec_step(old(self)@, input) {
                Ok((s2, ev)) => r == Ok::<StepEvent, Error>(ev) && final(self)@ == s2,
                Err(e) => r == Err::<StepEvent, Error>(e) && final(self)@ == old(self)@,
            },
    {
        let ghost s0 = self@;
        let code_w = match self.read_val_at(self.pc) {
            Ok(w) => w,
            Err(e) => {
                return Err(e);
            },
        };
        let pc = self.pc;
        assert(pc < MEM_ADDR_SPACE);
        match Op::from_u16(code_w) {
            Op::HALT => {
                self.pc = MEM_ADDR_SPACE;
                proof {
                    assert(self@ =~= (MState { pc: 0x8000, ..s0 }));
                }
                Ok(StepEvent::Halted)
            },
            Op::SET => {
                let d = match self.read_raw_at(pc + 1) {
                    Ok(w) => w,
                    Err(e) => {
                        return Err(e);
                    },
                };
                let v = match self.read_val_at(pc + 2) {
                    Ok(w) => w,
                    Err(e) => {
                        return Err(e);
                    },
                };
                match self.write_word(d, v, pc + 2) {
                    Ok(_) => {},
                    Err(e) => {
                        return Err(e);
                    },
                }
                self.pc = pc + 3;
                Ok(StepEvent::Continue)
            },
            Op::PUSH => {
                let v = match self.read_val_at(pc + 1) {
                    Ok(w) => w,
                    Err(e) => {
                        return Err(e);
                    },
                };
                self.stack.push(v);
                self.pc = pc + 2;
                proof {
                    assert(self@ =~= (MState {
                        stack: s0.stack.push(v),
                        pc: s0.pc + 2,
                        ..s0
                    }));
                }
                Ok(StepEvent::Continue)
            },
            Op::POP => {
                let d = match self.read_raw_at(pc + 1) {
                    Ok(w) => w,
                    Err(e) => {
                        return Err(e);
                    },
                };
                if self.stack.len() == 0 {
                    return Err(Error::PopFromEmptyStack { pc: pc + 1 });
                }
                let v = self.stack[self.stack.len() - 1];
                match self.write_word(d, v, pc + 1) {
                    Ok(_) => {},
                    Err(e) => {
                        return Err(e);
                    },
                }
                let _popped = self.stack.pop();
                self.pc = pc + 2;
                Ok(StepEvent::Continue)
            },
            Op::EQ => {
                let d = match self.read_raw_at(pc + 1) {
                    Ok(w) => w,
                    Err(e) => {
                        return Err(e);
                    },
                };
                let a = match self.read_val_at(pc + 2) {
                    Ok(w) => w,
                    Err(e) => {
                        return Err(e);
                    },
                };
                let b = match self.read_val_at(pc + 3) {
                    Ok(w) => w,
                    Err(e) => {
                        return Err(e);
                    },
                };
                let w: u16 = if a == b { 1 } else { 0 };
                match self.write_word(d, w, pc + 3) {
                    Ok(_) => {},
                    Err(e) => {
                        return Err(e);
                    },
                }
                self.pc = pc + 4;
                Ok(StepEvent::Continue)
            },
            Op::GT => {
                let d = match self.read_raw_at(pc + 1) {
                    Ok(w) => w,
                    Err(e) => {
                        return Err(e);
                    },
                };
                let a = match self.read_val_at(pc + 2) {
                    Ok(w) => w,
                    Err(e) => {
                        return Err(e);
                    },
                };
                let b = match self.read_val_at(pc + 3) {
                    Ok(w) => w,
                    Err(e) => {
                        return Err(e);
                    },
                };
                let w: u16 = if a > b { 1 } else { 0 };
                match self.write_word(d, w, pc + 3) {
                    Ok(_) => {},
                    Err(e) => {
                        return Err(e);
                    },
                }
                self.pc = pc + 4;
                Ok(StepEvent::Continue)
            },
            Op::JMP => {
                let a = match self.read_val_at(pc + 1) {
                    Ok(w) => w,
                    Err(e) => {
                        return Err(e);
                    },
                };
                self.pc = a as usize;
                Ok(StepEvent::Continue)
            },
            Op::JT => {
                let p = match self.read_val_at(pc + 1) {
                    Ok(w) => w,
                    Err(e) => {
                        return Err(e);
                    },
                };
                let a = match self.read_val_at(pc + 2) {
                    Ok(w) => w,
                    Err(e) => {
                        return Err(e);
                    },
                };
                if p != 0 {
                    self.pc = a as usize;
                } else {
                    self.pc = pc + 3;
                }
                Ok(StepEvent::Continue)
            },
            Op::JF => {
                let p = match self.read_val_at(pc + 1) {
                    Ok(w) => w,
                    Err(e) => {
                        return Err(e);
                    },
                };
                let a = match self.read_val_at(pc + 2) {
                    Ok(w) => w,
                    Err(e) => {
                        return Err(e);
                    },
                };
                if p == 0 {
                    self.pc = a as usize;
                } else {
                    self.pc = pc + 3;
                }
                Ok(StepEvent::Continue)
            },
            Op::ADD => {
                let d = match self.read_raw_at(pc + 1) {
                    Ok(w) => w,
                    Err(e) => {
                        return Err(e);
                    },
                };
                let a = match self.read_val_at(pc + 2) {
                    Ok(w) => w,
                    Err(e) => {
                        return Err(e);
                    },
                };
                let b = match self.read_val_at(pc + 3) {
                    Ok(w) => w,
                    Err(e) => {
                        return Err(e);
                    },
                };
                let w: u16 = ((a as u32 + b as u32) % 0x8000) as u16;
                match self.write_word(d, w, pc + 3) {
                    Ok(_) => {},
                    Err(e) => {
                        return Err(e);
                    },
                }
                self.pc = pc + 4;
                Ok(StepEvent::Continue)
            },
            Op::MULT => {
                let d = match self.read_raw_at(pc + 1) {
                    Ok(w) => w,
                    Err(e) => {
                        return Err(e);
                    },
                };
                let a = match self.read_val_at(pc + 2) {
                    Ok(w) => w,
                    Err(e) => {
                        return Err(e);
                    },
                };
                let b = match self.read_val_at(pc + 3) {
                    Ok(w) => w,
                    Err(e) => {
                        return Err(e);
                    },
                };
                proof {
                    assert((a as int) * (b as int) < 0x100000000) by (nonlinear_arith)
                        requires
                            a <= 0xffff,
                            b <= 0xffff,
                    ;
                }
                let w: u16 = (((a as u32) * (b as u32)) % 0x8000) as u16;
                match self.write_word(d, w, pc + 3) {
                    Ok(_) => {},
                    Err(e) => {
                        return Err(e);
                    },
                }
                self.pc = pc + 4;
                Ok(StepEvent::Continue)
            },
            Op::MOD => {
                let d = match self.read_raw_at(pc + 1) {
                    Ok(w) => w,
                    Err(e) => {
                        return Err(e);
                    },
                };
                let a = match self.read_val_at(pc + 2) {
                    Ok(w) => w,
                    Err(e) => {
                        return Err(e);
                    },
                };
                let b = match self.read_val_at(pc + 3) {
                    Ok(w) => w,
                    Err(e) => {
                        return Err(e);
                    },
                };
                if b == 0 {
                    return Err(Error::InvalidOperation { pc, operation: code_w });
                }
                let w: u16 = a % b;
                match self.write_word(d, w, pc + 3) {
                    Ok(_) => {},
                    Err(e) => {
                        return Err(e);
                    },
                }
                self.pc = pc + 4;
                Ok(StepEvent::Continue)
            },
            Op::AND => {
                let d = match self.read_raw_at(pc + 1) {
                    Ok(w) => w,
                    Err(e) => {
                        return Err(e);
                    },
                };
                let a = match self.read_val_at(pc + 2) {
                    Ok(w) => w,
                    Err(e) => {
                        return Err(e);
                    },
                };
                let b = match self.read_val_at(pc + 3) {
                    Ok(w) => w,
                    Err(e) => {
                        return Err(e);
                    },
                };
                let w: u16 = a & b;
                match self.write_word(d, w, pc + 3) {
                    Ok(_) => {},
                    Err(e) => {
                        return Err(e);
                    },
                }
                self.pc = pc + 4;
                Ok(StepEvent::Continue)
            },
            Op::OR => {
                let d = match self.read_raw_at(pc + 1) {
                    Ok(w) => w,
                    Err(e) => {
                        return Err(e);
                    },
                };
                let a = match self.read_val_at(pc + 2) {
                    Ok(w) => w,
                    Err(e) => {
                        return Err(e);
                    },
                };
                let b = match self.read_val_at(pc + 3) {
                    Ok(w) => w,
                    Err(e) => {
                        return Err(e);
                    },
                };
                let w: u16 = a | b;
                match self.write_word(d, w, pc + 3) {
                    Ok(_) => {},
                    Err(e) => {
                        return Err(e);
                    },
                }
                self.pc = pc + 4;
                Ok(StepEvent::Continue)
            },
            Op::NOT => {
                let d = match self.read_raw_at(pc + 1) {
                    Ok(w) => w,
                    Err(e) => {
                        return Err(e);
                    },
                };
                let a = match self.read_val_at(pc + 2) {
                    Ok(w) => w,
                    Err(e) => {
                        return Err(e);
                    },
                };
                let w: u16 = (!a) % 0x8000;
                match self.write_word(d, w, pc + 2) {
                    Ok(_) => {},
                    Err(e) => {
                        return Err(e);
                    },
                }
                self.pc = pc + 3;
                Ok(StepEvent::Continue)
            },
            Op::RMEM => {
                let d = match self.read_raw_at(pc + 1) {
                    Ok(w) => w,
                    Err(e) => {
                        return Err(e);
                    },
                };
                let a = match self.read_val_at(pc + 2) {
                    Ok(w) => w,
                    Err(e) => {
                        return Err(e);
                    },
                };
                let v = match self.read_from_addr(a, pc + 2) {
                    Ok(w) => w,
                    Err(e) => {
                        return Err(e);
                    },
                };
                match self.write_word(d, v, pc + 2) {
                    Ok(_) => {},
                    Err(e) => {
                        return Err(e);
                    },
                }
                self.pc = pc + 3;
                Ok(StepEvent::Continue)
            },
            Op::WMEM => {
                let d = match self.read_val_at(pc + 1) {
                    Ok(w) => w,
                    Err(e) => {
                        return Err(e);
                    },
                };
                let v = match self.read_val_at(pc + 2) {
                    Ok(w) => w,
                    Err(e) => {
                        return Err(e);
                    },
                };
                match self.write_word(d, v, pc + 2) {
                    Ok(_) => {},
                    Err(e) => {
                        return Err(e);
                    },
                }
                self.pc = pc + 3;
                Ok(StepEvent::Continue)
            },
            Op::CALL => {
                let a = match self.read_val_at(pc + 1) {
                    Ok(w) => w,
                    Err(e) => {
                        return Err(e);
                    },
                };
                let ret_addr: u16 = (pc + 2) as u16;
                self.stack.push(ret_addr);
                self.pc = a as usize;
                proof {
                    assert(self@ =~= (MState {
                        stack: s0.stack.push((s0.pc + 2) as u16),
                        pc: a as int,
                        ..s0
                    }));
                }
                Ok(StepEvent::Continue)
            },
            Op::RET => {
                if self.stack.len() == 0 {
                    self.pc = MEM_ADDR_SPACE;
                    proof {
                        assert(self@ =~= (MState { pc: 0x8000, ..s0 }));
                    }
                    Ok(StepEvent::Halted)
                } else {
                    let a = self.stack[self.stack.len() - 1];
                    let _popped = self.stack.pop();
                    self.pc = a as usize;
                    proof {
                        assert(self@ =~= (MState {
                            stack: s0.stack.drop_last(),
                            pc: s0.stack.last() as int,
                            ..s0
                        }));
                    }
                    Ok(StepEvent::Continue)
                }
            },
            Op::OUT => {
                let v = match self.read_val_at(pc + 1) {
                    Ok(w) => w,
                    Err(e) => {
                        return Err(e);
                    },
                };
                self.pc = pc + 2;
                Ok(StepEvent::Output((v % 256) as u8))
            },
            Op::IN => {
                match input {
                    None => Ok(StepEvent::NeedInput),
                    Some(b) => {
                        let d = match self.read_raw_at(pc + 1) {
                            Ok(w) => w,
                            Err(e) => {
                                return Err(e);
                            },
                        };
                        match self.write_word(d, b as u16, pc + 1) {
                            Ok(_) => {},
                            Err(e) => {
                                return Err(e);
                            },
                        }
                        self.pc = pc + 2;
                        Ok(StepEvent::Consumed)
                    },
                }
            },
            Op::NOOP => {
                self.pc = pc + 1;
                Ok(StepEvent::Continue)
            },
            Op::RegOrData(x) => Err(Error::InvalidOperation { pc, operation: x }),
        }
    }

    /// Runs the machine for at most `fuel` steps, feeding it the given input
    /// bytes in order and collecting everything `OUT` emits.
    pub fn run_with_input(&mut self, input: &Vec<u8>, fuel: usize) -> (r: (
        Vec<u8>,
        Result<RunStatus, Error>,
    ))
        requires
            old(self).inv(),
        ensures
            final(self).inv(),
            final(self).spec_loaded_len() == old(self).spec_loaded_len(),
            ({
                let (s3, out, st) = spec_run(old(self)@, input@, fuel as nat);
                final(self)@ == s3 && r.0@ == out && r.1 == st
            }),
    {
        let mut out: Vec<u8> = Vec::new();
        let mut idx: usize = 0;
        let mut left: usize = fuel;
        let mut status: Result<RunStatus, Error> = Ok(RunStatus::OutOfFuel);
        let mut done = false;
        proof {
            assert(input@.skip(0) =~= input@);
            let (s3, o, st) = spec_run(self@, input@, fuel as nat);
            assert(out@ + o =~= o);
        }
        while !done
            invariant
                self.inv(),
                self.spec_loaded_len() == old(self).spec_loaded_len(),
                idx <= input@.len(),
                !done ==> ({
                    let (s3, o, st) = spec_run(self@, input@.skip(idx as int), left as nat);
                    let (sf, of, stf) = spec_run(old(self)@, input@, fuel as nat);
                    sf == s3 && of == out@ + o && stf == st
                }),
                done ==> ({
                    let (sf, of, stf) = spec_run(old(self)@, input@, fuel as nat);
                    sf == self@ && of == out@ && stf == status
                }),
            decreases left, (if done { 0int } else { 1int }),
        {
            let ghost s_before = self@;
            let ghost rest = input@.skip(idx as int);
            if left == 0 {
                status = Ok(RunStatus::OutOfFuel);
                proof {
                    assert(spec_run(s_before, rest, 0nat) == (
                        s_before,
                        Seq::<u8>::empty(),
                        Ok::<RunStatus, Error>(RunStatus::OutOfFuel),
                    ));
                    assert(out@ + Seq::<u8>::empty() =~= out@);
                }
                done = true;
            } else {
                let inb: Option<u8> = if idx < input.len() {
                    Some(input[idx])
                } else {
                    None
                };
                proof {
                    if idx < input@.len() {
                        assert(rest.len() > 0);
                        assert(rest[0] == input@[idx as int]);
                    } else {
                        assert(rest.len() == 0);
                    }
                }
                match self.step(inb) {
                    Err(e) => {
                        status = Err(e);
                        done = true;
                        proof {
                            assert(spec_run(s_before, rest, left as nat) == (
                                s_before,
                                Seq::<u8>::empty(),
                                Err::<RunStatus, Error>(e),
                            ));
                            assert(out@ + Seq::<u8>::empty() =~= out@);
                        }
                    },
                    Ok(ev) => {
                        match ev {
                            StepEvent::Halted => {
                                status = Ok(RunStatus::Halted);
                                done = true;
                                proof {
                                    assert(out@ + Seq::<u8>::empty() =~= out@);
                                }
                            },
                            StepEvent::NeedInput => {
                                status = Ok(RunStatus::NeedInput);
                                done = true;
                                proof {
                                    assert(out@ + Seq::<u8>::empty() =~= out@);
                                }
                            },
                            StepEvent::Continue => {
                                left = left - 1;
                            },
                            StepEvent::Consumed => {
                                proof {
                                    assert(rest.skip(1) =~= input@.skip(idx + 1 as int));
                                }
                                idx = idx + 1;
                                left = left - 1;
                            },
                            StepEvent::Output(b) => {
                                let ghost o_old = out@;
                                out.push(b);
                                left = left - 1;
                                proof {
                                    let (s3, o, st) = spec_run(self@, rest, left as nat);
                                    assert(spec_run(s_before, rest, (left + 1) as nat) == (
                                        s3,
                                        seq![b] + o,
                                        st,
                                    ));
                                    assert(o_old + (seq![b] + o) =~= out@ + o);
                                }
                            },
                        }
                    },
                }
            }
        }
        (out, status)
    }

    /// The current program counter.
    pub fn pc(&self) -> (r: usize)
        ensures
            r == self@.pc,
    {
        self.pc
    }

    /// Sets the program counter.
    pub fn set_pc(&mut self, addr: usize)
        requires
            old(self).inv(),
        ensures
            final(self).inv(),
            final(self).spec_loaded_len() == old(self).spec_loaded_len(),
            final(self)@ == (MState { pc: addr as int, ..old(self)@ }),
    {
        self.pc = addr;
        proof {
            assert(self@ =~= (MState { pc: addr as int, ..old(self)@ }));
        }
    }

    /// The call stack, bottom first.
    pub fn stack(&self) -> (r: &Vec<u16>)
        ensures
            r@ == self@.stack,
    {
        &self.stack
    }

    /// Reads the raw memory cell at the current program counter.
    pub fn read_mem(&self) -> (r: Result<u16, Error>)
        requires
            self.inv(),
        ensures
            r == spec_read_raw(self@, self@.pc),
    {
        self.read_raw_at(self.pc)
    }

    /// Writes a raw memory cell; fails out of bounds, reporting the current
    /// program counter.
    pub fn write_mem(&mut self, addr: usize, val: u16) -> (r: Result<(), Error>)
        requires
            old(self).inv(),
        ensures
            final(self).inv(),
            final(self).spec_loaded_len() == old(self).spec_loaded_len(),
            addr >= MEM_ADDR_SPACE ==> r == Err::<(), Error>(
                Error::MemOutOfBoundsAccess { pc: old(self)@.pc as usize },
            ) && final(self)@ == old(self)@,
            addr < MEM_ADDR_SPACE ==> r is Ok && final(self)@ == (MState {
                mem: old(self)@.mem.update(addr as int, val),
                ..old(self)@
            }),
    {
        if addr >= MEM_ADDR_SPACE {
            return Err(Error::MemOutOfBoundsAccess { pc: self.pc });
        }
        self.mem.set(addr, val);
        proof {
            assert(self@ =~= (MState {
                mem: old(self)@.mem.update(addr as int, val),
                ..old(self)@
            }));
        }
        Ok(())
    }

    /// Reads a register through its alias address; any address outside the
    /// alias range is an invalid register.
    pub fn read_reg(&self, register: u16) -> (r: Result<u16, Error>)
        requires
            self.inv(),
        ensures
            spec_is_reg_alias(register) ==> r == Ok::<u16, Error>(
                self@.reg[register - 0x8000],
            ),
            !spec_is_reg_alias(register) ==> r == Err::<u16, Error>(
                Error::InvalidRegister { pc: self@.pc as usize, register },
            ),
    {
        if 0x8000 <= register && register <= 0x8007 {
            Ok(self.reg[(register - 0x8000) as usize])
        } else {
            Err(Error::InvalidRegister { pc: self.pc, register })
        }
    }

    /// Writes a register through its alias address; any address outside the
    /// alias range is an invalid register.  The raw address must lie in the
    /// alias range before subtracting the base, so no low address can
    /// silently alias a register.
    pub fn write_reg(&mut self, register: u16, val: u16) -> (r: Result<(), Error>)
        requires
            old(self).inv(),
        ensures
            final(self).inv(),
            final(self).spec_loaded_len() == old(self).spec_loaded_len(),
            spec_is_reg_alias(register) ==> r is Ok && final(self)@ == (MState {
                reg: old(self)@.reg.update(register - 0x8000, val),
                ..old(self)@
            }),
            !spec_is_reg_alias(register) ==> r == Err::<(), Error>(
                Error::InvalidRegister { pc: old(self)@.pc as usize, register },
            ) && final(self)@ == old(self)@,
    {
        if 0x8000 <= register && register <= 0x8007 {
            self.reg.set((register - 0x8000) as usize, val);
            proof {
                assert(self@ =~= (MState {
                    reg: old(self)@.reg.update(register - 0x8000, val),
                    ..old(self)@
                }));
            }
            Ok(())
        } else {
            Err(Error::InvalidRegister { pc: self.pc, register })
        }
    }

    /// Bulk-overwrites memory, zero-padding to the full address space.
    pub fn load_mem(&mut self, memory: &[u16])
        requires
            old(self).inv(),
        ensures
            final(self).inv(),
            final(self)@ == (MState {
                mem: Seq::new(
                    MEM_ADDR_SPACE as nat,
                    |i: int| if i < memory@.len() { memory@[i] } else { 0u16 },
                ),
                ..old(self)@
            }),
            final(self).spec_loaded_len() == MEM_ADDR_SPACE,
    {
        let mut i: usize = 0;
        while i < MEM_ADDR_SPACE
            invariant
                old(self).inv(),
                i <= MEM_ADDR_SPACE,
                self@.mem.len() == MEM_ADDR_SPACE,
                self@.reg == old(self)@.reg,
                self@.stack == old(self)@.stack,
                self@.pc == old(self)@.pc,
                self.spec_loaded_len() == old(self).spec_loaded_len(),
                forall|j: int|
                    0 <= j < i ==> self@.mem[j] == (if j < memory@.len() {
                        memory@[j]
                    } else {
                        0u16
                    }),
            decreases MEM_ADDR_SPACE - i,
        {
            let w: u16 = if i < memory.len() {
                *vstd::slice::slice_index_get(memory, i)
            } else {
                0
            };
            self.mem.set(i, w);
            i = i + 1;
        }
        self.loaded_len = MEM_ADDR_SPACE;
        proof {
            assert(self@ =~= (MState {
                mem: Seq::new(
                    MEM_ADDR_SPACE as nat,
                    |i: int| if i < memory@.len() { memory@[i] } else { 0u16 },
                ),
                ..old(self)@
            }));
        }
    }

    /// Replaces the register file.
    pub fn set_registers(&mut self, registers: Vec<u16>)
        requires
            old(self).inv(),
            registers@.len() == REG_COUNT,
        ensures
            final(self).inv(),
            final(self).spec_loaded_len() == old(self).spec_loaded_len(),
            final(self)@ == (MState { reg: registers@, ..old(self)@ }),
    {
        self.reg = registers;
        proof {
            assert(self@ =~= (MState { reg: registers@, ..old(self)@ }));
        }
    }

    /// Replaces the call stack.
    pub fn set_stack(&mut self, stack: Vec<u16>)
        requires
            old(self).inv(),
        ensures
            final(self).inv(),
            final(self).spec_loaded_len() == old(self).spec_loaded_len(),
            final(self)@ == (MState { stack: stack@, ..old(self)@ }),
    {
        self.stack = stack;
        proof {
            assert(self@ =~= (MState { stack: stack@, ..old(self)@ }));
        }
    }

    /// Fully replaces the machine state from a snapshot: memory is
    /// zero-padded to the full address space, registers, stack and program
    /// counter are overwritten, nothing is merged.
    pub fn load_state(&mut self, state: &VirtualMachineState)
        requires
            old(self).inv(),
            state.reg@.len() == REG_COUNT,
        ensures
            final(self).inv(),
            final(self)@ == spec_load_state(state.mem@, state.reg@, state.stack@, state.pc as int),
    {
        self.load_mem(state.mem.as_slice());
        self.set_registers(copy_words(&state.reg));
        self.set_stack(copy_words(&state.stack));
        self.set_pc(state.pc);
        proof {
            assert(self@ =~= spec_load_state(
                state.mem@,
                state.reg@,
                state.stack@,
                state.pc as int,
            ));
        }
    }
}

/// The machine state a snapshot restores: zero-padded memory, and the given
/// registers, stack and program counter.
pub open spec fn spec_load_state(mem: Seq<u16>, reg: Seq<u16>, stack: Seq<u16>, pc: int) -> MState {
    MState {
        mem: Seq::new(MEM_ADDR_SPACE as nat, |i: int| if i < mem.len() { mem[i] } else { 0u16 }),
        reg,
        stack,
        pc,
    }
}

/// Copies a vector of words.
pub fn copy_words(v: &Vec<u16>) -> (r: Vec<u16>)
    ensures
        r@ == v@,
{
    let mut out: Vec<u16> = Vec::new();
    let mut i: usize = 0;
    while i < v.len()
        invariant
            i <= v@.len(),
            out@ =~= v@.subrange(0, i as int),
        decreases v@.len() - i,
    {
        out.push(v[i]);
        i = i + 1;
    }
    proof {
        assert(out@ =~= v@);
    }
    out
}

/// A complete, self-contained capture of the machine: the full address space
/// (never truncated), the eight registers, the whole stack in order, and the
/// program counter.  It is created on demand and kept separate from the live
/// machine.
pub struct VirtualMachineState {
    pub mem: Vec<u16>,
    pub reg: Vec<u16>,
    pub stack: Vec<u16>,
    pub pc: usize,
}

impl VirtualMachineState {
    /// Captures the machine's current state.
    pub fn new(vm: &VirtualMachine) -> (r: VirtualMachineState)
        requires
            vm.inv(),
        ensures
            r.mem@ == vm@.mem,
            r.reg@ == vm@.reg,
            r.stack@ == vm@.stack,
            r.pc == vm@.pc,
            r.mem@.len() == MEM_ADDR_SPACE,
            r.reg@.len() == REG_COUNT,
    {
        VirtualMachineState {
            mem: copy_words(vm.mem_vec()),
            reg: copy_words(vm.reg_vec()),
            stack: copy_words(vm.stack()),
            pc: vm.pc(),
        }
    }
}

impl VirtualMachine {
    /// The memory contents.
    pub fn mem_vec(&self) -> (r: &Vec<u16>)
        ensures
            r@ == self@.mem,
    {
        &self.mem
    }

    /// The register file contents.
    pub fn reg_vec(&self) -> (r: &Vec<u16>)
        ensures
            r@ == self@.reg,
    {
        &self.reg
    }
}

/// One word of disassembly: the text emitted for the cell at word index `i`
/// while `remaining` operands are still owed to the previous opcode, and the
/// new operand count.  When no operands are owed and the word is a valid
/// opcode, its padded mnemonic starts a new line and its arity many following
/// words are operands; otherwise the word prints as an operand, as a register
/// name when it falls in the alias range and as four hex digits when not.
/// The optional address column is emitted only at operand count zero, so the
/// annotation never lands on an operand.
pub open spec fn spec_disasm_word(w: u16, i: int, remaining: nat, with_addr: bool) -> (
    Seq<char>,
    nat,
) {
    let addr_txt: Seq<char> = if with_addr && remaining == 0 {
        "0x"@ + spec_hex4(i as u16) + ":\t"@
    } else {
        Seq::empty()
    };
    if spec_is_op(w) && remaining == 0 {
        (
            "\n"@ + addr_txt + spec_padded_mnemonic(spec_op_of(w)),
            spec_arg_count(spec_op_of(w)) as nat,
        )
    } else {
        let next: nat = if remaining == 0 {
            0
        } else {
            (remaining - 1) as nat
        };
        let delim: Seq<char> = if remaining == 0 {
            "\n"@
        } else {
            "\t"@
        };
        if spec_is_reg_alias(w) {
            (delim + spec_reg_name(w - 0x8000), next)
        } else {
            (delim + addr_txt + spec_hex4(w), next)
        }
    }
}

/// The disassembly of the words from index `i` up to `bound`, entered while
/// `remaining` operands are owed.
pub open spec fn spec_disasm_from(
    mem: Seq<u16>,
    i: int,
    remaining: nat,
    bound: int,
    with_addr: bool,
) -> Seq<char>
    decreases bound - i,
{
    if i >= bound {
        Seq::empty()
    } else {
        let (tok, rem2) = spec_disasm_word(mem[i], i, remaining, with_addr);
        tok + spec_disasm_from(mem, i + 1, rem2, bound, with_addr)
    }
}

impl VirtualMachine {
    /// Converts the loaded part of memory into assembly text, maintaining an
    /// operands-remaining count so that data words owed to an instruction are
    /// never misread as opcodes.
    pub fn disassemble(&self, include_addresses: bool) -> (r: String)
        requires
            self.inv(),
        ensures
            r@ == spec_disasm_from(self@.mem, 0, 0, self.spec_loaded_len(), include_addresses),
    {
        let mut out: Vec<char> = Vec::new();
        let mut remaining: usize = 0;
        let mut i: usize = 0;
        let bound = self.loaded_len;
        while i < bound
            invariant
                self.inv(),
                bound == self.spec_loaded_len(),
                i <= bound,
                spec_disasm_from(self@.mem, 0, 0, bound as int, include_addresses) =~= out@
                    + spec_disasm_from(
                    self@.mem,
                    i as int,
                    remaining as nat,
                    bound as int,
                    include_addresses,
                ),
            decreases bound - i,
        {
            let ghost pre = out@;
            let ghost rem0 = remaining as nat;
            let w = self.mem[i];
            if w < TOTAL_OP_COUNT && remaining == 0 {
                push_str_chars(&mut out, "\n");
                if include_addresses {
                    push_str_chars(&mut out, "0x");
                    push_hex4(&mut out, i as u16);
                    push_str_chars(&mut out, ":\t");
                }
                let op = Op::from_u16(w);
                op.push_text(&mut out);
                remaining = op.arg_count();
            } else {
                if remaining == 0 {
                    push_str_chars(&mut out, "\n");
                } else {
                    push_str_chars(&mut out, "\t");
                }
                if 0x8000 <= w && w <= 0x8007 {
                    push_str_chars(&mut out, Op::reg_name(w - 0x8000));
                } else {
                    if include_addresses && remaining == 0 {
                        push_str_chars(&mut out, "0x");
                        push_hex4(&mut out, i as u16);
                        push_str_chars(&mut out, ":\t");
                    }
                    push_hex4(&mut out, w);
                }
                remaining = if remaining == 0 {
                    0
                } else {
                    remaining - 1
                };
            }
            proof {
                let (tok, rem2) = spec_disasm_word(
                    self@.mem[i as int],
                    i as int,
                    rem0,
                    include_addresses,
                );
                assert(out@ =~= pre + tok);
                assert(remaining as nat == rem2);
                assert(pre + spec_disasm_from(
                    self@.mem,
                    i as int,
                    rem0,
                    bound as int,
                    include_addresses,
                ) =~= out@ + spec_disasm_from(
                    self@.mem,
                    i as int + 1,
                    rem2,
                    bound as int,
                    include_addresses,
                ));
            }
            i = i + 1;
        }
        proof {
            assert(out@ + Seq::<char>::empty() =~= out@);
        }
        chars_to_string(&out)
    }
}

/// Register aliasing: writing a value through alias address `32768 + k`
/// stores it in register `k` and touches no memory cell, and a value operand
/// whose raw cell holds `32768 + k` reads the register's content, not the
/// literal alias address.
pub proof fn lemma_register_aliasing(s: MState, k: u16, v: u16, at: int, err_pc: int)
    requires
        spec_state_inv(s),
        k < 8,
        0 <= at < MEM_ADDR_SPACE,
        s.mem[at] == 0x8000 + k,
    ensures
        spec_write_word(s, (0x8000 + k) as u16, v, err_pc) is Ok,
        spec_write_word(s, (0x8000 + k) as u16, v, err_pc)->Ok_0.reg[k as int] == v,
        spec_write_word(s, (0x8000 + k) as u16, v, err_pc)->Ok_0.mem == s.mem,
        spec_read_val(s, at) == Ok::<u16, Error>(s.reg[k as int]),
{
}

/// On an empty call stack, `RET` halts the machine without error while `POP`
/// raises the pop-from-empty-stack fault.
pub proof fn lemma_empty_stack(s: MState, input: Option<u8>)
    requires
        spec_state_inv(s),
        s.stack.len() == 0,
        0 <= s.pc < MEM_ADDR_SPACE,
    ensures
        s.mem[s.pc] == 18 ==> spec_step(s, input) == Ok::<(MState, StepEvent), Error>(
            (MState { pc: 0x8000, ..s }, StepEvent::Halted),
        ),
        s.mem[s.pc] == 3 && s.pc + 1 < MEM_ADDR_SPACE ==> spec_step(s, input) == Err::<
            (MState, StepEvent),
            Error,
        >(Error::PopFromEmptyStack { pc: (s.pc + 1) as usize }),
{
}

/// Arithmetic wraps modulo 32768: with literal operands `a` and `b` and a
/// register destination, `ADD` stores `(a + b) % 32768`, `MULT` stores
/// `(a * b) % 32768`, and `NOT` stores the 15-bit complement of `a`.
pub proof fn lemma_arithmetic_wraps(s: MState, k: u16, a: u16, b: u16, input: Option<u8>)
    requires
        spec_state_inv(s),
        k < 8,
        0 <= s.pc,
        s.pc + 4 <= MEM_ADDR_SPACE,
        s.mem[s.pc + 1] == 0x8000 + k,
        s.mem[s.pc + 2] == a,
        s.mem[s.pc + 3] == b,
        !spec_is_reg_alias(a),
        !spec_is_reg_alias(b),
    ensures
        s.mem[s.pc] == 9 ==> ({
            let r = spec_step(s, input);
            r is Ok && ({
                let (s2, ev) = r->Ok_0;
                s2.reg[k as int] == ((a + b) % 0x8000) as u16
            })
        }),
        s.mem[s.pc] == 10 ==> ({
            let r = spec_step(s, input);
            r is Ok && ({
                let (s2, ev) = r->Ok_0;
                s2.reg[k as int] == ((a * b) % 0x8000) as u16
            })
        }),
        s.mem[s.pc] == 14 ==> ({
            let r = spec_step(s, input);
            r is Ok && ({
                let (s2, ev) = r->Ok_0;
                s2.reg[k as int] == ((!a) % 0x8000) as u16
            })
        }),
{
}

/// Save immediately after load, then load that save, reproduces identical
/// memory, registers, stack and program counter: capturing the state of a
/// machine that just restored a snapshot, and restoring that capture,
/// reaches exactly the same machine state.
pub proof fn lemma_snapshot_round_trip(mem: Seq<u16>, reg: Seq<u16>, stack: Seq<u16>, pc: int)
    ensures
        ({
            let m = spec_load_state(mem, reg, stack, pc);
            spec_load_state(m.mem, m.reg, m.stack, m.pc) == m
        }),
{
    let m = spec_load_state(mem, reg, stack, pc);
    assert(spec_load_state(m.mem, m.reg, m.stack, m.pc).mem =~= m.mem);
    assert(spec_load_state(m.mem, m.reg, m.stack, m.pc) =~= m);
}

} // verus!
