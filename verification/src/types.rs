//! The 15-bit word type and the numeric opcode table.

use vstd::prelude::*;
use crate::vm::op::{Op, spec_op_code, spec_op_from_str};

verus! {

/// All arithmetic on 15-bit words is reduced modulo this value.
pub const FIFTEEN_BIT_MODULUS: u16 = 32768;

/// The largest 15-bit word.
pub const FIFTEEN_BIT_MAX: u16 = 32767;

/// One of the 22 named operations.  Unlike [`crate::vm::op::Op`] this type
/// has no catch-all: a word outside the valid set simply does not decode.
#[derive(Clone, Copy, Debug, PartialEq, Eq, Structural)]
pub enum OpCode {
    Halt,
    SetReg,
    Push,
    Pop,
    Eq,
    Gt,
    Jmp,
    Jt,
    Jf,
    Add,
    Mult,
    Mod,
    And,
    Or,
    Not,
    Rmem,
    Wmem,
    Call,
    Ret,
    Out,
    In,
    Noop,
}

/// The numeric value an opcode stands for.
pub open spec fn spec_opcode_value(op: OpCode) -> u16 {
    match op {
        OpCode::Halt => 0,
        OpCode::SetReg => 1,
        OpCode::Push => 2,
        OpCode::Pop => 3,
        OpCode::Eq => 4,
        OpCode::Gt => 5,
        OpCode::Jmp => 6,
        OpCode::Jt => 7,
        OpCode::Jf => 8,
        OpCode::Add => 9,
        OpCode::Mult => 10,
        OpCode::Mod => 11,
        OpCode::And => 12,
        OpCode::Or => 13,
        OpCode::Not => 14,
        OpCode::Rmem => 15,
        OpCode::Wmem => 16,
        OpCode::Call => 17,
        OpCode::Ret => 18,
        OpCode::Out => 19,
        OpCode::In => 20,
        OpCode::Noop => 21,
    }
}

impl OpCode {
    /// Parses a bare upper-case mnemonic.
    pub fn from_str(val: &str) -> (r: Option<OpCode>)
        ensures
            match spec_op_from_str(val@) {
                Some(op) => r is Some && spec_opcode_value(r->0) == spec_op_code(op),
                None => r is None,
            },
    {
        match Op::from_str(val) {
            Some(op) => OpCode::from_u16(op.to_u16()),
            None => None,
        }
    }

    /// Decodes a numeric opcode; any value outside the valid set does not
    /// decode.
    pub fn from_u16(val: u16) -> (r: Option<OpCode>)
        ensures
            val <= 21 ==> r is Some && spec_opcode_value(r->0) == val,
            val > 21 ==> r is None,
    {
        if val == 0 { Some(OpCode::Halt) }
        else if val == 1 { Some(OpCode::SetReg) }
        else if val == 2 { Some(OpCode::Push) }
        else if val == 3 { Some(OpCode::Pop) }
        else if val == 4 { Some(OpCode::Eq) }
        else if val == 5 { Some(OpCode::Gt) }
        else if val == 6 { Some(OpCode::Jmp) }
        else if val == 7 { Some(OpCode::Jt) }
        else if val == 8 { Some(OpCode::Jf) }
        else if val == 9 { Some(OpCode::Add) }
        else if val == 10 { Some(OpCode::Mult) }
        else if val == 11 { Some(OpCode::Mod) }
        else if val == 12 { Some(OpCode::And) }
        else if val == 13 { Some(OpCode::Or) }
        else if val == 14 { Some(OpCode::Not) }
        else if val == 15 { Some(OpCode::Rmem) }
        else if val == 16 { Some(OpCode::Wmem) }
        else if val == 17 { Some(OpCode::Call) }
        else if val == 18 { Some(OpCode::Ret) }
        else if val == 19 { Some(OpCode::Out) }
        else if val == 20 { Some(OpCode::In) }
        else if val == 21 { Some(OpCode::Noop) }
        else { None }
    }

    /// Encodes this opcode back into its numeric value.
    pub fn to_u16(self) -> (r: u16)
        ensures
            r == spec_opcode_value(self),
    {
        match self {
            OpCode::Halt => 0,
            OpCode::SetReg => 1,
            OpCode::Push => 2,
            OpCode::Pop => 3,
            OpCode::Eq => 4,
            OpCode::Gt => 5,
            OpCode::Jmp => 6,
            OpCode::Jt => 7,
            OpCode::Jf => 8,
            OpCode::Add => 9,
            OpCode::Mult => 10,
            OpCode::Mod => 11,
            OpCode::And => 12,
            OpCode::Or => 13,
            OpCode::Not => 14,
            OpCode::Rmem => 15,
            OpCode::Wmem => 16,
            OpCode::Call => 17,
            OpCode::Ret => 18,
            OpCode::Out => 19,
            OpCode::In => 20,
            OpCode::Noop => 21,
        }
    }
}

/// An unsigned integer constrained to 15 bits.  Every arithmetic or bitwise
/// result is reduced modulo 32768.
#[allow(non_camel_case_types)]
#[derive(Clone, Copy, Debug, PartialEq, Eq, Structural, Hash)]
pub struct u15(u16);

impl View for u15 {
    type V = u16;

    closed spec fn view(&self) -> u16 {
        self.0
    }
}

impl u15 {
    /// The constraint every value of this type keeps.
    #[verifier::type_invariant]
    pub closed spec fn wf(self) -> bool {
        self.0 <= FIFTEEN_BIT_MAX
    }

    /// Wraps a raw number; values above the 15-bit maximum are not words.
    pub fn new(num: u16) -> (r: u15)
        requires
            num <= FIFTEEN_BIT_MAX,
        ensures
            r@ == num,
    {
        u15(num)
    }

    /// Adds one, wrapping modulo 32768.
    pub fn increment(&mut self)
        ensures
            final(self)@ == (old(self)@ + 1) % 0x8000,
    {
        proof {
            use_type_invariant(&*self);
        }
        *self = u15((self.0 + 1) % FIFTEEN_BIT_MODULUS);
    }

    /// Subtracts one, wrapping modulo 32768.
    pub fn decrement(&mut self)
        ensures
            final(self)@ == (old(self)@ + 0x7fff) % 0x8000,
    {
        proof {
            use_type_invariant(&*self);
        }
        *self = u15((self.0 + FIFTEEN_BIT_MAX) % FIFTEEN_BIT_MODULUS);
    }

    /// Whether the word is zero.
    pub fn is_zero(&self) -> (r: bool)
        ensures
            r == (self@ == 0),
    {
        self.0 == 0
    }

    /// Whether the word is not zero.
    pub fn is_non_zero(&self) -> (r: bool)
        ensures
            r == (self@ != 0),
    {
        self.0 != 0
    }

    /// A word is true when it is not zero.
    pub fn is_true(&self) -> (r: bool)
        ensures
            r == (self@ != 0),
    {
        self.is_non_zero()
    }

    /// A word is false when it is zero.
    pub fn is_false(&self) -> (r: bool)
        ensures
            r == (self@ == 0),
    {
        self.is_zero()
    }

    /// The raw value.
    pub fn to_u16(self) -> (r: u16)
        ensures
            r == self@,
            r <= FIFTEEN_BIT_MAX,
    {
        proof {
            use_type_invariant(self);
        }
        self.0
    }

    /// The raw value, widened for indexing.
    pub fn to_usize(self) -> (r: usize)
        ensures
            r == self@,
            r <= FIFTEEN_BIT_MAX,
    {
        proof {
            use_type_invariant(self);
        }
        self.0 as usize
    }

    /// The sum, wrapping modulo 32768.
    pub fn add(self, other: u15) -> (r: u15)
        ensures
            r@ == (self@ + other@) % 0x8000,
    {
        proof {
            use_type_invariant(self);
            use_type_invariant(other);
        }
        u15((self.0 + other.0) % FIFTEEN_BIT_MODULUS)
    }

    /// The difference, wrapping modulo 32768.
    pub fn sub(self, other: u15) -> (r: u15)
        ensures
            r@ == (self@ + 0x8000 - other@) % 0x8000,
    {
        proof {
            use_type_invariant(self);
            use_type_invariant(other);
        }
        u15((self.0 + FIFTEEN_BIT_MODULUS - other.0) % FIFTEEN_BIT_MODULUS)
    }

    /// The product, wrapping modulo 32768.
    pub fn mul(self, other: u15) -> (r: u15)
        ensures
            r@ == (self@ * other@) % 0x8000,
    {
        proof {
            use_type_invariant(self);
            use_type_invariant(other);
            assert((self.0 as int) * (other.0 as int) < 0x40000000) by (nonlinear_arith)
                requires
                    self.0 <= 0x7fff,
                    other.0 <= 0x7fff,
            ;
        }
        u15((((self.0 as u32) * (other.0 as u32)) % (FIFTEEN_BIT_MODULUS as u32)) as u16)
    }

    /// The remainder.
    pub fn rem(self, other: u15) -> (r: u15)
        requires
            other@ != 0,
        ensures
            r@ == self@ % other@,
    {
        proof {
            use_type_invariant(self);
            use_type_invariant(other);
        }
        u15(self.0 % other.0)
    }

    /// The bitwise conjunction.
    pub fn bitand(self, other: u15) -> (r: u15)
        ensures
            r@ == (self@ & other@),
    {
        proof {
            use_type_invariant(self);
            use_type_invariant(other);
            let a = self.0;
            let b = other.0;
            assert(a & b <= 0x7fff) by (bit_vector)
                requires
                    a <= 0x7fff,
            ;
        }
        u15(self.0 & other.0)
    }

    /// The bitwise disjunction.
    pub fn bitor(self, other: u15) -> (r: u15)
        ensures
            r@ == (self@ | other@),
    {
        proof {
            use_type_invariant(self);
            use_type_invariant(other);
            let a = self.0;
            let b = other.0;
            assert(a | b <= 0x7fff) by (bit_vector)
                requires
                    a <= 0x7fff,
                    b <= 0x7fff,
            ;
        }
        u15(self.0 | other.0)
    }

    /// The 15-bit complement.
    pub fn not(self) -> (r: u15)
        ensures
            r@ == (!self@) % 0x8000,
    {
        proof {
            use_type_invariant(self);
        }
        u15((!self.0) % FIFTEEN_BIT_MODULUS)
    }
}

} // verus!
