//! The instruction table: the bidirectional mapping between mnemonic text,
//! numeric opcode and operand arity, shared by the execution engine, the
//! assembler and the disassembler.

use vstd::prelude::*;
use crate::text::{push_str_chars, spec_hex4, push_hex4, str_eq, chars_to_string};

verus! {

/// Number of valid opcodes; the valid numeric range is `0 .. TOTAL_OP_COUNT`.
pub const TOTAL_OP_COUNT: u16 = 22;

/// The set of opcodes available to the virtual machine processor, together
/// with a catch-all tag for any word outside the valid opcode range.  The
/// catch-all is necessary because instruction words and data words share the
/// same numeric domain: disambiguation happens via position tracking during
/// decode, never via the value alone.
#[derive(Clone, Copy, Debug, PartialEq, Eq, Structural)]
pub enum Op {
    HALT,
    SET,
    PUSH,
    POP,
    EQ,
    GT,
    JMP,
    JT,
    JF,
    ADD,
    MULT,
    MOD,
    AND,
    OR,
    NOT,
    RMEM,
    WMEM,
    CALL,
    RET,
    OUT,
    IN,
    NOOP,
    RegOrData(u16),
}

/// Whether a word is a valid numeric opcode.
pub open spec fn spec_is_op(n: u16) -> bool {
    n < TOTAL_OP_COUNT
}

/// Whether a word falls in the register alias range.
pub open spec fn spec_is_reg_alias(n: u16) -> bool {
    0x8000 <= n <= 0x8007
}

/// The opcode a word decodes to; invalid values map to the catch-all tag.
pub open spec fn spec_op_of(n: u16) -> Op {
    if n == 0 { Op::HALT }
    else if n == 1 { Op::SET }
    else if n == 2 { Op::PUSH }
    else if n == 3 { Op::POP }
    else if n == 4 { Op::EQ }
    else if n == 5 { Op::GT }
    else if n == 6 { Op::JMP }
    else if n == 7 { Op::JT }
    else if n == 8 { Op::JF }
    else if n == 9 { Op::ADD }
    else if n == 10 { Op::MULT }
    else if n == 11 { Op::MOD }
    else if n == 12 { Op::AND }
    else if n == 13 { Op::OR }
    else if n == 14 { Op::NOT }
    else if n == 15 { Op::RMEM }
    else if n == 16 { Op::WMEM }
    else if n == 17 { Op::CALL }
    else if n == 18 { Op::RET }
    else if n == 19 { Op::OUT }
    else if n == 20 { Op::IN }
    else if n == 21 { Op::NOOP }
    else { Op::RegOrData(n) }
}

/// The numeric value an opcode encodes to.
pub open spec fn spec_op_code(op: Op) -> u16 {
    match op {
        Op::HALT => 0,
        Op::SET => 1,
        Op::PUSH => 2,
        Op::POP => 3,
        Op::EQ => 4,
        Op::GT => 5,
        Op::JMP => 6,
        Op::JT => 7,
        Op::JF => 8,
        Op::ADD => 9,
        Op::MULT => 10,
        Op::MOD => 11,
        Op::AND => 12,
        Op::OR => 13,
        Op::NOT => 14,
        Op::RMEM => 15,
        Op::WMEM => 16,
        Op::CALL => 17,
        Op::RET => 18,
        Op::OUT => 19,
        Op::IN => 20,
        Op::NOOP => 21,
        Op::RegOrData(x) => x,
    }
}

/// The operand arity of an opcode.
pub open spec fn spec_arg_count(op: Op) -> usize {
    match op {
        Op::HALT => 0,
        Op::SET => 2,
        Op::PUSH => 1,
        Op::POP => 1,
        Op::EQ => 3,
        Op::GT => 3,
        Op::JMP => 1,
        Op::JT => 2,
        Op::JF => 2,
        Op::ADD => 3,
        Op::MULT => 3,
        Op::MOD => 3,
        Op::AND => 3,
        Op::OR => 3,
        Op::NOT => 2,
        Op::RMEM => 2,
        Op::WMEM => 2,
        Op::CALL => 1,
        Op::RET => 0,
        Op::OUT => 1,
        Op::IN => 1,
        Op::NOOP => 0,
        Op::RegOrData(_) => 0,
    }
}

/// The bare mnemonic of a valid opcode (empty for the catch-all tag).
pub open spec fn spec_mnemonic(op: Op) -> Seq<char> {
    match op {
        Op::HALT => "HALT"@,
        Op::SET => "SET"@,
        Op::PUSH => "PUSH"@,
        Op::POP => "POP"@,
        Op::EQ => "EQ"@,
        Op::GT => "GT"@,
        Op::JMP => "JMP"@,
        Op::JT => "JT"@,
        Op::JF => "JF"@,
        Op::ADD => "ADD"@,
        Op::MULT => "MULT"@,
        Op::MOD => "MOD"@,
        Op::AND => "AND"@,
        Op::OR => "OR"@,
        Op::NOT => "NOT"@,
        Op::RMEM => "RMEM"@,
        Op::WMEM => "WMEM"@,
        Op::CALL => "CALL"@,
        Op::RET => "RET"@,
        Op::OUT => "OUT"@,
        Op::IN => "IN"@,
        Op::NOOP => "NOOP"@,
        Op::RegOrData(_) => Seq::empty(),
    }
}

/// The mnemonic padded with leading spaces to a width of four columns, as the
/// disassembler prints it.
pub open spec fn spec_padded_mnemonic(op: Op) -> Seq<char> {
    match op {
        Op::HALT => "HALT"@,
        Op::SET => " SET"@,
        Op::PUSH => "PUSH"@,
        Op::POP => " POP"@,
        Op::EQ => "  EQ"@,
        Op::GT => "  GT"@,
        Op::JMP => " JMP"@,
        Op::JT => "  JT"@,
        Op::JF => "  JF"@,
        Op::ADD => " ADD"@,
        Op::MULT => "MULT"@,
        Op::MOD => " MOD"@,
        Op::AND => " AND"@,
        Op::OR => "  OR"@,
        Op::NOT => " NOT"@,
        Op::RMEM => "RMEM"@,
        Op::WMEM => "WMEM"@,
        Op::CALL => "CALL"@,
        Op::RET => " RET"@,
        Op::OUT => " OUT"@,
        Op::IN => "  IN"@,
        Op::NOOP => "NOOP"@,
        Op::RegOrData(_) => Seq::empty(),
    }
}

/// The fixed name of register `k`.
pub open spec fn spec_reg_name(k: int) -> Seq<char> {
    if k == 0 { "AX"@ }
    else if k == 1 { "BX"@ }
    else if k == 2 { "CX"@ }
    else if k == 3 { "DX"@ }
    else if k == 4 { "EX"@ }
    else if k == 5 { "FX"@ }
    else if k == 6 { "GX"@ }
    else if k == 7 { "HX"@ }
    else { Seq::empty() }
}

/// The mnemonic a token parses to, if any.
pub open spec fn spec_op_from_str(s: Seq<char>) -> Option<Op> {
    if s == spec_mnemonic(Op::HALT) { Some(Op::HALT) }
    else if s == spec_mnemonic(Op::SET) { Some(Op::SET) }
    else if s == spec_mnemonic(Op::PUSH) { Some(Op::PUSH) }
    else if s == spec_mnemonic(Op::POP) { Some(Op::POP) }
    else if s == spec_mnemonic(Op::EQ) { Some(Op::EQ) }
    else if s == spec_mnemonic(Op::GT) { Some(Op::GT) }
    else if s == spec_mnemonic(Op::JMP) { Some(Op::JMP) }
    else if s == spec_mnemonic(Op::JT) { Some(Op::JT) }
    else if s == spec_mnemonic(Op::JF) { Some(Op::JF) }
    else if s == spec_mnemonic(Op::ADD) { Some(Op::ADD) }
    else if s == spec_mnemonic(Op::MULT) { Some(Op::MULT) }
    else if s == spec_mnemonic(Op::MOD) { Some(Op::MOD) }
    else if s == spec_mnemonic(Op::AND) { Some(Op::AND) }
    else if s == spec_mnemonic(Op::OR) { Some(Op::OR) }
    else if s == spec_mnemonic(Op::NOT) { Some(Op::NOT) }
    else if s == spec_mnemonic(Op::RMEM) { Some(Op::RMEM) }
    else if s == spec_mnemonic(Op::WMEM) { Some(Op::WMEM) }
    else if s == spec_mnemonic(Op::CALL) { Some(Op::CALL) }
    else if s == spec_mnemonic(Op::RET) { Some(Op::RET) }
    else if s == spec_mnemonic(Op::OUT) { Some(Op::OUT) }
    else if s == spec_mnemonic(Op::IN) { Some(Op::IN) }
    else if s == spec_mnemonic(Op::NOOP) { Some(Op::NOOP) }
    else { None }
}

/// The numeric opcode a token parses to, if any.
pub open spec fn spec_op_from_str_code(s: Seq<char>) -> Option<u16> {
    match spec_op_from_str(s) {
        Some(op) => Some(spec_op_code(op)),
        None => None,
    }
}

/// The text an opcode or data word prints as: a padded mnemonic for a valid
/// opcode, a register name for a word in the alias range, four hex digits
/// otherwise.  Raw data words following an instruction must still print the
/// operand the same way the engine would read it.
pub open spec fn spec_op_text(op: Op) -> Seq<char> {
    match op {
        Op::RegOrData(n) => {
            if spec_is_reg_alias(n) { spec_reg_name(n - 0x8000) } else { spec_hex4(n) }
        },
        _ => spec_padded_mnemonic(op),
    }
}

impl Op {
    /// Decodes a word into an opcode; any value outside the valid set becomes
    /// the catch-all tag, never an undefined state.
    pub fn from_u16(n: u16) -> (r: Op)
        ensures
            r == spec_op_of(n),
    {
        if n == 0 { Op::HALT }
        else if n == 1 { Op::SET }
        else if n == 2 { Op::PUSH }
        else if n == 3 { Op::POP }
        else if n == 4 { Op::EQ }
        else if n == 5 { Op::GT }
        else if n == 6 { Op::JMP }
        else if n == 7 { Op::JT }
        else if n == 8 { Op::JF }
        else if n == 9 { Op::ADD }
        else if n == 10 { Op::MULT }
        else if n == 11 { Op::MOD }
        else if n == 12 { Op::AND }
        else if n == 13 { Op::OR }
        else if n == 14 { Op::NOT }
        else if n == 15 { Op::RMEM }
        else if n == 16 { Op::WMEM }
        else if n == 17 { Op::CALL }
        else if n == 18 { Op::RET }
        else if n == 19 { Op::OUT }
        else if n == 20 { Op::IN }
        else if n == 21 { Op::NOOP }
        else { Op::RegOrData(n) }
    }

    /// Encodes an opcode back into its numeric value.
    pub fn to_u16(self) -> (r: u16)
        ensures
            r == spec_op_code(self),
    {
        match self {
            Op::HALT => 0,
            Op::SET => 1,
            Op::PUSH => 2,
            Op::POP => 3,
            Op::EQ => 4,
            Op::GT => 5,
            Op::JMP => 6,
            Op::JT => 7,
            Op::JF => 8,
            Op::ADD => 9,
            Op::MULT => 10,
            Op::MOD => 11,
            Op::AND => 12,
            Op::OR => 13,
            Op::NOT => 14,
            Op::RMEM => 15,
            Op::WMEM => 16,
            Op::CALL => 17,
            Op::RET => 18,
            Op::OUT => 19,
            Op::IN => 20,
            Op::NOOP => 21,
            Op::RegOrData(x) => x,
        }
    }

    /// Parses a bare mnemonic; mnemonics are case-sensitive upper case.
    pub fn from_str(s: &str) -> (r: Option<Op>)
        ensures
            r == spec_op_from_str(s@),
    {
        if str_eq(s, "HALT") { Some(Op::HALT) }
        else if str_eq(s, "SET") { Some(Op::SET) }
        else if str_eq(s, "PUSH") { Some(Op::PUSH) }
        else if str_eq(s, "POP") { Some(Op::POP) }
        else if str_eq(s, "EQ") { Some(Op::EQ) }
        else if str_eq(s, "GT") { Some(Op::GT) }
        else if str_eq(s, "JMP") { Some(Op::JMP) }
        else if str_eq(s, "JT") { Some(Op::JT) }
        else if str_eq(s, "JF") { Some(Op::JF) }
        else if str_eq(s, "ADD") { Some(Op::ADD) }
        else if str_eq(s, "MULT") { Some(Op::MULT) }
        else if str_eq(s, "MOD") { Some(Op::MOD) }
        else if str_eq(s, "AND") { Some(Op::AND) }
        else if str_eq(s, "OR") { Some(Op::OR) }
        else if str_eq(s, "NOT") { Some(Op::NOT) }
        else if str_eq(s, "RMEM") { Some(Op::RMEM) }
        else if str_eq(s, "WMEM") { Some(Op::WMEM) }
        else if str_eq(s, "CALL") { Some(Op::CALL) }
        else if str_eq(s, "RET") { Some(Op::RET) }
        else if str_eq(s, "OUT") { Some(Op::OUT) }
        else if str_eq(s, "IN") { Some(Op::IN) }
        else if str_eq(s, "NOOP") { Some(Op::NOOP) }
        else { None }
    }

    /// Whether a word is a valid numeric opcode.
    pub fn is_op(n: u16) -> (r: bool)
        ensures
            r == spec_is_op(n),
    {
        n < TOTAL_OP_COUNT
    }

    /// The operand arity of this opcode.
    pub fn arg_count(&self) -> (r: usize)
        ensures
            r == spec_arg_count(*self),
    {
        match self {
            Op::HALT => 0,
            Op::SET => 2,
            Op::PUSH => 1,
            Op::POP => 1,
            Op::EQ => 3,
            Op::GT => 3,
            Op::JMP => 1,
            Op::JT => 2,
            Op::JF => 2,
            Op::ADD => 3,
            Op::MULT => 3,
            Op::MOD => 3,
            Op::AND => 3,
            Op::OR => 3,
            Op::NOT => 2,
            Op::RMEM => 2,
            Op::WMEM => 2,
            Op::CALL => 1,
            Op::RET => 0,
            Op::OUT => 1,
            Op::IN => 1,
            Op::NOOP => 0,
            Op::RegOrData(_) => 0,
        }
    }

    /// The fixed name of register `k`.
    pub fn reg_name(k: u16) -> (r: &'static str)
        requires
            k < 8,
        ensures
            r@ == spec_reg_name(k as int),
    {
        if k == 0 { "AX" }
        else if k == 1 { "BX" }
        else if k == 2 { "CX" }
        else if k == 3 { "DX" }
        else if k == 4 { "EX" }
        else if k == 5 { "FX" }
        else if k == 6 { "GX" }
        else { "HX" }
    }

    /// Appends this opcode's printed text.
    pub fn push_text(&self, out: &mut Vec<char>)
        ensures
            final(out)@ == old(out)@ + spec_op_text(*self),
    {
        match self {
            Op::HALT => push_str_chars(out, "HALT"),
            Op::SET => push_str_chars(out, " SET"),
            Op::PUSH => push_str_chars(out, "PUSH"),
            Op::POP => push_str_chars(out, " POP"),
            Op::EQ => push_str_chars(out, "  EQ"),
            Op::GT => push_str_chars(out, "  GT"),
            Op::JMP => push_str_chars(out, " JMP"),
            Op::JT => push_str_chars(out, "  JT"),
            Op::JF => push_str_chars(out, "  JF"),
            Op::ADD => push_str_chars(out, " ADD"),
            Op::MULT => push_str_chars(out, "MULT"),
            Op::MOD => push_str_chars(out, " MOD"),
            Op::AND => push_str_chars(out, " AND"),
            Op::OR => push_str_chars(out, "  OR"),
            Op::NOT => push_str_chars(out, " NOT"),
            Op::RMEM => push_str_chars(out, "RMEM"),
            Op::WMEM => push_str_chars(out, "WMEM"),
            Op::CALL => push_str_chars(out, "CALL"),
            Op::RET => push_str_chars(out, " RET"),
            Op::OUT => push_str_chars(out, " OUT"),
            Op::IN => push_str_chars(out, "  IN"),
            Op::NOOP => push_str_chars(out, "NOOP"),
            Op::RegOrData(n) => {
                if 0x8000 <= *n && *n <= 0x8007 {
                    push_str_chars(out, Op::reg_name(*n - 0x8000));
                } else {
                    push_hex4(out, *n);
                }
            },
        }
    }

    /// This opcode's printed text.
    pub fn to_text(&self) -> (r: String)
        ensures
            r@ == spec_op_text(*self),
    {
        let mut out: Vec<char> = Vec::new();
        self.push_text(&mut out);
        chars_to_string(&out)
    }
}

} // verus!
