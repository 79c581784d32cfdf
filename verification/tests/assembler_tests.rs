use synacor_vm::assembler::assemble;
use synacor_vm::compiler::{parse_instruction, Compiler};
use synacor_vm::error::Error;
use synacor_vm::types::{u15, OpCode};
use synacor_vm::vm::op::Op;
use synacor_vm::vm::VirtualMachine;

#[test]
fn assemble_mnemonics_registers_and_literals() {
    let bytes = assemble("OUT 41 HALT").unwrap();
    assert_eq!(bytes, vec![19, 0, 0x41, 0, 0, 0]);
    let bytes = assemble("SET AX 0x7fff").unwrap();
    assert_eq!(bytes, vec![1, 0, 0x00, 0x80, 0xff, 0x7f]);
}

#[test]
fn assemble_resolves_labels_to_next_word_offset() {
    // The label names the offset of the token after it.
    let bytes = assemble("JMP foo 0 foo: OUT AX").unwrap();
    assert_eq!(bytes, vec![6, 0, 3, 0, 0, 0, 19, 0, 0x00, 0x80]);
}

#[test]
fn assemble_strips_comment_lines() {
    let with_comment = assemble("# a comment line\nOUT 41\nHALT").unwrap();
    let without = assemble("OUT 41 HALT").unwrap();
    assert_eq!(with_comment, without);
}

#[test]
fn assemble_rejects_unresolvable_tokens() {
    assert_eq!(assemble("XYZ"), Err(Error::ParseIntErr));
    assert_eq!(assemble("OUT 0xZZ"), Err(Error::ParseIntErr));
    assert_eq!(assemble("OUT 10000000"), Err(Error::ParseIntErr));
}

#[test]
fn disassemble_renders_mnemonics_operands_and_data() {
    let vm = VirtualMachine::new()
        .load_bytecode(&[19, 0, 65, 0, 0, 0])
        .unwrap();
    assert_eq!(vm.disassemble(false), "\n OUT\t0041\nHALT");
}

#[test]
fn disassemble_renders_register_operands_by_name() {
    let vm = VirtualMachine::new()
        .load_bytecode(&[1, 0, 0x00, 0x80, 5, 0])
        .unwrap();
    assert_eq!(vm.disassemble(false), "\n SET\tAX\t0005");
}

#[test]
fn disassemble_addresses_only_opcode_lines() {
    let vm = VirtualMachine::new()
        .load_bytecode(&[19, 0, 65, 0])
        .unwrap();
    assert_eq!(vm.disassemble(true), "\n0x0000:\t OUT\t0041");
}

#[test]
fn assemble_disassemble_round_trip() {
    let bytes: Vec<u8> = vec![
        19, 0, 65, 0, // OUT 65
        1, 0, 0x00, 0x80, // SET AX ...
        7, 0, 0x03, 0x80, // data in the alias range
        0x34, 0x12, // raw data
        22, 0, // data just past the opcode range
        0, 0, // HALT
    ];
    let vm = VirtualMachine::new().load_bytecode(&bytes).unwrap();
    let plain = assemble(&vm.disassemble(false)).unwrap();
    assert_eq!(plain, bytes);
    let addressed = assemble(&vm.disassemble(true)).unwrap();
    assert_eq!(addressed, bytes);
}

#[test]
fn compiler_loads_and_compiles_tokens() {
    let compiler = Compiler::new().load("start: SET R1 0x05 -> |note".to_string());
    let bytes = compiler.compile().unwrap();
    assert_eq!(bytes, vec![1, 0, 0x00, 0x80, 5, 0]);
}

#[test]
fn compiler_rejects_unknown_tokens() {
    let compiler = Compiler::new().load("SET zz".to_string());
    assert_eq!(compiler.compile(), Err(Error::ParseIntErr));
    let compiler = Compiler::new().load("R".to_string());
    assert_eq!(compiler.compile(), Err(Error::ParseIntErr));
}

#[test]
fn parse_instruction_resolves_each_form() {
    assert_eq!(parse_instruction("HALT"), Some(0));
    assert_eq!(parse_instruction("NOOP"), Some(21));
    assert_eq!(parse_instruction("R1"), Some(32768));
    assert_eq!(parse_instruction("R8"), Some(32775));
    assert_eq!(parse_instruction("0x1f"), Some(0x1f));
    assert_eq!(parse_instruction("x"), None);
}

#[test]
fn opcode_table_round_trips() {
    for n in 0..22u16 {
        let op = Op::from_u16(n);
        assert_eq!(op.to_u16(), n);
        assert!(Op::is_op(n));
        let code = OpCode::from_u16(n).unwrap();
        assert_eq!(code.to_u16(), n);
    }
    assert!(!Op::is_op(22));
    assert!(OpCode::from_u16(22).is_none());
    assert_eq!(Op::from_u16(22).to_u16(), 22);
}

#[test]
fn op_from_str_is_case_sensitive() {
    assert_eq!(Op::from_str("ADD"), Some(Op::ADD));
    assert_eq!(Op::from_str("add"), None);
    assert!(OpCode::from_str("MULT").is_some());
    assert!(OpCode::from_str("mult").is_none());
}

#[test]
fn op_text_renders_registers_and_hex() {
    assert_eq!(Op::from_u16(0x8000).to_text(), "AX");
    assert_eq!(Op::from_u16(0x8007).to_text(), "HX");
    assert_eq!(Op::from_u16(0x1234).to_text(), "1234");
    assert_eq!(Op::SET.to_text(), " SET");
    assert_eq!(Op::from_u16(1).arg_count(), 2);
    assert_eq!(Op::from_u16(9).arg_count(), 3);
}

#[test]
fn u15_arithmetic_wraps() {
    assert_eq!(u15::new(32767).add(u15::new(1)).to_u16(), 0);
    assert_eq!(u15::new(32767).mul(u15::new(2)).to_u16(), 32766);
    assert_eq!(u15::new(0).not().to_u16(), 32767);
    assert_eq!(u15::new(6).sub(u15::new(10)).to_u16(), 32764);
    assert_eq!(u15::new(17).rem(u15::new(5)).to_u16(), 2);
    assert_eq!(u15::new(12).bitand(u15::new(10)).to_u16(), 8);
    assert_eq!(u15::new(12).bitor(u15::new(10)).to_u16(), 14);
}

#[test]
fn u15_increment_and_decrement_wrap() {
    let mut x = u15::new(32767);
    x.increment();
    assert_eq!(x.to_u16(), 0);
    assert!(x.is_zero());
    assert!(x.is_false());
    x.decrement();
    assert_eq!(x.to_u16(), 32767);
    assert!(x.is_non_zero());
    assert!(x.is_true());
    assert_eq!(x.to_usize(), 32767);
}

#[test]
fn assemble_empty_input_yields_no_bytes() {
    assert_eq!(assemble(""), Ok(Vec::new()));
    assert_eq!(assemble("# only a comment\n"), Ok(Vec::new()));
}

#[test]
fn assemble_last_label_definition_wins() {
    // Both labels name `x`; the later definition binds the name.
    let bytes = assemble("JMP x x: 0 x: OUT 41").unwrap();
    assert_eq!(bytes, vec![6, 0, 3, 0, 0, 0, 19, 0, 0x41, 0]);
}

#[test]
fn assemble_accepts_plus_prefixed_hex() {
    assert_eq!(assemble("OUT +41").unwrap(), vec![19, 0, 0x41, 0]);
}

#[test]
fn disassemble_of_a_fresh_machine_is_empty() {
    assert_eq!(VirtualMachine::new().disassemble(false), "");
    assert_eq!(VirtualMachine::new().disassemble(true), "");
}
