use synacor_vm::error::Error;
use synacor_vm::vm::{RunStatus, StepEvent, VirtualMachine, VirtualMachineState};

fn words_to_bytes(words: &[u16]) -> Vec<u8> {
    let mut out = Vec::new();
    for w in words {
        out.push((w % 0x100) as u8);
        out.push((w / 0x100) as u8);
    }
    out
}

fn loaded(words: &[u16]) -> VirtualMachine {
    VirtualMachine::new()
        .load_bytecode(&words_to_bytes(words))
        .unwrap()
}

#[test]
fn out_literal_prints_and_halts() {
    // OUT 65; HALT
    let mut vm = VirtualMachine::new()
        .load_bytecode(&[19, 0, 65, 0, 0, 0])
        .unwrap();
    let (out, status) = vm.run_with_input(&Vec::new(), 100);
    assert_eq!(out, b"A".to_vec());
    assert_eq!(status, Ok(RunStatus::Halted));
}

#[test]
fn jump_taken_with_register_value() {
    // SET AX 4; JT AX 7; HALT; OUT AX; HALT
    let mut vm = loaded(&[1, 32768, 4, 7, 32768, 7, 0, 19, 32768, 0]);
    let (out, status) = vm.run_with_input(&Vec::new(), 100);
    assert_eq!(status, Ok(RunStatus::Halted));
    assert_eq!(out, vec![4u8]);
}

#[test]
fn add_wraps_modulo_32768() {
    // ADD AX 32767 1; HALT
    let mut vm = loaded(&[9, 32768, 32767, 1, 0]);
    let (_, status) = vm.run_with_input(&Vec::new(), 100);
    assert_eq!(status, Ok(RunStatus::Halted));
    assert_eq!(vm.read_reg(32768).unwrap(), 0);
}

#[test]
fn mult_wraps_modulo_32768() {
    // MULT AX 32767 2; HALT
    let mut vm = loaded(&[10, 32768, 32767, 2, 0]);
    let (_, status) = vm.run_with_input(&Vec::new(), 100);
    assert_eq!(status, Ok(RunStatus::Halted));
    assert_eq!(vm.read_reg(32768).unwrap(), 32766);
}

#[test]
fn not_is_fifteen_bit_complement() {
    // NOT AX 0; HALT
    let mut vm = loaded(&[14, 32768, 0, 0]);
    let (_, status) = vm.run_with_input(&Vec::new(), 100);
    assert_eq!(status, Ok(RunStatus::Halted));
    assert_eq!(vm.read_reg(32768).unwrap(), 32767);
}

#[test]
fn register_alias_write_and_read() {
    let mut vm = VirtualMachine::new();
    vm.write_reg(32768 + 3, 77).unwrap();
    assert_eq!(vm.read_reg(32768 + 3).unwrap(), 77);
}

#[test]
fn value_operand_substitutes_register_content() {
    // SET AX 123; OUT AX; HALT: the OUT operand holds the alias address but
    // prints the register's content.
    let mut vm = loaded(&[1, 32768, 123, 19, 32768, 0]);
    let (out, status) = vm.run_with_input(&Vec::new(), 100);
    assert_eq!(status, Ok(RunStatus::Halted));
    assert_eq!(out, vec![123u8]);
}

#[test]
fn ret_on_empty_stack_halts_cleanly() {
    // RET
    let mut vm = loaded(&[18]);
    let (out, status) = vm.run_with_input(&Vec::new(), 100);
    assert_eq!(status, Ok(RunStatus::Halted));
    assert!(out.is_empty());
}

#[test]
fn pop_on_empty_stack_is_an_error() {
    // POP AX
    let mut vm = loaded(&[3, 32768]);
    let (_, status) = vm.run_with_input(&Vec::new(), 100);
    assert_eq!(status, Err(Error::PopFromEmptyStack { pc: 1 }));
}

#[test]
fn call_and_ret_round_trip() {
    // CALL 3; HALT; RET -- returns to address 2 and halts.
    let mut vm = loaded(&[17, 3, 0, 18]);
    let (_, status) = vm.run_with_input(&Vec::new(), 100);
    assert_eq!(status, Ok(RunStatus::Halted));
}

#[test]
fn push_pop_move_values() {
    // PUSH 42; POP AX; OUT AX; HALT
    let mut vm = loaded(&[2, 42, 3, 32768, 19, 32768, 0]);
    let (out, status) = vm.run_with_input(&Vec::new(), 100);
    assert_eq!(status, Ok(RunStatus::Halted));
    assert_eq!(out, vec![42u8]);
}

#[test]
fn wmem_and_rmem_round_trip() {
    // WMEM 10 65; RMEM AX 10; OUT AX; HALT
    let mut vm = loaded(&[16, 10, 65, 15, 32768, 10, 19, 32768, 0]);
    let (out, status) = vm.run_with_input(&Vec::new(), 100);
    assert_eq!(status, Ok(RunStatus::Halted));
    assert_eq!(out, b"A".to_vec());
}

#[test]
fn eq_gt_and_jf() {
    // EQ AX 5 5; JF AX 0; OUT AX; HALT -- AX becomes 1, JF not taken, prints 1.
    let mut vm = loaded(&[4, 32768, 5, 5, 8, 32768, 0, 19, 32768, 0]);
    let (out, status) = vm.run_with_input(&Vec::new(), 100);
    assert_eq!(status, Ok(RunStatus::Halted));
    assert_eq!(out, vec![1u8]);
}

#[test]
fn in_consumes_one_byte_per_instruction() {
    // IN AX; OUT AX; HALT
    let mut vm = loaded(&[20, 32768, 19, 32768, 0]);
    let (out, status) = vm.run_with_input(&b"Z".to_vec(), 100);
    assert_eq!(status, Ok(RunStatus::Halted));
    assert_eq!(out, b"Z".to_vec());
}

#[test]
fn in_without_input_blocks() {
    let mut vm = loaded(&[20, 32768, 0]);
    let (out, status) = vm.run_with_input(&Vec::new(), 100);
    assert_eq!(status, Ok(RunStatus::NeedInput));
    assert!(out.is_empty());
}

#[test]
fn step_reports_need_input_without_advancing() {
    let mut vm = loaded(&[20, 32768, 0]);
    assert_eq!(vm.step(None), Ok(StepEvent::NeedInput));
    assert_eq!(vm.pc(), 0);
    assert_eq!(vm.step(Some(b'x')), Ok(StepEvent::Consumed));
    assert_eq!(vm.read_reg(32768).unwrap(), b'x' as u16);
}

#[test]
fn invalid_opcode_is_a_fatal_error() {
    let mut vm = loaded(&[22, 0]);
    let (_, status) = vm.run_with_input(&Vec::new(), 100);
    assert_eq!(status, Err(Error::InvalidOperation { pc: 0, operation: 22 }));
}

#[test]
fn mod_with_zero_modulus_is_invalid() {
    // MOD AX 5 0
    let mut vm = loaded(&[11, 32768, 5, 0]);
    let (_, status) = vm.run_with_input(&Vec::new(), 100);
    assert_eq!(status, Err(Error::InvalidOperation { pc: 0, operation: 11 }));
}

#[test]
fn mod_computes_remainder() {
    // MOD AX 17 5; OUT AX; HALT
    let mut vm = loaded(&[11, 32768, 17, 5, 19, 32768, 0]);
    let (out, status) = vm.run_with_input(&Vec::new(), 100);
    assert_eq!(status, Ok(RunStatus::Halted));
    assert_eq!(out, vec![2u8]);
}

#[test]
fn and_or_are_bitwise() {
    // AND AX 12 10; OR BX 12 10; OUT AX; OUT BX; HALT
    let mut vm = loaded(&[12, 32768, 12, 10, 13, 32769, 12, 10, 19, 32768, 19, 32769, 0]);
    let (out, status) = vm.run_with_input(&Vec::new(), 100);
    assert_eq!(status, Ok(RunStatus::Halted));
    assert_eq!(out, vec![8u8, 14u8]);
}

#[test]
fn write_beyond_address_space_is_out_of_bounds() {
    // SET with a destination beyond the alias range writes out of bounds.
    let mut vm = loaded(&[1, 0x9000, 5, 0]);
    let (_, status) = vm.run_with_input(&Vec::new(), 100);
    assert_eq!(status, Err(Error::MemOutOfBoundsAccess { pc: 2 }));
}

#[test]
fn invalid_register_address() {
    let vm = VirtualMachine::new();
    assert_eq!(
        vm.read_reg(5),
        Err(Error::InvalidRegister { pc: 0, register: 5 })
    );
    assert_eq!(
        vm.read_reg(32776),
        Err(Error::InvalidRegister {
            pc: 0,
            register: 32776
        })
    );
}

#[test]
fn load_rejects_odd_length() {
    assert_eq!(
        VirtualMachine::new().load_bytecode(&[19]).err(),
        Some(Error::BadBytecodeFormat)
    );
    let oversized_odd = vec![0u8; 65537];
    assert_eq!(
        VirtualMachine::new().load_bytecode(&oversized_odd).err(),
        Some(Error::BadBytecodeFormat)
    );
}

#[test]
fn load_rejects_oversized_bytecode() {
    let oversized = vec![0u8; 65538];
    assert_eq!(
        VirtualMachine::new().load_bytecode(&oversized).err(),
        Some(Error::BadBytecodeLength(65538))
    );
    let exact = vec![0u8; 65536];
    assert!(VirtualMachine::new().load_bytecode(&exact).is_ok());
}

#[test]
fn out_of_fuel_reports_itself() {
    // JMP 0 loops forever.
    let mut vm = loaded(&[6, 0]);
    let (_, status) = vm.run_with_input(&Vec::new(), 10);
    assert_eq!(status, Ok(RunStatus::OutOfFuel));
}

#[test]
fn snapshot_round_trips_through_save_and_load() {
    let mut vm = loaded(&[19, 0, 65, 0, 0, 0]);
    vm.write_reg(32768, 11).unwrap();
    vm.write_reg(32775, 22).unwrap();
    vm.set_pc(7);
    let state = VirtualMachineState::new(&vm);
    assert_eq!(state.mem.len(), 32768);
    assert_eq!(state.reg, vec![11, 0, 0, 0, 0, 0, 0, 22]);
    assert_eq!(state.pc, 7);

    let mut vm2 = VirtualMachine::new();
    vm2.load_state(&state);
    let state2 = VirtualMachineState::new(&vm2);
    assert_eq!(state2.mem, state.mem);
    assert_eq!(state2.reg, state.reg);
    assert_eq!(state2.stack, state.stack);
    assert_eq!(state2.pc, state.pc);
}

#[test]
fn snapshot_load_zero_pads_short_memory() {
    let mut vm = loaded(&[19, 0, 65, 0]);
    let state = VirtualMachineState {
        mem: vec![5, 6],
        reg: vec![1, 2, 3, 4, 5, 6, 7, 8],
        stack: vec![9, 10],
        pc: 1,
    };
    vm.load_state(&state);
    let captured = VirtualMachineState::new(&vm);
    assert_eq!(captured.mem.len(), 32768);
    assert_eq!(captured.mem[0], 5);
    assert_eq!(captured.mem[1], 6);
    assert_eq!(captured.mem[2], 0);
    assert_eq!(captured.reg, state.reg);
    assert_eq!(captured.stack, state.stack);
    assert_eq!(captured.pc, 1);
}

#[test]
fn error_messages_carry_context() {
    assert_eq!(
        Error::BadBytecodeFormat.message(),
        "Invalid bytecode format."
    );
    assert_eq!(
        Error::BadBytecodeLength(65538).message(),
        "Bytecode of length 65538 exceeds memory address space of 32768."
    );
    assert_eq!(
        Error::InvalidOperation {
            pc: 16,
            operation: 22
        }
        .message(),
        "Invalid operation 0x0016 at 0x0010."
    );
    assert_eq!(
        Error::PopFromEmptyStack { pc: 1 }.message(),
        "Attempted to pop value out of empty stack at 0x0001."
    );
    assert_eq!(
        Error::MemOutOfBoundsAccess { pc: 2 }.message(),
        "Attempted to access out of bounds memory address at 0x0002."
    );
    assert_eq!(
        Error::InvalidRegister {
            pc: 0,
            register: 5
        }
        .message(),
        "Invalid register address 0x0005 at 0x0000."
    );
    assert_eq!(Error::ParseIntErr.message(), "ParseInt error.");
}
