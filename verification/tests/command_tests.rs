use synacor_vm::error::Error;
use synacor_vm::vm::command::{
    Command, CommandAction, CommandExecutor, DisassembleCommand, ExitCommand, LoadCommand,
    PrintRegisterCommand, PrintStackCommand, SaveCommand, SetRegisterCommand, VmHelpCommand,
};
use synacor_vm::vm::input_buffer::InputBuffer;
use synacor_vm::vm::mem::Memory;
use synacor_vm::vm::reg::Registers;
use synacor_vm::vm::VirtualMachine;

fn args(items: &[&str]) -> Vec<String> {
    items.iter().map(|s| s.to_string()).collect()
}

#[test]
fn command_names_resolve() {
    for name in [
        "vmhelp",
        "exit",
        "save",
        "load",
        "disassemble",
        "setreg",
        "printreg",
        "printstack",
    ] {
        assert!(Command::from_name(name).is_some(), "{name} should resolve");
    }
    assert!(Command::from_name("frobnicate").is_none());
    assert_eq!(Command::list().len(), 8);
}

#[test]
fn help_text_lists_name_and_description() {
    let cmd = Command::from_name("save").unwrap();
    assert_eq!(cmd.help_text(), "    save\tSaves the vm state to a file");
    assert_eq!(cmd.required_args(), 1);
}

#[test]
fn dash_dash_help_prints_usage() {
    let cmd = Command::from_name("save").unwrap();
    let mut vm = VirtualMachine::new();
    match cmd.run(&args(&["--help"]), &mut vm).unwrap() {
        CommandAction::Print(text) => assert!(text.contains("save <out_file>")),
        _ => panic!("expected usage text"),
    }
}

#[test]
fn missing_arguments_print_usage() {
    let cmd = Command::from_name("load").unwrap();
    let mut vm = VirtualMachine::new();
    match cmd.run(&args(&[]), &mut vm).unwrap() {
        CommandAction::Print(text) => {
            assert!(text.starts_with("Not enough arguments given."));
            assert!(text.contains("load <state_file>"));
        },
        _ => panic!("expected usage text"),
    }
}

#[test]
fn exit_command_requests_unwinding() {
    let cmd = Command::from_name("exit").unwrap();
    let mut vm = VirtualMachine::new();
    assert!(matches!(
        cmd.run(&args(&[]), &mut vm).unwrap(),
        CommandAction::Exit
    ));
}

#[test]
fn save_load_and_disassemble_ask_the_driver() {
    let mut vm = VirtualMachine::new();
    match Command::from_name("save")
        .unwrap()
        .run(&args(&["state.ron"]), &mut vm)
        .unwrap()
    {
        CommandAction::SaveState(path) => assert_eq!(path, "state.ron"),
        _ => panic!("expected a save request"),
    }
    match Command::from_name("load")
        .unwrap()
        .run(&args(&["state.ron"]), &mut vm)
        .unwrap()
    {
        CommandAction::LoadState(path) => assert_eq!(path, "state.ron"),
        _ => panic!("expected a load request"),
    }
    match Command::from_name("disassemble")
        .unwrap()
        .run(&args(&["out.asm", "--with-addresses"]), &mut vm)
        .unwrap()
    {
        CommandAction::WriteDisassembly(path, with_addresses) => {
            assert_eq!(path, "out.asm");
            assert!(with_addresses);
        },
        _ => panic!("expected a disassembly request"),
    }
}

#[test]
fn setreg_writes_the_register() {
    let cmd = Command::from_name("setreg").unwrap();
    let mut vm = VirtualMachine::new();
    assert!(matches!(
        cmd.run(&args(&["CX", "123"]), &mut vm).unwrap(),
        CommandAction::Done
    ));
    assert_eq!(vm.read_reg(32770).unwrap(), 123);
}

#[test]
fn setreg_reports_bad_value_and_register() {
    let cmd = Command::from_name("setreg").unwrap();
    let mut vm = VirtualMachine::new();
    match cmd.run(&args(&["AX", "bogus"]), &mut vm).unwrap() {
        CommandAction::Print(text) => {
            assert_eq!(text, "Could not parse \"bogus\" as u16")
        },
        _ => panic!("expected a parse complaint"),
    }
    match cmd.run(&args(&["ZX", "1"]), &mut vm).unwrap() {
        CommandAction::Print(text) => assert!(text.starts_with("Invalid register given: ZX")),
        _ => panic!("expected a register complaint"),
    }
    assert_eq!(vm.read_reg(32768).unwrap(), 0);
}

#[test]
fn printreg_reports_values_in_hex() {
    let mut vm = VirtualMachine::new();
    vm.write_reg(32769, 0xabc).unwrap();
    let cmd = Command::from_name("printreg").unwrap();
    match cmd.run(&args(&["BX"]), &mut vm).unwrap() {
        CommandAction::Print(text) => assert_eq!(text, "Register BX: 0abc"),
        _ => panic!("expected a register report"),
    }
    match cmd.run(&args(&["--all"]), &mut vm).unwrap() {
        CommandAction::Print(text) => {
            assert!(text.starts_with("Register values: , AX: 0000, BX: 0abc"));
            assert!(text.ends_with(", HX: 0000"));
        },
        _ => panic!("expected a register report"),
    }
}

#[test]
fn printstack_reports_values_in_decimal() {
    let mut vm = VirtualMachine::new();
    let cmd = Command::from_name("printstack").unwrap();
    match cmd.run(&args(&[]), &mut vm).unwrap() {
        CommandAction::Print(text) => assert_eq!(text, "Stack values: []"),
        _ => panic!("expected a stack report"),
    }
    vm.set_stack(vec![3, 32767]);
    match cmd.run(&args(&[]), &mut vm).unwrap() {
        CommandAction::Print(text) => assert_eq!(text, "Stack values: [3, 32767]"),
        _ => panic!("expected a stack report"),
    }
}

#[test]
fn escape_line_becomes_a_command() {
    let mut buffer = InputBuffer::new();
    let (cmd, cmd_args) = buffer
        .process_input(&b"!setreg AX 5\n".to_vec())
        .expect("a command");
    let mut vm = VirtualMachine::new();
    assert!(matches!(
        cmd.run(&cmd_args, &mut vm).unwrap(),
        CommandAction::Done
    ));
    assert_eq!(vm.read_reg(32768).unwrap(), 5);
    assert!(!buffer.has_byte());
}

#[test]
fn unknown_escape_line_feeds_no_program_bytes() {
    let mut buffer = InputBuffer::new();
    assert!(buffer.process_input(&b"!frobnicate\n".to_vec()).is_none());
    assert!(!buffer.has_byte());
}

#[test]
fn plain_line_is_yielded_byte_by_byte() {
    let mut buffer = InputBuffer::new();
    assert!(buffer.process_input(&b"hi\n".to_vec()).is_none());
    assert_eq!(buffer.read_byte(), b'h');
    assert_eq!(buffer.read_byte(), b'i');
    assert_eq!(buffer.read_byte(), b'\n');
    assert!(!buffer.has_byte());
    // While processing, a new line is not accepted until standby.
    assert!(buffer.process_input(&b"!exit\n".to_vec()).is_none());
    buffer.standby();
    assert!(buffer.process_input(&b"!exit\n".to_vec()).is_some());
}

#[test]
fn buffered_line_splits_into_words() {
    let mut buffer = InputBuffer::new();
    assert!(buffer.process_input(&b"save  out.ron\n".to_vec()).is_none());
    assert_eq!(buffer.to_string(), "save  out.ron\n");
    assert_eq!(buffer.to_words(), vec!["save".to_string(), "out.ron".to_string()]);
}

#[test]
fn memory_is_bounds_checked() {
    let mut mem = Memory::new();
    assert_eq!(mem.read(), Ok(0));
    mem.write(0, 42).unwrap();
    assert_eq!(mem.read(), Ok(42));
    assert_eq!(mem.read_char(), Ok('*'));
    assert_eq!(
        mem.write(32768, 1),
        Err(Error::MemOutOfBoundsAccess { pc: 0 })
    );
    mem.next();
    assert_eq!(mem.read(), Ok(0));
}

#[test]
fn register_file_checks_the_alias_range() {
    let mut regs = Registers::new();
    assert!(regs.write(32768, 7).is_ok());
    assert!(regs.write(32775, 7).is_ok());
    // A low address must not silently alias a register.
    assert_eq!(
        regs.write(3, 7),
        Err(Error::InvalidRegister { pc: 0, register: 3 })
    );
    assert_eq!(
        regs.write(32776, 7),
        Err(Error::InvalidRegister {
            pc: 0,
            register: 32776
        })
    );
}

#[test]
fn command_executors_expose_the_table() {
    assert_eq!(VmHelpCommand.name(), "vmhelp");
    assert_eq!(ExitCommand.name(), "exit");
    assert_eq!(SaveCommand.name(), "save");
    assert_eq!(LoadCommand.name(), "load");
    assert_eq!(DisassembleCommand.name(), "disassemble");
    assert_eq!(SetRegisterCommand.name(), "setreg");
    assert_eq!(PrintRegisterCommand.name(), "printreg");
    assert_eq!(PrintStackCommand.name(), "printstack");
    assert_eq!(SaveCommand.descr(), "Saves the vm state to a file");
    assert_eq!(SetRegisterCommand.required_args(), 2);
    assert!(PrintStackCommand.usage(true).starts_with("Print Stack Value"));
    let mut vm = VirtualMachine::new();
    let two = vec!["DX".to_string(), "9".to_string()];
    assert!(matches!(
        SetRegisterCommand.exec(&two, &mut vm).unwrap(),
        CommandAction::Done
    ));
    assert_eq!(vm.read_reg(32771).unwrap(), 9);
}
