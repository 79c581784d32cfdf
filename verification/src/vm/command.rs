//! The runtime debug command set, reachable only through the input
//! interceptor's escape mechanism: help, exit, save, load, disassemble,
//! register and stack inspection.  Each command validates its own argument
//! count and asks for usage text rather than erroring the machine.
//!
//! A command does not perform input or output itself: it returns a
//! [`CommandAction`] telling the driver what to print, write or read, so an
//! exit request unwinds to the top of the run loop instead of terminating
//! the process out-of-band.

use vstd::prelude::*;
use vstd::string::StringExecFns;
use crate::assembler::spec_reg_from_name;
use crate::compiler::{parse_dec, spec_parse_dec};
use crate::error::Error;
use crate::text::{chars_to_string, push_hex4, push_str_chars, spec_hex4, str_eq, str_to_chars};
use crate::vm::{MState, VirtualMachine};

verus! {

/// What a debug command asks the driver to do.
pub enum CommandAction {
    /// Report text to the operator and return to the fetch loop.
    Print(String),
    /// Unwind to the top of the run loop and stop cleanly.
    Exit,
    /// Serialize the machine state to the named file.
    SaveState(String),
    /// Read a machine state back from the named file.
    LoadState(String),
    /// Write the disassembly to the named file, optionally addressed.
    WriteDisassembly(String, bool),
    /// Nothing further: the command already acted on the machine.
    Done,
}

/// The ghost mirror of a command action.
pub ghost enum SpecAction {
    Print(Seq<char>),
    Exit,
    SaveState(Seq<char>),
    LoadState(Seq<char>),
    WriteDisassembly(Seq<char>, bool),
    Done,
}

/// The ghost value of an action.
pub open spec fn action_view(a: CommandAction) -> SpecAction {
    match a {
        CommandAction::Print(s) => SpecAction::Print(s@),
        CommandAction::Exit => SpecAction::Exit,
        CommandAction::SaveState(s) => SpecAction::SaveState(s@),
        CommandAction::LoadState(s) => SpecAction::LoadState(s@),
        CommandAction::WriteDisassembly(s, b) => SpecAction::WriteDisassembly(s@, b),
        CommandAction::Done => SpecAction::Done,
    }
}

/// The eight commands.
#[derive(Clone, Copy, Debug, PartialEq, Eq, Structural)]
pub enum CommandKind {
    VmHelp,
    Exit,
    Save,
    Load,
    Disassemble,
    SetRegister,
    PrintRegister,
    PrintStack,
}

/// Each command's name.
pub open spec fn spec_name(kind: CommandKind) -> Seq<char> {
    match kind {
        CommandKind::VmHelp => "vmhelp"@,
        CommandKind::Exit => "exit"@,
        CommandKind::Save => "save"@,
        CommandKind::Load => "load"@,
        CommandKind::Disassemble => "disassemble"@,
        CommandKind::SetRegister => "setreg"@,
        CommandKind::PrintRegister => "printreg"@,
        CommandKind::PrintStack => "printstack"@,
    }
}

/// Each command's one-line description.
pub open spec fn spec_descr(kind: CommandKind) -> Seq<char> {
    match kind {
        CommandKind::VmHelp => "Prints this help text"@,
        CommandKind::Exit => "Exits the virtual machine runtime"@,
        CommandKind::Save => "Saves the vm state to a file"@,
        CommandKind::Load => "Loads the vm state from a file"@,
        CommandKind::Disassemble => "Disassembles the vm memory to a file"@,
        CommandKind::SetRegister => "Set a register to a given value"@,
        CommandKind::PrintRegister => "Print the value of registers"@,
        CommandKind::PrintStack => "Print the value of the stack"@,
    }
}

/// How many arguments each command needs before it acts.
pub open spec fn spec_required_args(kind: CommandKind) -> usize {
    match kind {
        CommandKind::VmHelp => 0,
        CommandKind::Exit => 0,
        CommandKind::Save => 1,
        CommandKind::Load => 1,
        CommandKind::Disassemble => 1,
        CommandKind::SetRegister => 2,
        CommandKind::PrintRegister => 1,
        CommandKind::PrintStack => 0,
    }
}

/// Each command's usage text, with or without its header.
pub open spec fn spec_usage(kind: CommandKind, with_header: bool) -> Seq<char> {
    match kind {
        CommandKind::VmHelp => "Synacor VM Shell\n\nUse `<command> --help` for usage details on each command.\n\nCommands:\n    vmhelp\tPrints this help text\n    exit\tExits the virtual machine runtime\n    save\tSaves the vm state to a file\n    load\tLoads the vm state from a file\n    disassemble\tDisassembles the vm memory to a file\n    setreg\tSet a register to a given value\n    printreg\tPrint the value of registers\n    printstack\tPrint the value of the stack"@,
        CommandKind::Exit => "Exits the virtual machine runtime"@,
        CommandKind::Save => if with_header {
            "Save Program State\n\nUsage:\n    save --help\n    save <out_file>"@
        } else {
            "Usage:\n    save --help\n    save <out_file>"@
        },
        CommandKind::Load => if with_header {
            "Loads Program State\n\nUsage:\n    load --help\n    load <state_file>"@
        } else {
            "Usage:\n    load --help\n    load <state_file>"@
        },
        CommandKind::Disassemble => if with_header {
            "Disassemble Program Memory\n\nUsage:\n    disassemble --help\n    disassemble <outfile> [options]\n\nOptions:\n    --with-addresses  Specify that the assembly should be addressed"@
        } else {
            "Usage:\n    disassemble --help\n    disassemble <outfile> [options]\n\nOptions:\n    --with-addresses  Specify that the assembly should be addressed"@
        },
        CommandKind::SetRegister => if with_header {
            "Set Register Value\n\nUsage:\n    setreg --help\n    setreg <register> <value>"@
        } else {
            "Usage:\n    setreg --help\n    setreg <register> <value>"@
        },
        CommandKind::PrintRegister => if with_header {
            "Print Register Value\n\nUsage:\n    printreg --help\n    printreg <register|--all>"@
        } else {
            "Usage:\n    printreg --help\n    printreg <register|--all>"@
        },
        CommandKind::PrintStack => if with_header {
            "Print Stack Value\n\nUsage:\n    printstack --help\n    printstack"@
        } else {
            "Usage:\n    printstack --help\n    printstack"@
        },
    }
}

/// The operator text when a value does not parse.
pub open spec fn spec_bad_value_text(arg: Seq<char>) -> Seq<char> {
    "Could not parse \""@ + arg + "\" as u16"@
}

/// The operator text when a register name is unknown.
pub open spec fn spec_bad_register_text(arg: Seq<char>) -> Seq<char> {
    "Invalid register given: "@ + arg
        + "\nPossible register values: AX, BX, CX, DX, EX, FX, GX, HX"@
}

/// The rendering of one register for the all-registers report.
pub open spec fn spec_one_reg_text(k: int, v: u16) -> Seq<char> {
    ", "@ + crate::vm::op::spec_reg_name(k) + ": "@ + spec_hex4(v)
}

/// The all-registers report: every register in order.
pub open spec fn spec_all_regs_text(regs: Seq<u16>) -> Seq<char> {
    "Register values: "@ + spec_all_regs_prefix(regs, 8)
}

/// One register's report.
pub open spec fn spec_reg_text(arg: Seq<char>, v: u16) -> Seq<char> {
    "Register "@ + arg + ": "@ + spec_hex4(v)
}

/// A word rendered in decimal, most significant digit first.
pub open spec fn spec_dec_chars(x: u16) -> Seq<char>
    decreases x,
{
    if x < 10 {
        seq![crate::text::spec_hex_digit(x)]
    } else {
        spec_dec_chars(x / 10) + seq![crate::text::spec_hex_digit(x % 10)]
    }
}

/// The stack items joined with commas, bottom first.
pub open spec fn spec_stack_items(stack: Seq<u16>) -> Seq<char>
    decreases stack.len(),
{
    if stack.len() == 0 {
        Seq::empty()
    } else if stack.len() == 1 {
        spec_dec_chars(stack[0])
    } else {
        spec_stack_items(stack.drop_last()) + ", "@ + spec_dec_chars(stack.last())
    }
}

/// The stack report.
pub open spec fn spec_stack_text(stack: Seq<u16>) -> Seq<char> {
    "Stack values: ["@ + spec_stack_items(stack) + "]"@
}

/// What executing a command does to the machine, and what it asks of the
/// driver.  The argument count has already been checked.
pub open spec fn spec_exec(kind: CommandKind, args: Seq<Seq<char>>, s: MState) -> (
    MState,
    SpecAction,
) {
    match kind {
        CommandKind::VmHelp => (s, SpecAction::Print(spec_usage(CommandKind::VmHelp, true))),
        CommandKind::Exit => (s, SpecAction::Exit),
        CommandKind::Save => (s, SpecAction::SaveState(args[0])),
        CommandKind::Load => (s, SpecAction::LoadState(args[0])),
        CommandKind::Disassemble => (
            s,
            SpecAction::WriteDisassembly(
                args[0],
                args.len() > 1 && args[1] == "--with-addresses"@,
            ),
        ),
        CommandKind::SetRegister => match spec_parse_dec(args[1]) {
            None => (s, SpecAction::Print(spec_bad_value_text(args[1]))),
            Some(v) => match spec_reg_from_name(args[0]) {
                None => (s, SpecAction::Print(spec_bad_register_text(args[0]))),
                Some(addr) => (
                    MState { reg: s.reg.update(addr - 0x8000, v), ..s },
                    SpecAction::Done,
                ),
            },
        },
        CommandKind::PrintRegister => if args[0] == "--all"@ {
            (s, SpecAction::Print(spec_all_regs_text(s.reg)))
        } else {
            match spec_reg_from_name(args[0]) {
                None => (s, SpecAction::Print(spec_bad_register_text(args[0]))),
                Some(addr) => (s, SpecAction::Print(spec_reg_text(args[0], s.reg[addr - 0x8000]))),
            }
        },
        CommandKind::PrintStack => (s, SpecAction::Print(spec_stack_text(s.stack))),
    }
}

/// What running a command does: `--help` and a missing argument print usage
/// instead of acting.
pub open spec fn spec_run(kind: CommandKind, args: Seq<Seq<char>>, s: MState) -> (
    MState,
    SpecAction,
) {
    if args.len() > 0 && args[0] == "--help"@ {
        (s, SpecAction::Print(spec_usage(kind, true)))
    } else if args.len() < spec_required_args(kind) {
        (
            s,
            SpecAction::Print(
                "Not enough arguments given.\n\n"@ + spec_usage(kind, false) + "\n"@,
            ),
        )
    } else {
        spec_exec(kind, args, s)
    }
}

/// Appends a word rendered in decimal.
pub fn push_dec(out: &mut Vec<char>, x: u16)
    ensures
        final(out)@ == old(out)@ + spec_dec_chars(x),
    decreases x,
{
    if x < 10 {
        out.push(crate::text::hex_digit(x));
    } else {
        push_dec(out, x / 10);
        out.push(crate::text::hex_digit(x % 10));
        proof {
            assert(out@ =~= old(out)@ + spec_dec_chars(x));
        }
    }
}

/// Parses a register name into its alias address.
pub fn reg_idx_from_str(s: &str) -> (r: Option<u16>)
    ensures
        r == spec_reg_from_name(s@),
{
    if str_eq(s, "AX") { Some(0x8000) }
    else if str_eq(s, "BX") { Some(0x8001) }
    else if str_eq(s, "CX") { Some(0x8002) }
    else if str_eq(s, "DX") { Some(0x8003) }
    else if str_eq(s, "EX") { Some(0x8004) }
    else if str_eq(s, "FX") { Some(0x8005) }
    else if str_eq(s, "GX") { Some(0x8006) }
    else { if str_eq(s, "HX") { Some(0x8007) } else { None } }
}

/// A command identified by name, ready to run.
pub struct Command {
    kind: CommandKind,
}

impl Command {
    /// Which command this is.
    pub closed spec fn spec_kind(&self) -> CommandKind {
        self.kind
    }

    /// Looks a command up by its name.
    pub fn from_name(command_name: &str) -> (r: Option<Command>)
        ensures
            match spec_command_from_name(command_name@) {
                Some(kind) => r is Some && r->0.spec_kind() == kind,
                None => r is None,
            },
    {
        if str_eq(command_name, "vmhelp") {
            Some(Command { kind: CommandKind::VmHelp })
        } else if str_eq(command_name, "exit") {
            Some(Command { kind: CommandKind::Exit })
        } else if str_eq(command_name, "save") {
            Some(Command { kind: CommandKind::Save })
        } else if str_eq(command_name, "load") {
            Some(Command { kind: CommandKind::Load })
        } else if str_eq(command_name, "disassemble") {
            Some(Command { kind: CommandKind::Disassemble })
        } else if str_eq(command_name, "setreg") {
            Some(Command { kind: CommandKind::SetRegister })
        } else if str_eq(command_name, "printreg") {
            Some(Command { kind: CommandKind::PrintRegister })
        } else if str_eq(command_name, "printstack") {
            Some(Command { kind: CommandKind::PrintStack })
        } else {
            None
        }
    }

    /// One line of the help listing: name, a tab, and the description.
    pub fn help_text(&self) -> (r: String)
        ensures
            r@ == "    "@ + spec_name(self.spec_kind()) + "\t"@ + spec_descr(self.spec_kind()),
    {
        let mut out: Vec<char> = Vec::new();
        push_str_chars(&mut out, "    ");
        push_str_chars(&mut out, self.name_str());
        push_str_chars(&mut out, "\t");
        push_str_chars(&mut out, self.descr_str());
        chars_to_string(&out)
    }

    /// The command's name.
    pub fn name_string(&self) -> (r: String)
        ensures
            r@ == spec_name(self.spec_kind()),
    {
        String::from_str(self.name_str())
    }

    /// The command's description.
    pub fn descr_string(&self) -> (r: String)
        ensures
            r@ == spec_descr(self.spec_kind()),
    {
        String::from_str(self.descr_str())
    }

    /// The command's name.
    fn name_str(&self) -> (r: &'static str)
        ensures
            r@ == spec_name(self.spec_kind()),
    {
        match self.kind {
            CommandKind::VmHelp => "vmhelp",
            CommandKind::Exit => "exit",
            CommandKind::Save => "save",
            CommandKind::Load => "load",
            CommandKind::Disassemble => "disassemble",
            CommandKind::SetRegister => "setreg",
            CommandKind::PrintRegister => "printreg",
            CommandKind::PrintStack => "printstack",
        }
    }

    /// The command's description.
    fn descr_str(&self) -> (r: &'static str)
        ensures
            r@ == spec_descr(self.spec_kind()),
    {
        match self.kind {
            CommandKind::VmHelp => "Prints this help text",
            CommandKind::Exit => "Exits the virtual machine runtime",
            CommandKind::Save => "Saves the vm state to a file",
            CommandKind::Load => "Loads the vm state from a file",
            CommandKind::Disassemble => "Disassembles the vm memory to a file",
            CommandKind::SetRegister => "Set a register to a given value",
            CommandKind::PrintRegister => "Print the value of registers",
            CommandKind::PrintStack => "Print the value of the stack",
        }
    }

    /// The command's usage text.
    pub fn usage(&self, with_header: bool) -> (r: String)
        ensures
            r@ == spec_usage(self.spec_kind(), with_header),
    {
        match self.kind {
            CommandKind::VmHelp => String::from_str(
                "Synacor VM Shell\n\nUse `<command> --help` for usage details on each command.\n\nCommands:\n    vmhelp\tPrints this help text\n    exit\tExits the virtual machine runtime\n    save\tSaves the vm state to a file\n    load\tLoads the vm state from a file\n    disassemble\tDisassembles the vm memory to a file\n    setreg\tSet a register to a given value\n    printreg\tPrint the value of registers\n    printstack\tPrint the value of the stack",
            ),
            CommandKind::Exit => String::from_str("Exits the virtual machine runtime"),
            CommandKind::Save => if with_header {
                String::from_str("Save Program State\n\nUsage:\n    save --help\n    save <out_file>")
            } else {
                String::from_str("Usage:\n    save --help\n    save <out_file>")
            },
            CommandKind::Load => if with_header {
                String::from_str(
                    "Loads Program State\n\nUsage:\n    load --help\n    load <state_file>",
                )
            } else {
                String::from_str("Usage:\n    load --help\n    load <state_file>")
            },
            CommandKind::Disassemble => if with_header {
                String::from_str(
                    "Disassemble Program Memory\n\nUsage:\n    disassemble --help\n    disassemble <outfile> [options]\n\nOptions:\n    --with-addresses  Specify that the assembly should be addressed",
                )
            } else {
                String::from_str(
                    "Usage:\n    disassemble --help\n    disassemble <outfile> [options]\n\nOptions:\n    --with-addresses  Specify that the assembly should be addressed",
                )
            },
            CommandKind::SetRegister => if with_header {
                String::from_str(
                    "Set Register Value\n\nUsage:\n    setreg --help\n    setreg <register> <value>",
                )
            } else {
                String::from_str("Usage:\n    setreg --help\n    setreg <register> <value>")
            },
            CommandKind::PrintRegister => if with_header {
                String::from_str(
                    "Print Register Value\n\nUsage:\n    printreg --help\n    printreg <register|--all>",
                )
            } else {
                String::from_str("Usage:\n    printreg --help\n    printreg <register|--all>")
            },
            CommandKind::PrintStack => if with_header {
                String::from_str(
                    "Print Stack Value\n\nUsage:\n    printstack --help\n    printstack",
                )
            } else {
                String::from_str("Usage:\n    printstack --help\n    printstack")
            },
        }
    }

    /// How many arguments this command needs.
    pub fn required_args(&self) -> (r: usize)
        ensures
            r == spec_required_args(self.spec_kind()),
    {
        match self.kind {
            CommandKind::VmHelp => 0,
            CommandKind::Exit => 0,
            CommandKind::Save => 1,
            CommandKind::Load => 1,
            CommandKind::Disassemble => 1,
            CommandKind::SetRegister => 2,
            CommandKind::PrintRegister => 1,
            CommandKind::PrintStack => 0,
        }
    }

    /// Runs the command: `--help` or too few arguments print usage, anything
    /// else acts on the machine through the debug interface.
    pub fn run(&self, args: &Vec<String>, vm: &mut VirtualMachine) -> (r: Result<
        CommandAction,
        Error,
    >)
        requires
            old(vm).inv(),
        ensures
            final(vm).inv(),
            final(vm).spec_loaded_len() == old(vm).spec_loaded_len(),
            r is Ok,
            ({
                let (s2, act) = spec_run(self.spec_kind(), args.deep_view(), old(vm)@);
                final(vm)@ == s2 && action_view(r->Ok_0) == act
            }),
    {
        proof {
            assert(args.deep_view().len() == args@.len());
        }
        if args.len() > 0 && str_eq(args[0].as_str(), "--help") {
            proof {
                assert(args.deep_view()[0] == args@[0]@);
            }
            return Ok(CommandAction::Print(self.usage(true)));
        }
        proof {
            if args@.len() > 0 {
                assert(args.deep_view()[0] == args@[0]@);
            }
        }
        if args.len() < self.required_args() {
            let mut out: Vec<char> = Vec::new();
            push_str_chars(&mut out, "Not enough arguments given.\n\n");
            push_str_chars(&mut out, self.usage(false).as_str());
            push_str_chars(&mut out, "\n");
            return Ok(CommandAction::Print(chars_to_string(&out)));
        }
        self.exec(args, vm)
    }

    /// Performs the command's own action; the argument count has already
    /// been checked.
    #[verifier::rlimit(100)]
    #[verifier::spinoff_prover]
    fn exec(&self, args: &Vec<String>, vm: &mut VirtualMachine) -> (r: Result<
        CommandAction,
        Error,
    >)
        requires
            old(vm).inv(),
            args@.len() >= spec_required_args(self.spec_kind()),
        ensures
            final(vm).inv(),
            final(vm).spec_loaded_len() == old(vm).spec_loaded_len(),
            r is Ok,
            ({
                let (s2, act) = spec_exec(self.spec_kind(), args.deep_view(), old(vm)@);
                final(vm)@ == s2 && action_view(r->Ok_0) == act
            }),
    {
        proof {
            assert(args.deep_view().len() == args@.len());
            if args@.len() > 0 {
                assert(args.deep_view()[0] == args@[0]@);
            }
            if args@.len() > 1 {
                assert(args.deep_view()[1] == args@[1]@);
            }
        }
        match self.kind {
            CommandKind::VmHelp => Ok(CommandAction::Print(self.usage(true))),
            CommandKind::Exit => Ok(CommandAction::Exit),
            CommandKind::Save => Ok(CommandAction::SaveState(clone_string(&args[0]))),
            CommandKind::Load => Ok(CommandAction::LoadState(clone_string(&args[0]))),
            CommandKind::Disassemble => {
                let with_addresses = args.len() > 1 && str_eq(
                    args[1].as_str(),
                    "--with-addresses",
                );
                Ok(CommandAction::WriteDisassembly(clone_string(&args[0]), with_addresses))
            },
            CommandKind::SetRegister => exec_set_register(args, vm),
            CommandKind::PrintRegister => exec_print_register(args, vm),
            CommandKind::PrintStack => exec_print_stack(vm),
        }
    }

    /// The eight commands in their listing order.
    pub fn list() -> (r: Vec<Command>)
        ensures
            r@.len() == 8,
            r@[0].spec_kind() == CommandKind::VmHelp,
            r@[1].spec_kind() == CommandKind::Exit,
            r@[2].spec_kind() == CommandKind::Save,
            r@[3].spec_kind() == CommandKind::Load,
            r@[4].spec_kind() == CommandKind::Disassemble,
            r@[5].spec_kind() == CommandKind::SetRegister,
            r@[6].spec_kind() == CommandKind::PrintRegister,
            r@[7].spec_kind() == CommandKind::PrintStack,
    {
        let mut out: Vec<Command> = Vec::new();
        out.push(Command { kind: CommandKind::VmHelp });
        out.push(Command { kind: CommandKind::Exit });
        out.push(Command { kind: CommandKind::Save });
        out.push(Command { kind: CommandKind::Load });
        out.push(Command { kind: CommandKind::Disassemble });
        out.push(Command { kind: CommandKind::SetRegister });
        out.push(Command { kind: CommandKind::PrintRegister });
        out.push(Command { kind: CommandKind::PrintStack });
        out
    }
}

/// The prefix of the all-registers report covering registers `0 .. k`.
pub open spec fn spec_all_regs_prefix(regs: Seq<u16>, k: int) -> Seq<char>
    decreases k,
{
    if k <= 0 {
        Seq::empty()
    } else {
        spec_all_regs_prefix(regs, k - 1) + spec_one_reg_text(k - 1, regs[k - 1])
    }
}

/// The command a name resolves to, if any.
pub open spec fn spec_command_from_name(s: Seq<char>) -> Option<CommandKind> {
    if s == spec_name(CommandKind::VmHelp) { Some(CommandKind::VmHelp) }
    else if s == spec_name(CommandKind::Exit) { Some(CommandKind::Exit) }
    else if s == spec_name(CommandKind::Save) { Some(CommandKind::Save) }
    else if s == spec_name(CommandKind::Load) { Some(CommandKind::Load) }
    else if s == spec_name(CommandKind::Disassemble) { Some(CommandKind::Disassemble) }
    else if s == spec_name(CommandKind::SetRegister) { Some(CommandKind::SetRegister) }
    else if s == spec_name(CommandKind::PrintRegister) { Some(CommandKind::PrintRegister) }
    else if s == spec_name(CommandKind::PrintStack) { Some(CommandKind::PrintStack) }
    else { None }
}

/// Copies a string.
fn clone_string(s: &String) -> (r: String)
    ensures
        r@ == s@,
{
    String::from_str(s.as_str())
}


/// The `setreg` command: parses a value and a register name and writes the
/// register through the debug interface.
#[verifier::rlimit(100)]
#[verifier::spinoff_prover]
fn exec_set_register(args: &Vec<String>, vm: &mut VirtualMachine) -> (r: Result<
    CommandAction,
    Error,
>)
    requires
        old(vm).inv(),
        args@.len() >= 2,
    ensures
        final(vm).inv(),
        final(vm).spec_loaded_len() == old(vm).spec_loaded_len(),
        r is Ok,
        ({
            let (s2, act) = spec_exec(CommandKind::SetRegister, args.deep_view(), old(vm)@);
            final(vm)@ == s2 && action_view(r->Ok_0) == act
        }),
{
    proof {
        assert(args.deep_view().len() == args@.len());
        assert(args.deep_view()[0] == args@[0]@);
        assert(args.deep_view()[1] == args@[1]@);
    }

        let chars = str_to_chars(args[1].as_str());
        proof {
            assert(chars@.skip(0) =~= chars@);
        }
        match parse_dec(&chars, 0) {
            None => {
                let mut out: Vec<char> = Vec::new();
                push_str_chars(&mut out, "Could not parse \"");
                push_str_chars(&mut out, args[1].as_str());
                push_str_chars(&mut out, "\" as u16");
                Ok(CommandAction::Print(chars_to_string(&out)))
            },
            Some(value) => {
                match reg_idx_from_str(args[0].as_str()) {
                    None => {
                        let mut out: Vec<char> = Vec::new();
                        push_str_chars(&mut out, "Invalid register given: ");
                        push_str_chars(&mut out, args[0].as_str());
                        push_str_chars(
                            &mut out,
                            "\nPossible register values: AX, BX, CX, DX, EX, FX, GX, HX",
                        );
                        Ok(CommandAction::Print(chars_to_string(&out)))
                    },
                    Some(register) => {
                        match vm.write_reg(register, value) {
                            Ok(_) => Ok(CommandAction::Done),
                            Err(e) => Err(e),
                        }
                    },
                }
            },
        }
}

/// The `printreg` command: reports one register or all of them.
#[verifier::rlimit(100)]
#[verifier::spinoff_prover]
fn exec_print_register(args: &Vec<String>, vm: &mut VirtualMachine) -> (r: Result<
    CommandAction,
    Error,
>)
    requires
        old(vm).inv(),
        args@.len() >= 1,
    ensures
        final(vm).inv(),
        final(vm).spec_loaded_len() == old(vm).spec_loaded_len(),
        r is Ok,
        ({
            let (s2, act) = spec_exec(CommandKind::PrintRegister, args.deep_view(), old(vm)@);
            final(vm)@ == s2 && action_view(r->Ok_0) == act
        }),
{
    proof {
        assert(args.deep_view().len() == args@.len());
        assert(args.deep_view()[0] == args@[0]@);
    }
    if str_eq(args[0].as_str(), "--all") {
        let out = all_regs_report(vm);
        return Ok(CommandAction::Print(chars_to_string(&out)));
    }
    match reg_idx_from_str(args[0].as_str()) {
        None => {
            let mut out: Vec<char> = Vec::new();
            push_str_chars(&mut out, "Invalid register given: ");
            push_str_chars(&mut out, args[0].as_str());
            push_str_chars(
                &mut out,
                "\nPossible register values: AX, BX, CX, DX, EX, FX, GX, HX",
            );
            Ok(CommandAction::Print(chars_to_string(&out)))
        },
        Some(register) => {
            let v = match vm.read_reg(register) {
                Ok(v) => v,
                Err(_) => 0,
            };
            let mut out: Vec<char> = Vec::new();
            push_str_chars(&mut out, "Register ");
            push_str_chars(&mut out, args[0].as_str());
            push_str_chars(&mut out, ": ");
            push_hex4(&mut out, v);
            proof {
                assert(out@ =~= spec_reg_text(args@[0]@, vm@.reg[register - 0x8000]));
            }
            Ok(CommandAction::Print(chars_to_string(&out)))
        },
    }
}

/// Appends the report chunk for one register.
fn push_one_reg(out: &mut Vec<char>, k: u16, v: u16)
    requires
        k < 8,
    ensures
        final(out)@ == old(out)@ + spec_one_reg_text(k as int, v),
{
    push_str_chars(out, ", ");
    push_str_chars(out, crate::vm::op::Op::reg_name(k));
    push_str_chars(out, ": ");
    push_hex4(out, v);
    proof {
        assert(out@ =~= old(out)@ + spec_one_reg_text(k as int, v));
    }
}

/// Builds the all-registers report.
fn all_regs_report(vm: &VirtualMachine) -> (r: Vec<char>)
    requires
        vm.inv(),
    ensures
        r@ == spec_all_regs_text(vm@.reg),
{
    let mut out: Vec<char> = Vec::new();
    push_str_chars(&mut out, "Register values: ");
    let mut k: u16 = 0;
    while k < 8
        invariant
            vm.inv(),
            k <= 8,
            out@ == "Register values: "@ + spec_all_regs_prefix(vm@.reg, k as int),
        decreases 8 - k,
    {
        let ghost pre = out@;
        let v = match vm.read_reg(0x8000 + k) {
            Ok(v) => v,
            Err(_) => 0,
        };
        push_one_reg(&mut out, k, v);
        proof {
            assert(out@ =~= "Register values: "@ + spec_all_regs_prefix(vm@.reg, k as int + 1));
        }
        k = k + 1;
    }
    out
}

/// The `printstack` command: reports the stack contents, bottom first.
#[verifier::rlimit(100)]
#[verifier::spinoff_prover]
fn exec_print_stack(vm: &mut VirtualMachine) -> (r: Result<CommandAction, Error>)
    requires
        old(vm).inv(),
    ensures
        final(vm).inv(),
        final(vm).spec_loaded_len() == old(vm).spec_loaded_len(),
        r is Ok,
        final(vm)@ == old(vm)@,
        action_view(r->Ok_0) == SpecAction::Print(spec_stack_text(old(vm)@.stack)),
{

        let mut out: Vec<char> = Vec::new();
        push_str_chars(&mut out, "Stack values: [");
        let stack = vm.stack();
        let mut i: usize = 0;
        while i < stack.len()
            invariant
                stack@ == vm@.stack,
                i <= stack@.len(),
                out@ == "Stack values: ["@ + spec_stack_items(stack@.take(i as int)),
            decreases stack@.len() - i,
        {
            let ghost pre = out@;
            if i > 0 {
                push_str_chars(&mut out, ", ");
            }
            push_dec(&mut out, stack[i]);
            proof {
                assert(stack@.take(i + 1 as int).drop_last() =~= stack@.take(i as int));
                assert(stack@.take(i + 1 as int).last() == stack@[i as int]);
                if i == 0 {
                    assert(stack@.take(1).len() == 1);
                }
                assert(out@ =~= "Stack values: ["@ + spec_stack_items(
                    stack@.take(i + 1 as int),
                ));
            }
            i = i + 1;
        }
        push_str_chars(&mut out, "]");
        proof {
            assert(stack@.take(stack@.len() as int) =~= stack@);
            assert(out@ =~= spec_stack_text(vm@.stack));
        }
        Ok(CommandAction::Print(chars_to_string(&out)))
}


/// The interface each debug command presents: its name, description, usage
/// text, required argument count, and its action on the machine.
pub trait CommandExecutor {
    /// Which command this executor stands for.
    spec fn spec_cmd_kind(&self) -> CommandKind;

    /// The command's name.
    fn name(&self) -> (r: String)
        ensures
            r@ == spec_name(self.spec_cmd_kind()),
    ;

    /// The command's one-line description.
    fn descr(&self) -> (r: String)
        ensures
            r@ == spec_descr(self.spec_cmd_kind()),
    ;

    /// The command's usage text.
    fn usage(&self, with_header: bool) -> (r: String)
        ensures
            r@ == spec_usage(self.spec_cmd_kind(), with_header),
    ;

    /// How many arguments the command needs before it acts.
    fn required_args(&self) -> (r: usize)
        ensures
            r == spec_required_args(self.spec_cmd_kind()),
    ;

    /// Performs the command's action; the argument count has already been
    /// checked.
    fn exec(&self, args: &Vec<String>, vm: &mut VirtualMachine) -> (r: Result<CommandAction, Error>)
        requires
            old(vm).inv(),
            args@.len() >= spec_required_args(self.spec_cmd_kind()),
        ensures
            final(vm).inv(),
            final(vm).spec_loaded_len() == old(vm).spec_loaded_len(),
            r is Ok,
            ({
                let (s2, act) = spec_exec(self.spec_cmd_kind(), args.deep_view(), old(vm)@);
                final(vm)@ == s2 && action_view(r->Ok_0) == act
            }),
    ;
}

/// The `vmhelp` command.
#[derive(Clone, Copy)]
pub struct VmHelpCommand;

/// The `exit` command.
#[derive(Clone, Copy)]
pub struct ExitCommand;

/// The `save` command.
#[derive(Clone, Copy)]
pub struct SaveCommand;

/// The `load` command.
#[derive(Clone, Copy)]
pub struct LoadCommand;

/// The `disassemble` command.
#[derive(Clone, Copy)]
pub struct DisassembleCommand;

/// The `setreg` command.
#[derive(Clone, Copy)]
pub struct SetRegisterCommand;

/// The `printreg` command.
#[derive(Clone, Copy)]
pub struct PrintRegisterCommand;

/// The `printstack` command.
#[derive(Clone, Copy)]
pub struct PrintStackCommand;

impl CommandExecutor for VmHelpCommand {
    open spec fn spec_cmd_kind(&self) -> CommandKind {
        CommandKind::VmHelp
    }

    fn name(&self) -> (r: String) {
        Command { kind: CommandKind::VmHelp }.name_string()
    }

    fn descr(&self) -> (r: String) {
        Command { kind: CommandKind::VmHelp }.descr_string()
    }

    fn usage(&self, with_header: bool) -> (r: String) {
        Command { kind: CommandKind::VmHelp }.usage(with_header)
    }

    fn required_args(&self) -> (r: usize) {
        Command { kind: CommandKind::VmHelp }.required_args()
    }

    fn exec(&self, args: &Vec<String>, vm: &mut VirtualMachine) -> (r: Result<CommandAction, Error>) {
        Command { kind: CommandKind::VmHelp }.exec(args, vm)
    }
}

impl CommandExecutor for ExitCommand {
    open spec fn spec_cmd_kind(&self) -> CommandKind {
        CommandKind::Exit
    }

    fn name(&self) -> (r: String) {
        Command { kind: CommandKind::Exit }.name_string()
    }

    fn descr(&self) -> (r: String) {
        Command { kind: CommandKind::Exit }.descr_string()
    }

    fn usage(&self, with_header: bool) -> (r: String) {
        Command { kind: CommandKind::Exit }.usage(with_header)
    }

    fn required_args(&self) -> (r: usize) {
        Command { kind: CommandKind::Exit }.required_args()
    }

    fn exec(&self, args: &Vec<String>, vm: &mut VirtualMachine) -> (r: Result<CommandAction, Error>) {
        Command { kind: CommandKind::Exit }.exec(args, vm)
    }
}

impl CommandExecutor for SaveCommand {
    open spec fn spec_cmd_kind(&self) -> CommandKind {
        CommandKind::Save
    }

    fn name(&self) -> (r: String) {
        Command { kind: CommandKind::Save }.name_string()
    }

    fn descr(&self) -> (r: String) {
        Command { kind: CommandKind::Save }.descr_string()
    }

    fn usage(&self, with_header: bool) -> (r: String) {
        Command { kind: CommandKind::Save }.usage(with_header)
    }

    fn required_args(&self) -> (r: usize) {
        Command { kind: CommandKind::Save }.required_args()
    }

    fn exec(&self, args: &Vec<String>, vm: &mut VirtualMachine) -> (r: Result<CommandAction, Error>) {
        Command { kind: CommandKind::Save }.exec(args, vm)
    }
}

impl CommandExecutor for LoadCommand {
    open spec fn spec_cmd_kind(&self) -> CommandKind {
        CommandKind::Load
    }

    fn name(&self) -> (r: String) {
        Command { kind: CommandKind::Load }.name_string()
    }

    fn descr(&self) -> (r: String) {
        Command { kind: CommandKind::Load }.descr_string()
    }

    fn usage(&self, with_header: bool) -> (r: String) {
        Command { kind: CommandKind::Load }.usage(with_header)
    }

    fn required_args(&self) -> (r: usize) {
        Command { kind: CommandKind::Load }.required_args()
    }

    fn exec(&self, args: &Vec<String>, vm: &mut VirtualMachine) -> (r: Result<CommandAction, Error>) {
        Command { kind: CommandKind::Load }.exec(args, vm)
    }
}

impl CommandExecutor for DisassembleCommand {
    open spec fn spec_cmd_kind(&self) -> CommandKind {
        CommandKind::Disassemble
    }

    fn name(&self) -> (r: String) {
        Command { kind: CommandKind::Disassemble }.name_string()
    }

    fn descr(&self) -> (r: String) {
        Command { kind: CommandKind::Disassemble }.descr_string()
    }

    fn usage(&self, with_header: bool) -> (r: String) {
        Command { kind: CommandKind::Disassemble }.usage(with_header)
    }

    fn required_args(&self) -> (r: usize) {
        Command { kind: CommandKind::Disassemble }.required_args()
    }

    fn exec(&self, args: &Vec<String>, vm: &mut VirtualMachine) -> (r: Result<CommandAction, Error>) {
        Command { kind: CommandKind::Disassemble }.exec(args, vm)
    }
}

impl CommandExecutor for SetRegisterCommand {
    open spec fn spec_cmd_kind(&self) -> CommandKind {
        CommandKind::SetRegister
    }

    fn name(&self) -> (r: String) {
        Command { kind: CommandKind::SetRegister }.name_string()
    }

    fn descr(&self) -> (r: String) {
        Command { kind: CommandKind::SetRegister }.descr_string()
    }

    fn usage(&self, with_header: bool) -> (r: String) {
        Command { kind: CommandKind::SetRegister }.usage(with_header)
    }

    fn required_args(&self) -> (r: usize) {
        Command { kind: CommandKind::SetRegister }.required_args()
    }

    fn exec(&self, args: &Vec<String>, vm: &mut VirtualMachine) -> (r: Result<CommandAction, Error>) {
        Command { kind: CommandKind::SetRegister }.exec(args, vm)
    }
}

impl CommandExecutor for PrintRegisterCommand {
    open spec fn spec_cmd_kind(&self) -> CommandKind {
        CommandKind::PrintRegister
    }

    fn name(&self) -> (r: String) {
        Command { kind: CommandKind::PrintRegister }.name_string()
    }

    fn descr(&self) -> (r: String) {
        Command { kind: CommandKind::PrintRegister }.descr_string()
    }

    fn usage(&self, with_header: bool) -> (r: String) {
        Command { kind: CommandKind::PrintRegister }.usage(with_header)
    }

    fn required_args(&self) -> (r: usize) {
        Command { kind: CommandKind::PrintRegister }.required_args()
    }

    fn exec(&self, args: &Vec<String>, vm: &mut VirtualMachine) -> (r: Result<CommandAction, Error>) {
        Command { kind: CommandKind::PrintRegister }.exec(args, vm)
    }
}

impl CommandExecutor for PrintStackCommand {
    open spec fn spec_cmd_kind(&self) -> CommandKind {
        CommandKind::PrintStack
    }

    fn name(&self) -> (r: String) {
        Command { kind: CommandKind::PrintStack }.name_string()
    }

    fn descr(&self) -> (r: String) {
        Command { kind: CommandKind::PrintStack }.descr_string()
    }

    fn usage(&self, with_header: bool) -> (r: String) {
        Command { kind: CommandKind::PrintStack }.usage(with_header)
    }

    fn required_args(&self) -> (r: usize) {
        Command { kind: CommandKind::PrintStack }.required_args()
    }

    fn exec(&self, args: &Vec<String>, vm: &mut VirtualMachine) -> (r: Result<CommandAction, Error>) {
        Command { kind: CommandKind::PrintStack }.exec(args, vm)
    }
}


} // verus!
