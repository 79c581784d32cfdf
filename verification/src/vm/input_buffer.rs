//! The input interceptor: buffers one line of operator input for the `IN`
//! instruction, and detects the escape prefix that switches a line to
//! out-of-band debug command execution.
//!
//! A line that begins with `!` is never program input: it is parsed as a
//! command name plus arguments against the fixed command set, and the
//! interceptor then waits for a fresh line.  Any other line is yielded one
//! byte at a time, trailing newline included, to successive `IN`
//! instructions.

use vstd::prelude::*;
use crate::assembler::{spec_words, tokenize_line};
use crate::text::chars_to_string;
use crate::vm::command::{Command, spec_command_from_name};

verus! {

/// Whether the interceptor is waiting for a fresh line.
#[derive(Clone, Copy, Debug, PartialEq, Eq, Structural)]
enum InputBufferState {
    ProcessingInput,
    Standby,
}

/// A helper for handling operator input outside of the machine's
/// instructions.
pub struct InputBuffer {
    state: InputBufferState,
    buffer: Vec<u8>,
    slice_idx: usize,
}

/// A byte stream read as characters, one character per byte.
pub open spec fn spec_bytes_to_chars(b: Seq<u8>) -> Seq<char> {
    Seq::new(b.len(), |i: int| b[i] as char)
}

/// Converts the bytes of a line from position `from` on into characters.
fn bytes_to_chars_from(v: &Vec<u8>, from: usize) -> (r: Vec<char>)
    requires
        from <= v@.len(),
    ensures
        r@ == spec_bytes_to_chars(v@.skip(from as int)),
{
    let mut out: Vec<char> = Vec::new();
    let mut i: usize = from;
    while i < v.len()
        invariant
            from <= i <= v@.len(),
            out@ =~= spec_bytes_to_chars(v@.skip(from as int)).take(i - from),
        decreases v@.len() - i,
    {
        out.push(v[i] as char);
        proof {
            assert(out@ =~= spec_bytes_to_chars(v@.skip(from as int)).take(i + 1 - from));
        }
        i = i + 1;
    }
    proof {
        assert(out@ =~= spec_bytes_to_chars(v@.skip(from as int)));
    }
    out
}

/// Copies the bytes of a line.
fn copy_bytes(v: &Vec<u8>) -> (r: Vec<u8>)
    ensures
        r@ == v@,
{
    let mut out: Vec<u8> = Vec::new();
    let mut i: usize = 0;
    while i < v.len()
        invariant
            i <= v@.len(),
            out@ =~= v@.subrange(0, i as int),
        decreases v@.len() - i,
    {
        out.push(v[i]);
        i = i + 1;
    }
    proof {
        assert(out@ =~= v@);
    }
    out
}

impl InputBuffer {
    /// Whether the interceptor waits for a fresh line.
    pub closed spec fn spec_standby(&self) -> bool {
        self.state is Standby
    }

    /// The buffered line bytes.
    pub closed spec fn spec_buffer(&self) -> Seq<u8> {
        self.buffer@
    }

    /// How many buffered bytes were already yielded.
    pub closed spec fn spec_idx(&self) -> int {
        self.slice_idx as int
    }

    /// A fresh interceptor, waiting for input.
    pub fn new() -> (r: InputBuffer)
        ensures
            r.spec_standby(),
            r.spec_buffer() =~= Seq::<u8>::empty(),
            r.spec_idx() == 0,
    {
        InputBuffer { state: InputBufferState::Standby, buffer: Vec::new(), slice_idx: 0 }
    }

    /// Accepts one line of operator input, if the interceptor is waiting
    /// for one.  An escape line (leading `!`) is parsed against the command
    /// set and never becomes program input; any other line is buffered for
    /// the `IN` instruction byte by byte.
    pub fn process_input(&mut self, line: &Vec<u8>) -> (r: Option<(Command, Vec<String>)>)
        ensures
            !old(self).spec_standby() ==> r is None && *final(self) == *old(self),
            old(self).spec_standby() ==> {
                &&& !final(self).spec_standby()
                &&& final(self).spec_idx() == 0
                &&& if line@.len() > 0 && line@[0] == 33u8 {
                    let ws = spec_words(spec_bytes_to_chars(line@.skip(1)));
                    &&& final(self).spec_buffer() =~= Seq::<u8>::empty()
                    &&& if ws.len() > 0 && spec_command_from_name(ws[0]) is Some {
                        &&& r is Some
                        &&& ({
                            let (cmd, cmd_args) = r->0;
                            cmd.spec_kind() == spec_command_from_name(ws[0])->0
                                && cmd_args.deep_view() == ws.skip(1)
                        })
                    } else {
                        r is None
                    }
                } else {
                    final(self).spec_buffer() == line@ && r is None
                }
            },
    {
        match self.state {
            InputBufferState::ProcessingInput => {
                return None;
            },
            InputBufferState::Standby => {},
        }
        self.state = InputBufferState::ProcessingInput;
        self.slice_idx = 0;
        if line.len() > 0 && line[0] == 33u8 {
            self.buffer = Vec::new();
            let chars = bytes_to_chars_from(line, 1);
            let ws = tokenize_line(&chars);
            let ghost wsd = ws.deep_view();
            if ws.len() == 0 {
                return None;
            }
            let name = chars_to_string(&ws[0]);
            proof {
                assert(name@ == wsd[0]);
            }
            match Command::from_name(name.as_str()) {
                None => None,
                Some(cmd) => {
                    let mut args: Vec<String> = Vec::new();
                    let mut j: usize = 1;
                    while j < ws.len()
                        invariant
                            1 <= j <= ws@.len(),
                            wsd == ws.deep_view(),
                            wsd.len() == ws@.len(),
                            args@.len() == j - 1,
                            forall|i: int| 0 <= i < j - 1 ==> args@[i]@ == wsd[i + 1],
                        decreases ws@.len() - j,
                    {
                        let s = chars_to_string(&ws[j]);
                        proof {
                            assert(s@ == wsd[j as int]);
                        }
                        args.push(s);
                        j = j + 1;
                    }
                    proof {
                        assert forall|i: int| 0 <= i < args.deep_view().len() implies
                            args.deep_view()[i] == args@[i]@ by {
                            assert(args.deep_view()[i] == args@[i].deep_view());
                        }
                        assert(args.deep_view() =~~= wsd.skip(1));
                    }
                    Some((cmd, args))
                },
            }
        } else {
            self.buffer = copy_bytes(line);
            None
        }
    }

    /// Returns to waiting for a fresh line at the next opportunity.
    pub fn standby(&mut self)
        ensures
            final(self).spec_standby(),
            final(self).spec_buffer() == old(self).spec_buffer(),
            final(self).spec_idx() == old(self).spec_idx(),
    {
        self.state = InputBufferState::Standby;
    }

    /// Whether a buffered byte is still available.
    pub fn has_byte(&self) -> (r: bool)
        ensures
            r == (self.spec_idx() < self.spec_buffer().len()),
    {
        self.slice_idx < self.buffer.len()
    }

    /// Yields the next buffered byte.
    pub fn read_byte(&mut self) -> (r: u8)
        requires
            old(self).spec_idx() < old(self).spec_buffer().len(),
        ensures
            r == old(self).spec_buffer()[old(self).spec_idx()],
            final(self).spec_buffer() == old(self).spec_buffer(),
            final(self).spec_idx() == old(self).spec_idx() + 1,
            final(self).spec_standby() == old(self).spec_standby(),
    {
        let n = self.buffer.len();
        assert(self.slice_idx < n);
        let b = self.buffer[self.slice_idx];
        self.slice_idx = self.slice_idx + 1;
        b
    }

    /// The buffered line read as characters, one per byte.
    pub fn to_string(&self) -> (r: String)
        ensures
            r@ == spec_bytes_to_chars(self.spec_buffer()),
    {
        proof {
            assert(self.buffer@.skip(0) =~= self.buffer@);
        }
        let chars = bytes_to_chars_from(&self.buffer, 0);
        chars_to_string(&chars)
    }

    /// The buffered line split into whitespace-delimited words.
    pub fn to_words(&self) -> (r: Vec<String>)
        ensures
            r.deep_view() == spec_words(spec_bytes_to_chars(self.spec_buffer())),
    {
        proof {
            assert(self.buffer@.skip(0) =~= self.buffer@);
        }
        let chars = bytes_to_chars_from(&self.buffer, 0);
        let ws = tokenize_line(&chars);
        let ghost wsd = ws.deep_view();
        let mut out: Vec<String> = Vec::new();
        let mut j: usize = 0;
        while j < ws.len()
            invariant
                j <= ws@.len(),
                wsd == ws.deep_view(),
                wsd.len() == ws@.len(),
                out@.len() == j,
                forall|i: int| 0 <= i < j ==> out@[i]@ == wsd[i],
            decreases ws@.len() - j,
        {
            let s = chars_to_string(&ws[j]);
            proof {
                assert(s@ == wsd[j as int]);
            }
            out.push(s);
            j = j + 1;
        }
        proof {
            assert forall|i: int| 0 <= i < out.deep_view().len() implies out.deep_view()[i]
                == out@[i]@ by {
                assert(out.deep_view()[i] == out@[i].deep_view());
            }
            assert(out.deep_view() =~~= wsd);
        }
        out
    }
}

} // verus!
