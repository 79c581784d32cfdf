//! The single-pass instruction compiler: a whitespace-delimited token
//! stream, with label definitions and decoration tokens dropped, where every
//! remaining token is a mnemonic, an `R`-prefixed register number or a hex
//! literal, encoded little-endian.

use vstd::prelude::*;
use crate::assembler::{
    parse_hex_from, spec_le_bytes, spec_parse_hex, spec_words, tokenize_line,
};
use crate::error::Error;
use crate::text::{chars_to_string, str_to_chars};
use crate::types::FIFTEEN_BIT_MAX;
use crate::vm::op::{Op, spec_op_from_str_code};

verus! {

/// Whether a token survives loading: label definitions (`name:`), pipe
/// decorations and arrows are dropped.
pub open spec fn spec_kept(t: Seq<char>) -> bool {
    &&& !(t.len() > 0 && t.last() == ':')
    &&& !(t.len() > 0 && t[0] == '|')
    &&& t != seq!['-', '>']
}

/// The tokens that survive loading, in order.
pub open spec fn spec_filter_kept(ws: Seq<Seq<char>>) -> Seq<Seq<char>>
    decreases ws.len(),
{
    if ws.len() == 0 {
        Seq::empty()
    } else {
        spec_filter_kept(ws.drop_last()) + (if spec_kept(ws.last()) {
            seq![ws.last()]
        } else {
            Seq::<Seq<char>>::empty()
        })
    }
}

/// The value of one decimal digit, if the character is one.
pub open spec fn spec_dec_digit_val(c: char) -> Option<int> {
    if c == '0' { Some(0int) }
    else if c == '1' { Some(1int) }
    else if c == '2' { Some(2int) }
    else if c == '3' { Some(3int) }
    else if c == '4' { Some(4int) }
    else if c == '5' { Some(5int) }
    else if c == '6' { Some(6int) }
    else if c == '7' { Some(7int) }
    else if c == '8' { Some(8int) }
    else if c == '9' { Some(9int) }
    else { None }
}

/// Whether every character is a decimal digit.
pub open spec fn spec_all_dec(s: Seq<char>) -> bool {
    forall|i: int| 0 <= i < s.len() ==> spec_dec_digit_val(#[trigger] s[i]) is Some
}

/// The numeric value of a string of decimal digits, most significant first;
/// non-digits count as zero.
pub open spec fn spec_dec_val(s: Seq<char>) -> int
    decreases s.len(),
{
    if s.len() == 0 {
        0
    } else {
        spec_dec_val(s.drop_last()) * 10 + (match spec_dec_digit_val(s.last()) {
            Some(d) => d,
            None => 0,
        })
    }
}

/// The parse of a decimal digit string: its value if it is nonempty, all
/// digits, and fits in sixteen bits.
pub open spec fn spec_dec_result(body: Seq<char>) -> Option<u16> {
    if body.len() > 0 && spec_all_dec(body) && spec_dec_val(body) <= 0xffff {
        Some(spec_dec_val(body) as u16)
    } else {
        None
    }
}

/// A token parsed as a 16-bit decimal number: an optional leading plus sign,
/// then one or more decimal digits, and a value that fits.
pub open spec fn spec_parse_dec(s: Seq<char>) -> Option<u16> {
    let body = if s.len() >= 1 && s[0] == '+' {
        s.skip(1)
    } else {
        s
    };
    spec_dec_result(body)
}

/// One token resolved to its encoded word: a mnemonic encodes as its opcode;
/// an `R`-prefixed register number `R1` through `R8` encodes as `32767` plus
/// the number; any other token is read as a hex literal from its third
/// character on.  A token that fits none of these does not compile.
pub open spec fn spec_parse_instruction(t: Seq<char>) -> Option<u16> {
    if spec_op_from_str_code(t) is Some {
        spec_op_from_str_code(t)
    } else if t.len() >= 1 && t[0] == 'R' {
        match spec_parse_dec(t.skip(1)) {
            Some(v) => if v + FIFTEEN_BIT_MAX <= 0xffff {
                Some((v + FIFTEEN_BIT_MAX) as u16)
            } else {
                None
            },
            None => None,
        }
    } else if t.len() >= 2 {
        spec_parse_hex(t.skip(2))
    } else {
        None
    }
}

/// What compiling a token list yields: every token's encoded word, emitted
/// little-endian; a parse error if and only if some token does not compile.
pub open spec fn spec_compile(tokens: Seq<Seq<char>>) -> Result<Seq<u8>, Error> {
    if forall|i: int| 0 <= i < tokens.len() ==> spec_parse_instruction(#[trigger] tokens[i]) is Some {
        Ok(
            spec_le_bytes(
                Seq::new(tokens.len(), |i: int| spec_parse_instruction(tokens[i])->Some_0),
            ),
        )
    } else {
        Err(Error::ParseIntErr)
    }
}

/// Parses the characters of a token from position `from` on as a 16-bit
/// decimal number.
pub(crate) fn parse_dec(t: &Vec<char>, from: usize) -> (r: Option<u16>)
    requires
        from <= t@.len(),
    ensures
        r == spec_parse_dec(t@.skip(from as int)),
{
    let ghost s = t@.skip(from as int);
    proof {
        assert(s.len() == t@.len() - from);
        if s.len() >= 1 {
            assert(s[0] == t@[from as int]);
        }
    }
    let mut i: usize = from;
    if i < t.len() && t[i] == '+' {
        i = i + 1;
        proof {
            assert(s.skip(1) =~= t@.skip(i as int));
        }
    }
    let ghost body = t@.skip(i as int);
    proof {
        if s.len() >= 1 && s[0] == '+' {
            assert(body =~= s.skip(1));
        } else {
            assert(body =~= s);
        }
        assert(body.len() == t@.len() - i);
    }
    if i == t.len() {
        proof {
            assert(body.len() == 0);
        }
        return None;
    }
    let mut acc: u32 = 0;
    let mut k: usize = i;
    while k < t.len()
        invariant
            i <= k <= t@.len(),
            body == t@.skip(i as int),
            body.len() == t@.len() - i,
            spec_parse_dec(t@.skip(from as int)) == spec_dec_result(body),
            spec_all_dec(t@.subrange(i as int, k as int)),
            acc <= 0x10000,
            spec_dec_val(t@.subrange(i as int, k as int)) <= 0xffff ==> acc == spec_dec_val(
                t@.subrange(i as int, k as int),
            ),
            spec_dec_val(t@.subrange(i as int, k as int)) > 0xffff ==> acc == 0x10000,
        decreases t@.len() - k,
    {
        let ghost sub0 = t@.subrange(i as int, k as int);
        let ghost sub1 = t@.subrange(i as int, k + 1 as int);
        proof {
            assert(sub1.drop_last() =~= sub0);
            assert(sub1.last() == t@[k as int]);
            assert(spec_dec_val(sub0) >= 0);
        }
        let c = t[k];
        let d: u8 = if c == '0' { 0 }
        else if c == '1' { 1 }
        else if c == '2' { 2 }
        else if c == '3' { 3 }
        else if c == '4' { 4 }
        else if c == '5' { 5 }
        else if c == '6' { 6 }
        else if c == '7' { 7 }
        else if c == '8' { 8 }
        else if c == '9' { 9 }
        else {
            proof {
                assert(body[k - i] == t@[k as int]);
                assert(spec_dec_digit_val(body[k - i]) is None);
                assert(!spec_all_dec(body));
            }
            return None;
        };
        acc = acc * 10 + d as u32;
        if acc > 0xffff {
            acc = 0x10000;
        }
        proof {
            assert(forall|x: int|
                0 <= x < sub1.len() ==> spec_dec_digit_val(#[trigger] sub1[x]) is Some);
        }
        k = k + 1;
    }
    proof {
        assert(t@.subrange(i as int, t@.len() as int) =~= body);
    }
    if acc > 0xffff {
        None
    } else {
        Some(acc as u16)
    }
}

/// Resolves one loaded token to its encoded word.
pub fn parse_instruction(instruction: &str) -> (r: Option<u16>)
    ensures
        r == spec_parse_instruction(instruction@),
{
    match Op::from_str(instruction) {
        Some(op) => {
            return Some(op.to_u16());
        },
        None => {},
    }
    let t = str_to_chars(instruction);
    if t.len() >= 1 && t[0] == 'R' {
        return match parse_dec(&t, 1) {
            Some(v) => if v <= 0xffff - FIFTEEN_BIT_MAX {
                Some(v + FIFTEEN_BIT_MAX)
            } else {
                None
            },
            None => None,
        };
    }
    if t.len() >= 2 {
        return parse_hex_tail(&t);
    }
    None
}

/// Parses a token's characters from its third position on as hex.
fn parse_hex_tail(t: &Vec<char>) -> (r: Option<u16>)
    requires
        t@.len() >= 2,
    ensures
        r == spec_parse_hex(t@.skip(2)),
{
    parse_hex_from(t, 2)
}

/// A loaded program: the token stream an assembly text reduced to.
pub struct Compiler {
    instructions: Vec<String>,
}

impl Compiler {
    /// The loaded tokens.
    pub closed spec fn spec_instructions(&self) -> Seq<Seq<char>> {
        self.instructions.deep_view()
    }

    /// An empty compiler.
    pub fn new() -> (r: Compiler)
        ensures
            r.spec_instructions() =~= Seq::<Seq<char>>::empty(),
    {
        let r = Compiler { instructions: Vec::new() };
        proof {
            assert(r.spec_instructions() =~~= Seq::<Seq<char>>::empty());
        }
        r
    }

    /// Loads assembly text: splits it into whitespace-delimited tokens and
    /// keeps those that stand for an encoded word.
    pub fn load(self, assembly: String) -> (r: Compiler)
        ensures
            r.spec_instructions() == self.spec_instructions() + spec_filter_kept(
                spec_words(assembly@),
            ),
    {
        let chars = str_to_chars(assembly.as_str());
        let words = tokenize_line(&chars);
        let ghost ws = words.deep_view();
        let mut me = self;
        let mut i: usize = 0;
        while i < words.len()
            invariant
                i <= words@.len(),
                ws == words.deep_view(),
                ws.len() == words@.len(),
                me.spec_instructions() == self.spec_instructions() + spec_filter_kept(
                    ws.take(i as int),
                ),
            decreases words@.len() - i,
        {
            let ghost pre = me.spec_instructions();
            let w = &words[i];
            proof {
                assert(w@ == ws[i as int]);
                assert(ws.take(i + 1 as int).drop_last() =~= ws.take(i as int));
                assert(ws.take(i + 1 as int).last() == ws[i as int]);
            }
            let len = w.len();
            let drop = (len > 0 && w[len - 1] == ':') || (len > 0 && w[0] == '|') || (len == 2
                && w[0] == '-' && w[1] == '>');
            if !drop {
                proof {
                    if len == 2 && w@[0] == '-' && w@[1] == '>' {
                        assert(w@ =~= seq!['-', '>']);
                    }
                    if w@ == seq!['-', '>'] {
                        assert(w@.len() == 2 && w@[0] == '-' && w@[1] == '>');
                    }
                    assert(spec_kept(w@));
                }
                me.instructions.push(chars_to_string(w));
                proof {
                    assert(me.spec_instructions() =~~= pre.push(w@));
                    assert(me.spec_instructions() =~~= self.spec_instructions()
                        + spec_filter_kept(ws.take(i + 1 as int)));
                }
            } else {
                proof {
                    if w@.len() == 2 && w@[0] == '-' && w@[1] == '>' {
                        assert(w@ =~= seq!['-', '>']);
                    }
                    assert(!spec_kept(w@));
                    assert(me.spec_instructions() =~~= self.spec_instructions()
                        + spec_filter_kept(ws.take(i + 1 as int)));
                }
            }
            i = i + 1;
        }
        proof {
            assert(ws.take(ws.len() as int) =~= ws);
        }
        me
    }

    /// Compiles the loaded tokens into little-endian bytecode; a token that
    /// stands for no word is a fatal parse error.
    pub fn compile(&self) -> (r: Result<Vec<u8>, Error>)
        ensures
            match spec_compile(self.spec_instructions()) {
                Ok(bytes) => r is Ok && r->Ok_0@ == bytes,
                Err(e) => r == Err::<Vec<u8>, Error>(e),
            },
    {
        let ghost toks = self.spec_instructions();
        let mut words: Vec<u16> = Vec::new();
        let mut i: usize = 0;
        while i < self.instructions.len()
            invariant
                i <= self.instructions@.len(),
                toks == self.spec_instructions(),
                toks.len() == self.instructions@.len(),
                words@.len() == i,
                forall|j: int|
                    0 <= j < i ==> spec_parse_instruction(#[trigger] toks[j]) is Some
                        && words@[j] == spec_parse_instruction(toks[j])->Some_0,
            decreases self.instructions@.len() - i,
        {
            let s = &self.instructions[i];
            proof {
                assert(s@ == toks[i as int]);
            }
            match parse_instruction(s.as_str()) {
                Some(w) => {
                    words.push(w);
                },
                None => {
                    proof {
                        assert(!(spec_parse_instruction(toks[i as int]) is Some));
                    }
                    return Err(Error::ParseIntErr);
                },
            }
            i = i + 1;
        }
        let mut out: Vec<u8> = Vec::new();
        let mut w: usize = 0;
        while w < words.len()
            invariant
                w <= words@.len(),
                out@.len() == 2 * w,
                forall|i: int|
                    0 <= i < out@.len() ==> out@[i] == (if i % 2 == 0 {
                        (words@[i / 2] % 0x100) as u8
                    } else {
                        (words@[i / 2] / 0x100) as u8
                    }),
            decreases words@.len() - w,
        {
            let x = words[w];
            out.push((x % 0x100) as u8);
            out.push((x / 0x100) as u8);
            w = w + 1;
        }
        proof {
            assert(out@ =~= spec_le_bytes(words@));
            assert(words@ =~= Seq::new(toks.len(), |i: int| spec_parse_instruction(toks[i])->Some_0));
        }
        Ok(out)
    }
}

} // verus!
