//! The encoding round trip: assembling the disassembly of a memory image
//! reproduces exactly the words that were disassembled.
//!
//! The proof walks the disassembly text as the tokenizer sees it: every
//! emitted word contributes one whitespace-separated token (plus, in
//! addressed mode, one `0x....:` column that the assembler drops as a hex
//! label), and each such token resolves back to the word it came from.

use vstd::prelude::*;
use crate::assembler::{
    spec_assemble, spec_code_tokens, spec_is_comment, spec_is_label_tok, spec_is_space,
    spec_labels_of, spec_labels_upto, spec_le_bytes, spec_lines, spec_parse_hex, spec_resolve,
    spec_token_lists, spec_tokens_of, spec_words,
};
use crate::error::Error;
use crate::text::{spec_hex4, spec_hex_digit};
use crate::vm::op::{
    Op, spec_is_op, spec_is_reg_alias, spec_mnemonic, spec_op_code, spec_op_from_str, spec_op_of,
    spec_padded_mnemonic, spec_reg_name,
};
use crate::vm::{spec_disasm_from, spec_disasm_word};

verus! {

/// Whether every character of a line is whitespace.
pub open spec fn spec_all_space(s: Seq<char>) -> bool {
    forall|i: int| 0 <= i < s.len() ==> spec_is_space(#[trigger] s[i])
}

/// An all-whitespace line is not a comment.
proof fn lemma_comment_all_space(line: Seq<char>)
    requires
        spec_all_space(line),
    ensures
        !spec_is_comment(line),
    decreases line.len(),
{
    if line.len() > 0 {
        assert(spec_is_space(line[0]));
        assert(spec_all_space(line.skip(1)));
        lemma_comment_all_space(line.skip(1));
    }
}

/// Extending a line that already holds a non-whitespace character does not
/// change whether it is a comment.
proof fn lemma_comment_append(line: Seq<char>, c: char)
    requires
        !spec_all_space(line),
    ensures
        spec_is_comment(line + seq![c]) == spec_is_comment(line),
    decreases line.len(),
{
    assert(line.len() > 0);
    if spec_is_space(line[0]) {
        assert(!spec_all_space(line.skip(1))) by {
            let i = choose|i: int| 0 <= i < line.len() && !spec_is_space(#[trigger] line[i]);
            assert(i >= 1);
            assert(line.skip(1)[i - 1] == line[i]);
            assert(!spec_is_space(line.skip(1)[i - 1]));
        }
        lemma_comment_append(line.skip(1), c);
        assert((line + seq![c]).skip(1) =~= line.skip(1) + seq![c]);
    } else {
        assert((line + seq![c])[0] == line[0]);
    }
}

/// Appending a whitespace character to a line does not change its words.
proof fn lemma_words_append_space(line: Seq<char>, c: char)
    requires
        spec_is_space(c),
    ensures
        spec_words(line + seq![c]) == spec_words(line),
{
    assert((line + seq![c]).drop_last() =~= line);
    assert((line + seq![c]).last() == c);
}

/// Appending a run of non-whitespace characters to a line that is empty or
/// ends in whitespace appends exactly one word.
proof fn lemma_words_append_token(line: Seq<char>, tok: Seq<char>)
    requires
        tok.len() > 0,
        forall|i: int| 0 <= i < tok.len() ==> !spec_is_space(#[trigger] tok[i]),
        line.len() == 0 || spec_is_space(line.last()),
    ensures
        spec_words(line + tok) == spec_words(line).push(tok),
    decreases tok.len(),
{
    if tok.len() == 1 {
        let s = line + tok;
        assert(s.drop_last() =~= line);
        assert(s.last() == tok[0]);
        if line.len() == 0 {
            assert(spec_words(s) == spec_words(line).push(seq![tok[0]]));
        } else {
            assert(s[s.len() - 2] == line.last());
            assert(spec_words(s) == spec_words(line).push(seq![tok[0]]));
        }
        assert(seq![tok[0]] =~= tok);
    } else {
        lemma_words_append_token(line, tok.drop_last());
        let s = line + tok;
        let s0 = line + tok.drop_last();
        assert(s.drop_last() =~= s0);
        assert(s.last() == tok.last());
        assert(s.len() >= 2);
        assert(s[s.len() - 2] == tok[tok.len() - 2]);
        assert(!spec_is_space(s[s.len() - 2]));
        let rest = spec_words(s0);
        assert(rest == spec_words(line).push(tok.drop_last()));
        assert(rest.len() > 0);
        assert(rest.last() == tok.drop_last());
        assert(spec_words(s) == rest.update(rest.len() - 1, rest.last().push(tok.last())));
        assert(tok.drop_last().push(tok.last()) =~= tok);
        assert(spec_words(s) =~= spec_words(line).push(tok));
    }
}

/// The state carried along the disassembly text: its token list, and a last
/// line that is either still all whitespace or already known not to be a
/// comment.
pub open spec fn spec_text_state(t: Seq<char>) -> bool {
    spec_all_space(spec_lines(t).last()) || !spec_is_comment(spec_lines(t).last())
}

/// There is always at least one line.
proof fn lemma_lines_len(s: Seq<char>)
    ensures
        spec_lines(s).len() >= 1,
    decreases s.len(),
{
    if s.len() > 0 {
        lemma_lines_len(s.drop_last());
    }
}

/// Appending one whitespace character leaves the token list unchanged and
/// keeps the text state.
proof fn lemma_tokens_append_space(t: Seq<char>, c: char)
    requires
        spec_is_space(c),
        spec_text_state(t),
    ensures
        spec_tokens_of(t + seq![c]) == spec_tokens_of(t),
        spec_text_state(t + seq![c]),
        c == '\n' ==> spec_lines(t + seq![c]).last() =~= Seq::<char>::empty(),
        c != '\n' ==> spec_lines(t + seq![c]).last() =~= spec_lines(t).last().push(c),
        c != '\n' ==> (spec_all_space(spec_lines(t).last()) ==> spec_all_space(
            spec_lines(t + seq![c]).last(),
        )),
{
    lemma_lines_len(t);
    let ls = spec_lines(t);
    let t2 = t + seq![c];
    assert(t2.drop_last() =~= t);
    assert(t2.last() == c);
    let l = ls.last();
    if c == '\n' {
        let ls2 = ls.push(Seq::<char>::empty());
        assert(spec_lines(t2) == ls2);
        assert(ls2.drop_last() =~= ls);
        assert(ls.drop_last().push(ls.last()) =~= ls);
        if spec_all_space(l) {
            lemma_comment_all_space(l);
        }
        assert(!spec_is_comment(l));
        assert(spec_token_lists(ls2) == spec_token_lists(ls) + spec_words(Seq::<char>::empty()));
        assert(spec_token_lists(ls2) =~= spec_token_lists(ls));
    } else {
        let l2 = l.push(c);
        let ls2 = ls.update(ls.len() - 1, l2);
        assert(spec_lines(t2) == ls2);
        assert(ls2.drop_last() =~= ls.drop_last());
        assert(ls2.last() == l2);
        assert(l.push(c) =~= l + seq![c]);
        lemma_words_append_space(l, c);
        if spec_all_space(l) {
            assert(spec_all_space(l2)) by {
                assert(forall|i: int| 0 <= i < l.len() ==> l2[i] == l[i]);
                assert(l2[l2.len() - 1] == c);
            }
            lemma_comment_all_space(l2);
        } else {
            lemma_comment_append(l, c);
        }
        assert(!spec_is_comment(l2));
        if spec_all_space(l) {
            lemma_comment_all_space(l);
        }
        assert(!spec_is_comment(l));
        assert(spec_token_lists(ls2) == spec_token_lists(ls2.drop_last()) + spec_words(l2));
        assert(spec_token_lists(ls) == spec_token_lists(ls.drop_last()) + spec_words(l));
        assert(spec_token_lists(ls2) =~= spec_token_lists(ls));
    }
}

/// Appending a run of whitespace characters leaves the token list unchanged.
proof fn lemma_tokens_append_spaces(t: Seq<char>, sp: Seq<char>)
    requires
        forall|i: int| 0 <= i < sp.len() ==> spec_is_space(#[trigger] sp[i]),
        spec_text_state(t),
    ensures
        spec_tokens_of(t + sp) == spec_tokens_of(t),
        spec_text_state(t + sp),
        sp.len() > 0 ==> spec_lines(t + sp).last().len() == 0 || spec_is_space(
            spec_lines(t + sp).last().last(),
        ),
    decreases sp.len(),
{
    if sp.len() == 0 {
        assert(t + sp =~= t);
    } else {
        lemma_tokens_append_spaces(t, sp.drop_last());
        let t1 = t + sp.drop_last();
        lemma_tokens_append_space(t1, sp.last());
        assert(t1 + seq![sp.last()] =~= t + sp);
        lemma_lines_len(t1 + seq![sp.last()]);
        if sp.last() == '\n' {
        } else {
            assert(spec_lines(t1 + seq![sp.last()]).last().last() == sp.last());
        }
    }
}

/// Appending one whitespace-free token after whitespace appends exactly one
/// entry to the token list.
proof fn lemma_tokens_append_token(t: Seq<char>, tok: Seq<char>)
    requires
        tok.len() > 0,
        forall|i: int| 0 <= i < tok.len() ==> !spec_is_space(#[trigger] tok[i]),
        tok[0] != '#',
        spec_text_state(t),
        spec_lines(t).last().len() == 0 || spec_is_space(spec_lines(t).last().last()),
    ensures
        spec_tokens_of(t + tok) == spec_tokens_of(t).push(tok),
        spec_text_state(t + tok),
        !spec_all_space(spec_lines(t + tok).last()),
    decreases tok.len(),
{
    lemma_lines_len(t);
    let ls = spec_lines(t);
    let l = ls.last();
    // Lines only change in their last entry when non-newline characters are
    // appended.
    lemma_lines_append_line(t, tok);
    let l2 = l + tok;
    let ls2 = spec_lines(t + tok);
    assert(ls2 =~= ls.update(ls.len() - 1, l2));
    assert(ls2.drop_last() =~= ls.drop_last());
    assert(ls2.last() == l2);
    lemma_words_append_token(l, tok);
    if spec_all_space(l) {
        lemma_comment_token(l, tok);
    } else {
        lemma_comment_token_keep(l, tok);
    }
    assert(!spec_is_comment(l2));
    if spec_all_space(l) {
        lemma_comment_all_space(l);
    }
    assert(!spec_is_comment(l));
    assert(spec_token_lists(ls2) == spec_token_lists(ls2.drop_last()) + spec_words(l2));
    assert(spec_token_lists(ls) == spec_token_lists(ls.drop_last()) + spec_words(l));
    assert(spec_tokens_of(t + tok) =~= spec_tokens_of(t).push(tok));
    assert(!spec_all_space(l2)) by {
        assert(l2[l.len() as int] == tok[0]);
    }
}

/// Appending newline-free characters extends the last line in place.
proof fn lemma_lines_append_line(t: Seq<char>, tok: Seq<char>)
    requires
        forall|i: int| 0 <= i < tok.len() ==> tok[i] != '\n',
    ensures
        spec_lines(t + tok) =~= spec_lines(t).update(
            spec_lines(t).len() - 1,
            spec_lines(t).last() + tok,
        ),
    decreases tok.len(),
{
    lemma_lines_len(t);
    if tok.len() == 0 {
        assert(t + tok =~= t);
        assert(spec_lines(t).update(spec_lines(t).len() - 1, spec_lines(t).last() + tok)
            =~= spec_lines(t));
    } else {
        lemma_lines_append_line(t, tok.drop_last());
        let t1 = t + tok.drop_last();
        assert((t + tok).drop_last() =~= t1);
        assert((t + tok).last() == tok.last());
        assert(tok.last() != '\n');
        let ls1 = spec_lines(t1);
        lemma_lines_len(t1);
        assert(spec_lines(t + tok) == ls1.update(ls1.len() - 1, ls1.last().push(tok.last())));
        assert(ls1.last() == spec_lines(t).last() + tok.drop_last());
        assert((spec_lines(t).last() + tok.drop_last()).push(tok.last()) =~= spec_lines(t).last()
            + tok);
    }
}

/// A token whose first character is not the comment mark starts no comment
/// on an all-whitespace line.
proof fn lemma_comment_token(l: Seq<char>, tok: Seq<char>)
    requires
        spec_all_space(l),
        tok.len() > 0,
        !spec_is_space(tok[0]),
        tok[0] != '#',
    ensures
        !spec_is_comment(l + tok),
    decreases l.len(),
{
    if l.len() == 0 {
        assert((l + tok) =~= tok);
        assert(spec_is_comment(tok) == (tok[0] == '#'));
    } else {
        assert(spec_is_space((l + tok)[0]));
        assert((l + tok).skip(1) =~= l.skip(1) + tok);
        assert(spec_all_space(l.skip(1)));
        lemma_comment_token(l.skip(1), tok);
    }
}

/// The address column the disassembler prints for word index `i`, as the
/// tokenizer sees it: `0x`, four hex digits, and a colon.
pub open spec fn spec_addr_tok(i: int) -> Seq<char> {
    "0x"@ + spec_hex4(i as u16) + seq![':']
}

/// The single token a word prints as: the bare mnemonic at an opcode
/// position, a register name in the alias range, four hex digits otherwise.
pub open spec fn spec_word_tok(w: u16, at_op: bool) -> Seq<char> {
    if at_op && spec_is_op(w) {
        spec_mnemonic(spec_op_of(w))
    } else if spec_is_reg_alias(w) {
        spec_reg_name(w - 0x8000)
    } else {
        spec_hex4(w)
    }
}

/// The token stream the disassembly of words `i .. n` produces, entered with
/// `remaining` operands owed.
pub open spec fn spec_rt_tokens(mem: Seq<u16>, i: int, remaining: nat, n: int, wa: bool) -> Seq<
    Seq<char>,
>
    decreases n - i,
{
    if i >= n {
        Seq::empty()
    } else {
        let w = mem[i];
        let rem2 = spec_disasm_word(w, i, remaining, wa).1;
        let here: Seq<Seq<char>> = if wa && remaining == 0 && !spec_is_reg_alias(w) {
            seq![spec_addr_tok(i), spec_word_tok(w, remaining == 0)]
        } else {
            seq![spec_word_tok(w, remaining == 0)]
        };
        here + spec_rt_tokens(mem, i + 1, rem2, n, wa)
    }
}

/// Whether a character is one of the sixteen lower-case hex digit
/// characters.
pub open spec fn spec_is_hex_char(c: char) -> bool {
    c == '0' || c == '1' || c == '2' || c == '3' || c == '4' || c == '5' || c == '6' || c == '7'
        || c == '8' || c == '9' || c == 'a' || c == 'b' || c == 'c' || c == 'd' || c == 'e' || c
        == 'f'
}

/// Every rendered hex digit is a hex digit character and parses back to its
/// value.
proof fn lemma_hex_digit(d: u16)
    requires
        d < 16,
    ensures
        spec_is_hex_char(spec_hex_digit(d)),
        crate::assembler::spec_hex_digit_val(spec_hex_digit(d)) == Some(d as int),
{
}

/// The shape of a four-hex-digit token: length four, hex characters only,
/// and it parses back to the rendered word.
proof fn lemma_hex4_tok(w: u16)
    ensures
        spec_hex4(w).len() == 4,
        forall|i: int| 0 <= i < 4 ==> spec_is_hex_char(#[trigger] spec_hex4(w)[i]),
        spec_parse_hex(spec_hex4(w)) == Some(w),
{
    let h = spec_hex4(w);
    lemma_hex_digit((w / 0x1000) % 16);
    lemma_hex_digit((w / 0x100) % 16);
    lemma_hex_digit((w / 0x10) % 16);
    lemma_hex_digit(w % 16);
    assert(h[0] == spec_hex_digit((w / 0x1000) % 16));
    assert(h[1] == spec_hex_digit((w / 0x100) % 16));
    assert(h[2] == spec_hex_digit((w / 0x10) % 16));
    assert(h[3] == spec_hex_digit(w % 16));
    assert(!(h[0] == '+'));
    assert(crate::assembler::spec_all_hex(h));
    // The digit-by-digit value equals the word.
    let e = Seq::<char>::empty();
    assert(h =~= e.push(h[0]).push(h[1]).push(h[2]).push(h[3]));
    assert(crate::assembler::spec_hex_val(e) == 0);
    lemma_hex_val_push(e, h[0]);
    lemma_hex_val_push(e.push(h[0]), h[1]);
    lemma_hex_val_push(e.push(h[0]).push(h[1]), h[2]);
    lemma_hex_val_push(e.push(h[0]).push(h[1]).push(h[2]), h[3]);
    assert(crate::assembler::spec_hex_val(h) == (((w / 0x1000) % 16) * 16 + (w / 0x100) % 16) * 16
        * 16 + ((w / 0x10) % 16) * 16 + w % 16);
    assert((((w / 0x1000) % 16) * 16 + (w / 0x100) % 16) * 16 * 16 + ((w / 0x10) % 16) * 16 + w
        % 16 == w) by (bit_vector);
}

/// Appending one digit multiplies the value by sixteen and adds the digit.
proof fn lemma_hex_val_push(s: Seq<char>, c: char)
    ensures
        crate::assembler::spec_hex_val(s.push(c)) == crate::assembler::spec_hex_val(s) * 16 + (
        match crate::assembler::spec_hex_digit_val(c) {
            Some(d) => d,
            None => 0,
        }),
{
    assert(s.push(c).drop_last() =~= s);
    assert(s.push(c).last() == c);
}

/// The leading spaces that pad a mnemonic to four columns.
pub open spec fn spec_pad(op: Op) -> Seq<char> {
    match op {
        Op::HALT => Seq::empty(),
        Op::SET => seq![' '],
        Op::PUSH => Seq::empty(),
        Op::POP => seq![' '],
        Op::EQ => seq![' ', ' '],
        Op::GT => seq![' ', ' '],
        Op::JMP => seq![' '],
        Op::JT => seq![' ', ' '],
        Op::JF => seq![' ', ' '],
        Op::ADD => seq![' '],
        Op::MULT => Seq::empty(),
        Op::MOD => seq![' '],
        Op::AND => seq![' '],
        Op::OR => seq![' ', ' '],
        Op::NOT => seq![' '],
        Op::RMEM => Seq::empty(),
        Op::WMEM => Seq::empty(),
        Op::CALL => Seq::empty(),
        Op::RET => seq![' '],
        Op::OUT => seq![' '],
        Op::IN => seq![' ', ' '],
        Op::NOOP => Seq::empty(),
        Op::RegOrData(_) => Seq::empty(),
    }
}

/// Two sequences differing at one index are different.
proof fn lemma_seq_ne(a: Seq<char>, b: Seq<char>, i: int)
    requires
        0 <= i < a.len(),
        i < b.len(),
        a[i] != b[i],
    ensures
        a != b,
{
    if a == b {
        assert(a[i] == b[i]);
    }
}

/// The shape of a bare mnemonic: the padded form is spaces followed by the
/// mnemonic, the mnemonic is nonempty, whitespace-free, starts with no
/// comment mark, ends with no colon, and parses back to its opcode.
proof fn lemma_mnemonic_tok(op: Op)
    requires
        !(op is RegOrData),
    ensures
        spec_padded_mnemonic(op) == spec_pad(op) + spec_mnemonic(op),
        forall|i: int|
            0 <= i < spec_pad(op).len() ==> spec_is_space(#[trigger] spec_pad(op)[i]),
        spec_mnemonic(op).len() > 0,
        forall|i: int|
            0 <= i < spec_mnemonic(op).len() ==> !spec_is_space(#[trigger] spec_mnemonic(op)[i]),
        spec_mnemonic(op)[0] != '#',
        spec_mnemonic(op).last() != ':',
        spec_op_from_str(spec_mnemonic(op)) == Some(op),
{
    reveal_strlit("HALT");
    reveal_strlit("SET");
    reveal_strlit("PUSH");
    reveal_strlit("POP");
    reveal_strlit("EQ");
    reveal_strlit("GT");
    reveal_strlit("JMP");
    reveal_strlit("JT");
    reveal_strlit("JF");
    reveal_strlit("ADD");
    reveal_strlit("MULT");
    reveal_strlit("MOD");
    reveal_strlit("AND");
    reveal_strlit("OR");
    reveal_strlit("NOT");
    reveal_strlit("RMEM");
    reveal_strlit("WMEM");
    reveal_strlit("CALL");
    reveal_strlit("RET");
    reveal_strlit("OUT");
    reveal_strlit("IN");
    reveal_strlit("NOOP");
    reveal_strlit(" SET");
    reveal_strlit(" POP");
    reveal_strlit("  EQ");
    reveal_strlit("  GT");
    reveal_strlit(" JMP");
    reveal_strlit("  JT");
    reveal_strlit("  JF");
    reveal_strlit(" ADD");
    reveal_strlit(" MOD");
    reveal_strlit(" AND");
    reveal_strlit("  OR");
    reveal_strlit(" NOT");
    reveal_strlit(" RET");
    reveal_strlit(" OUT");
    reveal_strlit("  IN");
    reveal_strlit("AX");
    reveal_strlit("BX");
    reveal_strlit("CX");
    reveal_strlit("DX");
    reveal_strlit("EX");
    reveal_strlit("FX");
    reveal_strlit("GX");
    reveal_strlit("HX");
    assert(spec_padded_mnemonic(op) =~= spec_pad(op) + spec_mnemonic(op));
    match op {
        Op::HALT => {},
        Op::SET => {},
        Op::PUSH => {
            lemma_seq_ne("PUSH"@, "HALT"@, 0);
        },
        Op::POP => {
            lemma_seq_ne("POP"@, "SET"@, 0);
        },
        Op::EQ => {},
        Op::GT => {
            lemma_seq_ne("GT"@, "EQ"@, 0);
        },
        Op::JMP => {
            lemma_seq_ne("JMP"@, "SET"@, 0);
            lemma_seq_ne("JMP"@, "POP"@, 0);
        },
        Op::JT => {
            lemma_seq_ne("JT"@, "EQ"@, 0);
            lemma_seq_ne("JT"@, "GT"@, 0);
        },
        Op::JF => {
            lemma_seq_ne("JF"@, "EQ"@, 0);
            lemma_seq_ne("JF"@, "GT"@, 0);
            lemma_seq_ne("JF"@, "JT"@, 1);
        },
        Op::ADD => {
            lemma_seq_ne("ADD"@, "SET"@, 0);
            lemma_seq_ne("ADD"@, "POP"@, 0);
            lemma_seq_ne("ADD"@, "JMP"@, 0);
        },
        Op::MULT => {
            lemma_seq_ne("MULT"@, "HALT"@, 0);
            lemma_seq_ne("MULT"@, "PUSH"@, 0);
        },
        Op::MOD => {
            lemma_seq_ne("MOD"@, "SET"@, 0);
            lemma_seq_ne("MOD"@, "POP"@, 0);
            lemma_seq_ne("MOD"@, "JMP"@, 0);
            lemma_seq_ne("MOD"@, "ADD"@, 0);
        },
        Op::AND => {
            lemma_seq_ne("AND"@, "SET"@, 0);
            lemma_seq_ne("AND"@, "POP"@, 0);
            lemma_seq_ne("AND"@, "JMP"@, 0);
            lemma_seq_ne("AND"@, "ADD"@, 1);
            lemma_seq_ne("AND"@, "MOD"@, 0);
        },
        Op::OR => {
            lemma_seq_ne("OR"@, "EQ"@, 0);
            lemma_seq_ne("OR"@, "GT"@, 0);
            lemma_seq_ne("OR"@, "JT"@, 0);
            lemma_seq_ne("OR"@, "JF"@, 0);
        },
        Op::NOT => {
            lemma_seq_ne("NOT"@, "SET"@, 0);
            lemma_seq_ne("NOT"@, "POP"@, 0);
            lemma_seq_ne("NOT"@, "JMP"@, 0);
            lemma_seq_ne("NOT"@, "ADD"@, 0);
            lemma_seq_ne("NOT"@, "MOD"@, 0);
            lemma_seq_ne("NOT"@, "AND"@, 0);
        },
        Op::RMEM => {
            lemma_seq_ne("RMEM"@, "HALT"@, 0);
            lemma_seq_ne("RMEM"@, "PUSH"@, 0);
            lemma_seq_ne("RMEM"@, "MULT"@, 0);
        },
        Op::WMEM => {
            lemma_seq_ne("WMEM"@, "HALT"@, 0);
            lemma_seq_ne("WMEM"@, "PUSH"@, 0);
            lemma_seq_ne("WMEM"@, "MULT"@, 0);
            lemma_seq_ne("WMEM"@, "RMEM"@, 0);
        },
        Op::CALL => {
            lemma_seq_ne("CALL"@, "HALT"@, 0);
            lemma_seq_ne("CALL"@, "PUSH"@, 0);
            lemma_seq_ne("CALL"@, "MULT"@, 0);
            lemma_seq_ne("CALL"@, "RMEM"@, 0);
            lemma_seq_ne("CALL"@, "WMEM"@, 0);
        },
        Op::RET => {
            lemma_seq_ne("RET"@, "SET"@, 0);
            lemma_seq_ne("RET"@, "POP"@, 0);
            lemma_seq_ne("RET"@, "JMP"@, 0);
            lemma_seq_ne("RET"@, "ADD"@, 0);
            lemma_seq_ne("RET"@, "MOD"@, 0);
            lemma_seq_ne("RET"@, "AND"@, 0);
            lemma_seq_ne("RET"@, "NOT"@, 0);
        },
        Op::OUT => {
            lemma_seq_ne("OUT"@, "SET"@, 0);
            lemma_seq_ne("OUT"@, "POP"@, 0);
            lemma_seq_ne("OUT"@, "JMP"@, 0);
            lemma_seq_ne("OUT"@, "ADD"@, 0);
            lemma_seq_ne("OUT"@, "MOD"@, 0);
            lemma_seq_ne("OUT"@, "AND"@, 0);
            lemma_seq_ne("OUT"@, "NOT"@, 0);
            lemma_seq_ne("OUT"@, "RET"@, 0);
        },
        Op::IN => {
            lemma_seq_ne("IN"@, "EQ"@, 0);
            lemma_seq_ne("IN"@, "GT"@, 0);
            lemma_seq_ne("IN"@, "JT"@, 0);
            lemma_seq_ne("IN"@, "JF"@, 0);
            lemma_seq_ne("IN"@, "OR"@, 0);
        },
        Op::NOOP => {
            lemma_seq_ne("NOOP"@, "HALT"@, 0);
            lemma_seq_ne("NOOP"@, "PUSH"@, 0);
            lemma_seq_ne("NOOP"@, "MULT"@, 0);
            lemma_seq_ne("NOOP"@, "RMEM"@, 0);
            lemma_seq_ne("NOOP"@, "WMEM"@, 0);
            lemma_seq_ne("NOOP"@, "CALL"@, 0);
        },
        Op::RegOrData(_) => {},
    }
}

/// The shape of a register name: two characters, whitespace-free, no
/// mnemonic, and it parses back to its alias address.
proof fn lemma_reg_tok(k: int)
    requires
        0 <= k < 8,
    ensures
        spec_reg_name(k).len() == 2,
        forall|i: int|
            0 <= i < spec_reg_name(k).len() ==> !spec_is_space(#[trigger] spec_reg_name(k)[i]),
        spec_reg_name(k)[0] != '#',
        spec_reg_name(k).last() != ':',
        spec_op_from_str(spec_reg_name(k)) is None,
        crate::assembler::spec_reg_from_name(spec_reg_name(k)) == Some((0x8000 + k) as u16),
{
    reveal_strlit("HALT");
    reveal_strlit("SET");
    reveal_strlit("PUSH");
    reveal_strlit("POP");
    reveal_strlit("EQ");
    reveal_strlit("GT");
    reveal_strlit("JMP");
    reveal_strlit("JT");
    reveal_strlit("JF");
    reveal_strlit("ADD");
    reveal_strlit("MULT");
    reveal_strlit("MOD");
    reveal_strlit("AND");
    reveal_strlit("OR");
    reveal_strlit("NOT");
    reveal_strlit("RMEM");
    reveal_strlit("WMEM");
    reveal_strlit("CALL");
    reveal_strlit("RET");
    reveal_strlit("OUT");
    reveal_strlit("IN");
    reveal_strlit("NOOP");
    reveal_strlit(" SET");
    reveal_strlit(" POP");
    reveal_strlit("  EQ");
    reveal_strlit("  GT");
    reveal_strlit(" JMP");
    reveal_strlit("  JT");
    reveal_strlit("  JF");
    reveal_strlit(" ADD");
    reveal_strlit(" MOD");
    reveal_strlit(" AND");
    reveal_strlit("  OR");
    reveal_strlit(" NOT");
    reveal_strlit(" RET");
    reveal_strlit(" OUT");
    reveal_strlit("  IN");
    reveal_strlit("AX");
    reveal_strlit("BX");
    reveal_strlit("CX");
    reveal_strlit("DX");
    reveal_strlit("EX");
    reveal_strlit("FX");
    reveal_strlit("GX");
    reveal_strlit("HX");
    if k == 0 {
        lemma_seq_ne("AX"@, "HALT"@, 0);
        lemma_seq_ne("AX"@, "SET"@, 0);
        lemma_seq_ne("AX"@, "PUSH"@, 0);
        lemma_seq_ne("AX"@, "POP"@, 0);
        lemma_seq_ne("AX"@, "EQ"@, 0);
        lemma_seq_ne("AX"@, "GT"@, 0);
        lemma_seq_ne("AX"@, "JMP"@, 0);
        lemma_seq_ne("AX"@, "JT"@, 0);
        lemma_seq_ne("AX"@, "JF"@, 0);
        lemma_seq_ne("AX"@, "ADD"@, 1);
        lemma_seq_ne("AX"@, "MULT"@, 0);
        lemma_seq_ne("AX"@, "MOD"@, 0);
        lemma_seq_ne("AX"@, "AND"@, 1);
        lemma_seq_ne("AX"@, "OR"@, 0);
        lemma_seq_ne("AX"@, "NOT"@, 0);
        lemma_seq_ne("AX"@, "RMEM"@, 0);
        lemma_seq_ne("AX"@, "WMEM"@, 0);
        lemma_seq_ne("AX"@, "CALL"@, 0);
        lemma_seq_ne("AX"@, "RET"@, 0);
        lemma_seq_ne("AX"@, "OUT"@, 0);
        lemma_seq_ne("AX"@, "IN"@, 0);
        lemma_seq_ne("AX"@, "NOOP"@, 0);
    } else if k == 1 {
        lemma_seq_ne("BX"@, "HALT"@, 0);
        lemma_seq_ne("BX"@, "SET"@, 0);
        lemma_seq_ne("BX"@, "PUSH"@, 0);
        lemma_seq_ne("BX"@, "POP"@, 0);
        lemma_seq_ne("BX"@, "EQ"@, 0);
        lemma_seq_ne("BX"@, "GT"@, 0);
        lemma_seq_ne("BX"@, "JMP"@, 0);
        lemma_seq_ne("BX"@, "JT"@, 0);
        lemma_seq_ne("BX"@, "JF"@, 0);
        lemma_seq_ne("BX"@, "ADD"@, 0);
        lemma_seq_ne("BX"@, "MULT"@, 0);
        lemma_seq_ne("BX"@, "MOD"@, 0);
        lemma_seq_ne("BX"@, "AND"@, 0);
        lemma_seq_ne("BX"@, "OR"@, 0);
        lemma_seq_ne("BX"@, "NOT"@, 0);
        lemma_seq_ne("BX"@, "RMEM"@, 0);
        lemma_seq_ne("BX"@, "WMEM"@, 0);
        lemma_seq_ne("BX"@, "CALL"@, 0);
        lemma_seq_ne("BX"@, "RET"@, 0);
        lemma_seq_ne("BX"@, "OUT"@, 0);
        lemma_seq_ne("BX"@, "IN"@, 0);
        lemma_seq_ne("BX"@, "NOOP"@, 0);
        lemma_seq_ne("BX"@, "AX"@, 0);
    } else if k == 2 {
        lemma_seq_ne("CX"@, "HALT"@, 0);
        lemma_seq_ne("CX"@, "SET"@, 0);
        lemma_seq_ne("CX"@, "PUSH"@, 0);
        lemma_seq_ne("CX"@, "POP"@, 0);
        lemma_seq_ne("CX"@, "EQ"@, 0);
        lemma_seq_ne("CX"@, "GT"@, 0);
        lemma_seq_ne("CX"@, "JMP"@, 0);
        lemma_seq_ne("CX"@, "JT"@, 0);
        lemma_seq_ne("CX"@, "JF"@, 0);
        lemma_seq_ne("CX"@, "ADD"@, 0);
        lemma_seq_ne("CX"@, "MULT"@, 0);
        lemma_seq_ne("CX"@, "MOD"@, 0);
        lemma_seq_ne("CX"@, "AND"@, 0);
        lemma_seq_ne("CX"@, "OR"@, 0);
        lemma_seq_ne("CX"@, "NOT"@, 0);
        lemma_seq_ne("CX"@, "RMEM"@, 0);
        lemma_seq_ne("CX"@, "WMEM"@, 0);
        lemma_seq_ne("CX"@, "CALL"@, 1);
        lemma_seq_ne("CX"@, "RET"@, 0);
        lemma_seq_ne("CX"@, "OUT"@, 0);
        lemma_seq_ne("CX"@, "IN"@, 0);
        lemma_seq_ne("CX"@, "NOOP"@, 0);
        lemma_seq_ne("CX"@, "AX"@, 0);
        lemma_seq_ne("CX"@, "BX"@, 0);
    } else if k == 3 {
        lemma_seq_ne("DX"@, "HALT"@, 0);
        lemma_seq_ne("DX"@, "SET"@, 0);
        lemma_seq_ne("DX"@, "PUSH"@, 0);
        lemma_seq_ne("DX"@, "POP"@, 0);
        lemma_seq_ne("DX"@, "EQ"@, 0);
        lemma_seq_ne("DX"@, "GT"@, 0);
        lemma_seq_ne("DX"@, "JMP"@, 0);
        lemma_seq_ne("DX"@, "JT"@, 0);
        lemma_seq_ne("DX"@, "JF"@, 0);
        lemma_seq_ne("DX"@, "ADD"@, 0);
        lemma_seq_ne("DX"@, "MULT"@, 0);
        lemma_seq_ne("DX"@, "MOD"@, 0);
        lemma_seq_ne("DX"@, "AND"@, 0);
        lemma_seq_ne("DX"@, "OR"@, 0);
        lemma_seq_ne("DX"@, "NOT"@, 0);
        lemma_seq_ne("DX"@, "RMEM"@, 0);
        lemma_seq_ne("DX"@, "WMEM"@, 0);
        lemma_seq_ne("DX"@, "CALL"@, 0);
        lemma_seq_ne("DX"@, "RET"@, 0);
        lemma_seq_ne("DX"@, "OUT"@, 0);
        lemma_seq_ne("DX"@, "IN"@, 0);
        lemma_seq_ne("DX"@, "NOOP"@, 0);
        lemma_seq_ne("DX"@, "AX"@, 0);
        lemma_seq_ne("DX"@, "BX"@, 0);
        lemma_seq_ne("DX"@, "CX"@, 0);
    } else if k == 4 {
        lemma_seq_ne("EX"@, "HALT"@, 0);
        lemma_seq_ne("EX"@, "SET"@, 0);
        lemma_seq_ne("EX"@, "PUSH"@, 0);
        lemma_seq_ne("EX"@, "POP"@, 0);
        lemma_seq_ne("EX"@, "EQ"@, 1);
        lemma_seq_ne("EX"@, "GT"@, 0);
        lemma_seq_ne("EX"@, "JMP"@, 0);
        lemma_seq_ne("EX"@, "JT"@, 0);
        lemma_seq_ne("EX"@, "JF"@, 0);
        lemma_seq_ne("EX"@, "ADD"@, 0);
        lemma_seq_ne("EX"@, "MULT"@, 0);
        lemma_seq_ne("EX"@, "MOD"@, 0);
        lemma_seq_ne("EX"@, "AND"@, 0);
        lemma_seq_ne("EX"@, "OR"@, 0);
        lemma_seq_ne("EX"@, "NOT"@, 0);
        lemma_seq_ne("EX"@, "RMEM"@, 0);
        lemma_seq_ne("EX"@, "WMEM"@, 0);
        lemma_seq_ne("EX"@, "CALL"@, 0);
        lemma_seq_ne("EX"@, "RET"@, 0);
        lemma_seq_ne("EX"@, "OUT"@, 0);
        lemma_seq_ne("EX"@, "IN"@, 0);
        lemma_seq_ne("EX"@, "NOOP"@, 0);
        lemma_seq_ne("EX"@, "AX"@, 0);
        lemma_seq_ne("EX"@, "BX"@, 0);
        lemma_seq_ne("EX"@, "CX"@, 0);
        lemma_seq_ne("EX"@, "DX"@, 0);
    } else if k == 5 {
        lemma_seq_ne("FX"@, "HALT"@, 0);
        lemma_seq_ne("FX"@, "SET"@, 0);
        lemma_seq_ne("FX"@, "PUSH"@, 0);
        lemma_seq_ne("FX"@, "POP"@, 0);
        lemma_seq_ne("FX"@, "EQ"@, 0);
        lemma_seq_ne("FX"@, "GT"@, 0);
        lemma_seq_ne("FX"@, "JMP"@, 0);
        lemma_seq_ne("FX"@, "JT"@, 0);
        lemma_seq_ne("FX"@, "JF"@, 0);
        lemma_seq_ne("FX"@, "ADD"@, 0);
        lemma_seq_ne("FX"@, "MULT"@, 0);
        lemma_seq_ne("FX"@, "MOD"@, 0);
        lemma_seq_ne("FX"@, "AND"@, 0);
        lemma_seq_ne("FX"@, "OR"@, 0);
        lemma_seq_ne("FX"@, "NOT"@, 0);
        lemma_seq_ne("FX"@, "RMEM"@, 0);
        lemma_seq_ne("FX"@, "WMEM"@, 0);
        lemma_seq_ne("FX"@, "CALL"@, 0);
        lemma_seq_ne("FX"@, "RET"@, 0);
        lemma_seq_ne("FX"@, "OUT"@, 0);
        lemma_seq_ne("FX"@, "IN"@, 0);
        lemma_seq_ne("FX"@, "NOOP"@, 0);
        lemma_seq_ne("FX"@, "AX"@, 0);
        lemma_seq_ne("FX"@, "BX"@, 0);
        lemma_seq_ne("FX"@, "CX"@, 0);
        lemma_seq_ne("FX"@, "DX"@, 0);
        lemma_seq_ne("FX"@, "EX"@, 0);
    } else if k == 6 {
        lemma_seq_ne("GX"@, "HALT"@, 0);
        lemma_seq_ne("GX"@, "SET"@, 0);
        lemma_seq_ne("GX"@, "PUSH"@, 0);
        lemma_seq_ne("GX"@, "POP"@, 0);
        lemma_seq_ne("GX"@, "EQ"@, 0);
        lemma_seq_ne("GX"@, "GT"@, 1);
        lemma_seq_ne("GX"@, "JMP"@, 0);
        lemma_seq_ne("GX"@, "JT"@, 0);
        lemma_seq_ne("GX"@, "JF"@, 0);
        lemma_seq_ne("GX"@, "ADD"@, 0);
        lemma_seq_ne("GX"@, "MULT"@, 0);
        lemma_seq_ne("GX"@, "MOD"@, 0);
        lemma_seq_ne("GX"@, "AND"@, 0);
        lemma_seq_ne("GX"@, "OR"@, 0);
        lemma_seq_ne("GX"@, "NOT"@, 0);
        lemma_seq_ne("GX"@, "RMEM"@, 0);
        lemma_seq_ne("GX"@, "WMEM"@, 0);
        lemma_seq_ne("GX"@, "CALL"@, 0);
        lemma_seq_ne("GX"@, "RET"@, 0);
        lemma_seq_ne("GX"@, "OUT"@, 0);
        lemma_seq_ne("GX"@, "IN"@, 0);
        lemma_seq_ne("GX"@, "NOOP"@, 0);
        lemma_seq_ne("GX"@, "AX"@, 0);
        lemma_seq_ne("GX"@, "BX"@, 0);
        lemma_seq_ne("GX"@, "CX"@, 0);
        lemma_seq_ne("GX"@, "DX"@, 0);
        lemma_seq_ne("GX"@, "EX"@, 0);
        lemma_seq_ne("GX"@, "FX"@, 0);
    } else if k == 7 {
        lemma_seq_ne("HX"@, "HALT"@, 1);
        lemma_seq_ne("HX"@, "SET"@, 0);
        lemma_seq_ne("HX"@, "PUSH"@, 0);
        lemma_seq_ne("HX"@, "POP"@, 0);
        lemma_seq_ne("HX"@, "EQ"@, 0);
        lemma_seq_ne("HX"@, "GT"@, 0);
        lemma_seq_ne("HX"@, "JMP"@, 0);
        lemma_seq_ne("HX"@, "JT"@, 0);
        lemma_seq_ne("HX"@, "JF"@, 0);
        lemma_seq_ne("HX"@, "ADD"@, 0);
        lemma_seq_ne("HX"@, "MULT"@, 0);
        lemma_seq_ne("HX"@, "MOD"@, 0);
        lemma_seq_ne("HX"@, "AND"@, 0);
        lemma_seq_ne("HX"@, "OR"@, 0);
        lemma_seq_ne("HX"@, "NOT"@, 0);
        lemma_seq_ne("HX"@, "RMEM"@, 0);
        lemma_seq_ne("HX"@, "WMEM"@, 0);
        lemma_seq_ne("HX"@, "CALL"@, 0);
        lemma_seq_ne("HX"@, "RET"@, 0);
        lemma_seq_ne("HX"@, "OUT"@, 0);
        lemma_seq_ne("HX"@, "IN"@, 0);
        lemma_seq_ne("HX"@, "NOOP"@, 0);
        lemma_seq_ne("HX"@, "AX"@, 0);
        lemma_seq_ne("HX"@, "BX"@, 0);
        lemma_seq_ne("HX"@, "CX"@, 0);
        lemma_seq_ne("HX"@, "DX"@, 0);
        lemma_seq_ne("HX"@, "EX"@, 0);
        lemma_seq_ne("HX"@, "FX"@, 0);
        lemma_seq_ne("HX"@, "GX"@, 0);
    }
}

/// A four-hex-digit token is no mnemonic, no register name and carries no
/// hex prefix, so the assembler reads it as a bare hex literal.
proof fn lemma_hex4_not_name(w: u16)
    ensures
        spec_op_from_str(spec_hex4(w)) is None,
        crate::assembler::spec_reg_from_name(spec_hex4(w)) is None,
        !crate::assembler::spec_has_hex_prefix(spec_hex4(w)),
        forall|i: int| 0 <= i < spec_hex4(w).len() ==> !spec_is_space(#[trigger] spec_hex4(w)[i]),
        spec_hex4(w)[0] != '#',
        spec_hex4(w).last() != ':',
        !spec_is_label_tok(spec_hex4(w)),
    decreases w,
{
    reveal_strlit("HALT");
    reveal_strlit("SET");
    reveal_strlit("PUSH");
    reveal_strlit("POP");
    reveal_strlit("EQ");
    reveal_strlit("GT");
    reveal_strlit("JMP");
    reveal_strlit("JT");
    reveal_strlit("JF");
    reveal_strlit("ADD");
    reveal_strlit("MULT");
    reveal_strlit("MOD");
    reveal_strlit("AND");
    reveal_strlit("OR");
    reveal_strlit("NOT");
    reveal_strlit("RMEM");
    reveal_strlit("WMEM");
    reveal_strlit("CALL");
    reveal_strlit("RET");
    reveal_strlit("OUT");
    reveal_strlit("IN");
    reveal_strlit("NOOP");
    reveal_strlit(" SET");
    reveal_strlit(" POP");
    reveal_strlit("  EQ");
    reveal_strlit("  GT");
    reveal_strlit(" JMP");
    reveal_strlit("  JT");
    reveal_strlit("  JF");
    reveal_strlit(" ADD");
    reveal_strlit(" MOD");
    reveal_strlit(" AND");
    reveal_strlit("  OR");
    reveal_strlit(" NOT");
    reveal_strlit(" RET");
    reveal_strlit(" OUT");
    reveal_strlit("  IN");
    reveal_strlit("AX");
    reveal_strlit("BX");
    reveal_strlit("CX");
    reveal_strlit("DX");
    reveal_strlit("EX");
    reveal_strlit("FX");
    reveal_strlit("GX");
    reveal_strlit("HX");
    lemma_hex4_tok(w);
    let h = spec_hex4(w);
    assert(h.len() == 4);
    assert(h != "HALT"@) by {
        if h == "HALT"@ {
            assert(h[0] == 'H');
        }
    }
    assert(h != "PUSH"@) by {
        if h == "PUSH"@ {
            assert(h[0] == 'P');
        }
    }
    assert(h != "MULT"@) by {
        if h == "MULT"@ {
            assert(h[0] == 'M');
        }
    }
    assert(h != "RMEM"@) by {
        if h == "RMEM"@ {
            assert(h[0] == 'R');
        }
    }
    assert(h != "WMEM"@) by {
        if h == "WMEM"@ {
            assert(h[0] == 'W');
        }
    }
    assert(h != "CALL"@) by {
        if h == "CALL"@ {
            assert(h[0] == 'C');
        }
    }
    assert(h != "NOOP"@) by {
        if h == "NOOP"@ {
            assert(h[0] == 'N');
        }
    }
    assert(h[1] != 'x');
    assert(h.last() != ':');
}

/// The shape of the address column: it is a colon-terminated token with the
/// hex prefix, so the assembler drops it and binds no label.
proof fn lemma_addr_tok(i: int)
    requires
        0 <= i < 0x10000,
    ensures
        spec_addr_tok(i).len() == 7,
        forall|j: int|
            0 <= j < spec_addr_tok(i).len() ==> !spec_is_space(#[trigger] spec_addr_tok(i)[j]),
        spec_addr_tok(i)[0] != '#',
        spec_is_label_tok(spec_addr_tok(i)),
        crate::assembler::spec_has_hex_prefix(spec_addr_tok(i)),
{
    reveal_strlit("0x");
    lemma_hex4_tok(i as u16);
    let a = spec_addr_tok(i);
    assert(a.len() == 7);
    assert(a[0] == '0');
    assert(a[1] == 'x');
    assert(a.last() == ':');
    assert forall|j: int| 0 <= j < a.len() implies !spec_is_space(a[j]) by {
        if 2 <= j < 6 {
            assert(a[j] == spec_hex4(i as u16)[j - 2]);
            assert(spec_is_hex_char(a[j]));
        }
    }
}

/// A line that is already no comment stays no comment when extended.
proof fn lemma_comment_token_keep(l: Seq<char>, tok: Seq<char>)
    requires
        !spec_all_space(l),
        !spec_is_comment(l),
    ensures
        !spec_is_comment(l + tok),
    decreases l.len(),
{
    assert(l.len() > 0);
    if spec_is_space(l[0]) {
        assert((l + tok)[0] == l[0]);
        assert((l + tok).skip(1) =~= l.skip(1) + tok);
        assert(!spec_all_space(l.skip(1))) by {
            let i = choose|i: int| 0 <= i < l.len() && !spec_is_space(#[trigger] l[i]);
            assert(i >= 1);
            assert(l.skip(1)[i - 1] == l[i]);
            assert(!spec_is_space(l.skip(1)[i - 1]));
        }
        lemma_comment_token_keep(l.skip(1), tok);
    } else {
        assert((l + tok)[0] == l[0]);
    }
}


/// A word's token never defines a label and always resolves back to the
/// word, against an empty label table.
proof fn lemma_resolve_word(w: u16, at_op: bool)
    ensures
        !spec_is_label_tok(spec_word_tok(w, at_op)),
        spec_word_tok(w, at_op).len() > 0,
        forall|i: int|
            0 <= i < spec_word_tok(w, at_op).len() ==> !spec_is_space(
                #[trigger] spec_word_tok(w, at_op)[i],
            ),
        spec_word_tok(w, at_op)[0] != '#',
        spec_resolve(spec_word_tok(w, at_op), Map::empty()) == Ok::<u16, Error>(w),
{
    if at_op && spec_is_op(w) {
        let op = spec_op_of(w);
        lemma_mnemonic_tok(op);
        assert(spec_op_code(spec_op_of(w)) == w);
    } else if spec_is_reg_alias(w) {
        lemma_reg_tok(w - 0x8000);
        assert((0x8000 + (w - 0x8000)) as u16 == w);
    } else {
        lemma_hex4_tok(w);
        lemma_hex4_not_name(w);
        assert(!Map::<Seq<char>, int>::empty().contains_key(spec_word_tok(w, at_op)));
    }
}

/// A token stream whose label tokens all carry the hex prefix binds no
/// label at all.
proof fn lemma_labels_empty(tokens: Seq<Seq<char>>, j: int)
    requires
        0 <= j <= tokens.len(),
        forall|x: int|
            0 <= x < tokens.len() ==> (spec_is_label_tok(#[trigger] tokens[x])
                ==> crate::assembler::spec_has_hex_prefix(tokens[x])),
    ensures
        spec_labels_upto(tokens, j) == Map::<Seq<char>, int>::empty(),
    decreases j,
{
    if j > 0 {
        lemma_labels_empty(tokens, j - 1);
    }
}

/// Filtering code tokens distributes over concatenation.
proof fn lemma_code_tokens_add(a: Seq<Seq<char>>, b: Seq<Seq<char>>)
    ensures
        spec_code_tokens(a + b) == spec_code_tokens(a) + spec_code_tokens(b),
    decreases b.len(),
{
    if b.len() == 0 {
        assert(a + b =~= a);
        assert(spec_code_tokens(a) + spec_code_tokens(b) =~= spec_code_tokens(a));
    } else {
        lemma_code_tokens_add(a, b.drop_last());
        assert((a + b).drop_last() =~= a + b.drop_last());
        assert((a + b).last() == b.last());
        assert(spec_code_tokens(a) + spec_code_tokens(b.drop_last()) + (if spec_is_label_tok(
            b.last(),
        ) {
            Seq::<Seq<char>>::empty()
        } else {
            seq![b.last()]
        }) =~= spec_code_tokens(a) + spec_code_tokens(b));
    }
}

/// The code tokens of the disassembly stream are exactly one token per
/// word, each resolving to its word, and every label token in the stream
/// carries the hex prefix.
proof fn lemma_rt_stream(mem: Seq<u16>, i: int, rem: nat, n: int, wa: bool)
    requires
        0 <= i <= n,
        n <= 0x8000,
        n <= mem.len(),
    ensures
        ({
            let code = spec_code_tokens(spec_rt_tokens(mem, i, rem, n, wa));
            &&& code.len() == n - i
            &&& forall|j: int|
                0 <= j < code.len() ==> spec_resolve(#[trigger] code[j], Map::empty())
                    == Ok::<u16, Error>(mem[i + j])
        }),
        forall|x: int|
            0 <= x < spec_rt_tokens(mem, i, rem, n, wa).len() ==> (spec_is_label_tok(
                #[trigger] spec_rt_tokens(mem, i, rem, n, wa)[x],
            ) ==> crate::assembler::spec_has_hex_prefix(spec_rt_tokens(mem, i, rem, n, wa)[x])),
    decreases n - i,
{
    let rt = spec_rt_tokens(mem, i, rem, n, wa);
    if i >= n {
        assert(spec_code_tokens(rt).len() == 0);
    } else {
        let w = mem[i];
        let rem2 = spec_disasm_word(w, i, rem, wa).1;
        let wtok = spec_word_tok(w, rem == 0);
        lemma_resolve_word(w, rem == 0);
        let rest = spec_rt_tokens(mem, i + 1, rem2, n, wa);
        lemma_rt_stream(mem, i + 1, rem2, n, wa);
        let here: Seq<Seq<char>> = if wa && rem == 0 && !spec_is_reg_alias(w) {
            seq![spec_addr_tok(i), wtok]
        } else {
            seq![wtok]
        };
        assert(rt == here + rest);
        lemma_code_tokens_add(here, rest);
        assert(spec_code_tokens(Seq::<Seq<char>>::empty()) == Seq::<Seq<char>>::empty());
        if wa && rem == 0 && !spec_is_reg_alias(w) {
            lemma_addr_tok(i);
            assert(here == seq![spec_addr_tok(i), wtok]);
            assert(here.drop_last() =~= seq![spec_addr_tok(i)]);
            assert(here.last() == wtok);
            assert(seq![spec_addr_tok(i)].drop_last() =~= Seq::<Seq<char>>::empty());
            assert(seq![spec_addr_tok(i)].last() == spec_addr_tok(i));
            assert(spec_is_label_tok(spec_addr_tok(i)));
            assert(spec_code_tokens(seq![spec_addr_tok(i)]) =~= Seq::<Seq<char>>::empty());
            assert(spec_code_tokens(here) =~= spec_code_tokens(here.drop_last()) + seq![wtok]);
            assert(spec_code_tokens(here) =~= seq![wtok]);
        } else {
            assert(here == seq![wtok]);
            assert(here.drop_last() =~= Seq::<Seq<char>>::empty());
            assert(here.last() == wtok);
            assert(spec_code_tokens(here) =~= seq![wtok]);
        }
        let code = spec_code_tokens(rt);
        let code_rest = spec_code_tokens(rest);
        assert(code =~= seq![wtok] + code_rest);
        assert(code.len() == n - i);
        assert forall|j: int| 0 <= j < code.len() implies spec_resolve(
            #[trigger] code[j],
            Map::empty(),
        ) == Ok::<u16, Error>(mem[i + j]) by {
            if j == 0 {
                assert(code[0] == wtok);
            } else {
                assert(code[j] == code_rest[j - 1]);
            }
        }
        assert forall|x: int|
            0 <= x < rt.len() && spec_is_label_tok(#[trigger] rt[x]) implies crate::assembler::spec_has_hex_prefix(
            rt[x],
        ) by {
            if x < here.len() {
                assert(rt[x] == here[x]);
                if wa && rem == 0 && !spec_is_reg_alias(w) {
                    lemma_addr_tok(i);
                }
            } else {
                assert(rt[x] == rest[x - here.len()]);
            }
        }
    }
}

/// Walking the disassembly text: appending the disassembly of words
/// `i .. n` to a well-formed text appends exactly the expected tokens.
#[verifier::rlimit(100)]
#[verifier::spinoff_prover]
proof fn lemma_disasm_text(mem: Seq<u16>, i: int, rem: nat, n: int, wa: bool, t: Seq<char>)
    requires
        0 <= i <= n,
        n <= 0x8000,
        n <= mem.len(),
        spec_text_state(t),
    ensures
        spec_tokens_of(t + spec_disasm_from(mem, i, rem, n, wa)) == spec_tokens_of(t)
            + spec_rt_tokens(mem, i, rem, n, wa),
    decreases n - i,
{
    reveal_strlit("\n");
    reveal_strlit("\t");
    reveal_strlit("0x");
    reveal_strlit(":\t");
    if i >= n {
        assert(t + spec_disasm_from(mem, i, rem, n, wa) =~= t);
        assert(spec_tokens_of(t) + spec_rt_tokens(mem, i, rem, n, wa) =~= spec_tokens_of(t));
    } else {
        let w = mem[i];
        let chunk = spec_disasm_word(w, i, rem, wa).0;
        let rem2 = spec_disasm_word(w, i, rem, wa).1;
        let delim_c: char = if rem == 0 { '\n' } else { '\t' };
        assert("\n"@ =~= seq!['\n']);
        assert("\t"@ =~= seq!['\t']);
        let with_addr = wa && rem == 0 && !spec_is_reg_alias(w);
        let wtok = spec_word_tok(w, rem == 0);
        lemma_resolve_word(w, rem == 0);
        let t1 = t + seq![delim_c];
        lemma_tokens_append_space(t, delim_c);
        lemma_lines_len(t1);
        let tpre: Seq<char> = if with_addr {
            let t2 = t1 + spec_addr_tok(i);
            lemma_addr_tok(i);
            lemma_tokens_append_token(t1, spec_addr_tok(i));
            let t3 = t2 + seq!['\t'];
            lemma_tokens_append_space(t2, '\t');
            t3
        } else {
            t1
        };
        // After the separators (and optional address column) the last line
        // ends in whitespace.
        assert(spec_lines(tpre).last().len() == 0 || spec_is_space(spec_lines(tpre).last().last()));
        let t4: Seq<char> = if rem == 0 && spec_is_op(w) {
            let op = spec_op_of(w);
            lemma_mnemonic_tok(op);
            lemma_tokens_append_spaces(tpre, spec_pad(op));
            let ta = tpre + spec_pad(op);
            assert(spec_lines(ta).last().len() == 0 || spec_is_space(spec_lines(ta).last().last()));
            lemma_tokens_append_token(ta, spec_mnemonic(op));
            ta + spec_mnemonic(op)
        } else {
            lemma_tokens_append_token(tpre, wtok);
            tpre + wtok
        };
        assert(t4 =~= t + chunk) by {
            if rem == 0 && spec_is_op(w) {
                lemma_mnemonic_tok(spec_op_of(w));
            }
        }
        assert(spec_tokens_of(t4) == spec_tokens_of(t) + (if with_addr {
            seq![spec_addr_tok(i), wtok]
        } else {
            seq![wtok]
        })) by {
            if with_addr {
                assert(spec_tokens_of(t4) =~= spec_tokens_of(t).push(spec_addr_tok(i)).push(wtok));
                assert(spec_tokens_of(t).push(spec_addr_tok(i)).push(wtok) =~= spec_tokens_of(t)
                    + seq![spec_addr_tok(i), wtok]);
            } else {
                assert(spec_tokens_of(t).push(wtok) =~= spec_tokens_of(t) + seq![wtok]);
            }
        }
        assert(spec_text_state(t4));
        lemma_disasm_text(mem, i + 1, rem2, n, wa, t4);
        assert(t + spec_disasm_from(mem, i, rem, n, wa) =~= t4 + spec_disasm_from(
            mem,
            i + 1,
            rem2,
            n,
            wa,
        ));
        assert(spec_tokens_of(t) + spec_rt_tokens(mem, i, rem, n, wa) =~= spec_tokens_of(t4)
            + spec_rt_tokens(mem, i + 1, rem2, n, wa));
    }
}

/// The encoding round trip: assembling the disassembly of the first `n`
/// words of a memory image yields exactly those words, encoded
/// little-endian, in either plain or addressed mode.
pub proof fn lemma_assemble_disassemble_round_trip(mem: Seq<u16>, n: int, wa: bool)
    requires
        0 <= n <= mem.len(),
        n <= 0x8000,
    ensures
        spec_assemble(spec_disasm_from(mem, 0, 0, n, wa)) == Ok::<Seq<u8>, Error>(
            spec_le_bytes(mem.subrange(0, n)),
        ),
{
    let t0 = Seq::<char>::empty();
    assert(spec_lines(t0) == seq![Seq::<char>::empty()]);
    assert(spec_all_space(spec_lines(t0).last()));
    let ls0 = seq![Seq::<char>::empty()];
    assert(ls0.drop_last() =~= Seq::<Seq<char>>::empty());
    assert(ls0.last() =~= Seq::<char>::empty());
    assert(spec_token_lists(Seq::<Seq<char>>::empty()) == Seq::<Seq<char>>::empty());
    assert(spec_words(Seq::<char>::empty()) == Seq::<Seq<char>>::empty());
    assert(!spec_is_comment(Seq::<char>::empty()));
    assert(spec_token_lists(ls0) =~= Seq::<Seq<char>>::empty());
    assert(spec_tokens_of(t0) =~= Seq::<Seq<char>>::empty());
    lemma_disasm_text(mem, 0, 0, n, wa, t0);
    let text = spec_disasm_from(mem, 0, 0, n, wa);
    let toks = spec_rt_tokens(mem, 0, 0, n, wa);
    assert(t0 + text =~= text);
    assert(spec_tokens_of(text) =~= toks);
    lemma_rt_stream(mem, 0, 0, n, wa);
    lemma_labels_empty(toks, toks.len() as int);
    let labels = spec_labels_of(toks);
    assert(labels == Map::<Seq<char>, int>::empty());
    let code = spec_code_tokens(toks);
    assert(code.len() == n);
    assert(forall|j: int|
        0 <= j < code.len() ==> spec_resolve(#[trigger] code[j], labels) == Ok::<u16, Error>(
            mem[j],
        ));
    let words = Seq::new(code.len(), |j: int| spec_resolve(code[j], labels)->Ok_0);
    assert(words =~= mem.subrange(0, n));
    assert(spec_assemble(text) == Ok::<Seq<u8>, Error>(spec_le_bytes(words)));
}


/// The round trip stated over the bytecode itself: a memory image whose
/// first words were loaded from a little-endian byte stream disassembles to
/// text that assembles back to exactly that byte stream.
pub proof fn lemma_bytecode_round_trip(b: Seq<u8>, mem: Seq<u16>, wa: bool)
    requires
        b.len() % 2 == 0,
        b.len() / 2 <= 0x8000,
        mem.len() >= b.len() / 2,
        forall|i: int| 0 <= i < b.len() / 2 ==> mem[i] == crate::vm::spec_le_word(b, i),
    ensures
        spec_assemble(spec_disasm_from(mem, 0, 0, (b.len() / 2) as int, wa)) == Ok::<Seq<u8>, Error>(b),
{
    let n = b.len() / 2;
    lemma_assemble_disassemble_round_trip(mem, n as int, wa);
    let words = mem.subrange(0, n as int);
    assert forall|j: int| 0 <= j < spec_le_bytes(words).len() implies spec_le_bytes(words)[j]
        == b[j] by {
        let w = words[j / 2];
        assert(w == crate::vm::spec_le_word(b, j / 2));
        assert(b[2 * (j / 2)] < 256 && b[2 * (j / 2) + 1] < 256);
        if j % 2 == 0 {
            assert(2 * (j / 2) == j);
            assert(w == (b[j] + b[j + 1] * 0x100) as u16);
            assert((b[j] + b[j + 1] * 0x100) % 0x100 == b[j]);
        } else {
            assert(2 * (j / 2) + 1 == j);
            assert(w == (b[j - 1] + b[j] * 0x100) as u16);
            assert((b[j - 1] + b[j] * 0x100) / 0x100 == b[j]);
        }
    }
    assert(spec_le_bytes(words) =~= b);
}

} // verus!
