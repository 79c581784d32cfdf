//! The two-pass assembler: whitespace-delimited tokens after stripping
//! comment lines; a label-discovery pass binds each `name:` token to the
//! encoded-word offset of the next instruction; the encoding pass resolves
//! every remaining token as a mnemonic, a register name, a hex literal or a
//! label, and emits each word little-endian.

use vstd::prelude::*;
use crate::error::Error;
use crate::text::{chars_to_string, str_eq, str_to_chars};
use crate::vm::op::{Op, spec_op_code, spec_op_from_str, spec_reg_name};

verus! {

/// The whitespace characters that delimit tokens.
pub open spec fn spec_is_space(c: char) -> bool {
    c == ' ' || c == '\t' || c == '\r' || c == '\n'
}

/// The input split at line feeds; the separators are consumed.  There is
/// always at least one (possibly empty) line.
pub open spec fn spec_lines(s: Seq<char>) -> Seq<Seq<char>>
    decreases s.len(),
{
    if s.len() == 0 {
        seq![Seq::empty()]
    } else {
        let rest = spec_lines(s.drop_last());
        if s.last() == '\n' {
            rest.push(Seq::empty())
        } else {
            rest.update(rest.len() - 1, rest.last().push(s.last()))
        }
    }
}

/// Whether a line's first non-whitespace character is the comment mark.
pub open spec fn spec_is_comment(line: Seq<char>) -> bool
    decreases line.len(),
{
    if line.len() == 0 {
        false
    } else if spec_is_space(line[0]) {
        spec_is_comment(line.skip(1))
    } else {
        line[0] == '#'
    }
}

/// A line split into whitespace-delimited tokens; separators are consumed
/// and no token is empty.
pub open spec fn spec_words(s: Seq<char>) -> Seq<Seq<char>>
    decreases s.len(),
{
    if s.len() == 0 {
        Seq::empty()
    } else {
        let rest = spec_words(s.drop_last());
        let c = s.last();
        if spec_is_space(c) {
            rest
        } else if s.len() >= 2 && !spec_is_space(s[s.len() - 2]) {
            rest.update(rest.len() - 1, rest.last().push(c))
        } else {
            rest.push(seq![c])
        }
    }
}

/// The token stream of a whole input: the tokens of every line that is not a
/// comment, in order.
pub open spec fn spec_token_lists(lines: Seq<Seq<char>>) -> Seq<Seq<char>>
    decreases lines.len(),
{
    if lines.len() == 0 {
        Seq::empty()
    } else {
        spec_token_lists(lines.drop_last()) + (if spec_is_comment(lines.last()) {
            Seq::<Seq<char>>::empty()
        } else {
            spec_words(lines.last())
        })
    }
}

/// The tokens of an assembly text.
pub open spec fn spec_tokens_of(s: Seq<char>) -> Seq<Seq<char>> {
    spec_token_lists(spec_lines(s))
}

/// Whether a token defines a label (it ends in a colon).
pub open spec fn spec_is_label_tok(t: Seq<char>) -> bool {
    t.len() > 0 && t.last() == ':'
}

/// Whether a token carries the hex prefix.
pub open spec fn spec_has_hex_prefix(t: Seq<char>) -> bool {
    t.len() >= 2 && t[0] == '0' && t[1] == 'x'
}

/// The value of one hexadecimal digit, if the character is one.
pub open spec fn spec_hex_digit_val(c: char) -> Option<int> {
    if c == '0' { Some(0int) }
    else if c == '1' { Some(1int) }
    else if c == '2' { Some(2int) }
    else if c == '3' { Some(3int) }
    else if c == '4' { Some(4int) }
    else if c == '5' { Some(5int) }
    else if c == '6' { Some(6int) }
    else if c == '7' { Some(7int) }
    else if c == '8' { Some(8int) }
    else if c == '9' { Some(9int) }
    else if c == 'a' || c == 'A' { Some(10int) }
    else if c == 'b' || c == 'B' { Some(11int) }
    else if c == 'c' || c == 'C' { Some(12int) }
    else if c == 'd' || c == 'D' { Some(13int) }
    else if c == 'e' || c == 'E' { Some(14int) }
    else if c == 'f' || c == 'F' { Some(15int) }
    else { None }
}

/// Whether every character is a hexadecimal digit.
pub open spec fn spec_all_hex(s: Seq<char>) -> bool {
    forall|i: int| 0 <= i < s.len() ==> spec_hex_digit_val(#[trigger] s[i]) is Some
}

/// The numeric value of a string of hexadecimal digits (most significant
/// first); non-digits count as zero.
pub open spec fn spec_hex_val(s: Seq<char>) -> int
    decreases s.len(),
{
    if s.len() == 0 {
        0
    } else {
        spec_hex_val(s.drop_last()) * 16 + (match spec_hex_digit_val(s.last()) {
            Some(d) => d,
            None => 0,
        })
    }
}

/// The parse of a digit string: its value if it is nonempty, all digits, and
/// fits in sixteen bits.
pub open spec fn spec_hex_result(body: Seq<char>) -> Option<u16> {
    if body.len() > 0 && spec_all_hex(body) && spec_hex_val(body) <= 0xffff {
        Some(spec_hex_val(body) as u16)
    } else {
        None
    }
}

/// A token parsed as a 16-bit hexadecimal number: an optional leading plus
/// sign, then one or more hex digits, and a value that fits.
pub open spec fn spec_parse_hex(s: Seq<char>) -> Option<u16> {
    let body = if s.len() >= 1 && s[0] == '+' {
        s.skip(1)
    } else {
        s
    };
    spec_hex_result(body)
}

/// A token matched against the eight register names: register `k` encodes as
/// `0x8000 + k`.
pub open spec fn spec_reg_from_name(s: Seq<char>) -> Option<u16> {
    if s == spec_reg_name(0) { Some(0x8000u16) }
    else if s == spec_reg_name(1) { Some(0x8001u16) }
    else if s == spec_reg_name(2) { Some(0x8002u16) }
    else if s == spec_reg_name(3) { Some(0x8003u16) }
    else if s == spec_reg_name(4) { Some(0x8004u16) }
    else if s == spec_reg_name(5) { Some(0x8005u16) }
    else if s == spec_reg_name(6) { Some(0x8006u16) }
    else if s == spec_reg_name(7) { Some(0x8007u16) }
    else { None }
}

/// The number of non-label tokens before index `n`: the encoded-word offset
/// a label at index `n` would bind to.
pub open spec fn spec_word_index(tokens: Seq<Seq<char>>, n: int) -> int
    decreases n,
{
    if n <= 0 {
        0
    } else {
        spec_word_index(tokens, n - 1) + (if spec_is_label_tok(tokens[n - 1]) {
            0int
        } else {
            1int
        })
    }
}

/// The label table after the first `n` tokens: every colon-token that is not
/// itself a hex literal binds its name to the offset of the next encoded
/// word; a later definition of the same name wins.
pub open spec fn spec_labels_upto(tokens: Seq<Seq<char>>, n: int) -> Map<Seq<char>, int>
    decreases n,
{
    if n <= 0 {
        Map::empty()
    } else {
        let m = spec_labels_upto(tokens, n - 1);
        let t = tokens[n - 1];
        if spec_is_label_tok(t) && !spec_has_hex_prefix(t) {
            m.insert(t.drop_last(), spec_word_index(tokens, n - 1))
        } else {
            m
        }
    }
}

/// The label table of a token stream.
pub open spec fn spec_labels_of(tokens: Seq<Seq<char>>) -> Map<Seq<char>, int> {
    spec_labels_upto(tokens, tokens.len() as int)
}

/// One token resolved to its encoded word, in order: mnemonic, register
/// name, prefixed hex literal, known label, bare hex literal.  A token none
/// of these fit is a fatal parse error.
pub open spec fn spec_resolve(t: Seq<char>, labels: Map<Seq<char>, int>) -> Result<u16, Error> {
    if spec_op_from_str(t) is Some {
        Ok(spec_op_code(spec_op_from_str(t)->Some_0))
    } else if spec_reg_from_name(t) is Some {
        Ok(spec_reg_from_name(t)->Some_0)
    } else if spec_has_hex_prefix(t) {
        match spec_parse_hex(t.skip(2)) {
            Some(v) => Ok(v),
            None => Err(Error::ParseIntErr),
        }
    } else if labels.contains_key(t) {
        Ok((labels[t] % 0x10000) as u16)
    } else {
        match spec_parse_hex(t) {
            Some(v) => Ok(v),
            None => Err(Error::ParseIntErr),
        }
    }
}

/// The non-label tokens of a token stream, in order.
pub open spec fn spec_code_tokens(tokens: Seq<Seq<char>>) -> Seq<Seq<char>>
    decreases tokens.len(),
{
    if tokens.len() == 0 {
        Seq::empty()
    } else {
        spec_code_tokens(tokens.drop_last()) + (if spec_is_label_tok(tokens.last()) {
            Seq::<Seq<char>>::empty()
        } else {
            seq![tokens.last()]
        })
    }
}

/// The little-endian byte stream of a word sequence: low byte first.
pub open spec fn spec_le_bytes(words: Seq<u16>) -> Seq<u8> {
    Seq::new(
        words.len() * 2,
        |i: int| if i % 2 == 0 { (words[i / 2] % 0x100) as u8 } else { (words[i / 2] / 0x100) as u8 },
    )
}

/// What assembling a text yields: every non-label token resolved against the
/// instruction table and the label table, encoded little-endian; a parse
/// error if and only if some token cannot be resolved.
pub open spec fn spec_assemble(s: Seq<char>) -> Result<Seq<u8>, Error> {
    let tokens = spec_tokens_of(s);
    let labels = spec_labels_of(tokens);
    let code = spec_code_tokens(tokens);
    if forall|i: int| 0 <= i < code.len() ==> spec_resolve(#[trigger] code[i], labels) is Ok {
        Ok(spec_le_bytes(Seq::new(code.len(), |i: int| spec_resolve(code[i], labels)->Ok_0)))
    } else {
        Err(Error::ParseIntErr)
    }
}

/// A nonempty string of characters ending in a non-space ends in a word.
proof fn lemma_words_nonempty(s: Seq<char>)
    requires
        s.len() > 0,
        !spec_is_space(s.last()),
    ensures
        spec_words(s).len() > 0,
    decreases s.len(),
{
    if s.len() >= 2 && !spec_is_space(s[s.len() - 2]) {
        lemma_words_nonempty(s.drop_last());
    }
}

/// There is always at least one line.
proof fn lemma_lines_nonempty(s: Seq<char>)
    ensures
        spec_lines(s).len() >= 1,
    decreases s.len(),
{
    if s.len() > 0 {
        lemma_lines_nonempty(s.drop_last());
    }
}

/// The code tokens of a token-stream prefix are a prefix of the code tokens
/// of the whole stream.
proof fn lemma_code_prefix(td: Seq<Seq<char>>, n: int)
    requires
        0 <= n <= td.len(),
    ensures
        ({
            let a = spec_code_tokens(td.take(n));
            let b = spec_code_tokens(td);
            a.len() <= b.len() && forall|i: int| 0 <= i < a.len() ==> b[i] == a[i]
        }),
    decreases td.len() - n,
{
    if n == td.len() {
        assert(td.take(n) =~= td);
    } else {
        lemma_code_prefix(td, n + 1);
        assert(td.take(n + 1).drop_last() =~= td.take(n));
        assert(td.take(n + 1).last() == td[n]);
    }
}

/// The value of one hexadecimal digit, if the character is one.
fn hex_digit_val(c: char) -> (r: Option<u8>)
    ensures
        r is Some <==> spec_hex_digit_val(c) is Some,
        r is Some ==> r->0 as int == spec_hex_digit_val(c)->0,
{
    if c == '0' { Some(0) }
    else if c == '1' { Some(1) }
    else if c == '2' { Some(2) }
    else if c == '3' { Some(3) }
    else if c == '4' { Some(4) }
    else if c == '5' { Some(5) }
    else if c == '6' { Some(6) }
    else if c == '7' { Some(7) }
    else if c == '8' { Some(8) }
    else if c == '9' { Some(9) }
    else if c == 'a' || c == 'A' { Some(10) }
    else if c == 'b' || c == 'B' { Some(11) }
    else if c == 'c' || c == 'C' { Some(12) }
    else if c == 'd' || c == 'D' { Some(13) }
    else if c == 'e' || c == 'E' { Some(14) }
    else if c == 'f' || c == 'F' { Some(15) }
    else { None }
}

/// Compares two character vectors.
fn chars_eq(a: &Vec<char>, b: &Vec<char>) -> (r: bool)
    ensures
        r == (a@ == b@),
{
    if a.len() != b.len() {
        return false;
    }
    let mut i: usize = 0;
    while i < a.len()
        invariant
            a@.len() == b@.len(),
            i <= a@.len(),
            forall|j: int| 0 <= j < i ==> a@[j] == b@[j],
        decreases a@.len() - i,
    {
        if a[i] != b[i] {
            return false;
        }
        i = i + 1;
    }
    proof {
        assert(a@ =~= b@);
    }
    true
}

/// Copies the first `k` characters of a token.
fn copy_chars_prefix(t: &Vec<char>, k: usize) -> (r: Vec<char>)
    requires
        k <= t@.len(),
    ensures
        r@ == t@.take(k as int),
{
    let mut out: Vec<char> = Vec::new();
    let mut i: usize = 0;
    while i < k
        invariant
            i <= k <= t@.len(),
            out@ =~= t@.take(i as int),
        decreases k - i,
    {
        out.push(t[i]);
        proof {
            assert(out@ =~= t@.take(i + 1 as int));
        }
        i = i + 1;
    }
    out
}

/// Whether a line's first non-whitespace character is the comment mark.
fn is_comment_line(line: &Vec<char>) -> (r: bool)
    ensures
        r == spec_is_comment(line@),
{
    let mut i: usize = 0;
    proof {
        assert(line@.skip(0) =~= line@);
    }
    while i < line.len() && (line[i] == ' ' || line[i] == '\t' || line[i] == '\r' || line[i]
        == '\n')
        invariant
            i <= line@.len(),
            spec_is_comment(line@) == spec_is_comment(line@.skip(i as int)),
        decreases line@.len() - i,
    {
        proof {
            assert(line@.skip(i as int).skip(1) =~= line@.skip(i + 1 as int));
        }
        i = i + 1;
    }
    if i == line.len() {
        false
    } else {
        line[i] == '#'
    }
}

/// Splits a line into whitespace-delimited tokens.
pub(crate) fn tokenize_line(line: &Vec<char>) -> (r: Vec<Vec<char>>)
    ensures
        r.deep_view() == spec_words(line@),
{
    let mut words: Vec<Vec<char>> = Vec::new();
    let mut j: usize = 0;
    while j < line.len()
        invariant
            j <= line@.len(),
            words.deep_view() == spec_words(line@.take(j as int)),
        decreases line@.len() - j,
    {
        let ghost pre = words.deep_view();
        let c = line[j];
        let is_sp = c == ' ' || c == '\t' || c == '\r' || c == '\n';
        proof {
            assert(line@.take(j + 1 as int).drop_last() =~= line@.take(j as int));
        }
        if !is_sp {
            if j == 0 || {
                let p = line[j - 1];
                p == ' ' || p == '\t' || p == '\r' || p == '\n'
            } {
                let mut w: Vec<char> = Vec::new();
                w.push(c);
                words.push(w);
                proof {
                    assert(w.deep_view() =~= seq![c]);
                    assert(words.deep_view() =~~= pre.push(seq![c]));
                    assert(words.deep_view() =~~= spec_words(line@.take(j + 1 as int)));
                }
            } else {
                proof {
                    assert(line@.take(j as int).last() == line@[j - 1]);
                    lemma_words_nonempty(line@.take(j as int));
                }
                let mut w = words.pop().unwrap();
                w.push(c);
                words.push(w);
                proof {
                    assert(words.deep_view() =~~= pre.update(
                        pre.len() - 1,
                        pre.last().push(c),
                    ));
                    assert(words.deep_view() =~~= spec_words(line@.take(j + 1 as int)));
                }
            }
        } else {
            proof {
                assert(words.deep_view() =~~= spec_words(line@.take(j + 1 as int)));
            }
        }
        j = j + 1;
    }
    proof {
        assert(line@.take(line@.len() as int) =~= line@);
    }
    words
}

/// Parses the characters of a token from position `from` on as a 16-bit
/// hexadecimal number.
pub(crate) fn parse_hex_from(t: &Vec<char>, from: usize) -> (r: Option<u16>)
    requires
        from <= t@.len(),
    ensures
        r == spec_parse_hex(t@.skip(from as int)),
{
    let ghost s = t@.skip(from as int);
    proof {
        assert(s.len() == t@.len() - from);
        if s.len() >= 1 {
            assert(s[0] == t@[from as int]);
        }
    }
    let mut i: usize = from;
    if i < t.len() && t[i] == '+' {
        i = i + 1;
        proof {
            assert(s.skip(1) =~= t@.skip(i as int));
        }
    }
    let ghost body = t@.skip(i as int);
    proof {
        if s.len() >= 1 && s[0] == '+' {
            assert(body =~= s.skip(1));
        } else {
            assert(body =~= s);
        }
        assert(body.len() == t@.len() - i);
    }
    if i == t.len() {
        proof {
            assert(body.len() == 0);
        }
        return None;
    }
    let mut acc: u32 = 0;
    let mut k: usize = i;
    while k < t.len()
        invariant
            i <= k <= t@.len(),
            body == t@.skip(i as int),
            body.len() == t@.len() - i,
            spec_parse_hex(t@.skip(from as int)) == spec_hex_result(body),
            spec_all_hex(t@.subrange(i as int, k as int)),
            acc <= 0x10000,
            spec_hex_val(t@.subrange(i as int, k as int)) <= 0xffff ==> acc == spec_hex_val(
                t@.subrange(i as int, k as int),
            ),
            spec_hex_val(t@.subrange(i as int, k as int)) > 0xffff ==> acc == 0x10000,
        decreases t@.len() - k,
    {
        let ghost sub0 = t@.subrange(i as int, k as int);
        let ghost sub1 = t@.subrange(i as int, k + 1 as int);
        proof {
            assert(sub1.drop_last() =~= sub0);
            assert(sub1.last() == t@[k as int]);
            assert(spec_hex_val(sub0) >= 0);
        }
        let c = t[k];
        let d = match hex_digit_val(c) {
            Some(d) => d,
            None => {
                proof {
                    assert(body[k - i] == t@[k as int]);
                    assert(spec_hex_digit_val(body[k - i]) is None);
                    assert(!spec_all_hex(body));
                }
                return None;
            },
        };
        acc = acc * 16 + d as u32;
        if acc > 0xffff {
            acc = 0x10000;
        }
        proof {
            assert(forall|x: int|
                0 <= x < sub1.len() ==> spec_hex_digit_val(#[trigger] sub1[x]) is Some);
        }
        k = k + 1;
    }
    proof {
        assert(t@.subrange(i as int, t@.len() as int) =~= body);
    }
    if acc > 0xffff {
        None
    } else {
        Some(acc as u16)
    }
}

/// The last-wins lookup of an association list, searched from the most
/// recent entry.
pub open spec fn spec_assoc_find(entries: Seq<(Vec<char>, usize)>, k: Seq<char>) -> Option<usize>
    decreases entries.len(),
{
    if entries.len() == 0 {
        None
    } else if entries.last().0@ == k {
        Some(entries.last().1)
    } else {
        spec_assoc_find(entries.drop_last(), k)
    }
}

/// The association list and the label map agree on every key.
pub open spec fn labels_match(entries: Seq<(Vec<char>, usize)>, m: Map<Seq<char>, int>) -> bool {
    forall|k: Seq<char>|
        {
            &&& (#[trigger] spec_assoc_find(entries, k)) is Some <==> m.contains_key(k)
            &&& (spec_assoc_find(entries, k) is Some ==> spec_assoc_find(entries, k)->0 as int
                == m[k])
        }
}

/// Looks a token up in the label table.
fn labels_get(labels: &Vec<(Vec<char>, usize)>, t: &Vec<char>) -> (r: Option<usize>)
    ensures
        r == spec_assoc_find(labels@, t@),
{
    let mut j: usize = labels.len();
    proof {
        assert(labels@.take(labels@.len() as int) =~= labels@);
    }
    while j > 0
        invariant
            j <= labels@.len(),
            spec_assoc_find(labels@, t@) == spec_assoc_find(labels@.take(j as int), t@),
        decreases j,
    {
        proof {
            assert(labels@.take(j as int).last() == labels@[j - 1]);
            assert(labels@.take(j as int).drop_last() =~= labels@.take(j - 1 as int));
        }
        let entry = &labels[j - 1];
        if chars_eq(&entry.0, t) {
            return Some(entry.1);
        }
        j = j - 1;
    }
    None
}

/// Resolves one non-label token to its encoded word.
fn resolve_token(
    t: &Vec<char>,
    labels: &Vec<(Vec<char>, usize)>,
    Ghost(m): Ghost<Map<Seq<char>, int>>,
) -> (r: Result<u16, Error>)
    requires
        labels_match(labels@, m),
    ensures
        r == spec_resolve(t@, m),
{
    let s = chars_to_string(t);
    match Op::from_str(s.as_str()) {
        Some(op) => {
            return Ok(op.to_u16());
        },
        None => {},
    }
    if str_eq(s.as_str(), "AX") {
        return Ok(0x8000);
    }
    if str_eq(s.as_str(), "BX") {
        return Ok(0x8001);
    }
    if str_eq(s.as_str(), "CX") {
        return Ok(0x8002);
    }
    if str_eq(s.as_str(), "DX") {
        return Ok(0x8003);
    }
    if str_eq(s.as_str(), "EX") {
        return Ok(0x8004);
    }
    if str_eq(s.as_str(), "FX") {
        return Ok(0x8005);
    }
    if str_eq(s.as_str(), "GX") {
        return Ok(0x8006);
    }
    if str_eq(s.as_str(), "HX") {
        return Ok(0x8007);
    }
    if t.len() >= 2 && t[0] == '0' && t[1] == 'x' {
        return match parse_hex_from(t, 2) {
            Some(v) => Ok(v),
            None => Err(Error::ParseIntErr),
        };
    }
    proof {
        assert(spec_assoc_find(labels@, t@) is Some <==> m.contains_key(t@));
        if spec_assoc_find(labels@, t@) is Some {
            assert(spec_assoc_find(labels@, t@)->0 as int == m[t@]);
        }
    }
    match labels_get(labels, t) {
        Some(v) => {
            proof {
                assert(v as int == m[t@]);
                assert((v % 0x10000) as u16 == (m[t@] % 0x10000) as u16);
            }
            Ok((v % 0x10000) as u16)
        },
        None => {
            proof {
                assert(t@.skip(0) =~= t@);
            }
            match parse_hex_from(t, 0) {
                Some(v) => Ok(v),
                None => Err(Error::ParseIntErr),
            }
        },
    }
}

/// Assembles whitespace-delimited assembly text into little-endian bytecode.
///
/// Comment lines (first non-space character `#`) are stripped; `name:`
/// tokens bind labels to the offset the next instruction will occupy; every
/// remaining token resolves as a mnemonic, register name, hex literal or
/// label, and an unresolvable token is a fatal parse error.
pub fn assemble(source: &str) -> (r: Result<Vec<u8>, Error>)
    ensures
        match spec_assemble(source@) {
            Ok(bytes) => r is Ok && r->Ok_0@ == bytes,
            Err(e) => r == Err::<Vec<u8>, Error>(e),
        },
{
    let chars = str_to_chars(source);
    // Tokenization: split into lines, drop comment lines, split each
    // remaining line into whitespace-delimited tokens.
    let mut tokens: Vec<Vec<char>> = Vec::new();
    let mut cur: Vec<char> = Vec::new();
    let mut p: usize = 0;
    while p < chars.len()
        invariant
            p <= chars@.len(),
            chars@ == source@,
            spec_lines(chars@.take(p as int)).len() >= 1,
            cur@ == spec_lines(chars@.take(p as int)).last(),
            tokens.deep_view() == spec_token_lists(spec_lines(chars@.take(p as int)).drop_last()),
        decreases chars@.len() - p,
    {
        let ghost ls = spec_lines(chars@.take(p as int));
        proof {
            assert(chars@.take(p + 1 as int).drop_last() =~= chars@.take(p as int));
            assert(chars@.take(p + 1 as int).last() == chars@[p as int]);
            lemma_lines_nonempty(chars@.take(p + 1 as int));
        }
        let c = chars[p];
        if c == '\n' {
            let ghost pre = tokens.deep_view();
            if !is_comment_line(&cur) {
                let mut ws = tokenize_line(&cur);
                let ghost wsd = ws.deep_view();
                tokens.append(&mut ws);
                proof {
                    assert(tokens.deep_view() =~~= pre + wsd);
                }
            }
            cur = Vec::new();
            proof {
                let ls2 = spec_lines(chars@.take(p + 1 as int));
                assert(ls2 == ls.push(Seq::<char>::empty()));
                assert(ls2.drop_last() =~= ls);
                assert(ls.drop_last().push(ls.last()) =~= ls);
                assert(spec_token_lists(ls) == spec_token_lists(ls.drop_last()) + (
                if spec_is_comment(ls.last()) {
                    Seq::<Seq<char>>::empty()
                } else {
                    spec_words(ls.last())
                }));
                if spec_is_comment(ls.last()) {
                    assert(tokens.deep_view() =~~= spec_token_lists(ls));
                } else {
                    assert(tokens.deep_view() =~~= spec_token_lists(ls));
                }
            }
        } else {
            cur.push(c);
            proof {
                let ls2 = spec_lines(chars@.take(p + 1 as int));
                assert(ls2 == ls.update(ls.len() - 1, ls.last().push(c)));
                assert(ls2.drop_last() =~= ls.drop_last());
            }
        }
        p = p + 1;
    }
    proof {
        assert(chars@.take(chars@.len() as int) =~= chars@);
    }
    let ghost ls_all = spec_lines(chars@);
    if !is_comment_line(&cur) {
        let ghost pre = tokens.deep_view();
        let mut ws = tokenize_line(&cur);
        let ghost wsd = ws.deep_view();
        tokens.append(&mut ws);
        proof {
            assert(tokens.deep_view() =~~= pre + wsd);
            assert(ls_all.drop_last().push(ls_all.last()) =~= ls_all);
            assert(tokens.deep_view() =~~= spec_token_lists(ls_all));
        }
    } else {
        proof {
            assert(ls_all.drop_last().push(ls_all.last()) =~= ls_all);
            assert(tokens.deep_view() + Seq::<Seq<char>>::empty() =~~= tokens.deep_view());
            assert(tokens.deep_view() =~~= spec_token_lists(ls_all));
        }
    }
    let ghost td = tokens.deep_view();
    assert(td == spec_tokens_of(source@));
    // Label discovery.
    let mut labels: Vec<(Vec<char>, usize)> = Vec::new();
    let mut ci: usize = 0;
    let mut n: usize = 0;
    while n < tokens.len()
        invariant
            n <= tokens@.len(),
            td == tokens.deep_view(),
            td.len() == tokens@.len(),
            ci <= n,
            ci as int == spec_word_index(td, n as int),
            labels_match(labels@, spec_labels_upto(td, n as int)),
        decreases tokens@.len() - n,
    {
        let ghost m0 = spec_labels_upto(td, n as int);
        let ghost m1 = spec_labels_upto(td, n + 1 as int);
        let t = &tokens[n];
        proof {
            assert(t@ == td[n as int]);
        }
        let is_lab = t.len() > 0 && t[t.len() - 1] == ':';
        if is_lab {
            let has0x = t.len() >= 2 && t[0] == '0' && t[1] == 'x';
            if !has0x {
                let name = copy_chars_prefix(t, t.len() - 1);
                proof {
                    assert(name@ =~= t@.drop_last());
                }
                let ghost pre = labels@;
                labels.push((name, ci));
                proof {
                    assert(m1 == m0.insert(t@.drop_last(), ci as int));
                    assert(labels@.drop_last() =~= pre);
                    assert(labels@.last().0@ == t@.drop_last());
                    assert forall|k: Seq<char>|
                        {
                            &&& (#[trigger] spec_assoc_find(labels@, k)) is Some
                                <==> m1.contains_key(k)
                            &&& (spec_assoc_find(labels@, k) is Some ==> spec_assoc_find(
                                labels@,
                                k,
                            )->0 as int == m1[k])
                        } by {
                        if k == t@.drop_last() {
                        } else {
                            assert(spec_assoc_find(labels@, k) == spec_assoc_find(pre, k));
                        }
                    }
                }
            } else {
                proof {
                    assert(m1 == m0);
                }
            }
        } else {
            ci = ci + 1;
            proof {
                assert(m1 == m0);
            }
        }
        n = n + 1;
    }
    let ghost m = spec_labels_of(td);
    proof {
        assert(td.take(td.len() as int) =~= td);
        assert(labels_match(labels@, m));
    }
    // Encoding: resolve every non-label token in order.
    let mut words: Vec<u16> = Vec::new();
    let mut n2: usize = 0;
    while n2 < tokens.len()
        invariant
            n2 <= tokens@.len(),
            td == tokens.deep_view(),
            td.len() == tokens@.len(),
            td == spec_tokens_of(source@),
            labels_match(labels@, m),
            m == spec_labels_of(td),
            words@.len() == spec_code_tokens(td.take(n2 as int)).len(),
            forall|i: int|
                0 <= i < words@.len() ==> spec_resolve(
                    #[trigger] spec_code_tokens(td.take(n2 as int))[i],
                    m,
                ) is Ok && words@[i] == spec_resolve(spec_code_tokens(td.take(n2 as int))[i], m)->Ok_0,
        decreases tokens@.len() - n2,
    {
        let ghost c0 = spec_code_tokens(td.take(n2 as int));
        let ghost c1 = spec_code_tokens(td.take(n2 + 1 as int));
        let t = &tokens[n2];
        proof {
            assert(t@ == td[n2 as int]);
            assert(td.take(n2 + 1 as int).drop_last() =~= td.take(n2 as int));
            assert(td.take(n2 + 1 as int).last() == td[n2 as int]);
        }
        let is_lab = t.len() > 0 && t[t.len() - 1] == ':';
        if !is_lab {
            proof {
                assert(c1 =~= c0 + seq![t@]);
            }
            match resolve_token(t, &labels, Ghost(m)) {
                Ok(w) => {
                    words.push(w);
                    proof {
                        assert(forall|i: int| 0 <= i < c0.len() ==> c1[i] == c0[i]);
                        assert(c1[c1.len() - 1] == t@);
                    }
                },
                Err(e) => {
                    proof {
                        lemma_code_prefix(td, n2 + 1 as int);
                        let code = spec_code_tokens(td);
                        let idx = c1.len() - 1;
                        assert(c1 =~= c0 + seq![t@]);
                        assert(c1[idx] == t@);
                        assert(idx < code.len() && code[idx] == c1[idx]);
                        assert(!(spec_resolve(code[idx], m) is Ok));
                        assert(!(forall|i: int|
                            0 <= i < code.len() ==> spec_resolve(#[trigger] code[i], m) is Ok));
                        assert(spec_assemble(source@) == Err::<Seq<u8>, Error>(
                            Error::ParseIntErr,
                        ));
                    }
                    return Err(Error::ParseIntErr);
                },
            }
        } else {
            proof {
                assert(c1 =~= c0);
            }
        }
        n2 = n2 + 1;
    }
    let ghost code = spec_code_tokens(td);
    proof {
        assert(td.take(td.len() as int) =~= td);
        assert(words@ =~= Seq::new(code.len(), |i: int| spec_resolve(code[i], m)->Ok_0));
    }
    // Emit each word little-endian, low byte first.
    let mut out: Vec<u8> = Vec::new();
    let mut w: usize = 0;
    while w < words.len()
        invariant
            w <= words@.len(),
            out@.len() == 2 * w,
            forall|i: int|
                0 <= i < out@.len() ==> out@[i] == (if i % 2 == 0 {
                    (words@[i / 2] % 0x100) as u8
                } else {
                    (words@[i / 2] / 0x100) as u8
                }),
        decreases words@.len() - w,
    {
        let x = words[w];
        out.push((x % 0x100) as u8);
        out.push((x / 0x100) as u8);
        w = w + 1;
    }
    proof {
        assert(out@ =~= spec_le_bytes(words@));
    }
    Ok(out)
}

} // verus!
