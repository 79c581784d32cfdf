//! Small text utilities shared by the instruction table, the assembler, the
//! disassembler and the debug command set.
//!
//! All string building inside the library happens over `Vec<char>`; a single
//! trusted conversion turns the finished character vector into a `String`.

use vstd::prelude::*;
use vstd::string::StrSliceExecFns;

verus! {

/// Compares two string slices character by character.
pub fn str_eq(a: &str, b: &str) -> (r: bool)
    ensures
        r == (a@ == b@),
{
    let a_len = a.unicode_len();
    let b_len = b.unicode_len();
    if a_len != b_len {
        return false;
    }
    let mut i: usize = 0;
    while i < a_len
        invariant
            a_len == a@.len(),
            a_len == b@.len(),
            i <= a_len,
            forall|j: int| 0 <= j < i ==> a@[j] == b@[j],
        decreases a_len - i,
    {
        if a.get_char(i) != b.get_char(i) {
            return false;
        }
        i = i + 1;
    }
    proof {
        assert(a@ =~= b@);
    }
    true
}

/// Collects the characters of a string slice into a vector.
pub fn str_to_chars(s: &str) -> (r: Vec<char>)
    ensures
        r@ == s@,
{
    let len = s.unicode_len();
    let mut out: Vec<char> = Vec::new();
    let mut i: usize = 0;
    while i < len
        invariant
            len == s@.len(),
            i <= len,
            out@ =~= s@.subrange(0, i as int),
        decreases len - i,
    {
        out.push(s.get_char(i));
        i = i + 1;
    }
    proof {
        assert(out@ =~= s@);
    }
    out
}

/// Relies on `core::iter::Iterator::collect` for `String`: collecting
/// characters yields the string made of exactly those characters.
#[verifier::external_body]
pub fn chars_to_string(v: &Vec<char>) -> (r: String)
    ensures
        r@ == v@,
{
    v.iter().collect()
}

/// The character for one hexadecimal digit (lower case).
pub open spec fn spec_hex_digit(d: u16) -> char {
    if d == 0 { '0' }
    else if d == 1 { '1' }
    else if d == 2 { '2' }
    else if d == 3 { '3' }
    else if d == 4 { '4' }
    else if d == 5 { '5' }
    else if d == 6 { '6' }
    else if d == 7 { '7' }
    else if d == 8 { '8' }
    else if d == 9 { '9' }
    else if d == 10 { 'a' }
    else if d == 11 { 'b' }
    else if d == 12 { 'c' }
    else if d == 13 { 'd' }
    else if d == 14 { 'e' }
    else { 'f' }
}

/// A word rendered as exactly four hexadecimal digits, most significant first.
pub open spec fn spec_hex4(x: u16) -> Seq<char> {
    seq![
        spec_hex_digit((x / 0x1000) % 16),
        spec_hex_digit((x / 0x100) % 16),
        spec_hex_digit((x / 0x10) % 16),
        spec_hex_digit(x % 16),
    ]
}

/// The character for one hexadecimal digit (lower case).
pub fn hex_digit(d: u16) -> (r: char)
    requires
        d < 16,
    ensures
        r == spec_hex_digit(d),
{
    if d == 0 { '0' }
    else if d == 1 { '1' }
    else if d == 2 { '2' }
    else if d == 3 { '3' }
    else if d == 4 { '4' }
    else if d == 5 { '5' }
    else if d == 6 { '6' }
    else if d == 7 { '7' }
    else if d == 8 { '8' }
    else if d == 9 { '9' }
    else if d == 10 { 'a' }
    else if d == 11 { 'b' }
    else if d == 12 { 'c' }
    else if d == 13 { 'd' }
    else if d == 14 { 'e' }
    else { 'f' }
}

/// Appends the four-hex-digit rendering of `x`.
pub fn push_hex4(out: &mut Vec<char>, x: u16)
    ensures
        final(out)@ == old(out)@ + spec_hex4(x),
{
    out.push(hex_digit((x / 0x1000) % 16));
    out.push(hex_digit((x / 0x100) % 16));
    out.push(hex_digit((x / 0x10) % 16));
    out.push(hex_digit(x % 16));
    proof {
        assert(out@ =~= old(out)@ + spec_hex4(x));
    }
}

/// A number rendered in decimal, most significant digit first.
pub open spec fn spec_dec_u64(x: u64) -> Seq<char>
    decreases x,
{
    if x < 10 {
        seq![spec_hex_digit(x as u16)]
    } else {
        spec_dec_u64(x / 10) + seq![spec_hex_digit((x % 10) as u16)]
    }
}

/// Appends the decimal rendering of `x`.
pub fn push_dec_u64(out: &mut Vec<char>, x: u64)
    ensures
        final(out)@ == old(out)@ + spec_dec_u64(x),
    decreases x,
{
    if x < 10 {
        out.push(hex_digit(x as u16));
    } else {
        push_dec_u64(out, x / 10);
        out.push(hex_digit((x % 10) as u16));
        proof {
            assert(out@ =~= old(out)@ + spec_dec_u64(x));
        }
    }
}

/// Appends every character of a string slice.
pub fn push_str_chars(out: &mut Vec<char>, s: &str)
    ensures
        final(out)@ == old(out)@ + s@,
{
    let len = s.unicode_len();
    let mut i: usize = 0;
    while i < len
        invariant
            len == s@.len(),
            i <= len,
            out@ =~= old(out)@ + s@.subrange(0, i as int),
        decreases len - i,
    {
        out.push(s.get_char(i));
        i = i + 1;
    }
    proof {
        assert(out@ =~= old(out)@ + s@);
    }
}

} // verus!
