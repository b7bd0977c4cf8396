//! Upper-case hexadecimal text for nibbles, bytes and 16-bit addresses.

use vstd::prelude::*;
use vstd::arithmetic::div_mod::{lemma_mod_mod, lemma_mod_twice};

verus! {

/// Taken on trust, not proved: `String::push` of the standard library
/// appends the one character `ch` to the end of `s` and leaves what was
/// there before as it was. Every text that this library builds character by
/// character rests on it.
pub assume_specification[ String::push ](s: &mut String, ch: char)
    ensures
        final(s)@ == old(s)@.push(ch),
;

/// The character that stands for a value below sixteen: `0`-`9`, then `A`-`F`.
pub open spec fn hex_digit(d: int) -> char {
    if d < 10 {
        (0x30 + d) as char
    } else {
        (0x37 + d) as char
    }
}

/// The two digits of a byte, high nibble first.
pub open spec fn hex_pair(b: u8) -> Seq<char> {
    seq![hex_digit(b as int / 16), hex_digit(b as int % 16)]
}

/// The four digits of the low 16 bits of `v`: its high byte, then its low byte.
pub open spec fn hex_quad(v: int) -> Seq<char> {
    hex_pair(((v % 0x10000) / 0x100) as u8) + hex_pair((v % 0x100) as u8)
}

/// The four digits show the low 16 bits and nothing of what lies above them.
pub proof fn lemma_hex_quad_low_bits(v: int)
    ensures
        hex_quad(v % 0x10000) == hex_quad(v),
{
    let low = v % 0x10000;
    lemma_mod_twice(v, 0x10000);
    lemma_mod_mod(v, 0x100, 0x100);
    assert(low % 0x10000 == low);
    assert(low % 0x100 == v % 0x100);
}

/// Gives the upper-case hexadecimal digit of `d`.
pub fn hex_digit_of(d: u8) -> (c: char)
    requires
        d < 16,
    ensures
        c == hex_digit(d as int),
{
    if d < 10 {
        (0x30 + d) as char
    } else {
        (0x37 + d) as char
    }
}

/// Appends the two digits of `b` to `line`.
pub fn push_hex_pair(line: &mut String, b: u8)
    ensures
        final(line)@ == old(line)@ + hex_pair(b),
{
    line.push(hex_digit_of(b / 16));
    line.push(hex_digit_of(b % 16));
}

/// Appends the four digits of the low 16 bits of `v` to `line`.
pub fn push_hex_quad(line: &mut String, v: usize)
    ensures
        final(line)@ == old(line)@ + hex_quad(v as int),
{
    let low: usize = v % 0x10000;
    push_hex_pair(line, (low / 0x100) as u8);
    push_hex_pair(line, (low % 0x100) as u8);
    assert(low as int % 0x100 == v as int % 0x100);
    assert(line@ =~= old(line)@ + hex_quad(v as int));
}

} // verus!
