//! The text of one dump line.

use vstd::prelude::*;
use crate::hex::{hex_pair, hex_quad, push_hex_pair, push_hex_quad};
use crate::layout::LineFormat;

verus! {

/// `n` spaces.
pub open spec fn spaces(n: int) -> Seq<char> {
    Seq::new(n as nat, |i: int| ' ')
}

/// The character shown for a byte: itself from `0x20` to `0x7E`, else a dot.
pub open spec fn printable(b: u8) -> char {
    if 0x20 <= b <= 0x7E {
        b as char
    } else {
        '.'
    }
}

/// The extra space in front of slot `pos`: one at the start of each segment.
pub open spec fn segment_gap(fmt: LineFormat, pos: int) -> Seq<char> {
    if fmt.bytes_per_segment > 0 && pos % (fmt.bytes_per_segment as int) == 0 {
        spaces(1)
    } else {
        Seq::empty()
    }
}

/// What slot `pos` holds. The byte that belongs there is the one at
/// `pos - left_padding`. A slot before the first byte is blank; one after the
/// last byte is blank where the character column follows, and absent where it
/// does not.
pub open spec fn slot_body(bytes: Seq<u8>, fmt: LineFormat, pos: int) -> Seq<char> {
    let i = pos - fmt.left_padding;
    if pos < fmt.left_padding || (fmt.show_ascii && i >= bytes.len()) {
        spaces(3)
    } else if i < bytes.len() {
        spaces(1) + hex_pair(bytes[i])
    } else {
        Seq::empty()
    }
}

/// The text of the first `n` slots.
pub open spec fn hex_area(bytes: Seq<u8>, fmt: LineFormat, n: nat) -> Seq<char>
    decreases n,
{
    if n == 0 {
        Seq::empty()
    } else {
        hex_area(bytes, fmt, (n - 1) as nat) + segment_gap(fmt, n - 1) + slot_body(
            bytes,
            fmt,
            n - 1,
        )
    }
}

/// The character column: two spaces and one more for each blank leading
/// slot, then one character for each byte.
pub open spec fn ascii_area(bytes: Seq<u8>, fmt: LineFormat) -> Seq<char> {
    spaces(fmt.left_padding + 2) + Seq::new(bytes.len(), |i: int| printable(bytes[i]))
}

/// The whole line: the low 16 bits of `addr` in four digits, a colon, every
/// slot of the layout, the character column where the layout has one, and a
/// line feed.
pub open spec fn line_text(bytes: Seq<u8>, addr: int, fmt: LineFormat) -> Seq<char> {
    hex_quad(addr) + seq![':'] + hex_area(bytes, fmt, fmt.bytes_per_line as nat) + (if fmt.show_ascii {
        ascii_area(bytes, fmt)
    } else {
        Seq::empty()
    }) + seq!['\n']
}

/// Gives the character shown for `b` in the character column.
pub fn printable_char(b: u8) -> (c: char)
    ensures
        c == printable(b),
{
    if b >= 0x20 && b < 0x7F {
        b as char
    } else {
        '.'
    }
}

/// How many bytes the slots before `pos` have shown.
pub open spec fn shown_before(len: int, fmt: LineFormat, pos: int) -> int {
    if pos < fmt.left_padding {
        0
    } else if pos - fmt.left_padding < len {
        pos - fmt.left_padding
    } else {
        len
    }
}

/// Appends the space that opens a segment, where slot `pos` opens one.
fn push_segment_gap(line: &mut String, fmt: &LineFormat, pos: usize)
    ensures
        final(line)@ == old(line)@ + segment_gap(*fmt, pos as int),
{
    if fmt.bytes_per_segment > 0 && pos % fmt.bytes_per_segment == 0 {
        line.push(' ');
        assert(line@ =~= old(line)@ + spaces(1));
    } else {
        assert(line@ =~= old(line)@ + Seq::<char>::empty());
    }
}

/// Appends slot `pos`, given the index `i` of the next byte to show, and
/// returns the index of the byte to show after it.
fn push_slot(line: &mut String, bytes: &[u8], fmt: &LineFormat, pos: usize, i: usize) -> (next: usize)
    requires
        i == shown_before(bytes@.len() as int, *fmt, pos as int),
    ensures
        final(line)@ == old(line)@ + slot_body(bytes@, *fmt, pos as int),
        next == shown_before(bytes@.len() as int, *fmt, pos + 1),
{
    if pos < fmt.left_padding || (fmt.show_ascii && i >= bytes.len()) {
        line.push(' ');
        line.push(' ');
        line.push(' ');
        assert(line@ =~= old(line)@ + spaces(3));
        i
    } else if i < bytes.len() {
        line.push(' ');
        let ghost mid = line@;
        push_hex_pair(line, bytes[i]);
        assert(mid =~= old(line)@ + spaces(1));
        assert(line@ =~= old(line)@ + (spaces(1) + hex_pair(bytes@[i as int])));
        i + 1
    } else {
        assert(line@ =~= old(line)@ + Seq::<char>::empty());
        i
    }
}

/// Appends the character column.
fn push_ascii_area(line: &mut String, bytes: &[u8], fmt: &LineFormat)
    ensures
        final(line)@ == old(line)@ + ascii_area(bytes@, *fmt),
{
    line.push(' ');
    line.push(' ');
    let mut pad: usize = 0;
    while pad < fmt.left_padding
        invariant
            pad <= fmt.left_padding,
            line@ == old(line)@ + spaces(pad + 2),
        decreases fmt.left_padding - pad,
    {
        line.push(' ');
        pad += 1;
    }
    let ghost gap = line@;
    let mut j: usize = 0;
    while j < bytes.len()
        invariant
            j <= bytes@.len(),
            line@ == gap + Seq::new(j as nat, |k: int| printable(bytes@[k])),
        decreases bytes@.len() - j,
    {
        line.push(printable_char(bytes[j]));
        j += 1;
    }
    assert(line@ =~= old(line)@ + ascii_area(bytes@, *fmt));
}

/// Draws the line that holds `bytes` and starts at `line_addr`, line feed
/// included.
///
/// Every layout and every buffer is drawn. Bytes that the layout has no slot
/// for are left out of the hex area and still appear in the character column.
pub fn format_line(bytes: &[u8], line_addr: usize, fmt: &LineFormat) -> (line: String)
    ensures
        line@ == line_text(bytes@, line_addr as int, *fmt),
{
    let mut line = String::new();
    push_hex_quad(&mut line, line_addr);
    line.push(':');
    let ghost head = line@;

    // Index of the next byte to show.
    let mut i: usize = 0;
    let mut pos: usize = 0;
    while pos < fmt.bytes_per_line
        invariant
            pos <= fmt.bytes_per_line,
            i == shown_before(bytes@.len() as int, *fmt, pos as int),
            line@ == head + hex_area(bytes@, *fmt, pos as nat),
        decreases fmt.bytes_per_line - pos,
    {
        push_segment_gap(&mut line, fmt, pos);
        i = push_slot(&mut line, bytes, fmt, pos, i);
        pos += 1;
    }
    if fmt.show_ascii {
        push_ascii_area(&mut line, bytes, fmt);
    }
    line.push('\n');
    assert(line@ =~= line_text(bytes@, line_addr as int, *fmt));
    line
}

} // verus!
