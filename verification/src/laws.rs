//! What holds of every dump.

use vstd::prelude::*;
use vstd::arithmetic::div_mod::{
    lemma_fundamental_div_mod, lemma_fundamental_div_mod_converse, lemma_mod_mod,
};
use crate::dump::{dump_text, line_count, line_end, line_start};
use crate::hex::{hex_quad, lemma_hex_quad_low_bits};
use crate::layout::{format_for, LineFormat};
use crate::line::line_text;
use crate::origin::{
    all_hex_digits, hex_value, lemma_parsed_hex_ok, numeral_digits, requested_origin, Origin,
    ParseHexError,
};
use crate::run::{dump_outcome, printed, DumpError};

verus! {

/// The least number of groups of `size` that hold `n` things.
pub open spec fn groups_needed(n: int, size: int) -> int {
    (n + size - 1) / size
}

/// Whether a dump of `len` bytes from `origin` takes no more lines than one
/// from a multiple of `per_line` would: the offset of the first line and the
/// bytes of the last one together stay within one line.
pub open spec fn offset_fits(origin: int, per_line: int, len: int) -> bool {
    len == 0 || origin % per_line + (len - 1) % per_line < per_line
}

/// The count of lines against the count of groups, for both cases of the
/// offset.
proof fn lemma_line_count_against_groups(origin: int, per_line: int, len: int)
    requires
        0 < per_line,
        0 < len,
    ensures
        line_count(origin, per_line, len) == if offset_fits(origin, per_line, len) {
            groups_needed(len, per_line)
        } else {
            groups_needed(len, per_line) + 1
        },
{
    let offset = origin % per_line;
    let q = (len - 1) / per_line;
    let m = (len - 1) % per_line;
    lemma_fundamental_div_mod(len - 1, per_line);
    assert(len - 1 == per_line * q + m);
    assert(len + per_line - 1 == (q + 1) * per_line + m) by (nonlinear_arith)
        requires
            len - 1 == per_line * q + m,
    ;
    lemma_fundamental_div_mod_converse(len + per_line - 1, per_line, q + 1, m);
    if offset + m < per_line {
        assert(offset + len + per_line - 1 == (q + 1) * per_line + (offset + m))
            by (nonlinear_arith)
            requires
                len - 1 == per_line * q + m,
        ;
        lemma_fundamental_div_mod_converse(
            offset + len + per_line - 1,
            per_line,
            q + 1,
            offset + m,
        );
    } else {
        assert(offset + len + per_line - 1 == (q + 2) * per_line + (offset + m - per_line))
            by (nonlinear_arith)
            requires
                len - 1 == per_line * q + m,
        ;
        lemma_fundamental_div_mod_converse(
            offset + len + per_line - 1,
            per_line,
            q + 2,
            offset + m - per_line,
        );
    }
}

/// From an origin that is a multiple of the line length the offset of the
/// first line fits, whatever the length of the stream.
pub proof fn lemma_aligned_origin_fits(origin: int, per_line: int, len: int)
    requires
        0 < per_line,
        0 <= len,
        origin % per_line == 0,
    ensures
        offset_fits(origin, per_line, len),
{
    if len > 0 {
        lemma_fundamental_div_mod(len - 1, per_line);
        assert((len - 1) % per_line < per_line);
    }
}

/// A dump has as many lines as its bytes need at `bytes_per_line` a line,
/// and none where there are no bytes, as long as the offset of the first
/// line fits.
pub proof fn lemma_line_count(bytes: Seq<u8>, origin: int, fmt: LineFormat)
    requires
        fmt.bytes_per_line > 0,
        offset_fits(origin, fmt.bytes_per_line as int, bytes.len() as int),
    ensures
        dump_text(bytes, origin, fmt).len() == if bytes.len() == 0 {
            0
        } else {
            groups_needed(bytes.len() as int, fmt.bytes_per_line as int)
        },
{
    if bytes.len() > 0 {
        lemma_line_count_against_groups(origin, fmt.bytes_per_line as int, bytes.len() as int);
    }
}

/// Where the offset of the first line does not fit, the dump takes one line
/// more than its bytes need.
pub proof fn lemma_line_count_with_offset(bytes: Seq<u8>, origin: int, fmt: LineFormat)
    requires
        fmt.bytes_per_line > 0,
        !offset_fits(origin, fmt.bytes_per_line as int, bytes.len() as int),
    ensures
        dump_text(bytes, origin, fmt).len() == groups_needed(
            bytes.len() as int,
            fmt.bytes_per_line as int,
        ) + 1,
{
    lemma_line_count_against_groups(origin, fmt.bytes_per_line as int, bytes.len() as int);
}

/// Every line opens with the four digits of the address of its first byte
/// and a colon.
pub proof fn lemma_line_header(bytes: Seq<u8>, addr: int, fmt: LineFormat)
    ensures
        line_text(bytes, addr, fmt).len() >= 5,
        line_text(bytes, addr, fmt).take(5) == hex_quad(addr) + seq![':'],
{
    assert(hex_quad(addr).len() == 4);
    assert(line_text(bytes, addr, fmt).take(5) =~= hex_quad(addr) + seq![':']);
}

/// Line `k` of a dump shows the address `origin + k * bytes_per_line` in
/// its low 16 bits, for line zero and, where the origin is a multiple of
/// `bytes_per_line`, for every line. From another origin the later lines
/// start at the multiples of `bytes_per_line` that follow it.
pub proof fn lemma_line_address(bytes: Seq<u8>, origin: int, fmt: LineFormat, k: int)
    requires
        fmt.bytes_per_line > 0,
        0 <= k < dump_text(bytes, origin, fmt).len(),
    ensures
        k == 0 || origin % (fmt.bytes_per_line as int) == 0 ==> dump_text(bytes, origin, fmt)[k].take(
            5,
        ) == hex_quad((origin + k * fmt.bytes_per_line) % 0x10000) + seq![':'],
        k > 0 ==> dump_text(bytes, origin, fmt)[k].take(5) == hex_quad(
            (origin - origin % (fmt.bytes_per_line as int) + k * fmt.bytes_per_line) % 0x10000,
        ) + seq![':'],
{
    let per_line = fmt.bytes_per_line as int;
    let start = line_start(origin, per_line, k);
    let end = line_end(origin, per_line, bytes.len() as int, k);
    let drawn = if k == 0 {
        fmt
    } else {
        fmt.unpadded()
    };
    lemma_line_header(bytes.subrange(start, end), origin + start, drawn);
    lemma_hex_quad_low_bits(origin + start);
    if k == 0 {
        assert(0 * per_line == 0);
    }
}

/// The bytes of a line lie within one stretch of `bytes_per_line` addresses
/// that starts at a multiple of `bytes_per_line`. So where `bytes_per_line`
/// divides 65536, as 16 and 8 do, the low 16 bits of the addresses on a
/// line rise without a wrap.
pub proof fn lemma_line_does_not_wrap(bytes: Seq<u8>, origin: int, fmt: LineFormat, k: int)
    requires
        fmt.bytes_per_line > 0,
        0 <= k < dump_text(bytes, origin, fmt).len(),
    ensures
        ({
            let per_line = fmt.bytes_per_line as int;
            let first = origin + line_start(origin, per_line, k);
            let count = line_end(origin, per_line, bytes.len() as int, k) - line_start(
                origin,
                per_line,
                k,
            );
            &&& 0 < count
            &&& first % per_line + count <= per_line
            &&& 0x10000int % per_line == 0 ==> first % 0x10000 + count <= 0x10000
        }),
{
    let per_line = fmt.bytes_per_line as int;
    let len = bytes.len() as int;
    let offset = origin % per_line;
    let start = line_start(origin, per_line, k);
    let end = line_end(origin, per_line, len, k);
    let first = origin + start;
    let count = end - start;
    let base = origin / per_line;
    lemma_fundamental_div_mod(origin, per_line);
    // The count of lines bounds `k`.
    let total = offset + len + per_line - 1;
    lemma_fundamental_div_mod(total, per_line);
    let n = total / per_line;
    assert(n == line_count(origin, per_line, len));
    assert(k + 1 <= n);
    assert((k + 1) * per_line <= n * per_line) by (nonlinear_arith)
        requires
            k + 1 <= n,
            per_line > 0,
    ;
    assert(per_line * n == n * per_line) by (nonlinear_arith);
    assert((k + 1) * per_line == k * per_line + per_line) by (nonlinear_arith);
    assert(k * per_line >= 0) by (nonlinear_arith)
        requires
            k >= 0,
            per_line > 0,
    ;
    if k == 0 {
        assert(first == origin);
    } else {
        assert(k * per_line >= per_line) by (nonlinear_arith)
            requires
                k >= 1,
                per_line > 0,
        ;
        assert(first == (base + k) * per_line + 0) by (nonlinear_arith)
            requires
                first == origin + k * per_line - offset,
                origin == per_line * base + offset,
        ;
        lemma_fundamental_div_mod_converse(first, per_line, base + k, 0);
    }
    assert(0 < count);
    assert(first % per_line + count <= per_line);
    if 0x10000int % per_line == 0 {
        let c = 0x10000int / per_line;
        lemma_fundamental_div_mod(0x10000, per_line);
        assert(0x10000 == per_line * c);
        assert(c > 0) by (nonlinear_arith)
            requires
                0x10000 == per_line * c,
                per_line > 0,
        ;
        lemma_mod_mod(first, per_line, c);
        let low = first % 0x10000;
        assert(low % per_line == first % per_line);
        lemma_fundamental_div_mod(low, per_line);
        let t = low / per_line;
        assert(t < c) by (nonlinear_arith)
            requires
                low == per_line * t + low % per_line,
                0 <= low % per_line,
                low < 0x10000,
                0x10000 == per_line * c,
                per_line > 0,
        ;
        assert(per_line * t + per_line <= per_line * c) by (nonlinear_arith)
            requires
                t + 1 <= c,
                per_line > 0,
        ;
    }
}

/// A run prints what the file and the options decide, and nothing else has
/// a say: two runs on the same file with the same options print the same.
pub proof fn lemma_same_run_same_output(
    file: Seq<u8>,
    flag: Option<Seq<char>>,
    woz: bool,
    first: Result<Vec<String>, DumpError>,
    second: Result<Vec<String>, DumpError>,
)
    requires
        printed(first) == dump_outcome(file, flag, woz),
        printed(second) == dump_outcome(file, flag, woz),
    ensures
        printed(first) == printed(second),
{
}

/// An origin option with a character that is no hexadecimal digit gives an
/// error and no line, whatever the file holds. A `+` in front of something
/// is no such character.
pub proof fn lemma_bad_origin_no_dump(file: Seq<u8>, flag: Seq<char>, woz: bool)
    requires
        !all_hex_digits(numeral_digits(flag)),
    ensures
        dump_outcome(file, Some(flag), woz) matches Err(DumpError::InvalidOrigin(_)),
{
    lemma_parsed_hex_ok(flag);
}

/// An origin option whose digits write more than `FFFF` gives an error and
/// no line, whatever the file holds: `10000` is no origin.
pub proof fn lemma_wide_origin_no_dump(file: Seq<u8>, flag: Seq<char>, woz: bool)
    requires
        flag.len() > 0,
        all_hex_digits(numeral_digits(flag)),
        hex_value(numeral_digits(flag)) > 0xFFFF,
    ensures
        dump_outcome(file, Some(flag), woz) == Err::<Seq<Seq<char>>, DumpError>(
            DumpError::InvalidOrigin(ParseHexError::Overflow),
        ),
{
    lemma_parsed_hex_ok(flag);
}

/// An empty stream gives no line, from every origin and in every layout.
pub proof fn lemma_empty_stream_no_lines(origin: int, fmt: LineFormat)
    ensures
        dump_text(Seq::<u8>::empty(), origin, fmt) == Seq::<Seq<char>>::empty(),
{
    assert(dump_text(Seq::<u8>::empty(), origin, fmt) =~= Seq::<Seq<char>>::empty());
}

/// A run on an empty file prints nothing, unless the origin is to come from
/// the file: then it fails for want of the two bytes.
pub proof fn lemma_empty_file_no_lines(flag: Option<Seq<char>>, woz: bool)
    ensures
        requested_origin(flag) matches Ok(Origin::At(_)) ==> dump_outcome(
            Seq::<u8>::empty(),
            flag,
            woz,
        ) == Ok::<Seq<Seq<char>>, DumpError>(Seq::empty()),
        requested_origin(flag) == Ok::<Origin, ParseHexError>(Origin::FromFile) ==> dump_outcome(
            Seq::<u8>::empty(),
            flag,
            woz,
        ) == Err::<Seq<Seq<char>>, DumpError>(DumpError::TruncatedOrigin),
{
    let none = Seq::<u8>::empty();
    assert(none.subrange(0, 0) =~= none);
    if let Ok(Origin::At(addr)) = requested_origin(flag) {
        lemma_empty_stream_no_lines(addr as int, format_for(woz, addr as int));
    }
}

} // verus!
