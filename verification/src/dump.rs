//! The lines of a whole dump, said directly and computed byte by byte.

use vstd::prelude::*;
use vstd::arithmetic::div_mod::{lemma_add_mod_noop_right, lemma_fundamental_div_mod_converse};
use crate::dumper::{DumpState, Dumper};
use crate::hex::lemma_hex_quad_low_bits;
use crate::layout::LineFormat;
use crate::line::line_text;

verus! {

/// The index in the stream of the first byte of line `k`. Line zero starts
/// with the stream; every later line starts where the address is a multiple
/// of `per_line`.
pub open spec fn line_start(origin: int, per_line: int, k: int) -> int {
    if k == 0 {
        0
    } else {
        k * per_line - origin % per_line
    }
}

/// The index in the stream behind the last byte of line `k`, in a stream of
/// `len` bytes.
pub open spec fn line_end(origin: int, per_line: int, len: int, k: int) -> int {
    let full = (k + 1) * per_line - origin % per_line;
    if full < len {
        full
    } else {
        len
    }
}

/// The number of lines that a stream of `len` bytes takes: none where it is
/// empty, else as many as the bytes need, counted from the multiple of
/// `per_line` at or before `origin`.
pub open spec fn line_count(origin: int, per_line: int, len: int) -> int {
    if len == 0 {
        0
    } else {
        (origin % per_line + len + per_line - 1) / per_line
    }
}

/// Line `k` of the dump of `bytes` from `origin`: its bytes at the address of
/// the first of them. Line zero is drawn in `fmt`, the others without blank
/// leading slots.
pub open spec fn dump_line(bytes: Seq<u8>, origin: int, fmt: LineFormat, k: int) -> Seq<char> {
    let per_line = fmt.bytes_per_line as int;
    let start = line_start(origin, per_line, k);
    let end = line_end(origin, per_line, bytes.len() as int, k);
    line_text(
        bytes.subrange(start, end),
        origin + start,
        if k == 0 {
            fmt
        } else {
            fmt.unpadded()
        },
    )
}

/// The lines of the dump of `bytes` from `origin` in the layout `fmt`.
pub open spec fn dump_text(bytes: Seq<u8>, origin: int, fmt: LineFormat) -> Seq<Seq<char>> {
    Seq::new(
        line_count(origin, fmt.bytes_per_line as int, bytes.len() as int) as nat,
        |k: int| dump_line(bytes, origin, fmt, k),
    )
}

/// A line shows the low 16 bits of its address, whatever lies above them.
pub proof fn lemma_line_text_low_bits(bytes: Seq<u8>, addr: int, fmt: LineFormat)
    ensures
        line_text(bytes, addr % 0x10000, fmt) == line_text(bytes, addr, fmt),
{
    lemma_hex_quad_low_bits(addr);
}

/// That `state` is what a dump of `bytes` from `origin` in `fmt` holds after
/// `i` bytes, `done` lines having been handed out.
pub open spec fn gathered(
    state: DumpState,
    bytes: Seq<u8>,
    origin: int,
    fmt: LineFormat,
    i: int,
    done: int,
) -> bool {
    let per_line = fmt.bytes_per_line as int;
    let start = line_start(origin, per_line, done);
    &&& state.wf()
    &&& 0 <= done
    &&& 0 <= start <= i <= bytes.len()
    &&& origin % per_line + i == done * per_line + state.column
    &&& state.format == if done == 0 {
        fmt
    } else {
        fmt.unpadded()
    }
    &&& state.line_address == (origin + start) % 0x10000
    &&& state.pending == bytes.subrange(start, i)
}

/// The place on the line that a dump holds is that of the address of the
/// next byte, and the lines handed out are those that lie before it.
pub proof fn lemma_gathered_address(
    state: DumpState,
    bytes: Seq<u8>,
    origin: int,
    fmt: LineFormat,
    i: int,
    done: int,
)
    requires
        gathered(state, bytes, origin, fmt, i, done),
    ensures
        state.column == (origin + i) % (fmt.bytes_per_line as int),
        done == (origin % (fmt.bytes_per_line as int) + i) / (fmt.bytes_per_line as int),
{
    let per_line = fmt.bytes_per_line as int;
    lemma_fundamental_div_mod_converse(origin % per_line + i, per_line, done, state.column);
    lemma_add_mod_noop_right(i, origin, per_line);
}

/// A dump starts with nothing gathered and nothing handed out.
pub proof fn lemma_gathered_start(bytes: Seq<u8>, origin: int, fmt: LineFormat)
    requires
        fmt.bytes_per_line > 0,
    ensures
        gathered(DumpState::start(origin, fmt), bytes, origin, fmt, 0, 0),
{
    let per_line = fmt.bytes_per_line as int;
    assert(0 * per_line == 0);
    assert(bytes.subrange(0, 0) =~= Seq::<u8>::empty());
}

/// One more byte either joins the bytes gathered, or completes the next line
/// of the dump.
pub proof fn lemma_gathered_step(
    state: DumpState,
    bytes: Seq<u8>,
    origin: int,
    fmt: LineFormat,
    i: int,
    done: int,
)
    requires
        gathered(state, bytes, origin, fmt, i, done),
        i < bytes.len(),
    ensures
        state.step(bytes[i]).1 is None ==> gathered(
            state.step(bytes[i]).0,
            bytes,
            origin,
            fmt,
            i + 1,
            done,
        ),
        state.step(bytes[i]).1 is Some ==> state.step(bytes[i]).1 == Some(
            dump_line(bytes, origin, fmt, done),
        ) && gathered(state.step(bytes[i]).0, bytes, origin, fmt, i + 1, done + 1),
{
    let per_line = fmt.bytes_per_line as int;
    let start = line_start(origin, per_line, done);
    let next = state.step(bytes[i]).0;
    assert(state.pending.push(bytes[i]) =~= bytes.subrange(start, i + 1));
    if state.step(bytes[i]).1 is Some {
        assert((done + 1) * per_line == done * per_line + per_line) by (nonlinear_arith);
        assert(line_end(origin, per_line, bytes.len() as int, done) == i + 1);
        assert(line_start(origin, per_line, done + 1) == i + 1);
        lemma_line_text_low_bits(bytes.subrange(start, i + 1), origin + start, state.format);
        assert(next.pending =~= bytes.subrange(i + 1, i + 1));
        lemma_add_mod_noop_right(i + 1 - start, origin + start, 0x10000);
        assert(next.line_address == (origin + (i + 1)) % 0x10000);
    }
}

/// At the end of the stream the bytes gathered are the last line of the
/// dump, and with it the dump is complete.
pub proof fn lemma_gathered_end(
    state: DumpState,
    bytes: Seq<u8>,
    origin: int,
    fmt: LineFormat,
    done: int,
)
    requires
        gathered(state, bytes, origin, fmt, bytes.len() as int, done),
    ensures
        state.last_line() is None ==> line_count(
            origin,
            fmt.bytes_per_line as int,
            bytes.len() as int,
        ) == done,
        state.last_line() is Some ==> state.last_line() == Some(
            dump_line(bytes, origin, fmt, done),
        ) && line_count(origin, fmt.bytes_per_line as int, bytes.len() as int) == done + 1,
{
    let per_line = fmt.bytes_per_line as int;
    let len = bytes.len() as int;
    let start = line_start(origin, per_line, done);
    lemma_line_count_parts(origin, per_line, len, done, state.column);
    assert(state.pending.len() == len - start);
    if done > 0 {
        assert(done * per_line >= per_line) by (nonlinear_arith)
            requires
                done >= 1,
                per_line > 0,
        ;
    }
    if state.last_line() is Some {
        assert((done + 1) * per_line == done * per_line + per_line) by (nonlinear_arith);
        assert(line_end(origin, per_line, len, done) == len);
        lemma_line_text_low_bits(state.pending, origin + start, state.format);
    }
}

/// What a dumper in `state` has become after the bytes of `bytes`, and the
/// lines that it handed out on the way.
pub open spec fn fed(state: DumpState, bytes: Seq<u8>) -> (DumpState, Seq<Seq<char>>)
    decreases bytes.len(),
{
    if bytes.len() == 0 {
        (state, Seq::empty())
    } else {
        let (before, lines) = fed(state, bytes.drop_last());
        let (after, line) = before.step(bytes.last());
        (
            after,
            match line {
                Some(text) => lines.push(text),
                None => lines,
            },
        )
    }
}

/// The lines that come of feeding `bytes` one by one to a dumper started at
/// `origin` in `fmt`, with the line that is due at the end.
pub open spec fn streamed(bytes: Seq<u8>, origin: int, fmt: LineFormat) -> Seq<Seq<char>> {
    let (state, lines) = fed(DumpState::start(origin, fmt), bytes);
    match state.last_line() {
        Some(text) => lines.push(text),
        None => lines,
    }
}

/// After the first `i` bytes a dumper has handed out the first lines of the
/// dump and holds the bytes of the next.
proof fn lemma_fed_gathers(bytes: Seq<u8>, origin: int, fmt: LineFormat, i: int)
    requires
        fmt.bytes_per_line > 0,
        0 <= i <= bytes.len(),
    ensures
        ({
            let (state, lines) = fed(DumpState::start(origin, fmt), bytes.take(i));
            &&& gathered(state, bytes, origin, fmt, i, lines.len() as int)
            &&& forall|k: int|
                0 <= k < lines.len() ==> #[trigger] lines[k] == dump_line(bytes, origin, fmt, k)
        }),
    decreases i,
{
    let start = DumpState::start(origin, fmt);
    if i == 0 {
        lemma_gathered_start(bytes, origin, fmt);
    } else {
        let upto = bytes.take(i);
        assert(upto.drop_last() =~= bytes.take(i - 1));
        assert(upto.last() == bytes[i - 1]);
        lemma_fed_gathers(bytes, origin, fmt, i - 1);
        let (before, lines) = fed(start, bytes.take(i - 1));
        lemma_gathered_step(before, bytes, origin, fmt, i - 1, lines.len() as int);
    }
}

/// Feeding a stream to a dumper byte by byte gives the lines of its dump.
pub proof fn lemma_streamed_is_dump_text(bytes: Seq<u8>, origin: int, fmt: LineFormat)
    requires
        fmt.bytes_per_line > 0,
    ensures
        streamed(bytes, origin, fmt) == dump_text(bytes, origin, fmt),
{
    lemma_fed_gathers(bytes, origin, fmt, bytes.len() as int);
    assert(bytes.take(bytes.len() as int) =~= bytes);
    let (state, lines) = fed(DumpState::start(origin, fmt), bytes);
    lemma_gathered_end(state, bytes, origin, fmt, lines.len() as int);
    assert(streamed(bytes, origin, fmt) =~= dump_text(bytes, origin, fmt));
}

/// The count of lines, from the full lines `done` and the bytes `rest`
/// behind them.
proof fn lemma_line_count_parts(origin: int, per_line: int, len: int, done: int, rest: int)
    requires
        0 < per_line,
        0 <= len,
        0 <= rest < per_line,
        origin % per_line + len == done * per_line + rest,
    ensures
        line_count(origin, per_line, len) == if len == 0 {
            0
        } else if rest == 0 {
            done
        } else {
            done + 1
        },
{
    let total = origin % per_line + len + per_line - 1;
    if rest == 0 {
        assert(total == done * per_line + (per_line - 1));
        lemma_fundamental_div_mod_converse(total, per_line, done, per_line - 1);
    } else {
        assert(total == (done + 1) * per_line + (rest - 1)) by (nonlinear_arith)
            requires
                total == done * per_line + rest + per_line - 1,
        ;
        lemma_fundamental_div_mod_converse(total, per_line, done + 1, rest - 1);
    }
}

/// Dumps `bytes` from `origin` in the layout `fmt`, one text per line.
pub fn dump_lines(bytes: &[u8], origin: usize, fmt: LineFormat) -> (lines: Vec<String>)
    requires
        fmt.bytes_per_line > 0,
    ensures
        lines.deep_view() == dump_text(bytes@, origin as int, fmt),
{
    let mut dumper = Dumper::new(origin, fmt);
    let mut lines: Vec<String> = Vec::new();
    let ghost mut done: int = 0;
    proof {
        lemma_gathered_start(bytes@, origin as int, fmt);
    }
    let mut i: usize = 0;
    while i < bytes.len()
        invariant
            gathered(dumper@, bytes@, origin as int, fmt, i as int, done),
            lines@.len() == done,
            forall|k: int|
                0 <= k < done ==> (#[trigger] lines@[k])@ == dump_line(bytes@, origin as int, fmt, k),
        decreases bytes@.len() - i,
    {
        proof {
            lemma_gathered_step(dumper@, bytes@, origin as int, fmt, i as int, done);
        }
        match dumper.push(bytes[i]) {
            Some(line) => {
                lines.push(line);
                proof {
                    done = done + 1;
                }
            },
            None => {},
        }
        i += 1;
    }
    proof {
        lemma_gathered_end(dumper@, bytes@, origin as int, fmt, done);
    }
    match dumper.finish() {
        Some(line) => {
            lines.push(line);
        },
        None => {},
    }
    assert(lines.deep_view() =~= dump_text(bytes@, origin as int, fmt));
    lines
}

} // verus!
