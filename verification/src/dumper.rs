//! Cutting a stream of bytes into dump lines.
//!
//! The address of a byte is the origin plus its index in the stream, and it
//! has no upper limit. A line ends with the byte whose successor's address is
//! a multiple of the line length, so that only the first line can start off
//! such a multiple. The text depends on an address through two remainders
//! alone, its low 16 bits and its place on the line, and these are what a
//! [`Dumper`] keeps.

use vstd::prelude::*;
use crate::layout::LineFormat;
use crate::line::{format_line, line_text};

verus! {

/// A dump in progress, as plain values.
pub struct DumpState {
    /// The layout of the line being gathered.
    pub format: LineFormat,
    /// The low 16 bits of the address of that line's first byte.
    pub line_address: int,
    /// The place on the line of the next byte: its address modulo the line
    /// length.
    pub column: int,
    /// The bytes gathered for the line so far.
    pub pending: Seq<u8>,
}

impl DumpState {
    /// What holds of every dump in progress.
    pub open spec fn wf(self) -> bool {
        &&& self.format.bytes_per_line > 0
        &&& 0 <= self.line_address < 0x10000
        &&& self.pending.len() <= self.column < self.format.bytes_per_line
    }

    /// The state before the first byte of a dump that starts at `origin`.
    pub open spec fn start(origin: int, fmt: LineFormat) -> DumpState {
        DumpState {
            format: fmt,
            line_address: origin % 0x10000,
            column: origin % (fmt.bytes_per_line as int),
            pending: Seq::empty(),
        }
    }

    /// The state after one more byte, and the line that the byte completes,
    /// if it completes one. After a completed line no slot is left blank any
    /// more.
    pub open spec fn step(self, byte: u8) -> (DumpState, Option<Seq<char>>) {
        if self.column + 1 == self.format.bytes_per_line {
            (
                DumpState {
                    format: self.format.unpadded(),
                    line_address: (self.line_address + self.pending.len() + 1) % 0x10000,
                    column: 0,
                    pending: Seq::empty(),
                },
                Some(line_text(self.pending.push(byte), self.line_address, self.format)),
            )
        } else {
            (
                DumpState {
                    format: self.format,
                    line_address: self.line_address,
                    column: self.column + 1,
                    pending: self.pending.push(byte),
                },
                None,
            )
        }
    }

    /// The line that is due at the end of the stream: the bytes gathered, if
    /// there are any.
    pub open spec fn last_line(self) -> Option<Seq<char>> {
        if self.pending.len() > 0 {
            Some(line_text(self.pending, self.line_address, self.format))
        } else {
            None
        }
    }
}

/// The text of a line that may be absent.
pub open spec fn line_view(line: Option<String>) -> Option<Seq<char>> {
    match line {
        Some(l) => Some(l@),
        None => None,
    }
}

/// Gathers the bytes of a stream and hands out each line as it is complete.
pub struct Dumper {
    fmt: LineFormat,
    line_addr: usize,
    column: usize,
    buffer: Vec<u8>,
}

impl View for Dumper {
    type V = DumpState;

    closed spec fn view(&self) -> DumpState {
        DumpState {
            format: self.fmt,
            line_address: self.line_addr as int,
            column: self.column as int,
            pending: self.buffer@,
        }
    }
}

impl Dumper {
    /// What `new` establishes and `push` keeps.
    pub open spec fn wf(&self) -> bool {
        self@.wf()
    }

    /// Starts a dump at `origin` in the layout `fmt`.
    pub fn new(origin: usize, fmt: LineFormat) -> (dumper: Dumper)
        requires
            fmt.bytes_per_line > 0,
        ensures
            dumper.wf(),
            dumper@ == DumpState::start(origin as int, fmt),
    {
        Dumper {
            fmt,
            line_addr: origin % 0x10000,
            column: origin % fmt.bytes_per_line,
            buffer: Vec::new(),
        }
    }

    /// Takes the next byte of the stream. Returns the line that it
    /// completes, if it completes one.
    pub fn push(&mut self, byte: u8) -> (line: Option<String>)
        requires
            old(self).wf(),
        ensures
            final(self).wf(),
            final(self)@ == old(self)@.step(byte).0,
            line_view(line) == old(self)@.step(byte).1,
    {
        self.buffer.push(byte);
        if self.column + 1 == self.fmt.bytes_per_line {
            let line = format_line(self.buffer.as_slice(), self.line_addr, &self.fmt);
            self.line_addr = (self.line_addr + self.buffer.len() % 0x10000) % 0x10000;
            self.buffer.clear();
            self.fmt.left_padding = 0;
            self.column = 0;
            Some(line)
        } else {
            self.column = self.column + 1;
            None
        }
    }

    /// Ends the stream. Returns the line of the bytes that were gathered and
    /// not handed out yet, if there are any.
    pub fn finish(self) -> (line: Option<String>)
        requires
            self.wf(),
        ensures
            line_view(line) == self@.last_line(),
    {
        if self.buffer.len() > 0 {
            Some(format_line(self.buffer.as_slice(), self.line_addr, &self.fmt))
        } else {
            None
        }
    }
}

} // verus!
