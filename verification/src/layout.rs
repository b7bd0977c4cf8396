//! The layout of a dump line, and the two layouts the tool offers.

use vstd::prelude::*;

verus! {

/// Bytes on a line of the standard layout.
pub const STD_BYTES_PER_LINE: usize = 16;

/// Bytes in a segment of the standard layout.
pub const STD_BYTES_PER_SEGMENT: usize = 8;

/// Bytes on a line of the wozmon layout.
pub const WOZ_BYTES_PER_LINE: usize = 8;

/// The wozmon layout has no segments.
pub const WOZ_BYTES_PER_SEGMENT: usize = 0;

/// How one line is laid out.
///
/// `bytes_per_line` is the number of byte slots on a line.
/// `bytes_per_segment` asks for one more space before every slot whose
/// position is a multiple of it; zero asks for none.
/// `left_padding` is the number of leading slots left blank.
/// `show_ascii` adds the character column after the slots.
#[derive(Debug, Clone, Copy, PartialEq, Eq)]
pub struct LineFormat {
    pub bytes_per_line: usize,
    pub bytes_per_segment: usize,
    pub left_padding: usize,
    pub show_ascii: bool,
}

/// The standard layout for a dump that starts at `origin`: sixteen slots in
/// two segments, the character column, and as many blank leading slots as
/// `origin` lies past a multiple of sixteen.
pub open spec fn standard_format(origin: int) -> LineFormat {
    LineFormat {
        bytes_per_line: 16,
        bytes_per_segment: 8,
        left_padding: (origin % 16) as usize,
        show_ascii: true,
    }
}

/// The wozmon layout: eight slots, no segments, no blank slots, no characters.
pub open spec fn wozmon_format() -> LineFormat {
    LineFormat { bytes_per_line: 8, bytes_per_segment: 0, left_padding: 0, show_ascii: false }
}

/// The layout of a run: wozmon where `woz` is set, else standard at `origin`.
pub open spec fn format_for(woz: bool, origin: int) -> LineFormat {
    if woz {
        wozmon_format()
    } else {
        standard_format(origin)
    }
}

impl LineFormat {
    /// The same layout with no blank leading slots, as every line but the
    /// first is drawn.
    pub open spec fn unpadded(self) -> LineFormat {
        LineFormat { left_padding: 0, ..self }
    }

    /// The standard layout for a dump that starts at `origin`.
    pub fn standard(origin: usize) -> (fmt: LineFormat)
        ensures
            fmt == standard_format(origin as int),
    {
        LineFormat {
            bytes_per_line: STD_BYTES_PER_LINE,
            bytes_per_segment: STD_BYTES_PER_SEGMENT,
            left_padding: origin % STD_BYTES_PER_LINE,
            show_ascii: true,
        }
    }

    /// The wozmon layout. It never pads, wherever the dump starts.
    pub fn wozmon() -> (fmt: LineFormat)
        ensures
            fmt == wozmon_format(),
    {
        LineFormat {
            bytes_per_line: WOZ_BYTES_PER_LINE,
            bytes_per_segment: WOZ_BYTES_PER_SEGMENT,
            left_padding: 0,
            show_ascii: false,
        }
    }

    /// The layout of a run that starts at `origin`.
    pub fn for_run(woz: bool, origin: usize) -> (fmt: LineFormat)
        ensures
            fmt == format_for(woz, origin as int),
            fmt.bytes_per_line > 0,
    {
        if woz {
            LineFormat::wozmon()
        } else {
            LineFormat::standard(origin)
        }
    }
}

} // verus!
