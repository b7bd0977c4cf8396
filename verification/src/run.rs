//! A whole run: from a file and the options to the lines of its dump.

use vstd::prelude::*;
use vstd::slice::slice_subrange;
use crate::layout::{format_for, LineFormat};
use crate::dump::{dump_lines, dump_text};
use crate::origin::{
    file_origin, option_text, origin_from_bytes, origin_request, requested_origin, Origin,
    ParseHexError,
};

verus! {

/// Why a run gives no dump.
#[derive(Debug, Clone, Copy, PartialEq, Eq)]
pub enum DumpError {
    /// The origin option is no hexadecimal number.
    InvalidOrigin(ParseHexError),
    /// The origin was to come from the file, and the file has fewer than two
    /// bytes.
    TruncatedOrigin,
}

/// Where the dump of `file` starts and how many leading bytes of `file` the
/// origin takes away from it: none, or the two that hold it.
pub open spec fn resolved_origin(flag: Option<Seq<char>>, file: Seq<u8>) -> Result<
    (usize, usize),
    DumpError,
> {
    match requested_origin(flag) {
        Err(e) => Err(DumpError::InvalidOrigin(e)),
        Ok(Origin::At(addr)) => Ok((addr, 0)),
        Ok(Origin::FromFile) => if file.len() < 2 {
            Err(DumpError::TruncatedOrigin)
        } else {
            Ok((file_origin(file[0], file[1]) as usize, 2))
        },
    }
}

/// What a run on `file` gives: the lines of the dump of what the origin
/// leaves of the file, or the reason why there are none.
pub open spec fn dump_outcome(file: Seq<u8>, flag: Option<Seq<char>>, woz: bool) -> Result<
    Seq<Seq<char>>,
    DumpError,
> {
    match resolved_origin(flag, file) {
        Err(e) => Err(e),
        Ok((origin, skip)) => Ok(
            dump_text(
                file.subrange(skip as int, file.len() as int),
                origin as int,
                format_for(woz, origin as int),
            ),
        ),
    }
}

/// The texts of the lines that a run returned.
pub open spec fn printed(r: Result<Vec<String>, DumpError>) -> Result<Seq<Seq<char>>, DumpError> {
    match r {
        Ok(lines) => Ok(lines.deep_view()),
        Err(e) => Err(e),
    }
}

/// Finds the address at which the dump of `file` starts, and the number of
/// leading bytes of `file` that the dump leaves out.
pub fn resolve_origin(flag: Option<&str>, file: &[u8]) -> (r: Result<(usize, usize), DumpError>)
    ensures
        r == resolved_origin(option_text(flag), file@),
{
    match origin_request(flag) {
        Err(e) => Err(DumpError::InvalidOrigin(e)),
        Ok(Origin::At(addr)) => Ok((addr, 0)),
        Ok(Origin::FromFile) => {
            if file.len() < 2 {
                Err(DumpError::TruncatedOrigin)
            } else {
                Ok((origin_from_bytes(file[0], file[1]), 2))
            }
        },
    }
}

/// Dumps `file` as the options ask: from the origin that `origin` names, in
/// the wozmon layout where `woz` is set and in the standard layout else.
pub fn dump_file(file: &[u8], origin: Option<&str>, woz: bool) -> (r: Result<
    Vec<String>,
    DumpError,
>)
    ensures
        printed(r) == dump_outcome(file@, option_text(origin), woz),
{
    match resolve_origin(origin, file) {
        Err(e) => Err(e),
        Ok((start, skip)) => {
            let rest = slice_subrange(file, skip, file.len());
            Ok(dump_lines(rest, start, LineFormat::for_run(woz, start)))
        },
    }
}

} // verus!
