//! Where a dump starts: the origin option, read as a 16-bit hexadecimal
//! number, and the origin that a file carries in its first two bytes.

use vstd::prelude::*;
use vstd::std_specs::iter::IteratorSpec;
use vstd::string::*;

verus! {

/// Why a text is no hexadecimal number.
#[derive(Debug, Clone, Copy, PartialEq, Eq)]
pub enum ParseHexError {
    /// The text is empty.
    Empty,
    /// A character is no hexadecimal digit.
    InvalidDigit,
    /// The number does not fit in 16 bits.
    Overflow,
}

/// The largest origin: an address has 16 bits.
pub const ORIGIN_MAX: usize = 0xFFFF;

/// Whether `c` is one of `0`-`9`, `a`-`f`, `A`-`F`.
pub open spec fn is_hex_digit(c: char) -> bool {
    ('0' <= c <= '9') || ('a' <= c <= 'f') || ('A' <= c <= 'F')
}

/// The value of a hexadecimal digit.
pub open spec fn digit_value(c: char) -> int {
    if '0' <= c <= '9' {
        c as int - 0x30
    } else if 'a' <= c <= 'f' {
        c as int - 0x61 + 10
    } else {
        c as int - 0x41 + 10
    }
}

/// The number that a run of hexadecimal digits writes.
pub open spec fn hex_value(digits: Seq<char>) -> int
    decreases digits.len(),
{
    if digits.len() == 0 {
        0
    } else {
        16 * hex_value(digits.drop_last()) + digit_value(digits.last())
    }
}

/// The digits of a numeral: all of it, but for one leading `+` that
/// something follows.
pub open spec fn numeral_digits(s: Seq<char>) -> Seq<char> {
    if s.len() > 1 && s[0] == '+' {
        s.subrange(1, s.len() as int)
    } else {
        s
    }
}

/// The number `v` with the digit `c` behind it, where `c` is a digit and
/// the number stays within `max`. A character that is no digit is reported
/// as such even where a digit in its place would go past `max`.
pub open spec fn with_digit(v: int, c: char, max: int) -> Result<int, ParseHexError> {
    if !is_hex_digit(c) {
        Err(ParseHexError::InvalidDigit)
    } else if 16 * v + digit_value(c) > max {
        Err(ParseHexError::Overflow)
    } else {
        Ok(16 * v + digit_value(c))
    }
}

/// Reading `digits` from the left with `max` as the largest number allowed.
/// The first character that fails ends the reading with its error.
pub open spec fn read_digits(digits: Seq<char>, max: int) -> Result<int, ParseHexError>
    decreases digits.len(),
{
    if digits.len() == 0 {
        Ok(0)
    } else {
        match read_digits(digits.drop_last(), max) {
            Err(e) => Err(e),
            Ok(v) => with_digit(v, digits.last(), max),
        }
    }
}

/// The 16-bit number that a text writes in hexadecimal, or why it writes
/// none: an empty text is refused as such, and the rest is read digit by
/// digit with the largest 16-bit number as the limit.
pub open spec fn parsed_hex(s: Seq<char>) -> Result<usize, ParseHexError> {
    if s.len() == 0 {
        Err(ParseHexError::Empty)
    } else {
        match read_digits(numeral_digits(s), ORIGIN_MAX as int) {
            Ok(v) => Ok(v as usize),
            Err(e) => Err(e),
        }
    }
}

/// Whether every character of `s` is a hexadecimal digit.
pub open spec fn all_hex_digits(s: Seq<char>) -> bool {
    forall|i: int| 0 <= i < s.len() ==> is_hex_digit(#[trigger] s[i])
}

/// Reading succeeds exactly on digits whose number is within `max`, and then
/// gives that number. Digits whose number is past `max` are refused as too
/// large, and no reading is refused as empty.
pub proof fn lemma_read_digits_ok(digits: Seq<char>, max: int)
    requires
        0 <= max,
    ensures
        all_hex_digits(digits) ==> 0 <= hex_value(digits),
        read_digits(digits, max) is Ok <==> all_hex_digits(digits) && hex_value(digits) <= max,
        read_digits(digits, max) matches Ok(v) ==> v == hex_value(digits),
        all_hex_digits(digits) && hex_value(digits) > max ==> read_digits(digits, max) == Err::<
            int,
            ParseHexError,
        >(ParseHexError::Overflow),
        read_digits(digits, max) != Err::<int, ParseHexError>(ParseHexError::Empty),
    decreases digits.len(),
{
    if digits.len() > 0 {
        let front = digits.drop_last();
        lemma_read_digits_ok(front, max);
        if all_hex_digits(front) && is_hex_digit(digits.last()) {
            assert forall|i: int| 0 <= i < digits.len() implies is_hex_digit(
                #[trigger] digits[i],
            ) by {
                if i < front.len() {
                    assert(digits[i] == front[i]);
                }
            }
        }
        if all_hex_digits(digits) {
            assert forall|i: int| 0 <= i < front.len() implies is_hex_digit(
                #[trigger] front[i],
            ) by {
                assert(front[i] == digits[i]);
            }
            assert(is_hex_digit(digits[digits.len() - 1]));
        }
    }
}

/// A text writes a number exactly where it holds digits and nothing else,
/// but for the `+` that may lead them, and their number fits in 16 bits; it
/// then writes that number. So `FFFF` is the largest origin, and `10000` is
/// none.
pub proof fn lemma_parsed_hex_ok(s: Seq<char>)
    ensures
        parsed_hex(s) is Ok <==> s.len() > 0 && all_hex_digits(numeral_digits(s)) && hex_value(
            numeral_digits(s),
        ) <= 0xFFFF,
        parsed_hex(s) matches Ok(v) ==> v == hex_value(numeral_digits(s)) && v <= 0xFFFF,
        parsed_hex(s) == Err::<usize, ParseHexError>(ParseHexError::Empty) <==> s.len() == 0,
        s.len() > 0 && all_hex_digits(numeral_digits(s)) && hex_value(numeral_digits(s)) > 0xFFFF
            ==> parsed_hex(s) == Err::<usize, ParseHexError>(ParseHexError::Overflow),
        s.len() > 0 && !all_hex_digits(numeral_digits(s)) ==> parsed_hex(s) is Err,
{
    lemma_read_digits_ok(numeral_digits(s), ORIGIN_MAX as int);
}

/// Gives the value of `c` where it is a hexadecimal digit.
pub fn hex_digit_value(c: char) -> (v: Option<u8>)
    ensures
        v is Some <==> is_hex_digit(c),
        v matches Some(d) ==> d == digit_value(c),
{
    if c >= '0' && c <= '9' {
        Some((c as u32 - 0x30) as u8)
    } else if c >= 'a' && c <= 'f' {
        Some((c as u32 - 0x61 + 10) as u8)
    } else if c >= 'A' && c <= 'F' {
        Some((c as u32 - 0x41 + 10) as u8)
    } else {
        None
    }
}

/// Puts the digit `c` behind the 16-bit number `value`.
fn add_digit(value: usize, c: char) -> (r: Result<usize, ParseHexError>)
    requires
        value <= ORIGIN_MAX,
    ensures
        match r {
            Ok(v) => v <= ORIGIN_MAX && with_digit(value as int, c, ORIGIN_MAX as int) == Ok::<
                int,
                ParseHexError,
            >(v as int),
            Err(e) => with_digit(value as int, c, ORIGIN_MAX as int) == Err::<int, ParseHexError>(
                e,
            ),
        },
{
    let d = match hex_digit_value(c) {
        Some(d) => d,
        None => {
            return Err(ParseHexError::InvalidDigit);
        },
    };
    let longer: usize = value * 16 + d as usize;
    if longer > ORIGIN_MAX {
        Err(ParseHexError::Overflow)
    } else {
        Ok(longer)
    }
}

/// An error that reading meets in a prefix is the error of the whole.
proof fn lemma_read_digits_stops(digits: Seq<char>, k: int, max: int)
    requires
        0 <= k <= digits.len(),
        read_digits(digits.take(k), max) is Err,
    ensures
        read_digits(digits, max) == read_digits(digits.take(k), max),
    decreases digits.len() - k,
{
    if k < digits.len() {
        let longer = digits.take(k + 1);
        assert(longer.drop_last() =~= digits.take(k));
        lemma_read_digits_stops(digits, k + 1, max);
    } else {
        assert(digits.take(k) =~= digits);
    }
}

/// Reads `s` as a 16-bit hexadecimal number: digits of either case, which
/// one `+` may precede, and which write no more than `FFFF`. Nothing else is
/// taken, neither a `0x`, a blank nor an underscore.
pub fn parse_hex(s: &str) -> (r: Result<usize, ParseHexError>)
    ensures
        r == parsed_hex(s@),
{
    let ghost max = ORIGIN_MAX as int;
    let ghost digits = numeral_digits(s@);
    let mut chars = s.chars();
    let first = match chars.next() {
        Some(c) => c,
        None => {
            return Err(ParseHexError::Empty);
        },
    };
    assert(first == s@[0] && chars.remaining() == s@.drop_first());
    // A sign counts as one only where something follows it.
    let mut current = first;
    if first == '+' {
        match chars.next() {
            Some(c) => {
                current = c;
            },
            None => {
                assert(s@.len() == 1 && s@[0] == '+');
                assert(read_digits(digits.drop_last(), max) == Ok::<int, ParseHexError>(0));
                return Err(ParseHexError::InvalidDigit);
            },
        }
    }
    let mut value: usize = 0;
    let ghost mut seen: Seq<char> = Seq::empty();
    assert(seen.push(current) + chars.remaining() =~= digits);
    loop
        invariant
            chars.obeys_prophetic_iter_laws(),
            s@.len() > 0,
            digits == numeral_digits(s@),
            max == ORIGIN_MAX as int,
            value <= ORIGIN_MAX,
            seen.push(current) + chars.remaining() == digits,
            read_digits(seen, max) == Ok::<int, ParseHexError>(value as int),
        decreases digits.len() - seen.len(),
    {
        let ghost upto = seen.push(current);
        proof {
            assert(upto.drop_last() =~= seen);
            assert(digits.take(upto.len() as int) =~= upto);
        }
        value = match add_digit(value, current) {
            Ok(v) => v,
            Err(e) => {
                proof {
                    lemma_read_digits_stops(digits, upto.len() as int, max);
                }
                return Err(e);
            },
        };
        proof {
            seen = upto;
        }
        match chars.next() {
            Some(c) => {
                current = c;
                assert(seen.push(current) + chars.remaining() =~= digits);
            },
            None => {
                assert(seen =~= digits);
                return Ok(value);
            },
        }
    }
}

/// What the origin option asks for.
#[derive(Debug, Clone, Copy, PartialEq, Eq)]
pub enum Origin {
    /// The dump starts at this address, which has 16 bits, and shows the
    /// whole file.
    At(usize),
    /// The first two bytes of the file are the address, low byte first, and
    /// the dump shows what follows them.
    FromFile,
}

/// The text of an option that may be absent.
pub open spec fn option_text(flag: Option<&str>) -> Option<Seq<char>> {
    match flag {
        Some(s) => Some(s@),
        None => None,
    }
}

/// What an origin option asks for: address zero where it is absent, the
/// file's own origin where it writes zero, else the number it writes.
pub open spec fn requested_origin(flag: Option<Seq<char>>) -> Result<Origin, ParseHexError> {
    match flag {
        None => Ok(Origin::At(0)),
        Some(s) => match parsed_hex(s) {
            Err(e) => Err(e),
            Ok(v) => if v == 0 {
                Ok(Origin::FromFile)
            } else {
                Ok(Origin::At(v))
            },
        },
    }
}

/// The address that two leading bytes of a file write, low byte first.
pub open spec fn file_origin(low: u8, high: u8) -> int {
    high as int * 256 + low as int
}

/// Decides from the origin option where the dump is to start.
pub fn origin_request(flag: Option<&str>) -> (r: Result<Origin, ParseHexError>)
    ensures
        r == requested_origin(option_text(flag)),
{
    match flag {
        None => Ok(Origin::At(0)),
        Some(s) => match parse_hex(s) {
            Err(e) => Err(e),
            Ok(v) => if v == 0 {
                Ok(Origin::FromFile)
            } else {
                Ok(Origin::At(v))
            },
        },
    }
}

/// Gives the address that the first two bytes of a file write.
pub fn origin_from_bytes(low: u8, high: u8) -> (addr: usize)
    ensures
        addr == file_origin(low, high),
{
    (high as usize) * 0x100 + low as usize
}

impl ParseHexError {
    /// The failure in words.
    pub open spec fn reason(self) -> Seq<char> {
        match self {
            ParseHexError::Empty => "cannot parse integer from empty string"@,
            ParseHexError::InvalidDigit => "invalid digit found in string"@,
            ParseHexError::Overflow => "number too large to fit in target type"@,
        }
    }

    /// Says in words what failed.
    pub fn describe(&self) -> (text: &'static str)
        ensures
            text@ == self.reason(),
    {
        match self {
            ParseHexError::Empty => "cannot parse integer from empty string",
            ParseHexError::InvalidDigit => "invalid digit found in string",
            ParseHexError::Overflow => "number too large to fit in target type",
        }
    }
}

/// The complaint about an origin option that is no hexadecimal number: it
/// quotes the option and says what failed.
pub open spec fn invalid_origin_text(input: Seq<char>, error: ParseHexError) -> Seq<char> {
    "Invalid hexadecimal value \""@ + input + "\": "@ + error.reason()
}

/// Words the complaint about the origin option `input`, which failed with
/// `error`.
pub fn invalid_origin_message(input: &str, error: ParseHexError) -> (message: String)
    ensures
        message@ == invalid_origin_text(input@, error),
{
    let mut message = String::from_str("Invalid hexadecimal value \"");
    message.append(input);
    message.append("\": ");
    message.append(error.describe());
    message
}

} // verus!
