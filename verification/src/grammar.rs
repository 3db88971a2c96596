//! The command language as a mathematical function on byte sequences.
//!
//! ```text
//! command = move / scroll / lclick / rclick
//! move    = "move"   1*SP int "," int
//! scroll  = "scroll" 1*SP int "," int
//! lclick  = "lclick"
//! rclick  = "rclick"
//! int     = ["-"] 1*DIGIT
//! ```
//!
//! `SP` is a space or a horizontal tab. A frame is one command: whatever
//! follows a complete command is an error.

use vstd::prelude::*;
use crate::command::{Command, Vector2};

verus! {

/// What went wrong while reading a command.
#[derive(Clone, Copy, Debug, PartialEq, Eq, Structural)]
pub enum ParseErrorKind {
    /// The text starts with none of the four verbs.
    UnknownVerb,
    /// A blank after `move` or `scroll`, or the comma between the two
    /// coordinates, is missing.
    MissingSeparator,
    /// No integer stands where one is due, or it does not fit in 32 bits.
    MalformedInteger,
    /// A complete command is followed by more input.
    TrailingInput,
}

/// A rejected command: the byte offset at which reading stopped, and why.
#[derive(Clone, Copy, Debug, PartialEq, Eq, Structural)]
pub struct ParseError {
    pub position: usize,
    pub kind: ParseErrorKind,
}

pub open spec fn is_digit(b: u8) -> bool {
    0x30 <= b <= 0x39
}

pub open spec fn is_blank(b: u8) -> bool {
    b == 0x20 || b == 0x09
}

/// `"move"`
pub open spec fn verb_move() -> Seq<u8> {
    seq![0x6du8, 0x6fu8, 0x76u8, 0x65u8]
}

/// `"scroll"`
pub open spec fn verb_scroll() -> Seq<u8> {
    seq![0x73u8, 0x63u8, 0x72u8, 0x6fu8, 0x6cu8, 0x6cu8]
}

/// `"lclick"`
pub open spec fn verb_lclick() -> Seq<u8> {
    seq![0x6cu8, 0x63u8, 0x6cu8, 0x69u8, 0x63u8, 0x6bu8]
}

/// `"rclick"`
pub open spec fn verb_rclick() -> Seq<u8> {
    seq![0x72u8, 0x63u8, 0x6cu8, 0x69u8, 0x63u8, 0x6bu8]
}

/// The first offset at or after `i` that holds no digit.
pub open spec fn digits_end(s: Seq<u8>, i: int) -> int
    decreases s.len() - i,
{
    if 0 <= i < s.len() && is_digit(s[i]) {
        digits_end(s, i + 1)
    } else {
        i
    }
}

/// The first offset at or after `i` that holds no blank.
pub open spec fn blanks_end(s: Seq<u8>, i: int) -> int
    decreases s.len() - i,
{
    if 0 <= i < s.len() && is_blank(s[i]) {
        blanks_end(s, i + 1)
    } else {
        i
    }
}

/// The number that a run of decimal digits writes, most significant first.
pub open spec fn decimal_value(digits: Seq<u8>) -> nat
    decreases digits.len(),
{
    if digits.len() == 0 {
        0
    } else {
        (decimal_value(digits.drop_last()) * 10 + (digits.last() - 0x30)) as nat
    }
}

/// An integer read at offset `i`: its value and the offset behind it.
/// `None` where no `["-"] 1*DIGIT` starts at `i` or the value leaves the
/// signed 32-bit range.
pub open spec fn integer_at(s: Seq<u8>, i: int) -> Option<(int, int)> {
    let negative = 0 <= i < s.len() && s[i] == 0x2d;
    let start = if negative { i + 1 } else { i };
    let end = digits_end(s, start);
    let magnitude = decimal_value(s.subrange(start, end)) as int;
    let value = if negative { -magnitude } else { magnitude };
    if start < end && i32::MIN <= value <= i32::MAX {
        Some((value, end))
    } else {
        None
    }
}

pub open spec fn failure<T>(position: int, kind: ParseErrorKind) -> Result<T, ParseError> {
    Err(ParseError { position: position as usize, kind })
}

/// `1*SP int "," int` read at offset `i`: the pair and the offset behind it.
pub open spec fn operands_at(s: Seq<u8>, i: int) -> Result<(Vector2, int), ParseError> {
    let a = blanks_end(s, i);
    if a == i {
        failure(i, ParseErrorKind::MissingSeparator)
    } else {
        match integer_at(s, a) {
            None => failure(a, ParseErrorKind::MalformedInteger),
            Some((x, b)) => {
                if !(b < s.len() && s[b] == 0x2c) {
                    failure(b, ParseErrorKind::MissingSeparator)
                } else {
                    match integer_at(s, b + 1) {
                        None => failure(b + 1, ParseErrorKind::MalformedInteger),
                        Some((y, c)) => Ok((Vector2 { x: x as i32, y: y as i32 }, c)),
                    }
                }
            },
        }
    }
}

/// A `move` command at the start of `s`, and the number of bytes it takes.
pub open spec fn move_prefix(s: Seq<u8>) -> Result<(Command, int), ParseError> {
    if !verb_move().is_prefix_of(s) {
        failure(0, ParseErrorKind::UnknownVerb)
    } else {
        match operands_at(s, 4) {
            Err(e) => Err(e),
            Ok((v, end)) => Ok((Command::Move(v), end)),
        }
    }
}

/// A `scroll` command at the start of `s`, and the number of bytes it takes.
pub open spec fn scroll_prefix(s: Seq<u8>) -> Result<(Command, int), ParseError> {
    if !verb_scroll().is_prefix_of(s) {
        failure(0, ParseErrorKind::UnknownVerb)
    } else {
        match operands_at(s, 6) {
            Err(e) => Err(e),
            Ok((v, end)) => Ok((Command::Scroll(v), end)),
        }
    }
}

/// An `lclick` command at the start of `s`, and the number of bytes it takes.
pub open spec fn left_click_prefix(s: Seq<u8>) -> Result<(Command, int), ParseError> {
    if verb_lclick().is_prefix_of(s) {
        Ok((Command::LeftClick, 6))
    } else {
        failure(0, ParseErrorKind::UnknownVerb)
    }
}

/// An `rclick` command at the start of `s`, and the number of bytes it takes.
pub open spec fn right_click_prefix(s: Seq<u8>) -> Result<(Command, int), ParseError> {
    if verb_rclick().is_prefix_of(s) {
        Ok((Command::RightClick, 6))
    } else {
        failure(0, ParseErrorKind::UnknownVerb)
    }
}

/// The command at the start of `s`. The four verbs exclude one another, so
/// at most one alternative gets past its verb; its verdict is the result.
pub open spec fn command_prefix(s: Seq<u8>) -> Result<(Command, int), ParseError> {
    if verb_move().is_prefix_of(s) {
        move_prefix(s)
    } else if verb_lclick().is_prefix_of(s) {
        left_click_prefix(s)
    } else if verb_rclick().is_prefix_of(s) {
        right_click_prefix(s)
    } else {
        scroll_prefix(s)
    }
}

/// The meaning of a whole frame: the one command that `s` spells, or the
/// first reason why it spells none.
pub open spec fn parse_command(s: Seq<u8>) -> Result<Command, ParseError> {
    match command_prefix(s) {
        Err(e) => Err(e),
        Ok((c, end)) => {
            if end == s.len() {
                Ok(c)
            } else {
                failure(end, ParseErrorKind::TrailingInput)
            }
        },
    }
}

} // verus!
