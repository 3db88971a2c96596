//! The executable reader of the command language.

use vstd::prelude::*;
use vstd::string::StringSliceAdditionalSpecFns;
use vstd::utf8::{
    encode_utf8_valid_utf8, is_char_boundary, is_leading_byte_width_1, pop_first_scalar, valid_utf8,
};
use crate::command::{Command, Vector2};
use crate::language::{lemma_parse_accepts_the_language, spells};
use crate::grammar::{
    blanks_end, command_prefix, decimal_value, digits_end, integer_at, is_blank, is_digit,
    left_click_prefix, move_prefix, operands_at, parse_command, right_click_prefix,
    scroll_prefix, verb_lclick, verb_move, verb_rclick, verb_scroll, ParseError, ParseErrorKind,
};

verus! {

/// Whether `bytes` holds, from offset 0, the four given bytes.
fn has_verb4(bytes: &[u8], w0: u8, w1: u8, w2: u8, w3: u8) -> (found: bool)
    ensures
        found == seq![w0, w1, w2, w3].is_prefix_of(bytes@),
{
    let ghost word = seq![w0, w1, w2, w3];
    if bytes.len() >= 4 && bytes[0] == w0 && bytes[1] == w1 && bytes[2] == w2 && bytes[3] == w3 {
        assert(word =~= bytes@.subrange(0, 4));
        true
    } else {
        assert(!word.is_prefix_of(bytes@)) by {
            if word.is_prefix_of(bytes@) {
                let head = bytes@.subrange(0, 4);
                assert(head[0] == word[0] && head[1] == word[1] && head[2] == word[2] && head[3]
                    == word[3]);
            }
        }
        false
    }
}

/// Whether `bytes` holds, from offset 0, the six given bytes.
fn has_verb6(bytes: &[u8], w0: u8, w1: u8, w2: u8, w3: u8, w4: u8, w5: u8) -> (found: bool)
    ensures
        found == seq![w0, w1, w2, w3, w4, w5].is_prefix_of(bytes@),
{
    let ghost word = seq![w0, w1, w2, w3, w4, w5];
    if bytes.len() >= 6 && bytes[0] == w0 && bytes[1] == w1 && bytes[2] == w2 && bytes[3] == w3
        && bytes[4] == w4 && bytes[5] == w5 {
        assert(word =~= bytes@.subrange(0, 6));
        true
    } else {
        assert(!word.is_prefix_of(bytes@)) by {
            if word.is_prefix_of(bytes@) {
                let head = bytes@.subrange(0, 6);
                assert(head[0] == word[0] && head[1] == word[1] && head[2] == word[2] && head[3]
                    == word[3] && head[4] == word[4] && head[5] == word[5]);
            }
        }
        false
    }
}

/// Skips the blanks that start at `from`.
fn skip_blanks(bytes: &[u8], from: usize) -> (end: usize)
    requires
        from <= bytes.len(),
    ensures
        end == blanks_end(bytes@, from as int),
        from <= end <= bytes.len(),
        forall|k: int| from <= k < end ==> is_blank(#[trigger] bytes@[k]),
{
    let mut end: usize = from;
    while end < bytes.len() && (bytes[end] == 0x20 || bytes[end] == 0x09)
        invariant
            from <= end <= bytes.len(),
            blanks_end(bytes@, from as int) == blanks_end(bytes@, end as int),
            forall|k: int| from <= k < end ==> is_blank(#[trigger] bytes@[k]),
        decreases bytes.len() - end,
    {
        end = end + 1;
    }
    end
}

/// Reads `["-"] 1*DIGIT` at `from`; the value must fit in 32 bits.
fn read_integer(bytes: &[u8], from: usize) -> (found: Option<(i32, usize)>)
    requires
        from <= bytes.len(),
    ensures
        match found {
            Some((value, end)) => {
                &&& integer_at(bytes@, from as int) == Some((value as int, end as int))
                &&& from < end <= bytes.len()
                &&& forall|k: int| from <= k < end ==> #[trigger] bytes@[k] < 0x80
            },
            None => integer_at(bytes@, from as int) is None,
        },
{
    let negative = from < bytes.len() && bytes[from] == 0x2d;
    let start: usize = if negative { from + 1 } else { from };
    let mut end: usize = start;
    // The magnitude read so far, held at the first value beyond both bounds.
    let mut magnitude: u64 = 0;
    while end < bytes.len() && 0x30 <= bytes[end] && bytes[end] <= 0x39
        invariant
            start <= end <= bytes.len(),
            digits_end(bytes@, start as int) == digits_end(bytes@, end as int),
            forall|k: int| start <= k < end ==> is_digit(#[trigger] bytes@[k]),
            magnitude <= 0x8000_0001,
            magnitude == 0x8000_0001 || magnitude == decimal_value(
                bytes@.subrange(start as int, end as int),
            ),
            magnitude == 0x8000_0001 ==> decimal_value(bytes@.subrange(start as int, end as int))
                >= 0x8000_0001,
        decreases bytes.len() - end,
    {
        let digit: u64 = (bytes[end] - 0x30) as u64;
        proof {
            let longer = bytes@.subrange(start as int, end + 1);
            assert(longer.drop_last() =~= bytes@.subrange(start as int, end as int));
            assert(longer.last() == bytes@[end as int]);
        }
        magnitude = magnitude * 10 + digit;
        if magnitude > 0x8000_0001 {
            magnitude = 0x8000_0001;
        }
        end = end + 1;
    }
    if end == start {
        None
    } else if negative {
        if magnitude <= 0x8000_0000 {
            let value: i64 = 0 - (magnitude as i64);
            Some((value as i32, end))
        } else {
            None
        }
    } else {
        if magnitude <= 0x7fff_ffff {
            Some((magnitude as i32, end))
        } else {
            None
        }
    }
}

/// Whether every byte before `end` is ASCII, so that `end` cannot fall
/// inside a multi-byte character.
pub open spec fn ascii_before(s: Seq<u8>, end: int) -> bool {
    &&& 0 <= end <= s.len()
    &&& forall|k: int| 0 <= k < end ==> #[trigger] s[k] < 0x80
}

/// Reads `1*SP int "," int` at `from`, which lies behind an ASCII verb.
fn read_operands(bytes: &[u8], from: usize) -> (found: Result<(Vector2, usize), ParseError>)
    requires
        ascii_before(bytes@, from as int),
    ensures
        match found {
            Ok((v, end)) => {
                &&& operands_at(bytes@, from as int) == Ok::<(Vector2, int), ParseError>(
                    (v, end as int),
                )
                &&& ascii_before(bytes@, end as int)
            },
            Err(e) => operands_at(bytes@, from as int) == Err::<(Vector2, int), ParseError>(e),
        },
{
    let first = skip_blanks(bytes, from);
    if first == from {
        return Err(ParseError { position: from, kind: ParseErrorKind::MissingSeparator });
    }
    let (x, comma) = match read_integer(bytes, first) {
        Some(read) => read,
        None => {
            return Err(ParseError { position: first, kind: ParseErrorKind::MalformedInteger });
        },
    };
    if !(comma < bytes.len() && bytes[comma] == 0x2c) {
        return Err(ParseError { position: comma, kind: ParseErrorKind::MissingSeparator });
    }
    let second: usize = comma + 1;
    match read_integer(bytes, second) {
        Some((y, end)) => Ok((Vector2 { x, y }, end)),
        None => Err(ParseError { position: second, kind: ParseErrorKind::MalformedInteger }),
    }
}

/// In well-formed UTF-8 an offset that only ASCII bytes precede starts a
/// character or ends the text.
proof fn lemma_boundary_after_ascii(s: Seq<u8>, end: int)
    requires
        valid_utf8(s),
        ascii_before(s, end),
    ensures
        is_char_boundary(s, end),
    decreases end,
{
    if end > 0 {
        let tail = pop_first_scalar(s);
        assert(is_leading_byte_width_1(s[0]));
        assert(tail =~= s.subrange(1, s.len() as int));
        assert forall|k: int| 0 <= k < end - 1 implies #[trigger] tail[k] < 0x80 by {
            assert(tail[k] == s[k + 1]);
        }
        lemma_boundary_after_ascii(tail, end - 1);
    }
}

/// What is left of `text` behind its first `end` bytes.
fn rest_after<'a>(text: &'a str, end: usize) -> (rest: &'a str)
    requires
        ascii_before(text.spec_bytes(), end as int),
    ensures
        rest.spec_bytes() == text.spec_bytes().skip(end as int),
{
    proof {
        encode_utf8_valid_utf8(text@);
        lemma_boundary_after_ascii(text.spec_bytes(), end as int);
    }
    let (_, rest) = text.split_at(end);
    rest
}

/// How the outcome of a prefix reader relates to the grammar: on success
/// the command is the grammar's and `rest` is `text` without the bytes the
/// command took; on failure the error is the grammar's.
pub open spec fn reads_as<T>(
    text: &str,
    outcome: Result<(&str, T), ParseError>,
    model: Result<(T, int), ParseError>,
) -> bool {
    match outcome {
        Ok((rest, value)) => {
            &&& model matches Ok((v, taken))
            &&& v == value
            &&& 0 <= taken <= text.spec_bytes().len()
            &&& rest.spec_bytes() == text.spec_bytes().skip(taken)
        },
        Err(e) => model == Err::<(T, int), ParseError>(e),
    }
}

/// What a reader on bytes returns, against the grammar's verdict.
pub open spec fn takes_as(
    bytes: Seq<u8>,
    outcome: Result<(Command, usize), ParseError>,
    model: Result<(Command, int), ParseError>,
) -> bool {
    match outcome {
        Ok((c, end)) => model == Ok::<(Command, int), ParseError>((c, end as int)) && ascii_before(
            bytes,
            end as int,
        ),
        Err(e) => model == Err::<(Command, int), ParseError>(e),
    }
}

fn read_move(bytes: &[u8]) -> (found: Result<(Command, usize), ParseError>)
    ensures
        takes_as(bytes@, found, move_prefix(bytes@)),
{
    if !has_verb4(bytes, 0x6d, 0x6f, 0x76, 0x65) {
        return Err(ParseError { position: 0, kind: ParseErrorKind::UnknownVerb });
    }
    assert(verb_move() =~= bytes@.subrange(0, 4));
    assert(ascii_before(bytes@, 4)) by {
        assert forall|k: int| 0 <= k < 4 implies #[trigger] bytes@[k] < 0x80 by {
            assert(bytes@[k] == bytes@.subrange(0, 4)[k]);
        }
    }
    match read_operands(bytes, 4) {
        Ok((v, end)) => Ok((Command::Move(v), end)),
        Err(e) => Err(e),
    }
}

fn read_scroll(bytes: &[u8]) -> (found: Result<(Command, usize), ParseError>)
    ensures
        takes_as(bytes@, found, scroll_prefix(bytes@)),
{
    if !has_verb6(bytes, 0x73, 0x63, 0x72, 0x6f, 0x6c, 0x6c) {
        return Err(ParseError { position: 0, kind: ParseErrorKind::UnknownVerb });
    }
    assert(verb_scroll() =~= bytes@.subrange(0, 6));
    assert(ascii_before(bytes@, 6)) by {
        assert forall|k: int| 0 <= k < 6 implies #[trigger] bytes@[k] < 0x80 by {
            assert(bytes@[k] == bytes@.subrange(0, 6)[k]);
        }
    }
    match read_operands(bytes, 6) {
        Ok((v, end)) => Ok((Command::Scroll(v), end)),
        Err(e) => Err(e),
    }
}

fn read_left_click(bytes: &[u8]) -> (found: Result<(Command, usize), ParseError>)
    ensures
        takes_as(bytes@, found, left_click_prefix(bytes@)),
{
    if !has_verb6(bytes, 0x6c, 0x63, 0x6c, 0x69, 0x63, 0x6b) {
        return Err(ParseError { position: 0, kind: ParseErrorKind::UnknownVerb });
    }
    assert(verb_lclick() =~= bytes@.subrange(0, 6));
    assert(ascii_before(bytes@, 6)) by {
        assert forall|k: int| 0 <= k < 6 implies #[trigger] bytes@[k] < 0x80 by {
            assert(bytes@[k] == bytes@.subrange(0, 6)[k]);
        }
    }
    Ok((Command::LeftClick, 6))
}

fn read_right_click(bytes: &[u8]) -> (found: Result<(Command, usize), ParseError>)
    ensures
        takes_as(bytes@, found, right_click_prefix(bytes@)),
{
    if !has_verb6(bytes, 0x72, 0x63, 0x6c, 0x69, 0x63, 0x6b) {
        return Err(ParseError { position: 0, kind: ParseErrorKind::UnknownVerb });
    }
    assert(verb_rclick() =~= bytes@.subrange(0, 6));
    assert(ascii_before(bytes@, 6)) by {
        assert forall|k: int| 0 <= k < 6 implies #[trigger] bytes@[k] < 0x80 by {
            assert(bytes@[k] == bytes@.subrange(0, 6)[k]);
        }
    }
    Ok((Command::RightClick, 6))
}

/// Tries the alternatives in turn: `move`, `lclick`, `rclick`, `scroll`.
/// An alternative that got past its verb decides.
fn read_command(bytes: &[u8]) -> (found: Result<(Command, usize), ParseError>)
    ensures
        takes_as(bytes@, found, command_prefix(bytes@)),
{
    match read_move(bytes) {
        Ok(read) => { return Ok(read); },
        Err(e) => {
            match e.kind {
                ParseErrorKind::UnknownVerb => {},
                _ => { return Err(e); },
            }
        },
    }
    match read_left_click(bytes) {
        Ok(read) => { return Ok(read); },
        Err(_) => {},
    }
    match read_right_click(bytes) {
        Ok(read) => { return Ok(read); },
        Err(_) => {},
    }
    read_scroll(bytes)
}

/// Reads a `move` command at the start of `text` and returns it with the
/// text that follows it.
pub fn move_mouse<'a>(text: &'a str) -> (outcome: Result<(&'a str, Command), ParseError>)
    ensures
        reads_as(text, outcome, move_prefix(text.spec_bytes())),
{
    match read_move(text.as_bytes()) {
        Ok((c, end)) => Ok((rest_after(text, end), c)),
        Err(e) => Err(e),
    }
}

/// Reads a `scroll` command at the start of `text` and returns it with the
/// text that follows it.
pub fn scroll<'a>(text: &'a str) -> (outcome: Result<(&'a str, Command), ParseError>)
    ensures
        reads_as(text, outcome, scroll_prefix(text.spec_bytes())),
{
    match read_scroll(text.as_bytes()) {
        Ok((c, end)) => Ok((rest_after(text, end), c)),
        Err(e) => Err(e),
    }
}

/// Reads `lclick` at the start of `text` and returns the command with the
/// text that follows it.
pub fn left_click<'a>(text: &'a str) -> (outcome: Result<(&'a str, Command), ParseError>)
    ensures
        reads_as(text, outcome, left_click_prefix(text.spec_bytes())),
{
    match read_left_click(text.as_bytes()) {
        Ok((c, end)) => Ok((rest_after(text, end), c)),
        Err(e) => Err(e),
    }
}

/// Reads `rclick` at the start of `text` and returns the command with the
/// text that follows it.
pub fn right_click<'a>(text: &'a str) -> (outcome: Result<(&'a str, Command), ParseError>)
    ensures
        reads_as(text, outcome, right_click_prefix(text.spec_bytes())),
{
    match read_right_click(text.as_bytes()) {
        Ok((c, end)) => Ok((rest_after(text, end), c)),
        Err(e) => Err(e),
    }
}

/// The grammar's verdict on an integer at the start of `s`.
pub open spec fn integer_prefix(s: Seq<u8>) -> Result<(i32, int), ParseError> {
    match integer_at(s, 0) {
        Some((value, end)) => Ok((value as i32, end)),
        None => crate::grammar::failure(0, ParseErrorKind::MalformedInteger),
    }
}

/// Reads a signed 32-bit integer at the start of `text` and returns it with
/// the text that follows it.
pub fn integer<'a>(text: &'a str) -> (outcome: Result<(&'a str, i32), ParseError>)
    ensures
        reads_as(text, outcome, integer_prefix(text.spec_bytes())),
{
    match read_integer(text.as_bytes(), 0) {
        Some((value, end)) => Ok((rest_after(text, end), value)),
        None => Err(ParseError { position: 0, kind: ParseErrorKind::MalformedInteger }),
    }
}

/// Reads one frame of text as one command. The whole text must be the
/// command: the result is exactly the grammar's verdict on its bytes, and
/// so a command comes out if and only if the text spells it.
pub fn command(text: &str) -> (outcome: Result<Command, ParseError>)
    ensures
        outcome == parse_command(text.spec_bytes()),
        forall|c: Command|
            outcome == Ok::<Command, ParseError>(c) <==> #[trigger] spells(text.spec_bytes(), c),
{
    let bytes = text.as_bytes();
    proof {
        assert forall|c: Command|
            parse_command(bytes@) == Ok::<Command, ParseError>(c) <==> #[trigger] spells(
                bytes@,
                c,
            ) by {
            lemma_parse_accepts_the_language(bytes@, c);
        }
    }
    match read_command(bytes) {
        Ok((c, end)) => {
            if end == bytes.len() {
                Ok(c)
            } else {
                Err(ParseError { position: end, kind: ParseErrorKind::TrailingInput })
            }
        },
        Err(e) => Err(e),
    }
}

} // verus!
