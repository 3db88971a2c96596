//! The language that the grammar accepts, said without reference to how a
//! text is read, and the proof that reading accepts exactly that language.

use vstd::prelude::*;
use crate::command::{Command, Vector2};
use crate::grammar::{
    blanks_end, decimal_value, digits_end, integer_at, is_blank, is_digit, operands_at,
    parse_command, verb_lclick, verb_move, verb_rclick, verb_scroll, ParseError,
};

verus! {

pub open spec fn all_digits(t: Seq<u8>) -> bool {
    forall|k: int| 0 <= k < t.len() ==> is_digit(#[trigger] t[k])
}

pub open spec fn all_blanks(t: Seq<u8>) -> bool {
    forall|k: int| 0 <= k < t.len() ==> is_blank(#[trigger] t[k])
}

/// Whether `t` is an `int` of the grammar that writes `v`: an optional
/// minus sign and at least one digit, with a value of 32 bits.
pub open spec fn writes_integer(t: Seq<u8>, v: int) -> bool {
    let negative = t.len() > 0 && t[0] == 0x2d;
    let digits = if negative { t.skip(1) } else { t };
    &&& digits.len() >= 1
    &&& all_digits(digits)
    &&& v == (if negative { -(decimal_value(digits) as int) } else { decimal_value(digits) as int })
    &&& i32::MIN <= v <= i32::MAX
}

/// A verb, blanks, an integer, a comma and an integer, one after the other.
pub open spec fn pair_text(verb: Seq<u8>, blanks: Seq<u8>, a: Seq<u8>, b: Seq<u8>) -> Seq<u8> {
    verb + blanks + a + seq![0x2cu8] + b
}

/// Whether `s` is `verb 1*SP int "," int` with integers that write `x` and `y`.
pub open spec fn writes_pair(s: Seq<u8>, verb: Seq<u8>, x: int, y: int) -> bool {
    exists|blanks: Seq<u8>, a: Seq<u8>, b: Seq<u8>|
        {
            &&& s == #[trigger] pair_text(verb, blanks, a, b)
            &&& blanks.len() >= 1
            &&& all_blanks(blanks)
            &&& writes_integer(a, x)
            &&& writes_integer(b, y)
        }
}

/// Whether the text `s` is the command `c` in the command language.
pub open spec fn spells(s: Seq<u8>, c: Command) -> bool {
    match c {
        Command::Move(v) => writes_pair(s, verb_move(), v.x as int, v.y as int),
        Command::Scroll(v) => writes_pair(s, verb_scroll(), v.x as int, v.y as int),
        Command::LeftClick => s == verb_lclick(),
        Command::RightClick => s == verb_rclick(),
    }
}

/// The scan for digits stops inside the text, behind digits only, at the
/// end or in front of a byte that is no digit.
pub proof fn lemma_digits_run(s: Seq<u8>, i: int)
    requires
        0 <= i <= s.len(),
    ensures
        i <= digits_end(s, i) <= s.len(),
        forall|k: int| i <= k < digits_end(s, i) ==> is_digit(#[trigger] s[k]),
        digits_end(s, i) == s.len() || !is_digit(s[digits_end(s, i)]),
    decreases s.len() - i,
{
    if i < s.len() && is_digit(s[i]) {
        lemma_digits_run(s, i + 1);
    }
}

/// The scan for blanks stops inside the text, behind blanks only, at the
/// end or in front of a byte that is no blank.
pub proof fn lemma_blanks_run(s: Seq<u8>, i: int)
    requires
        0 <= i <= s.len(),
    ensures
        i <= blanks_end(s, i) <= s.len(),
        forall|k: int| i <= k < blanks_end(s, i) ==> is_blank(#[trigger] s[k]),
        blanks_end(s, i) == s.len() || !is_blank(s[blanks_end(s, i)]),
    decreases s.len() - i,
{
    if i < s.len() && is_blank(s[i]) {
        lemma_blanks_run(s, i + 1);
    }
}

/// A run of digits that ends at `j` ends the scan at `j`.
pub proof fn lemma_digits_end(s: Seq<u8>, i: int, j: int)
    requires
        0 <= i <= j <= s.len(),
        forall|k: int| i <= k < j ==> is_digit(#[trigger] s[k]),
        j == s.len() || !is_digit(s[j]),
    ensures
        digits_end(s, i) == j,
    decreases j - i,
{
    if i < j {
        lemma_digits_end(s, i + 1, j);
    }
}

/// A run of blanks that ends at `j` ends the scan at `j`.
pub proof fn lemma_blanks_end(s: Seq<u8>, i: int, j: int)
    requires
        0 <= i <= j <= s.len(),
        forall|k: int| i <= k < j ==> is_blank(#[trigger] s[k]),
        j == s.len() || !is_blank(s[j]),
    ensures
        blanks_end(s, i) == j,
    decreases j - i,
{
    if i < j {
        lemma_blanks_end(s, i + 1, j);
    }
}

/// An integer that stands at offset `i` of `s`, with no digit behind it,
/// is read with its value and up to its end.
pub proof fn lemma_written_integer_is_read(s: Seq<u8>, i: int, t: Seq<u8>, v: int)
    requires
        0 <= i,
        i + t.len() <= s.len(),
        s.subrange(i, i + t.len()) == t,
        writes_integer(t, v),
        i + t.len() == s.len() || !is_digit(s[i + t.len()]),
    ensures
        integer_at(s, i) == Some((v, i + t.len())),
{
    let end = i + t.len();
    let negative = t[0] == 0x2d;
    let digits = if negative { t.skip(1) } else { t };
    let start = if negative { i + 1 } else { i };
    assert(s[i] == t[0]);
    if !negative {
        assert(is_digit(digits[0]));
    }
    assert forall|k: int| start <= k < end implies is_digit(#[trigger] s[k]) by {
        assert(s[k] == t[k - i]);
        assert(t[k - i] == digits[k - start]);
    }
    lemma_digits_end(s, start, end);
    assert(s.subrange(start, end) =~= digits) by {
        assert forall|k: int| 0 <= k < end - start implies s.subrange(start, end)[k]
            == digits[k] by {
            assert(s[start + k] == t[start + k - i]);
        }
    }
}

/// What is read as an integer at offset `i` is an integer of the grammar
/// that writes the value read.
pub proof fn lemma_read_integer_is_written(s: Seq<u8>, i: int)
    requires
        0 <= i <= s.len(),
        integer_at(s, i) is Some,
    ensures
        i < integer_at(s, i).unwrap().1 <= s.len(),
        writes_integer(s.subrange(i, integer_at(s, i).unwrap().1), integer_at(s, i).unwrap().0),
        integer_at(s, i).unwrap().1 == s.len() || !is_digit(s[integer_at(s, i).unwrap().1]),
{
    let (v, end) = integer_at(s, i).unwrap();
    let negative = i < s.len() && s[i] == 0x2d;
    let start = if negative { i + 1 } else { i };
    lemma_digits_run(s, start);
    let t = s.subrange(i, end);
    let digits = if negative { t.skip(1) } else { t };
    assert(t[0] == s[i]);
    if !negative {
        assert(is_digit(s[start]));
    }
    assert(digits =~= s.subrange(start, end));
    assert(all_digits(digits)) by {
        assert forall|k: int| 0 <= k < digits.len() implies is_digit(#[trigger] digits[k]) by {
            assert(digits[k] == s[start + k]);
        }
    }
}

/// Blanks, an integer, a comma and an integer that stand at offset `i` and
/// reach to the end of `s` are read as the pair the integers write.
pub proof fn lemma_written_operands_are_read(
    s: Seq<u8>,
    i: int,
    blanks: Seq<u8>,
    a: Seq<u8>,
    b: Seq<u8>,
    x: int,
    y: int,
)
    requires
        0 <= i <= s.len(),
        s.skip(i) == blanks + a + seq![0x2cu8] + b,
        blanks.len() >= 1,
        all_blanks(blanks),
        writes_integer(a, x),
        writes_integer(b, y),
    ensures
        operands_at(s, i) == Ok::<(Vector2, int), ParseError>(
            (Vector2 { x: x as i32, y: y as i32 }, s.len() as int),
        ),
{
    let tail = s.skip(i);
    let first = i + blanks.len();
    let comma = first + a.len();
    let second = comma + 1;
    assert(tail.len() == blanks.len() + a.len() + 1 + b.len());
    assert(tail.len() == s.len() - i);
    assert forall|k: int| 0 <= k < tail.len() implies s[i + k] == #[trigger] tail[k] by {}
    assert forall|k: int| i <= k < first implies is_blank(#[trigger] s[k]) by {
        assert(s[k] == tail[k - i]);
        assert(tail[k - i] == blanks[k - i]);
    }
    assert(s[first] == tail[first - i] && tail[first - i] == a[0]);
    assert(!is_blank(a[0])) by {
        if a[0] != 0x2d {
            assert(is_digit(a[0]));
        }
    }
    lemma_blanks_end(s, i, first);
    assert(s[comma] == tail[comma - i] && tail[comma - i] == 0x2c);
    assert(s.subrange(first, comma) =~= a) by {
        assert forall|k: int| 0 <= k < a.len() implies s.subrange(first, comma)[k] == a[k] by {
            assert(s[first + k] == tail[first - i + k]);
        }
    }
    lemma_written_integer_is_read(s, first, a, x);
    assert(s.subrange(second, s.len() as int) =~= b) by {
        assert forall|k: int| 0 <= k < b.len() implies s.subrange(second, s.len() as int)[k]
            == b[k] by {
            assert(s[second + k] == tail[second - i + k]);
        }
    }
    lemma_written_integer_is_read(s, second, b, y);
}

/// What is read as operands at offset `i` is blanks, an integer, a comma
/// and an integer, which write the pair read. The result is those three
/// texts.
pub proof fn lemma_read_operands_are_written(s: Seq<u8>, i: int) -> (found: (
    Seq<u8>,
    Seq<u8>,
    Seq<u8>,
))
    requires
        0 <= i <= s.len(),
        operands_at(s, i) is Ok,
    ensures
        i <= operands_at(s, i).unwrap().1 <= s.len(),
        s.subrange(i, operands_at(s, i).unwrap().1) == found.0 + found.1 + seq![0x2cu8] + found.2,
        found.0.len() >= 1,
        all_blanks(found.0),
        writes_integer(found.1, operands_at(s, i).unwrap().0.x as int),
        writes_integer(found.2, operands_at(s, i).unwrap().0.y as int),
{
    let (v, end) = operands_at(s, i).unwrap();
    lemma_blanks_run(s, i);
    let first = blanks_end(s, i);
    lemma_read_integer_is_written(s, first);
    let (x, comma) = integer_at(s, first).unwrap();
    let second = comma + 1;
    lemma_read_integer_is_written(s, second);
    let (y, last) = integer_at(s, second).unwrap();
    assert(last == end);
    let blanks = s.subrange(i, first);
    let a = s.subrange(first, comma);
    let b = s.subrange(second, end);
    assert(s.subrange(i, end) =~= blanks + a + seq![0x2cu8] + b);
    (blanks, a, b)
}

/// A text that starts with one verb starts with no other: the four verbs
/// differ in their first byte.
pub proof fn lemma_verbs_exclude_each_other(s: Seq<u8>)
    ensures
        verb_move().is_prefix_of(s) ==> s[0] == 0x6d,
        verb_scroll().is_prefix_of(s) ==> s[0] == 0x73,
        verb_lclick().is_prefix_of(s) ==> s[0] == 0x6c,
        verb_rclick().is_prefix_of(s) ==> s[0] == 0x72,
{
    if verb_move().is_prefix_of(s) {
        assert(s.subrange(0, 4)[0] == verb_move()[0]);
    }
    if verb_scroll().is_prefix_of(s) {
        assert(s.subrange(0, 6)[0] == verb_scroll()[0]);
    }
    if verb_lclick().is_prefix_of(s) {
        assert(s.subrange(0, 6)[0] == verb_lclick()[0]);
    }
    if verb_rclick().is_prefix_of(s) {
        assert(s.subrange(0, 6)[0] == verb_rclick()[0]);
    }
}

/// Every text of the language is read as the command it spells.
pub proof fn lemma_spelled_is_parsed(s: Seq<u8>, c: Command)
    requires
        spells(s, c),
    ensures
        parse_command(s) == Ok::<Command, ParseError>(c),
{
    lemma_verbs_exclude_each_other(s);
    match c {
        Command::Move(v) => {
            let (blanks, a, b) = choose|blanks: Seq<u8>, a: Seq<u8>, b: Seq<u8>|
                {
                    &&& s == #[trigger] pair_text(verb_move(), blanks, a, b)
                    &&& blanks.len() >= 1
                    &&& all_blanks(blanks)
                    &&& writes_integer(a, v.x as int)
                    &&& writes_integer(b, v.y as int)
                };
            assert(s.subrange(0, 4) =~= verb_move());
            assert(s.skip(4) =~= blanks + a + seq![0x2cu8] + b);
            lemma_written_operands_are_read(s, 4, blanks, a, b, v.x as int, v.y as int);
        },
        Command::Scroll(v) => {
            let (blanks, a, b) = choose|blanks: Seq<u8>, a: Seq<u8>, b: Seq<u8>|
                {
                    &&& s == #[trigger] pair_text(verb_scroll(), blanks, a, b)
                    &&& blanks.len() >= 1
                    &&& all_blanks(blanks)
                    &&& writes_integer(a, v.x as int)
                    &&& writes_integer(b, v.y as int)
                };
            assert(s.subrange(0, 6) =~= verb_scroll());
            assert(s.skip(6) =~= blanks + a + seq![0x2cu8] + b);
            lemma_written_operands_are_read(s, 6, blanks, a, b, v.x as int, v.y as int);
        },
        Command::LeftClick => {
            assert(s.subrange(0, 6) =~= verb_lclick());
        },
        Command::RightClick => {
            assert(s.subrange(0, 6) =~= verb_rclick());
        },
    }
}

/// A text that starts with a verb and whose operands are read up to its
/// end is that verb followed by the pair read.
proof fn lemma_read_pair_is_written(s: Seq<u8>, verb: Seq<u8>)
    requires
        verb.is_prefix_of(s),
        operands_at(s, verb.len() as int) is Ok,
        operands_at(s, verb.len() as int).unwrap().1 == s.len(),
    ensures
        writes_pair(
            s,
            verb,
            operands_at(s, verb.len() as int).unwrap().0.x as int,
            operands_at(s, verb.len() as int).unwrap().0.y as int,
        ),
{
    let n = verb.len() as int;
    let (blanks, a, b) = lemma_read_operands_are_written(s, n);
    let tail = blanks + a + seq![0x2cu8] + b;
    assert(s.subrange(n, s.len() as int) == tail);
    assert(s.subrange(0, n) == verb);
    assert(s =~= s.subrange(0, n) + s.subrange(n, s.len() as int));
    assert(verb + tail =~= pair_text(verb, blanks, a, b));
    assert(s == pair_text(verb, blanks, a, b));
}

/// Every text that is read as a command is a text of the language and
/// spells that command.
pub proof fn lemma_parsed_is_spelled(s: Seq<u8>)
    requires
        parse_command(s) is Ok,
    ensures
        spells(s, parse_command(s).unwrap()),
{
    lemma_verbs_exclude_each_other(s);
    if verb_move().is_prefix_of(s) {
        lemma_read_pair_is_written(s, verb_move());
    } else if verb_lclick().is_prefix_of(s) {
        assert(s =~= s.subrange(0, 6));
    } else if verb_rclick().is_prefix_of(s) {
        assert(s =~= s.subrange(0, 6));
    } else {
        lemma_read_pair_is_written(s, verb_scroll());
    }
}

/// Reading accepts the command language and nothing else: a text is read
/// as a command if and only if it spells that command.
pub proof fn lemma_parse_accepts_the_language(s: Seq<u8>, c: Command)
    ensures
        parse_command(s) == Ok::<Command, ParseError>(c) <==> spells(s, c),
{
    if spells(s, c) {
        lemma_spelled_is_parsed(s, c);
    }
    if parse_command(s) == Ok::<Command, ParseError>(c) {
        lemma_parsed_is_spelled(s);
    }
}

/// The decimal digits of `n`, most significant first, without leading
/// zeros; `0` is the single digit `0`.
pub open spec fn decimal_digits(n: nat) -> Seq<u8>
    decreases n,
{
    if n < 10 {
        seq![(0x30 + n) as u8]
    } else {
        decimal_digits(n / 10).push((0x30 + n % 10) as u8)
    }
}

/// How an integer is printed: a minus sign for a negative one, then the
/// digits of its magnitude.
pub open spec fn integer_text(v: int) -> Seq<u8> {
    if v < 0 {
        seq![0x2du8] + decimal_digits((-v) as nat)
    } else {
        decimal_digits(v as nat)
    }
}

/// `move {x},{y}`
pub open spec fn move_text(x: int, y: int) -> Seq<u8> {
    verb_move() + seq![0x20u8] + integer_text(x) + seq![0x2cu8] + integer_text(y)
}

/// `scroll {x},{y}`
pub open spec fn scroll_text(x: int, y: int) -> Seq<u8> {
    verb_scroll() + seq![0x20u8] + integer_text(x) + seq![0x2cu8] + integer_text(y)
}

/// The digits of a number are digits, at least one, and write that number.
pub proof fn lemma_decimal_digits(n: nat)
    ensures
        decimal_digits(n).len() >= 1,
        all_digits(decimal_digits(n)),
        decimal_value(decimal_digits(n)) == n,
    decreases n,
{
    let digits = decimal_digits(n);
    if n < 10 {
        assert(digits.drop_last() =~= Seq::<u8>::empty());
        assert(decimal_value(digits.drop_last()) == 0);
    } else {
        lemma_decimal_digits(n / 10);
        assert(digits.drop_last() =~= decimal_digits(n / 10));
        assert(digits.last() == (0x30 + n % 10) as u8);
    }
}

/// A 32-bit integer, printed, is an integer of the grammar that writes it.
pub proof fn lemma_printed_integer_is_written(v: i32)
    ensures
        writes_integer(integer_text(v as int), v as int),
{
    let magnitude: nat = if v < 0 { (-v) as nat } else { v as nat };
    lemma_decimal_digits(magnitude);
    let digits = decimal_digits(magnitude);
    let t = integer_text(v as int);
    if v < 0 {
        assert(t[0] == 0x2d);
        assert(t.skip(1) =~= digits);
    } else {
        assert(is_digit(digits[0]));
    }
}

/// Every pair of signed 32-bit integers, printed as `move {x},{y}`, is
/// read back as the command to move by that pair.
pub proof fn lemma_move_round_trip(x: i32, y: i32)
    ensures
        parse_command(move_text(x as int, y as int)) == Ok::<Command, ParseError>(
            Command::Move(Vector2 { x, y }),
        ),
{
    lemma_printed_integer_is_written(x);
    lemma_printed_integer_is_written(y);
    let s = move_text(x as int, y as int);
    assert(s == pair_text(verb_move(), seq![0x20u8], integer_text(x as int), integer_text(y as int)));
    lemma_spelled_is_parsed(s, Command::Move(Vector2 { x, y }));
}

/// Every pair of signed 32-bit integers, printed as `scroll {x},{y}`, is
/// read back as the command to scroll by that pair.
pub proof fn lemma_scroll_round_trip(x: i32, y: i32)
    ensures
        parse_command(scroll_text(x as int, y as int)) == Ok::<Command, ParseError>(
            Command::Scroll(Vector2 { x, y }),
        ),
{
    lemma_printed_integer_is_written(x);
    lemma_printed_integer_is_written(y);
    let s = scroll_text(x as int, y as int);
    assert(s == pair_text(
        verb_scroll(),
        seq![0x20u8],
        integer_text(x as int),
        integer_text(y as int),
    ));
    lemma_spelled_is_parsed(s, Command::Scroll(Vector2 { x, y }));
}

} // verus!
