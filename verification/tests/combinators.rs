use drop_it::command::{Command, Vector2};
use drop_it::parser::{command, left_click, move_mouse, right_click, scroll};
use nom::branch::alt;
use nom::bytes::complete::tag;
use nom::character::complete::{char, digit1, space1};
use nom::combinator::{map_res, opt, recognize};
use nom::sequence::{pair, preceded};
use nom::IResult;
use std::str::FromStr;

// The same grammar, written with parser combinators, to hold the reader
// against.

fn number(input: &str) -> IResult<&str, i32> {
    map_res(recognize(pair(opt(char('-')), digit1)), FromStr::from_str)(input)
}

fn combined_move(text: &str) -> IResult<&str, Command> {
    let (rest, (x, y)) = preceded(
        pair(tag("move"), space1),
        pair(number, preceded(char(','), number)),
    )(text)?;
    Ok((rest, Command::Move(Vector2 { x, y })))
}

fn combined_scroll(text: &str) -> IResult<&str, Command> {
    let (rest, (x, y)) = preceded(
        pair(tag("scroll"), space1),
        pair(number, preceded(char(','), number)),
    )(text)?;
    Ok((rest, Command::Scroll(Vector2 { x, y })))
}

fn combined_left_click(text: &str) -> IResult<&str, Command> {
    let (rest, _) = tag("lclick")(text)?;
    Ok((rest, Command::LeftClick))
}

fn combined_right_click(text: &str) -> IResult<&str, Command> {
    let (rest, _) = tag("rclick")(text)?;
    Ok((rest, Command::RightClick))
}

fn combined_command(text: &str) -> IResult<&str, Command> {
    alt((combined_move, combined_left_click, combined_right_click, combined_scroll))(text)
}

fn samples() -> Vec<String> {
    let mut texts: Vec<String> = Vec::new();
    let fixed = [
        "", "move", "move ", "move 2,0", "move -100,50", "scroll 0,-3", "lclick", "rclick",
        "banana", "move 1, 2", "move 1,", "move 1,2 extra", "move 9999999999,0", "move\t1,2",
        "move \t 1,2", "move1,2", "movement", "scroll", "scroll  7,8rest", "lclick!", "rclickx",
        "move 007,-0", "move +1,2", "move --1,2", "move -,2", "move 1 ,2", "move 1;2",
        "move 2147483647,-2147483648", "move 2147483648,0", "move 0,-2147483649",
        "scroll 5,-6\u{e9}", "lclick\u{e9}", "\u{e9}lclick", "Move 1,2", " move 1,2",
        "move\n1,2", "move \u{a0}1,2", "scroll 1,2,3", "rclick lclick", "mov", "scrol 1,2",
    ];
    for text in fixed {
        texts.push(String::from(text));
    }
    for x in [i32::MIN, -1, 0, 1, i32::MAX] {
        for y in [i32::MIN, -1, 0, 1, i32::MAX] {
            texts.push(format!("move {},{}", x, y));
            texts.push(format!("scroll\t{},{}", x, y));
        }
    }
    texts
}

#[test]
fn move_mouse_agrees_with_the_combinators() {
    for text in samples() {
        assert_eq!(move_mouse(&text).ok(), combined_move(&text).ok(), "{:?}", text);
    }
}

#[test]
fn scroll_agrees_with_the_combinators() {
    for text in samples() {
        assert_eq!(scroll(&text).ok(), combined_scroll(&text).ok(), "{:?}", text);
    }
}

#[test]
fn clicks_agree_with_the_combinators() {
    for text in samples() {
        assert_eq!(left_click(&text).ok(), combined_left_click(&text).ok(), "{:?}", text);
        assert_eq!(right_click(&text).ok(), combined_right_click(&text).ok(), "{:?}", text);
    }
}

#[test]
fn command_agrees_with_the_combinators_on_whole_frames() {
    for text in samples() {
        let whole = match combined_command(&text) {
            Ok((rest, found)) if rest.is_empty() => Some(found),
            _ => None,
        };
        assert_eq!(command(&text).ok(), whole, "{:?}", text);
    }
}
