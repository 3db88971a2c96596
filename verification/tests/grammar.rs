use drop_it::command::{BackendCall, Command, Vector2};
use drop_it::grammar::{ParseError, ParseErrorKind};
use drop_it::parser::{command, integer, left_click, move_mouse, right_click, scroll};

fn rejected(position: usize, kind: ParseErrorKind) -> Result<Command, ParseError> {
    Err(ParseError { position, kind })
}

#[test]
fn test_move() {
    assert_eq!(
        move_mouse("move 2,0"),
        Ok(("", Command::Move(Vector2 { x: 2, y: 0 })))
    );
}

#[test]
fn command_reads_the_examples() {
    assert_eq!(command("move 2,0"), Ok(Command::Move(Vector2 { x: 2, y: 0 })));
    assert_eq!(command("move -100,50"), Ok(Command::Move(Vector2 { x: -100, y: 50 })));
    assert_eq!(command("scroll 0,-3"), Ok(Command::Scroll(Vector2 { x: 0, y: -3 })));
    assert_eq!(command("lclick"), Ok(Command::LeftClick));
    assert_eq!(command("rclick"), Ok(Command::RightClick));
}

#[test]
fn command_round_trips_every_corner_of_the_range() {
    let corners = [i32::MIN, i32::MIN + 1, -10, -1, 0, 1, 9, 10, 99, 100, i32::MAX - 1, i32::MAX];
    for x in corners {
        for y in corners {
            assert_eq!(
                command(&format!("move {},{}", x, y)),
                Ok(Command::Move(Vector2 { x, y }))
            );
            assert_eq!(
                command(&format!("scroll {},{}", x, y)),
                Ok(Command::Scroll(Vector2 { x, y }))
            );
        }
    }
}

#[test]
fn command_rejects_the_empty_text() {
    assert_eq!(command(""), rejected(0, ParseErrorKind::UnknownVerb));
}

#[test]
fn command_rejects_unknown_verbs() {
    assert_eq!(command("banana"), rejected(0, ParseErrorKind::UnknownVerb));
    assert_eq!(command("click"), rejected(0, ParseErrorKind::UnknownVerb));
    assert_eq!(command("Move 1,2"), rejected(0, ParseErrorKind::UnknownVerb));
    assert_eq!(command(" move 1,2"), rejected(0, ParseErrorKind::UnknownVerb));
    assert_eq!(command("mov"), rejected(0, ParseErrorKind::UnknownVerb));
    assert_eq!(command("scrol 1,2"), rejected(0, ParseErrorKind::UnknownVerb));
}

#[test]
fn command_rejects_a_space_after_the_comma() {
    assert_eq!(command("move 1, 2"), rejected(7, ParseErrorKind::MalformedInteger));
}

#[test]
fn command_rejects_a_space_before_the_comma() {
    assert_eq!(command("move 1 ,2"), rejected(6, ParseErrorKind::MissingSeparator));
}

#[test]
fn command_rejects_a_missing_operand() {
    assert_eq!(command("move 1,"), rejected(7, ParseErrorKind::MalformedInteger));
    assert_eq!(command("move ,1"), rejected(5, ParseErrorKind::MalformedInteger));
    assert_eq!(command("move 1"), rejected(6, ParseErrorKind::MissingSeparator));
    assert_eq!(command("move "), rejected(5, ParseErrorKind::MalformedInteger));
    assert_eq!(command("scroll -,1"), rejected(7, ParseErrorKind::MalformedInteger));
}

#[test]
fn command_rejects_trailing_input() {
    assert_eq!(command("move 1,2 extra"), rejected(8, ParseErrorKind::TrailingInput));
    assert_eq!(command("move 1,2 "), rejected(8, ParseErrorKind::TrailingInput));
    assert_eq!(command("lclick "), rejected(6, ParseErrorKind::TrailingInput));
    assert_eq!(command("rclickrclick"), rejected(6, ParseErrorKind::TrailingInput));
    assert_eq!(command("lclick\n"), rejected(6, ParseErrorKind::TrailingInput));
    assert_eq!(command("lclick\u{e9}"), rejected(6, ParseErrorKind::TrailingInput));
}

#[test]
fn command_rejects_integers_beyond_32_bits() {
    assert_eq!(command("move 9999999999,0"), rejected(5, ParseErrorKind::MalformedInteger));
    assert_eq!(command("move 2147483648,0"), rejected(5, ParseErrorKind::MalformedInteger));
    assert_eq!(command("move 0,-2147483649"), rejected(7, ParseErrorKind::MalformedInteger));
    assert_eq!(
        command("scroll 0,340282366920938463463374607431768211456"),
        rejected(9, ParseErrorKind::MalformedInteger)
    );
    assert_eq!(
        command("move 2147483647,-2147483648"),
        Ok(Command::Move(Vector2 { x: 2147483647, y: -2147483648 }))
    );
}

#[test]
fn command_wants_a_blank_after_the_verb() {
    assert_eq!(command("move1,2"), rejected(4, ParseErrorKind::MissingSeparator));
    assert_eq!(command("movement"), rejected(4, ParseErrorKind::MissingSeparator));
    assert_eq!(command("move"), rejected(4, ParseErrorKind::MissingSeparator));
    assert_eq!(command("scroll"), rejected(6, ParseErrorKind::MissingSeparator));
    assert_eq!(command("scroll\n1,2"), rejected(6, ParseErrorKind::MissingSeparator));
}

#[test]
fn command_takes_spaces_and_tabs_after_the_verb() {
    assert_eq!(command("move\t3,4"), Ok(Command::Move(Vector2 { x: 3, y: 4 })));
    assert_eq!(command("move  \t 3,4"), Ok(Command::Move(Vector2 { x: 3, y: 4 })));
    assert_eq!(command("scroll \t-3,4"), Ok(Command::Scroll(Vector2 { x: -3, y: 4 })));
}

#[test]
fn command_takes_leading_zeros_but_no_plus_sign() {
    assert_eq!(command("move 007,-0"), Ok(Command::Move(Vector2 { x: 7, y: 0 })));
    assert_eq!(
        command("move 00000000002147483647,1"),
        Ok(Command::Move(Vector2 { x: 2147483647, y: 1 }))
    );
    assert_eq!(command("move +1,2"), rejected(5, ParseErrorKind::MalformedInteger));
    assert_eq!(command("move --1,2"), rejected(5, ParseErrorKind::MalformedInteger));
}

#[test]
fn prefix_readers_hand_back_the_rest() {
    assert_eq!(
        move_mouse("move 1,2 extra"),
        Ok((" extra", Command::Move(Vector2 { x: 1, y: 2 })))
    );
    assert_eq!(
        scroll("scroll 5,-6\u{e9}t\u{e9}"),
        Ok(("\u{e9}t\u{e9}", Command::Scroll(Vector2 { x: 5, y: -6 })))
    );
    assert_eq!(left_click("lclick!"), Ok(("!", Command::LeftClick)));
    assert_eq!(right_click("rclick"), Ok(("", Command::RightClick)));
    assert_eq!(integer("-12,5"), Ok((",5", -12)));
    assert_eq!(integer("12a"), Ok(("a", 12)));
}

#[test]
fn prefix_readers_reject_other_verbs() {
    let unknown = ParseError { position: 0, kind: ParseErrorKind::UnknownVerb };
    assert_eq!(move_mouse("scroll 1,2"), Err(unknown));
    assert_eq!(scroll("move 1,2"), Err(unknown));
    assert_eq!(left_click("rclick"), Err(unknown));
    assert_eq!(right_click("lclick"), Err(unknown));
    assert_eq!(
        integer("x"),
        Err(ParseError { position: 0, kind: ParseErrorKind::MalformedInteger })
    );
    assert_eq!(
        integer("2147483648"),
        Err(ParseError { position: 0, kind: ParseErrorKind::MalformedInteger })
    );
    assert_eq!(
        integer(""),
        Err(ParseError { position: 0, kind: ParseErrorKind::MalformedInteger })
    );
}

#[test]
fn execute_maps_each_command_to_its_backend_call() {
    let v = Vector2 { x: 2, y: -7 };
    assert_eq!(Command::Move(v).execute(), BackendCall::MovePointer(v));
    assert_eq!(Command::Scroll(v).execute(), BackendCall::Scroll(v));
    assert_eq!(Command::LeftClick.execute(), BackendCall::ClickLeft);
    assert_eq!(Command::RightClick.execute(), BackendCall::ClickRight);
}
