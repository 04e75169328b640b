use chess_notation::{
    position_parser, ErrorKind, HorizontalPosition, Move, ParseError, Position, VerticalPosition,
};

fn square(horizontal: HorizontalPosition, vertical: VerticalPosition) -> Position {
    Position { vertical, horizontal }
}

fn e3_d4() -> Move {
    Move {
        departure: square(HorizontalPosition::E, VerticalPosition::Three),
        destination: square(HorizontalPosition::D, VerticalPosition::Four),
    }
}

fn mismatch(input: &str) -> ParseError<'_> {
    ParseError { input, kind: ErrorKind::TokenMismatch }
}

#[test]
fn function_parser() {
    assert_eq!(HorizontalPosition::parse("a7"), Ok(("7", HorizontalPosition::A)));
    assert_eq!(HorizontalPosition::parse("A7"), Ok(("7", HorizontalPosition::A)));
    assert_eq!(HorizontalPosition::parse("c"), Ok(("", HorizontalPosition::C)));
    assert!(matches!(HorizontalPosition::parse("9"), Err(_)));
}

#[test]
fn dirty_parser() {
    assert_eq!(HorizontalPosition::dirty_pants_parser("a7"), Ok(("7", HorizontalPosition::A)));
    assert_eq!(HorizontalPosition::dirty_pants_parser("A7"), Ok(("7", HorizontalPosition::A)));
    assert_eq!(HorizontalPosition::dirty_pants_parser("c"), Ok(("", HorizontalPosition::C)));
    assert!(matches!(HorizontalPosition::dirty_pants_parser("9"), Err(_)));
}

#[test]
fn dirty_parser_skips_spaces_and_reports_positions() {
    assert_eq!(HorizontalPosition::dirty_pants_parser("   g1"), Ok(("1", HorizontalPosition::G)));
    assert_eq!(HorizontalPosition::dirty_pants_parser(" \tg1"), Err(mismatch(" \tg1")));
    assert_eq!(HorizontalPosition::dirty_pants_parser("  z"), Err(mismatch("  z")));
    assert_eq!(HorizontalPosition::dirty_pants_parser("  "), Err(mismatch("")));
}

#[test]
fn vertical_function_parser() {
    assert_eq!(VerticalPosition::parse("4;;"), Ok((";;", VerticalPosition::Four)));
    assert_eq!(VerticalPosition::parse("43;"), Ok(("3;", VerticalPosition::Four)));
    assert!(matches!(VerticalPosition::parse(""), Err(_)));
}

#[test]
fn every_file_letter_in_both_cases() {
    let files = [
        ('a', HorizontalPosition::A),
        ('b', HorizontalPosition::B),
        ('c', HorizontalPosition::C),
        ('d', HorizontalPosition::D),
        ('e', HorizontalPosition::E),
        ('f', HorizontalPosition::F),
        ('g', HorizontalPosition::G),
        ('h', HorizontalPosition::H),
    ];
    for (letter, file) in files {
        for c in [letter, letter.to_ascii_uppercase()] {
            let text = format!("{}x4", c);
            assert_eq!(HorizontalPosition::parse(&text), Ok(("x4", file)));
            assert_eq!(HorizontalPosition::try_from_char(c), Some(file));
        }
    }
}

#[test]
fn other_leading_characters_are_not_files() {
    for text in ["", "i", "I", "z", "1", " a", "-", "é"] {
        assert_eq!(HorizontalPosition::parse(text), Err(mismatch(text)));
    }
}

#[test]
fn try_from_char_agrees_with_parse() {
    for code in 0u32..256 {
        if let Some(c) = char::from_u32(code) {
            let text = c.to_string();
            let parsed = HorizontalPosition::parse(&text).ok().map(|(_, file)| file);
            assert_eq!(HorizontalPosition::try_from_char(c), parsed);
        }
    }
}

#[test]
fn every_rank_digit() {
    let ranks = [
        VerticalPosition::One,
        VerticalPosition::Two,
        VerticalPosition::Three,
        VerticalPosition::Four,
        VerticalPosition::Five,
        VerticalPosition::Six,
        VerticalPosition::Seven,
        VerticalPosition::Eight,
    ];
    for (i, rank) in ranks.into_iter().enumerate() {
        let text = format!("{}7", i + 1);
        assert_eq!(VerticalPosition::parse(&text), Ok(("7", rank)));
    }
}

#[test]
fn digits_outside_the_board_are_not_ranks() {
    for text in ["0", "9", "x", " 1", "", "-1"] {
        assert_eq!(VerticalPosition::parse(text), Err(mismatch(text)));
    }
}

#[test]
fn basic() {
    assert_eq!(
        position_parser("a5 : f8"),
        Ok((" : f8", square(HorizontalPosition::A, VerticalPosition::Five)))
    );
    assert_eq!(
        position_parser("  a5"),
        Ok(("", square(HorizontalPosition::A, VerticalPosition::Five)))
    );
    assert!(matches!(position_parser("5a"), Err(_)));
}

#[test]
fn square_after_one_space() {
    assert_eq!(
        position_parser(" a5"),
        Ok(("", square(HorizontalPosition::A, VerticalPosition::Five)))
    );
    assert_eq!(
        position_parser("   h8"),
        Ok(("", square(HorizontalPosition::H, VerticalPosition::Eight)))
    );
}

#[test]
fn tabs_are_not_skipped() {
    assert_eq!(position_parser("\th8"), Err(mismatch("\th8")));
    assert_eq!(position_parser(" \ta5"), Err(mismatch("\ta5")));
    assert_eq!(Move::full_move_parse("\te3-d4", "-"), Err(mismatch("\te3-d4")));
    assert_eq!(
        Move::short_notation_parse("\ted4", VerticalPosition::Three),
        Err(mismatch("\ted4"))
    );
    assert_eq!(Move::short_notation_parse("\t4", VerticalPosition::Three), Err(mismatch("\t4")));
}

#[test]
fn square_failures_are_those_of_the_failing_token() {
    assert_eq!(position_parser("5a"), Err(mismatch("5a")));
    assert_eq!(position_parser("  5a"), Err(mismatch("5a")));
    assert_eq!(position_parser(" a9"), Err(mismatch("9")));
    assert_eq!(position_parser("\na1"), Err(mismatch("\na1")));
    assert_eq!(position_parser(""), Err(mismatch("")));
}

#[test]
fn full_notation() {
    assert_eq!(Move::full_move_parse(" e3-d4", "-"), Ok(("", e3_d4())));
    assert_eq!(Move::full_move_parse("e3 d4 ", " "), Ok((" ", e3_d4())));
}

#[test]
fn full_notation_with_longer_delimiter() {
    assert_eq!(Move::full_move_parse("E3 to D4!", " to"), Ok(("!", e3_d4())));
    assert_eq!(Move::full_move_parse("e3d4", ""), Ok(("", e3_d4())));
}

#[test]
fn full_notation_failures() {
    assert_eq!(
        Move::full_move_parse("e3+d4", "-"),
        Err(ParseError { input: "+d4", kind: ErrorKind::LiteralMismatch })
    );
    assert_eq!(
        Move::full_move_parse("e3 TO d4", " to"),
        Err(ParseError { input: " TO d4", kind: ErrorKind::LiteralMismatch })
    );
    assert_eq!(Move::full_move_parse("x3-d4", "-"), Err(mismatch("x3-d4")));
    assert_eq!(Move::full_move_parse("e3-d0", "-"), Err(mismatch("0")));
    assert_eq!(Move::full_move_parse("e3-", "-"), Err(mismatch("")));
}

#[test]
fn short_notation() {
    assert_eq!(Move::short_notation_parse("ed4", VerticalPosition::Three), Ok(("", e3_d4())));
}

#[test]
fn short_notation_keeps_token_order() {
    let expected = Move {
        departure: square(HorizontalPosition::B, VerticalPosition::Seven),
        destination: square(HorizontalPosition::C, VerticalPosition::Eight),
    };
    assert_eq!(
        Move::short_notation_parse("  bc8+", VerticalPosition::Seven),
        Ok(("+", expected))
    );
}

#[test]
fn short_notation_failures() {
    assert_eq!(Move::short_notation_parse(" 4d4", VerticalPosition::Two), Err(mismatch("4d4")));
    assert_eq!(Move::short_notation_parse("e4", VerticalPosition::Two), Err(mismatch("4")));
    assert_eq!(Move::short_notation_parse("edd", VerticalPosition::Two), Err(mismatch("d")));
    assert_eq!(Move::short_notation_parse("", VerticalPosition::Two), Err(mismatch("")));
}

#[test]
fn consumed_prefix_reads_the_same_before_other_text() {
    let (rest, first) = Move::full_move_parse(" e3-d4 g1-f3", "-").unwrap();
    assert_eq!(rest, " g1-f3");
    assert_eq!(Move::full_move_parse(" e3-d4;", "-"), Ok((";", first)));
    let (rest, second) = Move::full_move_parse(rest, "-").unwrap();
    assert_eq!(rest, "");
    assert_eq!(second.departure, square(HorizontalPosition::G, VerticalPosition::One));
    assert_eq!(second.destination, square(HorizontalPosition::F, VerticalPosition::Three));

    let (rest, position) = position_parser("  c6c7").unwrap();
    assert_eq!(rest, "c7");
    assert_eq!(position_parser("  c6"), Ok(("", position)));
    assert_eq!(position_parser(rest), Ok(("", square(HorizontalPosition::C, VerticalPosition::Seven))));

    let (rest, short) = Move::short_notation_parse("ab1ab2", VerticalPosition::Five).unwrap();
    assert_eq!(rest, "ab2");
    assert_eq!(Move::short_notation_parse("ab1", VerticalPosition::Five), Ok(("", short)));
}
