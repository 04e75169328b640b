//! A move: a departure square and a destination square.
use crate::horizontal::{file_token, HorizontalPosition};
use crate::position::{lemma_square_composable, position_parser, square, Position};
use crate::scan::{
    composable, lemma_skip_spaces_prefix, lemma_skip_spaces_split, outcome, skip_space_run,
    skip_spaces, strip_literal, ErrorKind, Outcome, ParseError,
    ParseResult,
};
use crate::vertical::{rank_token, VerticalPosition};
use vstd::prelude::*;

verus! {

/// A move from one square to another. Nothing requires the two to differ.
#[derive(Debug, Clone, Copy, PartialEq, Eq, Structural)]
pub struct Move {
    pub departure: Position,
    pub destination: Position,
}

/// The text `literal` verbatim at the start of `s`, or a mismatch where `s` starts.
pub open spec fn literal_token(s: Seq<char>, literal: Seq<char>) -> Outcome<()> {
    if literal.is_prefix_of(s) {
        Ok((s.skip(literal.len() as int), ()))
    } else {
        Err((s, ErrorKind::LiteralMismatch))
    }
}

/// Full notation: a square, the delimiter, a square. A failure is that of the
/// first step that fails, where it began.
pub open spec fn full_move(s: Seq<char>, delimiter: Seq<char>) -> Outcome<Move> {
    match square(s) {
        Err(e) => Err(e),
        Ok((after_departure, departure)) => match literal_token(after_departure, delimiter) {
            Err(e) => Err(e),
            Ok((before_destination, _)) => match square(before_destination) {
                Err(e) => Err(e),
                Ok((rest, destination)) => Ok((rest, Move { departure, destination })),
            },
        },
    }
}

/// Short notation: after any spaces, the departure file, the destination file
/// and the destination rank; the departure rank is `departure`. A failure is
/// that of the first of the three that fails, where it began.
pub open spec fn short_move(s: Seq<char>, departure: VerticalPosition) -> Outcome<Move> {
    match file_token(skip_spaces(s)) {
        Err(e) => Err(e),
        Ok((s1, departure_horizontal)) => match file_token(s1) {
            Err(e) => Err(e),
            Ok((s2, destination_horizontal)) => match rank_token(s2) {
                Err(e) => Err(e),
                Ok((rest, destination_vertical)) => Ok(
                    (
                        rest,
                        Move {
                            departure: Position {
                                vertical: departure,
                                horizontal: departure_horizontal,
                            },
                            destination: Position {
                                vertical: destination_vertical,
                                horizontal: destination_horizontal,
                            },
                        },
                    ),
                ),
            },
        },
    }
}

impl Move {
    /// Reads two squares separated by `delimiter`, which must match exactly.
    pub fn full_move_parse<'a>(source: &'a str, delimiter: &str) -> (r: ParseResult<'a, Self>)
        ensures
            outcome(r) == full_move(source@, delimiter@),
    {
        let (rest, departure) = match position_parser(source) {
            Ok(parsed) => parsed,
            Err(e) => return Err(e),
        };
        let rest = match strip_literal(rest, delimiter) {
            Some(after) => {
                assert(after@ =~= rest@.skip(delimiter@.len() as int));
                after
            },
            None => return Err(ParseError { input: rest, kind: ErrorKind::LiteralMismatch }),
        };
        let (rest, destination) = match position_parser(rest) {
            Ok(parsed) => parsed,
            Err(e) => return Err(e),
        };
        Ok((rest, Move { departure, destination }))
    }

    /// Reads the short notation, whose departure rank is `departure`.
    pub fn short_notation_parse(source: &str, departure: VerticalPosition) -> (r: ParseResult<
        '_,
        Self,
    >)
        ensures
            outcome(r) == short_move(source@, departure),
    {
        let rest = skip_space_run(source);
        let (rest, departure_horizontal) = match HorizontalPosition::parse(rest) {
            Ok(parsed) => parsed,
            Err(e) => return Err(e),
        };
        let (rest, destination_horizontal) = match HorizontalPosition::parse(rest) {
            Ok(parsed) => parsed,
            Err(e) => return Err(e),
        };
        let (rest, destination_vertical) = match VerticalPosition::parse(rest) {
            Ok(parsed) => parsed,
            Err(e) => return Err(e),
        };
        Ok(
            (
                rest,
                Move {
                    departure: Position { vertical: departure, horizontal: departure_horizontal },
                    destination: Position {
                        vertical: destination_vertical,
                        horizontal: destination_horizontal,
                    },
                },
            ),
        )
    }
}

/// A move in full notation read from the front of some text is read the same
/// from the characters it consumed in front of any other text, which is left
/// over untouched.
pub proof fn lemma_full_move_composable(s: Seq<char>, delimiter: Seq<char>, t: Seq<char>)
    ensures
        composable(|x: Seq<char>| full_move(x, delimiter), s, t),
{
    if full_move(s, delimiter) is Ok {
        let r1 = square(s)->Ok_0.0;
        let r2 = r1.skip(delimiter.len() as int);
        let rest = square(r2)->Ok_0.0;
        let c1 = s.take(s.len() - r1.len());
        let c2 = r2.take(r2.len() - rest.len());
        let c = s.take(s.len() - rest.len());
        lemma_square_composable(s, delimiter + (c2 + t));
        lemma_square_composable(r2, t);
        assert(r1 =~= delimiter + r2);
        assert(c =~= c1 + delimiter + c2);
        assert(s =~= c + rest);
        assert(c + t =~= c1 + (delimiter + (c2 + t)));
        assert(delimiter.is_prefix_of(delimiter + (c2 + t)));
        assert((delimiter + (c2 + t)).skip(delimiter.len() as int) =~= c2 + t);
    }
}

/// A move in short notation read from the front of some text is read the same
/// from the characters it consumed in front of any other text, which is left
/// over untouched.
pub proof fn lemma_short_move_composable(s: Seq<char>, departure: VerticalPosition, t: Seq<char>)
    ensures
        composable(|x: Seq<char>| short_move(x, departure), s, t),
{
    if short_move(s, departure) is Ok {
        lemma_skip_spaces_split(s);
        let x = skip_spaces(s);
        let b = s.take(s.len() - x.len());
        let rest = x.skip(3);
        let c = s.take(s.len() - rest.len());
        assert(x.drop_first().drop_first().drop_first() =~= rest);
        assert(c =~= b + x.take(3));
        assert(s =~= c + rest);
        let y = x.take(3) + t;
        assert(c + t =~= b + y);
        assert(y[0] == x[0]);
        lemma_skip_spaces_prefix(b, y);
        assert(y.drop_first()[0] == x[1]);
        assert(y.drop_first().drop_first()[0] == x[2]);
        assert(y.drop_first().drop_first().drop_first() =~= t);
    }
}

} // verus!
