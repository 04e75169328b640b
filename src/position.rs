//! A square of the board: a file letter followed by a rank digit.
use crate::horizontal::{file_token, HorizontalPosition};
use crate::scan::{
    composable, lemma_skip_spaces_prefix, lemma_skip_spaces_split, outcome, skip_space_run,
    skip_spaces, Outcome, ParseResult,
};
use crate::vertical::{rank_token, VerticalPosition};
use vstd::prelude::*;

verus! {

/// One cell of the board.
#[derive(Debug, Clone, Copy, PartialEq, Eq, Structural)]
pub struct Position {
    pub vertical: VerticalPosition,
    pub horizontal: HorizontalPosition,
}

/// A square after any leading spaces: its file, then its rank. A failure is
/// that of the first of the two that fails, where it began.
pub open spec fn square(s: Seq<char>) -> Outcome<Position> {
    match file_token(skip_spaces(s)) {
        Err(e) => Err(e),
        Ok((after_file, horizontal)) => match rank_token(after_file) {
            Err(e) => Err(e),
            Ok((rest, vertical)) => Ok((rest, Position { vertical, horizontal })),
        },
    }
}

/// Reads a square, skipping the spaces in front of it.
pub fn position_parser(source: &str) -> (r: ParseResult<'_, Position>)
    ensures
        outcome(r) == square(source@),
{
    let rest = skip_space_run(source);
    let (rest, horizontal) = match HorizontalPosition::parse(rest) {
        Ok(parsed) => parsed,
        Err(e) => return Err(e),
    };
    let (rest, vertical) = match VerticalPosition::parse(rest) {
        Ok(parsed) => parsed,
        Err(e) => return Err(e),
    };
    Ok((rest, Position { vertical, horizontal }))
}

/// A square read from the front of some text (its spaces, letter and digit)
/// is read the same from those characters in front of any other text, which
/// is left over untouched.
pub proof fn lemma_square_composable(s: Seq<char>, t: Seq<char>)
    ensures
        composable(|x: Seq<char>| square(x), s, t),
{
    if square(s) is Ok {
        lemma_skip_spaces_split(s);
        let x = skip_spaces(s);
        let b = s.take(s.len() - x.len());
        let rest = x.skip(2);
        let c = s.take(s.len() - rest.len());
        assert(x.drop_first().drop_first() =~= rest);
        assert(c =~= b + x.take(2));
        assert(s =~= c + rest);
        let y = x.take(2) + t;
        assert(c + t =~= b + y);
        assert(y[0] == x[0]);
        lemma_skip_spaces_prefix(b, y);
        assert(y.drop_first()[0] == x[1]);
        assert(y.drop_first().drop_first() =~= t);
    }
}

} // verus!
