//! The rank of a square: the board row, numbered `1` to `8`.
use crate::scan::{composable, first_char, outcome, ErrorKind, Outcome, ParseError, ParseResult};
use vstd::prelude::*;

verus! {

/// A board row.
#[derive(Debug, Clone, Copy, PartialEq, Eq, Structural)]
pub enum VerticalPosition {
    One,
    Two,
    Three,
    Four,
    Five,
    Six,
    Seven,
    Eight,
}

/// The rank that a character names: one of the digits `1`-`8`.
pub open spec fn rank_of(c: char) -> Option<VerticalPosition> {
    if c == '1' {
        Some(VerticalPosition::One)
    } else if c == '2' {
        Some(VerticalPosition::Two)
    } else if c == '3' {
        Some(VerticalPosition::Three)
    } else if c == '4' {
        Some(VerticalPosition::Four)
    } else if c == '5' {
        Some(VerticalPosition::Five)
    } else if c == '6' {
        Some(VerticalPosition::Six)
    } else if c == '7' {
        Some(VerticalPosition::Seven)
    } else if c == '8' {
        Some(VerticalPosition::Eight)
    } else {
        None
    }
}

/// A rank digit at the very start of `s`: it is consumed alone, whatever
/// follows it. Anything else, or no character at all, is a mismatch where
/// `s` starts.
pub open spec fn rank_token(s: Seq<char>) -> Outcome<VerticalPosition> {
    if s.len() > 0 && rank_of(s[0]) is Some {
        Ok((s.drop_first(), rank_of(s[0])->0))
    } else {
        Err((s, ErrorKind::TokenMismatch))
    }
}

impl VerticalPosition {
    fn from_digit(source: char) -> (r: Option<Self>)
        ensures
            r == rank_of(source),
    {
        match source {
            '1' => Some(VerticalPosition::One),
            '2' => Some(VerticalPosition::Two),
            '3' => Some(VerticalPosition::Three),
            '4' => Some(VerticalPosition::Four),
            '5' => Some(VerticalPosition::Five),
            '6' => Some(VerticalPosition::Six),
            '7' => Some(VerticalPosition::Seven),
            '8' => Some(VerticalPosition::Eight),
            _ => None,
        }
    }

    /// Reads one rank digit at the start of `source`.
    pub fn parse(source: &str) -> (r: ParseResult<'_, Self>)
        ensures
            outcome(r) == rank_token(source@),
    {
        match first_char(source) {
            Some((rest, raw)) => match Self::from_digit(raw) {
                Some(result) => Ok((rest, result)),
                None => Err(ParseError { input: source, kind: ErrorKind::TokenMismatch }),
            },
            None => Err(ParseError { input: source, kind: ErrorKind::TokenMismatch }),
        }
    }
}

/// A rank digit read from the front of some text is read the same from its
/// one character in front of any other text, which is left over untouched.
pub proof fn lemma_rank_token_composable(s: Seq<char>, t: Seq<char>)
    ensures
        composable(|x: Seq<char>| rank_token(x), s, t),
{
    if rank_token(s) is Ok {
        let c = s.take(1);
        assert(s =~= c + s.drop_first());
        assert((c + t)[0] == s[0]);
        assert((c + t).drop_first() =~= t);
    }
}

} // verus!
