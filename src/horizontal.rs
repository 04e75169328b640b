//! The file of a square: the board column, lettered `a` to `h`.
use crate::scan::{
    composable, first_char, skip_space_run, skip_spaces, ErrorKind, Outcome, ParseError,
    ParseResult, outcome,
};
use vstd::prelude::*;

verus! {

/// A board column.
#[derive(Debug, Clone, Copy, PartialEq, Eq, Structural)]
pub enum HorizontalPosition {
    A,
    B,
    C,
    D,
    E,
    F,
    G,
    H,
}

/// The file that a character names: its letter in either case.
pub open spec fn file_of(c: char) -> Option<HorizontalPosition> {
    if c == 'a' || c == 'A' {
        Some(HorizontalPosition::A)
    } else if c == 'b' || c == 'B' {
        Some(HorizontalPosition::B)
    } else if c == 'c' || c == 'C' {
        Some(HorizontalPosition::C)
    } else if c == 'd' || c == 'D' {
        Some(HorizontalPosition::D)
    } else if c == 'e' || c == 'E' {
        Some(HorizontalPosition::E)
    } else if c == 'f' || c == 'F' {
        Some(HorizontalPosition::F)
    } else if c == 'g' || c == 'G' {
        Some(HorizontalPosition::G)
    } else if c == 'h' || c == 'H' {
        Some(HorizontalPosition::H)
    } else {
        None
    }
}

/// A file letter at the very start of `s`: it is consumed alone. Anything
/// else, or no character at all, is a mismatch where `s` starts.
pub open spec fn file_token(s: Seq<char>) -> Outcome<HorizontalPosition> {
    if s.len() > 0 && file_of(s[0]) is Some {
        Ok((s.drop_first(), file_of(s[0])->0))
    } else {
        Err((s, ErrorKind::TokenMismatch))
    }
}

/// A file letter after any spaces. Input that ends within the spaces fails
/// where they end; any other character fails where `s` starts.
pub open spec fn loose_file_token(s: Seq<char>) -> Outcome<HorizontalPosition> {
    let t = skip_spaces(s);
    if t.len() == 0 {
        Err((t, ErrorKind::TokenMismatch))
    } else if file_of(t[0]) is Some {
        Ok((t.drop_first(), file_of(t[0])->0))
    } else {
        Err((s, ErrorKind::TokenMismatch))
    }
}

impl HorizontalPosition {
    /// The file that `source` names, if it is one of `a`-`h` or `A`-`H`.
    pub fn try_from_char(source: char) -> (r: Option<Self>)
        ensures
            r == file_of(source),
    {
        let result = match source {
            'a' | 'A' => HorizontalPosition::A,
            'b' | 'B' => HorizontalPosition::B,
            'c' | 'C' => HorizontalPosition::C,
            'd' | 'D' => HorizontalPosition::D,
            'e' | 'E' => HorizontalPosition::E,
            'f' | 'F' => HorizontalPosition::F,
            'g' | 'G' => HorizontalPosition::G,
            'h' | 'H' => HorizontalPosition::H,
            _ => return None,
        };
        Some(result)
    }

    /// Reads a file letter after any leading spaces, taking the next
    /// character whatever it is and then checking that it names a file.
    pub fn dirty_pants_parser(source: &str) -> (r: ParseResult<'_, Self>)
        ensures
            outcome(r) == loose_file_token(source@),
    {
        let rest = skip_space_run(source);
        match first_char(rest) {
            None => Err(ParseError { input: rest, kind: ErrorKind::TokenMismatch }),
            Some((after, raw)) => match Self::try_from_char(raw) {
                Some(result) => Ok((after, result)),
                None => Err(ParseError { input: source, kind: ErrorKind::TokenMismatch }),
            },
        }
    }

    /// Reads one file letter at the start of `source`.
    pub fn parse(source: &str) -> (r: ParseResult<'_, Self>)
        ensures
            outcome(r) == file_token(source@),
    {
        match first_char(source) {
            Some((rest, raw)) => match Self::try_from_char(raw) {
                Some(result) => Ok((rest, result)),
                None => Err(ParseError { input: source, kind: ErrorKind::TokenMismatch }),
            },
            None => Err(ParseError { input: source, kind: ErrorKind::TokenMismatch }),
        }
    }
}

/// A file letter read from the front of some text is read the same from its
/// one character in front of any other text, which is left over untouched.
pub proof fn lemma_file_token_composable(s: Seq<char>, t: Seq<char>)
    ensures
        composable(|x: Seq<char>| file_token(x), s, t),
{
    if file_token(s) is Ok {
        let c = s.take(1);
        assert(s =~= c + s.drop_first());
        assert((c + t)[0] == s[0]);
        assert((c + t).drop_first() =~= t);
    }
}

} // verus!
