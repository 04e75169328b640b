//! The shared result type of every parser, and the few lexical steps that
//! the grammar takes from `nom`.
use vstd::prelude::*;

verus! {

/// Why a parser gave up.
#[derive(Debug, Clone, Copy, PartialEq, Eq, Structural)]
pub enum ErrorKind {
    /// The next character is not the file letter or rank digit expected there,
    /// or the input ended before it.
    TokenMismatch,
    /// The delimiter text that separates two squares is not next in the input.
    LiteralMismatch,
}

/// A failed parse: the input as it stood where the failing step began, and
/// why that step failed.
#[derive(Debug, Clone, Copy, PartialEq, Eq)]
pub struct ParseError<'a> {
    pub input: &'a str,
    pub kind: ErrorKind,
}

/// The remaining input and the parsed value, or the error.
pub type ParseResult<'a, T> = Result<(&'a str, T), ParseError<'a>>;

/// The mathematical form of a parse result: the remaining characters and the
/// value, or the characters at the point of failure and the error kind.
pub type Outcome<T> = Result<(Seq<char>, T), (Seq<char>, ErrorKind)>;

/// What a parse result says, with strings seen as character sequences.
pub open spec fn outcome<'a, T>(r: ParseResult<'a, T>) -> Outcome<T> {
    match r {
        Ok((rest, v)) => Ok((rest@, v)),
        Err(e) => Err((e.input@, e.kind)),
    }
}

/// The character that may stand in front of a square: a plain space, and
/// no other whitespace.
pub open spec fn is_space(c: char) -> bool {
    c == ' '
}

/// `s` without its leading run of spaces.
pub open spec fn skip_spaces(s: Seq<char>) -> Seq<char>
    decreases s.len(),
{
    if s.len() > 0 && is_space(s[0]) {
        skip_spaces(s.drop_first())
    } else {
        s
    }
}

/// `s` is the leading spaces that `skip_spaces` drops, followed by what it keeps;
/// what it keeps does not start with a space.
pub proof fn lemma_skip_spaces_split(s: Seq<char>)
    ensures
        skip_spaces(s).len() <= s.len(),
        s == s.take(s.len() - skip_spaces(s).len()) + skip_spaces(s),
        forall|i: int| 0 <= i < s.len() - skip_spaces(s).len() ==> is_space(#[trigger] s[i]),
        skip_spaces(s).len() == 0 || !is_space(skip_spaces(s)[0]),
    decreases s.len(),
{
    if s.len() > 0 && is_space(s[0]) {
        let t = s.drop_first();
        lemma_skip_spaces_split(t);
        let k = s.len() - skip_spaces(s).len();
        assert(s == s.take(k) + skip_spaces(s)) by {
            assert(t == t.take(k - 1) + skip_spaces(t));
            assert(s.take(k) =~= seq![s[0]] + t.take(k - 1));
            assert(s =~= seq![s[0]] + t);
        }
        assert forall|i: int| 0 <= i < k implies is_space(#[trigger] s[i]) by {
            if i > 0 {
                assert(s[i] == t[i - 1]);
            }
        }
    } else {
        assert(s.take(0) + s =~= s);
    }
}

/// Spaces in front of text that does not start with a space are all skipped.
pub proof fn lemma_skip_spaces_prefix(b: Seq<char>, y: Seq<char>)
    requires
        forall|i: int| 0 <= i < b.len() ==> is_space(#[trigger] b[i]),
        y.len() == 0 || !is_space(y[0]),
    ensures
        skip_spaces(b + y) == y,
    decreases b.len(),
{
    if b.len() == 0 {
        assert(b + y =~= y);
    } else {
        assert((b + y)[0] == b[0]);
        assert((b + y).drop_first() =~= b.drop_first() + y);
        lemma_skip_spaces_prefix(b.drop_first(), y);
    }
}

/// Drops the leading spaces of `source`.
pub(crate) fn skip_space_run<'a>(source: &'a str) -> (rest: &'a str)
    ensures
        rest@ == skip_spaces(source@),
{
    let mut rest = source;
    loop
        invariant
            skip_spaces(rest@) == skip_spaces(source@),
        decreases rest@.len(),
    {
        match first_char(rest) {
            Some((after, c)) => {
                if c == ' ' {
                    rest = after;
                } else {
                    return rest;
                }
            },
            None => return rest,
        }
    }
}

/// Relies on `nom::character::complete::anychar`: it takes the first
/// character of a `&str`, and fails only on empty input.
#[verifier::external_body]
pub(crate) fn first_char<'a>(source: &'a str) -> (r: Option<(&'a str, char)>)
    ensures
        match r {
            Some((rest, c)) => source@.len() > 0 && c == source@[0] && rest@
                == source@.drop_first(),
            None => source@.len() == 0,
        },
{
    match nom::character::complete::anychar::<&'a str, nom::error::Error<&'a str>>(source) {
        Ok((rest, c)) => Some((rest, c)),
        Err(_) => None,
    }
}

/// Relies on `nom::bytes::complete::tag`: it succeeds exactly when `literal`
/// starts the input, and then returns what follows it.
#[verifier::external_body]
pub(crate) fn strip_literal<'a>(source: &'a str, literal: &str) -> (r: Option<&'a str>)
    ensures
        match r {
            Some(rest) => source@ == literal@ + rest@,
            None => !literal@.is_prefix_of(source@),
        },
{
    match nom::bytes::complete::tag::<&str, &'a str, nom::error::Error<&'a str>>(literal)(source) {
        Ok((rest, _matched)) => Some(rest),
        Err(_) => None,
    }
}

/// Whether `parser` reads its input from the front, independently of what
/// follows: if it succeeds on `s`, what it left over is a suffix of `s`, and
/// the prefix that it consumed, put in front of any other text `t`, reads as
/// the same value and leaves exactly `t` over.
pub open spec fn composable<T>(
    parser: spec_fn(Seq<char>) -> Outcome<T>,
    s: Seq<char>,
    t: Seq<char>,
) -> bool {
    parser(s) matches Ok((rest, v)) ==> {
        &&& rest.len() <= s.len()
        &&& s == s.take(s.len() - rest.len()) + rest
        &&& parser(s.take(s.len() - rest.len()) + t) == Outcome::<T>::Ok((t, v))
    }
}

} // verus!
