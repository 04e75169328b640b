//! Parsing of chess board coordinates and coordinate-pair moves.
//!
//! A square is written as a file letter (`a`-`h`, either case) followed by a
//! rank digit (`1`-`8`). A move is two squares, either separated by a
//! caller-chosen delimiter or in a compact form whose departure rank is given
//! by the caller.

mod scan;
pub use scan::{
    composable, is_space, lemma_skip_spaces_prefix, lemma_skip_spaces_split, outcome, skip_spaces,
    ErrorKind, Outcome, ParseError, ParseResult,
};

mod horizontal;
pub use horizontal::{
    file_of, file_token, lemma_file_token_composable, loose_file_token, HorizontalPosition,
};

mod vertical;
pub use vertical::{lemma_rank_token_composable, rank_of, rank_token, VerticalPosition};

mod position;
pub use position::{lemma_square_composable, position_parser, square, Position};

mod chess_move;
pub use chess_move::{
    full_move, lemma_full_move_composable, lemma_short_move_composable, literal_token, short_move,
    Move,
};
