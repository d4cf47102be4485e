use vstd::prelude::*;

use crate::color::Color;
use crate::direction::MoveOffset;
use crate::piece::{piece_letter, Piece};
use crate::text::push_char;

verus! {

/// Whether a file or rank index lies on the board.
pub open spec fn on_board(c: int) -> bool {
    0 <= c < 8
}

/// The colour of the cell at `(file, rank)`: odd coordinate sums are light.
pub open spec fn square_color(file: int, rank: int) -> Color {
    if (file + rank) % 2 == 1 {
        Color::White
    } else {
        Color::Black
    }
}

/// The square reached from `sq` by moving `df` files and `dr` ranks, if it
/// is on the board; the result carries no piece.
pub open spec fn translate(sq: Square, df: int, dr: int) -> Option<Square> {
    if on_board(sq.file + df) && on_board(sq.rank + dr) {
        Some(Square { file: (sq.file + df) as usize, rank: (sq.rank + dr) as usize, piece: None })
    } else {
        None
    }
}

/// The letter that names a file: `a` for file 0 up to `h` for file 7.
pub open spec fn file_char(file: int) -> char {
    (97 + file) as char
}

/// The digit that names a rank: `1` for rank 0 up to `8` for rank 7.
pub open spec fn rank_char(rank: int) -> char {
    (49 + rank) as char
}

/// Algebraic name of a square, such as `a1` for `(0, 0)`.
pub open spec fn notation(file: int, rank: int) -> Seq<char> {
    seq![file_char(file), rank_char(rank)]
}

/// The `(file, rank)` that an algebraic name denotes, if it is one.
pub open spec fn parse_notation(s: Seq<char>) -> Option<(int, int)> {
    if s.len() == 2 && 'a' <= s[0] <= 'h' && '1' <= s[1] <= '8' {
        Some((s[0] as int - 97, s[1] as int - 49))
    } else {
        None
    }
}

/// The glyph that shows a cell: its piece's letter, else `O` on a dark cell
/// and `X` on a light one.
pub open spec fn square_glyph(piece: Option<Piece>, file: int, rank: int) -> char {
    match piece {
        Some(p) => piece_letter(p),
        None => if square_color(file, rank) == Color::Black {
            'O'
        } else {
            'X'
        },
    }
}

/// Moves coordinate `c` by `d`, if the result stays on the board.
fn shift(c: usize, d: i8) -> (r: Option<usize>)
    ensures
        r == (if on_board(c + d) {
            Some((c + d) as usize)
        } else {
            None::<usize>
        }),
{
    if d >= 0 {
        let du = d as usize;
        if c < 8 && du < 8 - c {
            Some(c + du)
        } else {
            None
        }
    } else {
        let du = (-(d as i16)) as usize;
        if du <= c && c - du < 8 {
            Some(c - du)
        } else {
            None
        }
    }
}

/// A cell of the board: its coordinates and the piece on it, if any.
///
/// Two squares are equal when their coordinates are, whatever stands on them.
#[derive(Debug, Copy, Clone)]
pub struct Square {
    pub file: usize,
    pub rank: usize,
    pub piece: Option<Piece>,
}

impl PartialEq for Square {
    fn eq(&self, other: &Self) -> (r: bool)
        ensures
            r == (self.file == other.file && self.rank == other.rank),
    {
        self.file == other.file && self.rank == other.rank
    }
}

impl vstd::std_specs::cmp::PartialEqSpecImpl for Square {
    open spec fn obeys_eq_spec() -> bool {
        true
    }

    open spec fn eq_spec(&self, other: &Square) -> bool {
        self.file == other.file && self.rank == other.rank
    }
}

impl Square {
    /// Both coordinates lie on the board.
    pub open spec fn wf(&self) -> bool {
        self.file < 8 && self.rank < 8
    }

    pub fn new(file: usize, rank: usize, piece: Option<Piece>) -> (r: Self)
        ensures
            r == (Square { file, rank, piece }),
    {
        Square { piece, file, rank }
    }

    /// Reads an algebraic name such as `e4`; anything else gives `None`.
    pub fn from_str(square: String) -> (r: Option<Square>)
        ensures
            r == (match parse_notation(square@) {
                Some((f, k)) => Some(Square { file: f as usize, rank: k as usize, piece: None }),
                None => None::<Square>,
            }),
    {
        let s = square.as_str();
        if s.unicode_len() != 2 {
            return None;
        }
        let letter = s.get_char(0);
        let digit = s.get_char(1);
        if 'a' <= letter && letter <= 'h' && '1' <= digit && digit <= '8' {
            Some(Square {
                file: (letter as u32 - 97) as usize,
                rank: (digit as u32 - 49) as usize,
                piece: None,
            })
        } else {
            None
        }
    }

    /// The colour of this cell.
    pub fn get_color(&self) -> (r: Color)
        ensures
            r == square_color(self.file as int, self.rank as int),
    {
        if self.file % 2 != self.rank % 2 {
            Color::White
        } else {
            Color::Black
        }
    }

    /// The algebraic name of this square, such as `a1`.
    pub fn get_square_string(&self) -> (r: String)
        requires
            self.wf(),
        ensures
            r@ == notation(self.file as int, self.rank as int),
    {
        let mut s = String::new();
        push_char(&mut s, (97 + self.file as u8) as char);
        push_char(&mut s, (49 + self.rank as u8) as char);
        s
    }

    /// The square `offset` away from this one, or `None` where that leaves
    /// the board.
    pub fn move_to(&self, offset: MoveOffset) -> (r: Option<Self>)
        ensures
            r == translate(*self, offset.0 as int, offset.1 as int),
    {
        match (shift(self.file, offset.0), shift(self.rank, offset.1)) {
            (Some(file), Some(rank)) => Some(Self { file, rank, piece: None }),
            _ => None,
        }
    }

    /// Whether the square `offset` away from this one is on the board.
    pub fn can_move_in_direction(&self, offset: MoveOffset) -> (r: bool)
        ensures
            r == translate(*self, offset.0 as int, offset.1 as int).is_some(),
    {
        shift(self.file, offset.0).is_some() && shift(self.rank, offset.1).is_some()
    }

    pub(crate) fn glyph(&self) -> (r: char)
        ensures
            r == square_glyph(self.piece, self.file as int, self.rank as int),
    {
        match self.piece {
            Some(p) => p.letter(),
            None => if self.get_color() == Color::Black {
                'O'
            } else {
                'X'
            },
        }
    }

    /// The glyph that shows this cell.
    pub fn to_string(&self) -> (r: String)
        ensures
            r@ == seq![square_glyph(self.piece, self.file as int, self.rank as int)],
    {
        let mut s = String::new();
        push_char(&mut s, self.glyph());
        s
    }
}

/// Naming a square and reading the name back gives the same coordinates.
pub proof fn lemma_notation_round_trip(file: int, rank: int)
    requires
        on_board(file),
        on_board(rank),
    ensures
        parse_notation(notation(file, rank)) == Some((file, rank)),
{
    let s = notation(file, rank);
    assert(s[0] as int == 97 + file);
    assert(s[1] as int == 49 + rank);
}

} // verus!
