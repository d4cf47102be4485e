use vstd::prelude::*;

use crate::color::Color;
use crate::piece::{Piece, PieceType};
use crate::square::{on_board, square_glyph, Square};
use crate::text::push_char;

verus! {

/// The kind that starts on each file of a back rank.
pub open spec fn back_rank_kind(file: int) -> PieceType {
    if file == 0 || file == 7 {
        PieceType::Rook
    } else if file == 1 || file == 6 {
        PieceType::Knight
    } else if file == 2 || file == 5 {
        PieceType::Bishop
    } else if file == 3 {
        PieceType::Queen
    } else {
        PieceType::King
    }
}

/// The piece on `(file, rank)` in the starting arrangement: White on ranks
/// 0 and 1, Black on ranks 6 and 7.
pub open spec fn start_piece(file: int, rank: int) -> Option<Piece> {
    if rank == 0 {
        Some(Piece { kind: back_rank_kind(file), color: Color::White })
    } else if rank == 1 {
        Some(Piece { kind: PieceType::Pawn, color: Color::White })
    } else if rank == 6 {
        Some(Piece { kind: PieceType::Pawn, color: Color::Black })
    } else if rank == 7 {
        Some(Piece { kind: back_rank_kind(file), color: Color::Black })
    } else {
        None
    }
}

/// `a` holds the pieces of `b` turned half a circle: files and ranks both
/// reversed, colours kept.
pub open spec fn is_flip_of(a: Board, b: Board) -> bool {
    forall|f: int, r: int|
        on_board(f) && on_board(r) ==> #[trigger] a.piece_at(f, r) == b.piece_at(7 - f, 7 - r)
}

/// The glyphs of one rank, file 0 first.
pub open spec fn rank_text(b: Board, rank: int) -> Seq<char> {
    Seq::new(8, |f: int| square_glyph(b.piece_at(f, rank), f, rank))
}

/// The first `n` ranks' glyphs, rank 0 first, one line per rank.
pub open spec fn ranks_text(b: Board, n: int) -> Seq<char>
    decreases n,
{
    if n <= 0 {
        seq![]
    } else if n == 1 {
        rank_text(b, 0)
    } else {
        ranks_text(b, n - 1) + seq!['\n'] + rank_text(b, n - 1)
    }
}

/// The board as text: eight lines of eight glyphs.
pub open spec fn board_text(b: Board) -> Seq<char> {
    ranks_text(b, 8)
}

/// An 8×8 board, indexed by file then rank.
#[derive(Debug, Clone, Copy)]
pub struct Board {
    inner: [[Option<Piece>; 8]; 8],
}

impl Default for Board {
    /// The empty board.
    fn default() -> (r: Self)
        ensures
            forall|f: int, k: int| on_board(f) && on_board(k) ==> #[trigger] r.piece_at(f, k) is None,
    {
        let empty: Option<Piece> = None;
        let column = [empty, empty, empty, empty, empty, empty, empty, empty];
        Board { inner: [column, column, column, column, column, column, column, column] }
    }
}

impl Board {
    /// What stands on `(file, rank)`.
    pub closed spec fn piece_at(&self, file: int, rank: int) -> Option<Piece> {
        self.inner@[file]@[rank]
    }

    /// The square `(file, rank)` with what stands on it.
    pub open spec fn square_at(&self, file: int, rank: int) -> Square {
        Square { file: file as usize, rank: rank as usize, piece: self.piece_at(file, rank) }
    }

    /// The board in the starting arrangement.
    pub fn new() -> (r: Board)
        ensures
            forall|f: int, k: int|
                on_board(f) && on_board(k) ==> #[trigger] r.piece_at(f, k) == start_piece(f, k),
    {
        let mut board = Self::default();
        let back_rank = [
            PieceType::Rook,
            PieceType::Knight,
            PieceType::Bishop,
            PieceType::Queen,
            PieceType::King,
            PieceType::Bishop,
            PieceType::Knight,
            PieceType::Rook,
        ];
        for file in 0..8usize
            invariant
                forall|j: int| 0 <= j < 8 ==> #[trigger] back_rank@[j] == back_rank_kind(j),
                forall|f: int, k: int|
                    on_board(f) && on_board(k) ==> #[trigger] board.piece_at(f, k) == if f < file {
                        start_piece(f, k)
                    } else {
                        None
                    },
        {
            board.set_piece(file, 0, Some(Piece { color: Color::White, kind: back_rank[file] }));
            board.set_piece(file, 1, Some(Piece { color: Color::White, kind: PieceType::Pawn }));
            board.set_piece(file, 6, Some(Piece { color: Color::Black, kind: PieceType::Pawn }));
            board.set_piece(file, 7, Some(Piece { color: Color::Black, kind: back_rank[file] }));
        }
        board
    }

    /// The board turned half a circle: files and ranks both reversed.
    pub fn flip(&self) -> (r: Board)
        ensures
            is_flip_of(r, *self),
    {
        let mut flipped = Self::default();
        for file in 0..8usize
            invariant
                forall|f: int, k: int|
                    on_board(f) && on_board(k) ==> #[trigger] flipped.piece_at(f, k) == if f < file {
                        self.piece_at(7 - f, 7 - k)
                    } else {
                        None
                    },
        {
            for rank in 0..8usize
                invariant
                    file < 8,
                    forall|f: int, k: int|
                        on_board(f) && on_board(k) ==> #[trigger] flipped.piece_at(f, k) == if f
                            < file || (f == file && k < rank) {
                            self.piece_at(7 - f, 7 - k)
                        } else {
                            None
                        },
            {
                let p = self.inner[7 - file][7 - rank];
                flipped.set_piece(file, rank, p);
            }
        }
        flipped
    }

    /// Each file with its index, file 0 first; each file's squares rank 0
    /// first.
    pub fn files(&self) -> (r: Vec<(usize, [Square; 8])>)
        ensures
            r@.len() == 8,
            forall|f: int| 0 <= f < 8 ==> (#[trigger] r@[f]).0 == f,
            forall|f: int, k: int| 0 <= f < 8 && 0 <= k < 8 ==> #[trigger] r@[f].1@[k] == self.square_at(f, k),
    {
        let mut files: Vec<(usize, [Square; 8])> = Vec::new();
        for file in 0..8usize
            invariant
                files@.len() == file,
                forall|f: int| 0 <= f < file ==> (#[trigger] files@[f]).0 == f,
                forall|f: int, k: int| 0 <= f < file && 0 <= k < 8 ==> #[trigger] files@[f].1@[k] == self.square_at(f, k),
        {
            let mut squares = [Square { file, rank: 0, piece: None }; 8];
            for rank in 0..8usize
                invariant
                    file < 8,
                    forall|k: int| 0 <= k < rank ==> #[trigger] squares@[k] == self.square_at(file as int, k),
            {
                squares[rank] = self.square(file, rank);
            }
            files.push((file, squares));
        }
        files
    }

    /// The square `(file, rank)` with what stands on it.
    pub fn square(&self, file: usize, rank: usize) -> (r: Square)
        requires
            file < 8,
            rank < 8,
        ensures
            r == self.square_at(file as int, rank as int),
    {
        Square { file, rank, piece: self.inner[file][rank] }
    }

    /// Puts `piece` on `(file, rank)`, or clears it with `None`; every other
    /// square keeps what it held.
    pub fn set_piece(&mut self, file: usize, rank: usize, piece: Option<Piece>)
        requires
            file < 8,
            rank < 8,
        ensures
            forall|f: int, k: int|
                on_board(f) && on_board(k) ==> #[trigger] final(self).piece_at(f, k) == if f == file
                    && k == rank {
                    piece
                } else {
                    old(self).piece_at(f, k)
                },
    {
        let mut column = self.inner[file];
        column[rank] = piece;
        self.inner[file] = column;
    }

    /// The board as text: one line per rank, rank 0 first, each line the
    /// glyphs of files 0 to 7.
    pub fn to_string(&self) -> (r: String)
        ensures
            r@ == board_text(*self),
    {
        let mut s = String::new();
        for rank in 0..8usize
            invariant
                s@ == ranks_text(*self, rank as int),
        {
            if rank > 0 {
                push_char(&mut s, '\n');
            }
            let ghost before = s@;
            for file in 0..8usize
                invariant
                    rank < 8,
                    s@ == before + rank_text(*self, rank as int).take(file as int),
            {
                push_char(&mut s, self.square(file, rank).glyph());
                assert(rank_text(*self, rank as int).take(file + 1) == rank_text(*self, rank as int).take(
                    file as int,
                ).push(rank_text(*self, rank as int)[file as int]));
            }
            assert(rank_text(*self, rank as int).take(8) == rank_text(*self, rank as int));
        }
        s
    }
}

/// Turning a board half a circle twice gives back every square's piece.
pub proof fn lemma_flip_involution(b: Board, once: Board, twice: Board)
    requires
        is_flip_of(once, b),
        is_flip_of(twice, once),
    ensures
        forall|f: int, k: int| on_board(f) && on_board(k) ==> #[trigger] twice.piece_at(f, k) == b.piece_at(f, k),
{
    assert forall|f: int, k: int| on_board(f) && on_board(k) implies #[trigger] twice.piece_at(f, k) == b.piece_at(f, k) by {
        assert(twice.piece_at(f, k) == once.piece_at(7 - f, 7 - k));
        assert(once.piece_at(7 - f, 7 - k) == b.piece_at(7 - (7 - f), 7 - (7 - k)));
    }
}

} // verus!
