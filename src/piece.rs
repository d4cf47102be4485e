use vstd::prelude::*;

use crate::color::Color;

verus! {

/// The six kinds of piece.
#[derive(Debug, Copy, Clone, PartialEq, Eq, Hash, Structural)]
pub enum PieceType {
    Pawn,
    Knight,
    Bishop,
    Rook,
    Queen,
    King,
}

/// Material value of each kind of piece.
pub open spec fn material_value(kind: PieceType) -> nat {
    match kind {
        PieceType::Pawn => 100,
        PieceType::Knight => 280,
        PieceType::Bishop => 320,
        PieceType::Rook => 479,
        PieceType::Queen => 929,
        PieceType::King => 60000,
    }
}

impl PieceType {
    /// Returns the material value of this kind of piece.
    pub fn value(self) -> (r: usize)
        ensures
            r == material_value(self),
    {
        match self {
            PieceType::Pawn => 100,
            PieceType::Knight => 280,
            PieceType::Bishop => 320,
            PieceType::Rook => 479,
            PieceType::Queen => 929,
            PieceType::King => 60000,
        }
    }
}

/// A piece: its kind and the side that owns it.
#[derive(Debug, Copy, Clone, PartialEq, Eq, Structural)]
pub struct Piece {
    pub kind: PieceType,
    pub color: Color,
}

/// Upper-case letter of each kind, as used for a white piece.
pub open spec fn kind_letter(kind: PieceType) -> char {
    match kind {
        PieceType::Pawn => 'P',
        PieceType::Knight => 'N',
        PieceType::Bishop => 'B',
        PieceType::Rook => 'R',
        PieceType::Queen => 'Q',
        PieceType::King => 'K',
    }
}

/// The letter that shows a piece: upper case for White, lower case for Black.
pub open spec fn piece_letter(p: Piece) -> char {
    match p.color {
        Color::White => kind_letter(p.kind),
        Color::Black => match p.kind {
            PieceType::Pawn => 'p',
            PieceType::Knight => 'n',
            PieceType::Bishop => 'b',
            PieceType::Rook => 'r',
            PieceType::Queen => 'q',
            PieceType::King => 'k',
        },
    }
}

/// The chess-symbol character that shows a piece.
pub open spec fn piece_symbol(p: Piece) -> char {
    match (p.kind, p.color) {
        (PieceType::Pawn, Color::White) => '\u{2659}',
        (PieceType::Pawn, Color::Black) => '\u{265F}',
        (PieceType::Rook, Color::White) => '\u{2656}',
        (PieceType::Rook, Color::Black) => '\u{265C}',
        (PieceType::Knight, Color::White) => '\u{2658}',
        (PieceType::Knight, Color::Black) => '\u{265E}',
        (PieceType::Bishop, Color::White) => '\u{2657}',
        (PieceType::Bishop, Color::Black) => '\u{265D}',
        (PieceType::Queen, Color::White) => '\u{2655}',
        (PieceType::Queen, Color::Black) => '\u{265B}',
        (PieceType::King, Color::White) => '\u{2654}',
        (PieceType::King, Color::Black) => '\u{265A}',
    }
}

impl Piece {
    /// The same kind of piece, owned by the other side.
    pub fn flip(&self) -> (r: Self)
        ensures
            r.kind == self.kind,
            r.color == self.color.inverse(),
    {
        Piece { color: self.color.inverse(), kind: self.kind }
    }

    /// The chess-symbol glyph of this piece.
    pub fn str(&self) -> (r: &'static str)
        ensures
            r@ == seq![piece_symbol(*self)],
    {
        match (self.kind, self.color) {
            (PieceType::Pawn, Color::White) => {
                proof { reveal_strlit("\u{2659}"); }
                "\u{2659}"
            },
            (PieceType::Pawn, Color::Black) => {
                proof { reveal_strlit("\u{265F}"); }
                "\u{265F}"
            },
            (PieceType::Rook, Color::White) => {
                proof { reveal_strlit("\u{2656}"); }
                "\u{2656}"
            },
            (PieceType::Rook, Color::Black) => {
                proof { reveal_strlit("\u{265C}"); }
                "\u{265C}"
            },
            (PieceType::Knight, Color::White) => {
                proof { reveal_strlit("\u{2658}"); }
                "\u{2658}"
            },
            (PieceType::Knight, Color::Black) => {
                proof { reveal_strlit("\u{265E}"); }
                "\u{265E}"
            },
            (PieceType::Bishop, Color::White) => {
                proof { reveal_strlit("\u{2657}"); }
                "\u{2657}"
            },
            (PieceType::Bishop, Color::Black) => {
                proof { reveal_strlit("\u{265D}"); }
                "\u{265D}"
            },
            (PieceType::Queen, Color::White) => {
                proof { reveal_strlit("\u{2655}"); }
                "\u{2655}"
            },
            (PieceType::Queen, Color::Black) => {
                proof { reveal_strlit("\u{265B}"); }
                "\u{265B}"
            },
            (PieceType::King, Color::White) => {
                proof { reveal_strlit("\u{2654}"); }
                "\u{2654}"
            },
            (PieceType::King, Color::Black) => {
                proof { reveal_strlit("\u{265A}"); }
                "\u{265A}"
            },
        }
    }

    /// The letter of this piece: upper case for White, lower case for Black.
    pub fn letter(&self) -> (r: char)
        ensures
            r == piece_letter(*self),
    {
        match (self.kind, self.color) {
            (PieceType::Pawn, Color::White) => 'P',
            (PieceType::Knight, Color::White) => 'N',
            (PieceType::Bishop, Color::White) => 'B',
            (PieceType::Rook, Color::White) => 'R',
            (PieceType::Queen, Color::White) => 'Q',
            (PieceType::King, Color::White) => 'K',
            (PieceType::Pawn, Color::Black) => 'p',
            (PieceType::Knight, Color::Black) => 'n',
            (PieceType::Bishop, Color::Black) => 'b',
            (PieceType::Rook, Color::Black) => 'r',
            (PieceType::Queen, Color::Black) => 'q',
            (PieceType::King, Color::Black) => 'k',
        }
    }
}

} // verus!
