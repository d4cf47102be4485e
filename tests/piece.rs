use engine::color::Color;
use engine::piece::{Piece, PieceType};

#[test]
fn piece_values_match_the_catalog() {
    assert_eq!(PieceType::Pawn.value(), 100);
    assert_eq!(PieceType::Knight.value(), 280);
    assert_eq!(PieceType::Bishop.value(), 320);
    assert_eq!(PieceType::Rook.value(), 479);
    assert_eq!(PieceType::Queen.value(), 929);
    assert_eq!(PieceType::King.value(), 60000);
}

#[test]
fn flipping_a_piece_changes_only_its_color() {
    let p = Piece {
        kind: PieceType::Bishop,
        color: Color::White,
    };
    let f = p.flip();
    assert_eq!(f.kind, PieceType::Bishop);
    assert_eq!(f.color, Color::Black);
    assert_eq!(f.flip().color, Color::White);
    assert_eq!(Color::Black.inverse(), Color::White);
}

#[test]
fn pieces_have_symbols_and_letters() {
    let wk = Piece {
        kind: PieceType::King,
        color: Color::White,
    };
    let bp = Piece {
        kind: PieceType::Pawn,
        color: Color::Black,
    };
    assert_eq!(wk.str(), "\u{2654}");
    assert_eq!(bp.str(), "\u{265F}");
    assert_eq!(wk.letter(), 'K');
    assert_eq!(bp.letter(), 'p');
}
