use engine::board::Board;
use engine::color::Color;
use engine::piece::{Piece, PieceType};

fn joined(text: String) -> String {
    text.split('\n')
        .map(String::from)
        .collect::<Vec<String>>()
        .join("|")
}

#[test]
fn empty_board_has_correct_string_representation() {
    let empty_board_expected =
        r#"OXOXOXOX|XOXOXOXO|OXOXOXOX|XOXOXOXO|OXOXOXOX|XOXOXOXO|OXOXOXOX|XOXOXOXO"#.to_string();

    assert_eq!(empty_board_expected, joined(Board::default().to_string()))
}

#[test]
fn initial_board_state_has_correct_string_representation() {
    let board_initial_state =
        r#"RNBQKBNR|PPPPPPPP|OXOXOXOX|XOXOXOXO|OXOXOXOX|XOXOXOXO|pppppppp|rnbqkbnr"#.to_string();

    assert_eq!(board_initial_state, joined(Board::new().to_string()));
}

#[test]
fn board_is_flipped_correctly() {
    let board_reversed =
        r#"RNBQKBNR|PPPPPPPP|OXOXOXOX|XOXOXOXO|OXOXOXOX|XOXOXOXO|pppppppp|rnbqkbnr"#
            .to_string()
            .chars()
            .rev()
            .collect::<String>();

    let board_flipped = Board::new().flip();
    println!("{}", board_flipped.to_string());

    assert_eq!(board_reversed, joined(board_reversed.to_string()));
    assert_eq!(board_reversed, joined(board_flipped.to_string()));
}

#[test]
fn flipping_twice_restores_the_board() {
    let mut board = Board::new();
    board.set_piece(
        4,
        4,
        Some(Piece {
            kind: PieceType::Queen,
            color: Color::White,
        }),
    );
    board.set_piece(0, 1, None);
    let twice = board.flip().flip();
    assert_eq!(board.to_string(), twice.to_string());
    assert_ne!(board.to_string(), board.flip().to_string());
}

#[test]
fn flip_keeps_piece_colors() {
    let mut board = Board::default();
    board.set_piece(
        0,
        0,
        Some(Piece {
            kind: PieceType::Rook,
            color: Color::White,
        }),
    );
    let flipped = board.flip();
    let corner = flipped.square(7, 7);
    assert_eq!(corner.piece.map(|p| p.color), Some(Color::White));
    assert!(flipped.square(0, 0).piece.is_none());
    assert_eq!((corner.file, corner.rank), (7, 7));
}

#[test]
fn starting_arrangement_places_every_piece() {
    let board = Board::new();
    let back = [
        PieceType::Rook,
        PieceType::Knight,
        PieceType::Bishop,
        PieceType::Queen,
        PieceType::King,
        PieceType::Bishop,
        PieceType::Knight,
        PieceType::Rook,
    ];
    for file in 0..8 {
        let w = board.square(file, 0).piece.unwrap();
        assert_eq!((w.kind, w.color), (back[file], Color::White));
        let wp = board.square(file, 1).piece.unwrap();
        assert_eq!((wp.kind, wp.color), (PieceType::Pawn, Color::White));
        for rank in 2..6 {
            assert!(board.square(file, rank).piece.is_none());
        }
        let bp = board.square(file, 6).piece.unwrap();
        assert_eq!((bp.kind, bp.color), (PieceType::Pawn, Color::Black));
        let b = board.square(file, 7).piece.unwrap();
        assert_eq!((b.kind, b.color), (back[file], Color::Black));
    }
}

#[test]
fn files_lists_each_file_in_order() {
    let board = Board::new();
    let files = board.files();
    assert_eq!(files.len(), 8);
    for (i, (idx, squares)) in files.iter().enumerate() {
        assert_eq!(*idx, i);
        for (rank, sq) in squares.iter().enumerate() {
            assert_eq!((sq.file, sq.rank), (i, rank));
            assert_eq!(sq.piece.is_some(), rank < 2 || rank > 5);
        }
    }
}

#[test]
fn set_piece_changes_only_its_square() {
    let mut board = Board::default();
    let knight = Piece {
        kind: PieceType::Knight,
        color: Color::Black,
    };
    board.set_piece(3, 5, Some(knight));
    assert_eq!(
        joined(board.to_string()),
        "OXOXOXOX|XOXOXOXO|OXOXOXOX|XOXOXOXO|OXOXOXOX|XOXnXOXO|OXOXOXOX|XOXOXOXO"
    );
    board.set_piece(3, 5, None);
    assert_eq!(joined(board.to_string()), joined(Board::default().to_string()));
}
