use engine::board::Board;
use engine::color::Color;
use engine::direction::Move;
use engine::piece::{Piece, PieceType};
use engine::position::{Castling, Position};

fn piece(kind: PieceType, color: Color) -> Option<Piece> {
    Some(Piece { kind, color })
}

fn position(board: Board, turn: usize) -> Position {
    Position {
        board,
        score: 0,
        turn,
        white_castling: vec![],
        black_castling: vec![],
    }
}

fn coords(moves: &[Move]) -> Vec<((usize, usize), (usize, usize))> {
    moves
        .iter()
        .map(|m| ((m.from.file, m.from.rank), (m.to.file, m.to.rank)))
        .collect()
}

fn moves_from(p: &Position, file: usize, rank: usize) -> Vec<(usize, usize)> {
    p.moves()
        .0
        .iter()
        .filter(|m| m.from.file == file && m.from.rank == rank)
        .map(|m| (m.to.file, m.to.rank))
        .collect()
}

#[test]
fn kings_pawn_first_moves_are_correct() {
    let p = Position::default();
    assert_eq!(moves_from(&p, 4, 1), vec![(4, 2), (4, 3)]);
    let text: Vec<String> = p
        .moves()
        .0
        .iter()
        .filter(|m| m.from.file == 4 && m.from.rank == 1)
        .map(|m| m.to_string())
        .collect();
    assert_eq!(text, vec!["e2-e3", "e2-e4"]);
}

#[test]
fn all_first_moves_for_whites_are_correct() {
    let moves = Position::default().moves();
    assert!(moves
        .0
        .iter()
        .all(|m| m.from.piece.map(|p| p.color) == Some(Color::White)));
    assert_eq!(moves.0.len(), 53);
    for file in 0..8 {
        let pawn = moves_from(&Position::default(), file, 1);
        assert_eq!(pawn, vec![(file, 2), (file, 3)]);
    }
    assert_eq!(moves_from(&Position::default(), 1, 0), vec![(0, 2), (2, 2)]);
    assert!(moves_from(&Position::default(), 4, 0).is_empty());
}

#[test]
fn pawns_cant_move_two_squares_from_non_home_rows() {
    let mut board = Board::default();

    board.set_piece(2, 0, piece(PieceType::Pawn, Color::White));

    println!(
        "put white pawn on square {}",
        board.square(2, 0).get_square_string()
    );
    println!("board:\n{}", board.to_string());

    let p = Position {
        board,
        score: 0,
        turn: 1,
        white_castling: vec![],
        black_castling: vec![],
    };

    let moves = p.moves();

    println!("{}", moves.to_string());
    assert_eq!(coords(&moves.0), vec![((2, 0), (2, 1))]);
}

#[test]
fn pawn_on_start_rank_may_advance_two() {
    let mut board = Board::default();
    board.set_piece(2, 1, piece(PieceType::Pawn, Color::White));
    board.set_piece(5, 6, piece(PieceType::Pawn, Color::Black));
    assert_eq!(moves_from(&position(board, 1), 2, 1), vec![(2, 2), (2, 3)]);
    assert_eq!(moves_from(&position(board, 2), 5, 6), vec![(5, 5), (5, 4)]);
    board.set_piece(2, 3, piece(PieceType::Knight, Color::Black));
    assert_eq!(moves_from(&position(board, 1), 2, 1), vec![(2, 2)]);
    let mut moved = Board::default();
    moved.set_piece(2, 2, piece(PieceType::Pawn, Color::White));
    assert_eq!(moves_from(&position(moved, 1), 2, 2), vec![(2, 3)]);
}

#[test]
fn pawn_has_no_diagonal_move_without_a_capture() {
    let mut board = Board::default();
    board.set_piece(4, 3, piece(PieceType::Pawn, Color::White));
    let moves = position(board, 1).moves();
    assert!(moves.0.iter().all(|m| !m.is_diagonal()));
    assert_eq!(coords(&moves.0), vec![((4, 3), (4, 4))]);

    board.set_piece(5, 4, piece(PieceType::Bishop, Color::Black));
    board.set_piece(3, 4, piece(PieceType::Bishop, Color::White));
    assert_eq!(moves_from(&position(board, 1), 4, 3), vec![(4, 4), (5, 4)]);

    board.set_piece(4, 4, piece(PieceType::Rook, Color::Black));
    assert_eq!(moves_from(&position(board, 1), 4, 3), vec![(5, 4)]);
}

#[test]
fn friendly_piece_removes_only_its_square() {
    let mut board = Board::default();
    board.set_piece(0, 0, piece(PieceType::Rook, Color::White));
    let before = moves_from(&position(board, 1), 0, 0);
    assert_eq!(before.len(), 14);
    board.set_piece(0, 3, piece(PieceType::Knight, Color::White));
    let after = moves_from(&position(board, 1), 0, 0);
    let expected: Vec<(usize, usize)> = before.iter().copied().filter(|&t| t != (0, 3)).collect();
    assert_eq!(after, expected);
    assert_eq!(after.len(), 13);

    board.set_piece(5, 0, piece(PieceType::Knight, Color::Black));
    let capture = moves_from(&position(board, 1), 0, 0);
    assert_eq!(capture, expected);
}

#[test]
fn knight_in_the_center_reaches_eight_squares() {
    let mut board = Board::default();
    board.set_piece(3, 4, piece(PieceType::Knight, Color::White));
    let moves = moves_from(&position(board, 1), 3, 4);
    assert_eq!(moves.len(), 8);
    for (dx, dy) in [(-1, 2), (1, 2), (2, 1), (2, -1), (1, -2), (-1, -2), (-2, -1), (-2, 1)] {
        let t = ((3 + dx) as usize, (4 + dy) as usize);
        assert_eq!(moves.iter().filter(|&&m| m == t).count(), 1);
    }
}

#[test]
fn rook_in_the_corner_reaches_fourteen_squares() {
    let mut board = Board::default();
    board.set_piece(0, 0, piece(PieceType::Rook, Color::White));
    let moves = position(board, 1).moves();
    assert_eq!(moves.0.len(), 14);
    assert!(moves.0.iter().all(|m| m.to.file < 8 && m.to.rank < 8));
}

#[test]
fn sides_alternate_with_the_turn_counter() {
    let board = Board::new();
    let mut p = position(board, 1);
    for _ in 0..4 {
        let side = p.turn();
        let moves = p.moves();
        assert!(!moves.0.is_empty());
        assert!(moves.0.iter().all(|m| m.from.piece.map(|q| q.color) == Some(side)));
        p.turn += 1;
        assert_eq!(p.turn(), side.inverse());
    }
}

#[test]
fn first_half_move_belongs_to_white() {
    assert_eq!(Position::default().turn(), Color::White);
    assert_eq!(position(Board::default(), 1).turn(), Color::White);
    assert_eq!(position(Board::default(), 2).turn(), Color::Black);
    assert_eq!(position(Board::default(), 0).turn(), Color::Black);
}

#[test]
fn side_without_pieces_has_no_moves() {
    let mut board = Board::default();
    board.set_piece(4, 4, piece(PieceType::King, Color::White));
    assert!(position(board, 2).moves().0.is_empty());
    assert_eq!(position(board, 1).moves().0.len(), 8);
}

#[test]
fn default_position_holds_every_castling_right() {
    let p = Position::default();
    assert_eq!(p.score, 0);
    assert_eq!(p.turn, 1);
    assert_eq!(p.white_castling, vec![Castling::Kingside, Castling::Queenside]);
    assert_eq!(p.black_castling, vec![Castling::Kingside, Castling::Queenside]);
    assert_eq!(p.board.to_string(), Board::new().to_string());
}

#[test]
fn reading_notation_gives_the_starting_position() {
    let p = Position::from_fen("8/8/8/8/8/8/8/8 w - - 0 1");
    assert_eq!(p.board.to_string(), Board::new().to_string());
    assert_eq!(p.turn(), Color::White);
}
