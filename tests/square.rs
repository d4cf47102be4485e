use engine::color::Color;
use engine::color::Color::{Black, White};
use engine::piece::PieceType::Bishop;
use engine::piece::{Piece, PieceType};
use engine::square::Square;

#[test]
fn trying_to_move_out_of_board_returns_none() {
    let test_square = Square {
        file: 0,
        rank: 0,
        piece: Some(Piece {
            kind: Bishop,
            color: Black,
        }),
    };

    assert!(test_square.move_to((-1, -1)).is_none());
}

#[test]
fn squares_have_correct_string_representation() {
    let expected_str_representations = vec!["K", "O", "X", "q"];
    let squares = vec![
        Square {
            piece: Some(Piece {
                color: Color::White,
                kind: PieceType::King,
            }),
            rank: 0,
            file: 0,
        },
        Square {
            piece: None,
            rank: 0,
            file: 0,
        },
        Square {
            piece: None,
            rank: 1,
            file: 0,
        },
        Square {
            piece: Some(Piece {
                color: Color::Black,
                kind: PieceType::Queen,
            }),
            rank: 1,
            file: 0,
        },
    ];

    for i in 0..squares.len() {
        assert_eq!(squares[i].to_string(), expected_str_representations[i])
    }
}

#[test]
fn translation_is_clipped_exactly_at_the_edges() {
    for file in 0..8usize {
        for rank in 0..8usize {
            let sq = Square::new(file, rank, None);
            for dx in -9i8..=9 {
                for dy in -9i8..=9 {
                    let f = file as i64 + dx as i64;
                    let r = rank as i64 + dy as i64;
                    let inside = (0..8).contains(&f) && (0..8).contains(&r);
                    assert_eq!(sq.can_move_in_direction((dx, dy)), inside);
                    match sq.move_to((dx, dy)) {
                        Some(t) => {
                            assert!(inside);
                            assert_eq!((t.file as i64, t.rank as i64), (f, r));
                            assert!(t.piece.is_none());
                        }
                        None => assert!(!inside),
                    }
                }
            }
        }
    }
}

#[test]
fn extreme_offsets_never_wrap() {
    let sq = Square::new(7, 0, None);
    assert!(sq.move_to((i8::MIN, 0)).is_none());
    assert!(sq.move_to((i8::MAX, 0)).is_none());
    assert!(sq.move_to((0, i8::MIN)).is_none());
    assert_eq!(sq.move_to((-7, 7)).map(|t| (t.file, t.rank)), Some((0, 7)));
}

#[test]
fn notation_round_trips_for_every_square() {
    for file in 0..8 {
        for rank in 0..8 {
            let name = Square::new(file, rank, None).get_square_string();
            let back = Square::from_str(name.clone()).unwrap();
            assert_eq!((back.file, back.rank), (file, rank), "{}", name);
        }
    }
}

#[test]
fn notation_names_file_by_letter_and_rank_by_digit() {
    assert_eq!(Square::new(0, 0, None).get_square_string(), "a1");
    assert_eq!(Square::new(4, 3, None).get_square_string(), "e4");
    assert_eq!(Square::new(7, 7, None).get_square_string(), "h8");
    let e4 = Square::from_str("e4".to_string()).unwrap();
    assert_eq!((e4.file, e4.rank), (4, 3));
}

#[test]
fn malformed_notation_is_rejected() {
    for text in ["", "e", "e44", "i1", "a0", "a9", "4e", "E4", "é4"] {
        assert!(Square::from_str(text.to_string()).is_none(), "{}", text);
    }
}

#[test]
fn square_color_follows_coordinate_parity() {
    assert_eq!(Square::new(0, 0, None).get_color(), Color::Black);
    assert_eq!(Square::new(0, 1, None).get_color(), Color::White);
    assert_eq!(Square::new(7, 7, None).get_color(), Color::Black);
    assert_eq!(Square::new(3, 4, None).get_color(), Color::White);
}

#[test]
fn square_equality_ignores_the_piece() {
    let a = Square::new(
        2,
        3,
        Some(Piece {
            kind: PieceType::Rook,
            color: White,
        }),
    );
    let b = Square::new(2, 3, None);
    assert!(a == b);
    assert!(a != Square::new(3, 2, None));
}
