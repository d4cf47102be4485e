use vstd::prelude::*;

use crate::board::{start_piece, Board};
use crate::color::Color;
use crate::direction::{
    candidate_moves, destinations, lemma_destinations_on_board, lemma_destinations_prefix,
    piece_offsets, ray, ray_offsets, rays_along, Move, Moves, MovesFinder, RayDirection,
};
use crate::piece::{Piece, PieceType};
use crate::square::{on_board, translate, Square};

verus! {

/// A castling right: toward the queen's side or the king's side.
#[derive(Debug, Clone, Copy, PartialEq, Eq, Structural)]
pub enum Castling {
    Queenside,
    Kingside,
}

/// The side to move on a given half-move count: odd counts are White's, so
/// count 1 is White's first move.
pub open spec fn turn_color(turn: int) -> Color {
    if turn % 2 == 1 {
        Color::White
    } else {
        Color::Black
    }
}

/// The rank on which a side's pawns start.
pub open spec fn start_rank(c: Color) -> int {
    match c {
        Color::White => 1,
        Color::Black => 6,
    }
}

/// The rank a side's pawn reaches by a double step from its starting rank.
pub open spec fn double_step_rank(c: Color) -> int {
    match c {
        Color::White => 3,
        Color::Black => 4,
    }
}

/// The rules particular to pawns: a diagonal step only onto an occupied
/// square, a straight step only onto an empty one, and a double step only
/// from the starting rank.
pub open spec fn pawn_admits(c: Color, m: Move) -> bool {
    &&& m.spec_is_diagonal() ==> m.to.piece is Some
    &&& !m.spec_is_diagonal() ==> m.to.piece is None
    &&& m.is_double_step() ==> m.from.rank == start_rank(c)
}

/// A move whose destination carries what stands there is pseudo-legal when
/// it does not land on a piece of the mover's own side and, for a pawn, it
/// keeps the pawn rules.
pub open spec fn is_pseudo_legal(m: Move) -> bool {
    match m.from.piece {
        Some(p) => {
            &&& !(m.to.piece matches Some(q) && q.color == p.color)
            &&& p.kind == PieceType::Pawn ==> pawn_admits(p.color, m)
        },
        None => false,
    }
}

/// A candidate move with its destination as it stands on the board.
pub open spec fn on_board_move(b: Board, m: Move) -> Move {
    Move { from: m.from, to: b.square_at(m.to.file as int, m.to.rank as int) }
}

/// The candidates, each with its destination as it stands on the board, that
/// are pseudo-legal, in their order.
pub open spec fn kept_moves(b: Board, cands: Seq<Move>) -> Seq<Move>
    decreases cands.len(),
{
    if cands.len() == 0 {
        seq![]
    } else {
        let prev = kept_moves(b, cands.drop_last());
        let m = on_board_move(b, cands.last());
        if is_pseudo_legal(m) {
            prev.push(m)
        } else {
            prev
        }
    }
}

/// The pseudo-legal moves from `(file, rank)` for side `c`: none unless a
/// piece of `c` stands there.
pub open spec fn square_moves(b: Board, file: int, rank: int, c: Color) -> Seq<Move> {
    let sq = b.square_at(file, rank);
    match sq.piece {
        Some(p) => if p.color == c {
            kept_moves(b, candidate_moves(sq))
        } else {
            seq![]
        },
        None => seq![],
    }
}

/// The moves of the first `n` squares in file-major order: square `k` is
/// file `k / 8`, rank `k % 8`.
pub open spec fn moves_upto(b: Board, c: Color, n: int) -> Seq<Move>
    decreases n,
{
    if n <= 0 {
        seq![]
    } else {
        moves_upto(b, c, n - 1) + square_moves(b, (n - 1) / 8, (n - 1) % 8, c)
    }
}

/// All pseudo-legal moves of side `c` on board `b`.
pub open spec fn generated_moves(b: Board, c: Color) -> Seq<Move> {
    moves_upto(b, c, 64)
}

/// The piece that makes move `m` belongs to side `c`.
pub open spec fn moved_by(m: Move, c: Color) -> bool {
    m.from.piece matches Some(p) && p.color == c
}

/// Move `m` is made by a pawn.
pub open spec fn is_pawn_move(m: Move) -> bool {
    m.from.piece matches Some(p) && p.kind == PieceType::Pawn
}

/// Move `m` lands on a piece of the side opposing `c`.
pub open spec fn captures_against(m: Move, c: Color) -> bool {
    m.to.piece matches Some(q) && q.color != c
}

/// The state of the game at one half-move.
pub struct Position {
    pub board: Board,
    pub score: usize,
    /// The half-move count; see `turn`.
    pub turn: usize,
    pub white_castling: Vec<Castling>,
    pub black_castling: Vec<Castling>,
}

/// `p` is the starting position: the starting arrangement, White to move,
/// no score and every castling right held.
pub open spec fn is_start_position(p: Position) -> bool {
    &&& forall|f: int, k: int|
        on_board(f) && on_board(k) ==> #[trigger] p.board.piece_at(f, k) == start_piece(f, k)
    &&& p.score == 0
    &&& p.turn == 1
    &&& p.white_castling@ == seq![Castling::Kingside, Castling::Queenside]
    &&& p.black_castling@ == seq![Castling::Kingside, Castling::Queenside]
}

/// Whether `mv`, whose destination carries what stands there, passes the
/// own-occupancy and pawn filters.
fn admits(mv: &Move) -> (r: bool)
    ensures
        r == is_pseudo_legal(*mv),
{
    let piece = match mv.from.piece {
        Some(p) => p,
        None => return false,
    };
    if let Some(target) = mv.to.piece {
        if target.color == piece.color {
            return false;
        }
    }
    if piece.kind == PieceType::Pawn {
        if mv.is_diagonal() {
            if mv.to.piece.is_none() {
                return false;
            }
        } else if mv.to.piece.is_some() {
            return false;
        }
        let double_step = mv.from.file == mv.to.file && ((mv.to.rank >= mv.from.rank && mv.to.rank
            - mv.from.rank == 2) || (mv.from.rank >= mv.to.rank && mv.from.rank - mv.to.rank == 2));
        let start: usize = match piece.color {
            Color::White => 1,
            Color::Black => 6,
        };
        if double_step && mv.from.rank != start {
            return false;
        }
    }
    true
}

impl Position {
    /// The side to move: White on odd half-move counts, Black on even ones.
    pub fn turn(&self) -> (r: Color)
        ensures
            r == turn_color(self.turn as int),
    {
        if self.turn % 2 == 1 {
            Color::White
        } else {
            Color::Black
        }
    }

    /// Every pseudo-legal move of the side to move: squares in file-major
    /// order, each square's moves in its piece's direction order.
    pub fn moves(&self) -> (r: Moves)
        ensures
            r.0@ == generated_moves(self.board, turn_color(self.turn as int)),
    {
        let current_color = self.turn();
        let ghost b = self.board;
        let mut result: Vec<Move> = Vec::new();
        for file in 0..8usize
            invariant
                b == self.board,
                current_color == turn_color(self.turn as int),
                result@ == moves_upto(b, current_color, 8 * file),
        {
            for rank in 0..8usize
                invariant
                    file < 8,
                    b == self.board,
                    current_color == turn_color(self.turn as int),
                    result@ == moves_upto(b, current_color, 8 * file + rank),
            {
                let square = self.board.square(file, rank);
                let ghost before = result@;
                assert((8 * file + rank) / 8 == file && (8 * file + rank) % 8 == rank);
                if let Some(piece) = square.piece {
                    if piece.color == current_color {
                        let candidates = MovesFinder::new(square).list();
                        let ghost cands = candidates.0@;
                        proof {
                            lemma_destinations_on_board(square, piece_offsets(piece));
                        }
                        for i in 0..candidates.0.len()
                            invariant
                                file < 8,
                                rank < 8,
                                b == self.board,
                                square == b.square_at(file as int, rank as int),
                                square.piece == Some(piece),
                                cands == candidates.0@,
                                cands == candidate_moves(square),
                                forall|j: int|
                                    0 <= j < cands.len() ==> (#[trigger] cands[j]).to.wf()
                                        && cands[j].from == square,
                                result@ == before + kept_moves(b, cands.take(i as int)),
                        {
                            let candidate = candidates.0[i];
                            let to = self.board.square(candidate.to.file, candidate.to.rank);
                            let mv = Move { from: square, to };
                            assert(cands.take(i + 1).drop_last() == cands.take(i as int));
                            if admits(&mv) {
                                result.push(mv);
                            }
                        }
                        assert(cands.take(cands.len() as int) == cands);
                    }
                }
            }
        }
        Moves(result)
    }

    /// A position read from its textual notation. Reading that notation is
    /// not done here: every text gives the starting position.
    pub fn from_fen(_fen: &str) -> (r: Self)
        ensures
            is_start_position(r),
    {
        Position::default()
    }
}

impl Default for Position {
    /// The starting position.
    fn default() -> (r: Self)
        ensures
            is_start_position(r),
    {
        Position {
            board: Board::new(),
            score: 0,
            turn: 1,
            white_castling: vec![Castling::Kingside, Castling::Queenside],
            black_castling: vec![Castling::Kingside, Castling::Queenside],
        }
    }
}

/// Every kept move leaves the candidates' origin and is pseudo-legal.
proof fn lemma_kept_moves_from(b: Board, cands: Seq<Move>, origin: Square)
    requires
        forall|j: int| 0 <= j < cands.len() ==> (#[trigger] cands[j]).from == origin,
    ensures
        forall|i: int|
            0 <= i < kept_moves(b, cands).len() ==> (#[trigger] kept_moves(b, cands)[i]).from == origin
                && is_pseudo_legal(kept_moves(b, cands)[i]),
    decreases cands.len(),
{
    if cands.len() > 0 {
        lemma_kept_moves_from(b, cands.drop_last(), origin);
        assert(cands.drop_last().len() == cands.len() - 1);
        assert(cands.last() == cands[cands.len() - 1]);
    }
}

/// Every generated move leaves a square holding a piece of the side to move,
/// and is pseudo-legal.
proof fn lemma_moves_upto_own(b: Board, c: Color, n: int)
    ensures
        forall|i: int|
            0 <= i < moves_upto(b, c, n).len() ==> {
                &&& moved_by(#[trigger] moves_upto(b, c, n)[i], c)
                &&& is_pseudo_legal(moves_upto(b, c, n)[i])
            },
    decreases n,
{
    if n > 0 {
        lemma_moves_upto_own(b, c, n - 1);
        let prev = moves_upto(b, c, n - 1);
        let sq = b.square_at((n - 1) / 8, (n - 1) % 8);
        let here = square_moves(b, (n - 1) / 8, (n - 1) % 8, c);
        if let Some(p) = sq.piece {
            if p.color == c {
                lemma_kept_moves_from(b, candidate_moves(sq), sq);
            }
        }
        assert forall|i: int| 0 <= i < (prev + here).len() implies {
            &&& moved_by(#[trigger] (prev + here)[i], c)
            &&& is_pseudo_legal((prev + here)[i])
        } by {
            if i < prev.len() {
                assert((prev + here)[i] == prev[i]);
            } else {
                assert((prev + here)[i] == here[i - prev.len()]);
            }
        }
    }
}

/// A move kept for side `c` leaves a piece of `c`, and one generated on the
/// next half-move leaves a piece of the other side: the sides alternate and
/// one list never mixes them.
pub proof fn lemma_side_alternation(b: Board, turn: int)
    ensures
        turn_color(turn + 1) == turn_color(turn).inverse(),
        forall|i: int|
            0 <= i < generated_moves(b, turn_color(turn)).len() ==> moved_by(
                #[trigger] generated_moves(b, turn_color(turn))[i],
                turn_color(turn),
            ),
        forall|i: int|
            0 <= i < generated_moves(b, turn_color(turn + 1)).len() ==> moved_by(
                #[trigger] generated_moves(b, turn_color(turn + 1))[i],
                turn_color(turn).inverse(),
            ),
{
    lemma_moves_upto_own(b, turn_color(turn), 64);
    lemma_moves_upto_own(b, turn_color(turn + 1), 64);
}

/// A generated pawn move that runs diagonally lands on a piece of the other
/// side: without one to capture, a pawn has no diagonal move.
pub proof fn lemma_pawn_diagonal_captures(b: Board, c: Color)
    ensures
        forall|i: int|
            0 <= i < generated_moves(b, c).len() && is_pawn_move(#[trigger] generated_moves(b, c)[i])
                && generated_moves(b, c)[i].spec_is_diagonal() ==> captures_against(
                generated_moves(b, c)[i],
                c,
            ),
{
    lemma_moves_upto_own(b, c, 64);
}

/// A generated pawn move that advances two ranks leaves the side's starting
/// rank.
pub proof fn lemma_double_step_from_start_rank_only(b: Board, c: Color)
    ensures
        forall|i: int|
            0 <= i < generated_moves(b, c).len() && is_pawn_move(#[trigger] generated_moves(b, c)[i])
                && generated_moves(b, c)[i].is_double_step() ==> generated_moves(b, c)[i].from.rank
                == start_rank(c),
{
    lemma_moves_upto_own(b, c, 64);
}

/// Move `m` does not land on `(file, rank)`.
pub open spec fn avoids(m: Move, file: int, rank: int) -> bool {
    !(m.to.file == file && m.to.rank == rank)
}

/// `after` is `before` with a piece `q` put on `(file, rank)`.
pub open spec fn is_placed(after: Board, before: Board, file: int, rank: int, q: Piece) -> bool {
    &&& after.piece_at(file, rank) == Some(q)
    &&& forall|f: int, k: int|
        on_board(f) && on_board(k) && !(f == file && k == rank) ==> #[trigger] after.piece_at(f, k)
            == before.piece_at(f, k)
}

proof fn lemma_kept_moves_placed(
    before: Board,
    after: Board,
    cands: Seq<Move>,
    c: Color,
    file: int,
    rank: int,
    q: Piece,
)
    requires
        on_board(file),
        on_board(rank),
        q.color == c,
        is_placed(after, before, file, rank, q),
        forall|j: int|
            0 <= j < cands.len() ==> (#[trigger] cands[j]).to.wf() && moved_by(cands[j], c),
    ensures
        kept_moves(after, cands) == kept_moves(before, cands).filter(|m: Move| avoids(m, file, rank)),
    decreases cands.len(),
{
    let pred = |m: Move| avoids(m, file, rank);
    if cands.len() == 0 {
        reveal(Seq::filter);
        assert(kept_moves(before, cands).filter(pred) =~= seq![]);
    } else {
        let init = cands.drop_last();
        let x = cands.last();
        assert(x == cands[cands.len() - 1]);
        lemma_kept_moves_placed(before, after, init, c, file, rank, q);
        let m1 = on_board_move(before, x);
        let m2 = on_board_move(after, x);
        kept_moves(before, init).lemma_filter_push(m1, pred);
        if x.to.file == file && x.to.rank == rank {
            assert(!is_pseudo_legal(m2));
        } else {
            assert(m2 == m1);
        }
    }
}

/// Putting a piece of the mover's own side on a square removes exactly the
/// move onto that square from the moves of any other square, and leaves the
/// rest as they were.
pub proof fn lemma_own_piece_removes_destination(
    before: Board,
    after: Board,
    from_file: int,
    from_rank: int,
    c: Color,
    file: int,
    rank: int,
    q: Piece,
)
    requires
        on_board(from_file),
        on_board(from_rank),
        on_board(file),
        on_board(rank),
        !(from_file == file && from_rank == rank),
        q.color == c,
        is_placed(after, before, file, rank, q),
    ensures
        square_moves(after, from_file, from_rank, c) == square_moves(
            before,
            from_file,
            from_rank,
            c,
        ).filter(|m: Move| avoids(m, file, rank)),
{
    let sq = before.square_at(from_file, from_rank);
    assert(after.square_at(from_file, from_rank) == sq);
    match sq.piece {
        Some(p) => {
            if p.color == c {
                let cands = candidate_moves(sq);
                lemma_destinations_on_board(sq, piece_offsets(p));
                assert forall|j: int| 0 <= j < cands.len() implies (#[trigger] cands[j]).to.wf()
                    && moved_by(cands[j], c) by {}
                lemma_kept_moves_placed(before, after, cands, c, file, rank, q);
            } else {
                reveal(Seq::filter);
                assert(square_moves(before, from_file, from_rank, c).filter(
                    |m: Move| avoids(m, file, rank),
                ) =~= seq![]);
            }
        },
        None => {
            reveal(Seq::filter);
            assert(square_moves(before, from_file, from_rank, c).filter(
                |m: Move| avoids(m, file, rank),
            ) =~= seq![]);
        },
    }
}

/// A candidate whose on-board form is pseudo-legal is kept.
proof fn lemma_kept_moves_contains(b: Board, cands: Seq<Move>, j: int)
    requires
        0 <= j < cands.len(),
        is_pseudo_legal(on_board_move(b, cands[j])),
    ensures
        kept_moves(b, cands).contains(on_board_move(b, cands[j])),
    decreases cands.len(),
{
    let m = on_board_move(b, cands[j]);
    let prev = kept_moves(b, cands.drop_last());
    if j == cands.len() - 1 {
        assert(kept_moves(b, cands) == prev.push(m));
        assert(kept_moves(b, cands)[prev.len() as int] == m);
    } else {
        assert(cands.drop_last()[j] == cands[j]);
        lemma_kept_moves_contains(b, cands.drop_last(), j);
        let k = choose|k: int| 0 <= k < prev.len() && prev[k] == m;
        assert(kept_moves(b, cands)[k] == m);
    }
}

/// The moves of a square are among the moves of every longer run of squares.
proof fn lemma_moves_upto_contains(b: Board, c: Color, n: int, k: int, m: Move)
    requires
        0 <= k < n,
        square_moves(b, k / 8, k % 8, c).contains(m),
    ensures
        moves_upto(b, c, n).contains(m),
    decreases n,
{
    let prev = moves_upto(b, c, n - 1);
    let here = square_moves(b, (n - 1) / 8, (n - 1) % 8, c);
    if k == n - 1 {
        let i = choose|i: int| 0 <= i < here.len() && here[i] == m;
        assert((prev + here)[prev.len() + i] == m);
    } else {
        lemma_moves_upto_contains(b, c, n - 1, k, m);
        let i = choose|i: int| 0 <= i < prev.len() && prev[i] == m;
        assert((prev + here)[i] == m);
    }
}

/// A pawn's offsets: one step forward, two steps forward, then the two
/// forward diagonals; forward is increasing rank for White.
proof fn lemma_pawn_offsets()
    ensures
        ray_offsets(PieceType::Pawn) == seq![(0int, 1int), (0, 2), (1, 1), (-1, 1)],
{
    let ds = seq![RayDirection::North, RayDirection::NorthEast, RayDirection::NorthWest];
    let p = PieceType::Pawn;
    assert(ds.drop_last() == seq![RayDirection::North, RayDirection::NorthEast]);
    assert(ds.drop_last().drop_last() == seq![RayDirection::North]);
    assert(ds.drop_last().drop_last().drop_last() == Seq::<RayDirection>::empty());
    assert(ray(RayDirection::North, 2) == seq![(0int, 1int), (0, 2)]);
    assert(ray(RayDirection::NorthEast, 1) == seq![(1int, 1int)]);
    assert(ray(RayDirection::NorthWest, 1) == seq![(-1int, 1int)]);
    assert(seq![RayDirection::North].drop_last() == Seq::<RayDirection>::empty());
    assert(rays_along(p, Seq::<RayDirection>::empty()) == Seq::<(int, int)>::empty());
    assert(rays_along(p, seq![RayDirection::North]) == seq![(0int, 1int), (0, 2)]);
    assert(rays_along(p, seq![RayDirection::North, RayDirection::NorthEast]) == seq![
        (0int, 1int),
        (0, 2),
        (1, 1),
    ]);
}

/// A pawn on its side's starting rank, with the square two ranks ahead empty,
/// has the double step among the generated moves.
pub proof fn lemma_double_step_from_start_rank(b: Board, file: int, c: Color)
    requires
        on_board(file),
        b.piece_at(file, start_rank(c)) == Some(Piece { kind: PieceType::Pawn, color: c }),
        b.piece_at(file, double_step_rank(c)) is None,
    ensures
        generated_moves(b, c).contains(
            Move {
                from: b.square_at(file, start_rank(c)),
                to: b.square_at(file, double_step_rank(c)),
            },
        ),
{
    let sq = b.square_at(file, start_rank(c));
    let p = Piece { kind: PieceType::Pawn, color: c };
    let offs = piece_offsets(p);
    lemma_pawn_offsets();
    let forward: int = if c == Color::White {
        1
    } else {
        -1
    };
    assert(offs.len() == 4);
    assert(offs[0] == (0int, forward));
    assert(offs[1] == (0int, 2 * forward));
    let t0 = Square { file: file as usize, rank: (start_rank(c) + forward) as usize, piece: None };
    let t1 = Square { file: file as usize, rank: double_step_rank(c) as usize, piece: None };
    assert(offs.take(0).len() == 0);
    assert(offs.take(1).drop_last() == offs.take(0));
    assert(offs.take(2).drop_last() == offs.take(1));
    assert(destinations(sq, offs.take(0)) == Seq::<Square>::empty());
    assert(offs.take(1).last() == offs[0]);
    assert(offs.take(2).last() == offs[1]);
    assert(translate(sq, offs[0].0, offs[0].1) == Some(t0));
    assert(translate(sq, offs[1].0, offs[1].1) == Some(t1));
    assert(destinations(sq, offs.take(1)) == seq![t0]);
    assert(destinations(sq, offs.take(2)) == seq![t0, t1]);
    lemma_destinations_prefix(sq, offs, 2);
    let dests = destinations(sq, offs);
    assert(dests[1] == t1);
    let cands = candidate_moves(sq);
    assert(cands[1] == Move { from: sq, to: t1 });
    let m = on_board_move(b, cands[1]);
    assert(m == Move { from: sq, to: b.square_at(file, double_step_rank(c)) });
    assert(is_pseudo_legal(m));
    lemma_kept_moves_contains(b, cands, 1);
    let k = 8 * file + start_rank(c);
    assert(k / 8 == file && k % 8 == start_rank(c));
    lemma_moves_upto_contains(b, c, 64, k, m);
}

} // verus!
