use vstd::prelude::*;

use crate::color::Color;
use crate::piece::{Piece, PieceType};
use crate::square::{notation, translate, Square};
use crate::text::push_char;

verus! {

/// A signed `(file, rank)` displacement from an origin square.
pub type MoveOffset = (i8, i8);

/// An offset as a pair of mathematical integers.
pub open spec fn offset_value(o: MoveOffset) -> (int, int) {
    (o.0 as int, o.1 as int)
}

/// A sequence of offsets as pairs of mathematical integers.
pub open spec fn offsets_value(v: Seq<MoveOffset>) -> Seq<(int, int)> {
    v.map_values(|o: MoveOffset| offset_value(o))
}

/// The eight knight displacements, in the order of `KnightDirection`.
pub open spec fn knight_offsets() -> Seq<(int, int)> {
    seq![(-1, 2), (1, 2), (2, 1), (2, -1), (1, -2), (-1, -2), (-2, -1), (-2, 1)]
}

/// The unit step of each ray direction; White's forward is increasing rank.
pub open spec fn direction_step(d: RayDirection) -> (int, int) {
    match d {
        RayDirection::North => (0, 1),
        RayDirection::NorthEast => (1, 1),
        RayDirection::East => (1, 0),
        RayDirection::SouthEast => (1, -1),
        RayDirection::South => (0, -1),
        RayDirection::SouthWest => (-1, -1),
        RayDirection::West => (-1, 0),
        RayDirection::NorthWest => (-1, 1),
    }
}

/// The ray directions of each kind, from White's side of the board.
pub open spec fn kind_directions(kind: PieceType) -> Seq<RayDirection> {
    match kind {
        PieceType::Pawn => seq![RayDirection::North, RayDirection::NorthEast, RayDirection::NorthWest],
        PieceType::Knight => seq![],
        PieceType::Bishop => seq![
            RayDirection::NorthEast,
            RayDirection::SouthEast,
            RayDirection::SouthWest,
            RayDirection::NorthWest,
        ],
        PieceType::Rook => seq![
            RayDirection::North,
            RayDirection::East,
            RayDirection::South,
            RayDirection::West,
        ],
        PieceType::Queen | PieceType::King => seq![
            RayDirection::North,
            RayDirection::NorthEast,
            RayDirection::East,
            RayDirection::SouthEast,
            RayDirection::South,
            RayDirection::SouthWest,
            RayDirection::West,
            RayDirection::NorthWest,
        ],
    }
}

/// How many steps a kind may take along a ray: one for leapers and the king,
/// two for a pawn (its double advance), seven for sliders.
pub open spec fn kind_multiplier(kind: PieceType) -> int {
    match kind {
        PieceType::Pawn => 2,
        PieceType::King | PieceType::Knight => 1,
        PieceType::Bishop | PieceType::Rook | PieceType::Queen => 7,
    }
}

/// Steps along direction `d` for a piece of `kind`: a pawn's diagonals are a
/// single step, only its forward ray takes two.
pub open spec fn ray_length(kind: PieceType, d: RayDirection) -> int {
    if kind == PieceType::Pawn && d != RayDirection::North {
        1
    } else {
        kind_multiplier(kind)
    }
}

/// The first `n` multiples of the step of `d`.
pub open spec fn ray(d: RayDirection, n: int) -> Seq<(int, int)> {
    Seq::new(n as nat, |i: int| ((i + 1) * direction_step(d).0, (i + 1) * direction_step(d).1))
}

/// The rays of `kind` along each of `ds`, one after another.
pub open spec fn rays_along(kind: PieceType, ds: Seq<RayDirection>) -> Seq<(int, int)>
    decreases ds.len(),
{
    if ds.len() == 0 {
        seq![]
    } else {
        rays_along(kind, ds.drop_last()) + ray(ds.last(), ray_length(kind, ds.last()))
    }
}

/// All ray offsets of a kind, from White's side of the board.
pub open spec fn ray_offsets(kind: PieceType) -> Seq<(int, int)> {
    rays_along(kind, kind_directions(kind))
}

/// The same offsets seen from the other side: ranks reversed.
pub open spec fn mirrored(offs: Seq<(int, int)>) -> Seq<(int, int)> {
    offs.map_values(|o: (int, int)| (o.0, -o.1))
}

/// The offsets a piece may move by, before the board edge is considered.
/// A black pawn advances toward decreasing rank.
pub open spec fn piece_offsets(p: Piece) -> Seq<(int, int)> {
    if p.kind == PieceType::Knight {
        knight_offsets()
    } else if p.kind == PieceType::Pawn && p.color == Color::Black {
        mirrored(ray_offsets(PieceType::Pawn))
    } else {
        ray_offsets(p.kind)
    }
}

/// The squares that the offsets reach from `sq` without leaving the board, in
/// the offsets' order.
pub open spec fn destinations(sq: Square, offs: Seq<(int, int)>) -> Seq<Square>
    decreases offs.len(),
{
    if offs.len() == 0 {
        seq![]
    } else {
        let prev = destinations(sq, offs.drop_last());
        match translate(sq, offs.last().0, offs.last().1) {
            Some(t) => prev.push(t),
            None => prev,
        }
    }
}

/// The geometric candidate moves from a square: one per destination of its
/// piece, none for an empty square.
pub open spec fn candidate_moves(from: Square) -> Seq<Move> {
    match from.piece {
        Some(p) => destinations(from, piece_offsets(p)).map_values(|t: Square| Move { from, to: t }),
        None => seq![],
    }
}

/// Every destination lies on the board.
pub proof fn lemma_destinations_on_board(sq: Square, offs: Seq<(int, int)>)
    ensures
        forall|i: int|
            0 <= i < destinations(sq, offs).len() ==> (#[trigger] destinations(sq, offs)[i]).wf(),
    decreases offs.len(),
{
    if offs.len() > 0 {
        lemma_destinations_on_board(sq, offs.drop_last());
        let prev = destinations(sq, offs.drop_last());
        if let Some(t) = translate(sq, offs.last().0, offs.last().1) {
            assert forall|i: int| 0 <= i < prev.push(t).len() implies (#[trigger] prev.push(t)[i]).wf() by {
                if i < prev.len() {
                    assert(prev.push(t)[i] == prev[i]);
                }
            }
        }
    }
}

/// The destinations of the first `n` offsets begin the destinations of all.
pub proof fn lemma_destinations_prefix(sq: Square, offs: Seq<(int, int)>, n: int)
    requires
        0 <= n <= offs.len(),
    ensures
        destinations(sq, offs.take(n)).len() <= destinations(sq, offs).len(),
        forall|i: int|
            0 <= i < destinations(sq, offs.take(n)).len() ==> #[trigger] destinations(sq, offs)[i]
                == destinations(sq, offs.take(n))[i],
    decreases offs.len(),
{
    if n == offs.len() {
        assert(offs.take(n) == offs);
    } else {
        let init = offs.drop_last();
        assert(init.take(n) == offs.take(n));
        lemma_destinations_prefix(sq, init, n);
    }
}

/// Where every offset stays on the board, each gives one destination, in order.
pub proof fn lemma_destinations_all_on_board(sq: Square, offs: Seq<(int, int)>)
    requires
        forall|i: int| 0 <= i < offs.len() ==> (#[trigger] translate(sq, offs[i].0, offs[i].1)) is Some,
    ensures
        destinations(sq, offs).len() == offs.len(),
        forall|i: int|
            0 <= i < offs.len() ==> Some(#[trigger] destinations(sq, offs)[i]) == translate(
                sq,
                offs[i].0,
                offs[i].1,
            ),
    decreases offs.len(),
{
    if offs.len() > 0 {
        let init = offs.drop_last();
        assert forall|i: int| 0 <= i < init.len() implies (#[trigger] translate(sq, init[i].0, init[i].1)) is Some by {
            assert(init[i] == offs[i]);
        }
        lemma_destinations_all_on_board(sq, init);
        assert(offs.last() == offs[offs.len() - 1]);
        assert(translate(sq, offs[offs.len() - 1].0, offs[offs.len() - 1].1) is Some);
        assert forall|i: int| 0 <= i < offs.len() implies Some(#[trigger] destinations(sq, offs)[i]) == translate(
            sq,
            offs[i].0,
            offs[i].1,
        ) by {
            if i < init.len() {
                assert(init[i] == offs[i]);
            }
        }
    }
}

/// A knight at least two files and two ranks from every edge has all eight
/// jumps as candidates, one per offset and no two alike.
pub proof fn lemma_knight_center(sq: Square)
    requires
        sq.piece matches Some(p) && p.kind == PieceType::Knight,
        2 <= sq.file <= 5,
        2 <= sq.rank <= 5,
    ensures
        candidate_moves(sq).len() == 8,
        forall|i: int|
            0 <= i < 8 ==> {
                &&& (#[trigger] candidate_moves(sq)[i]).from == sq
                &&& candidate_moves(sq)[i].to.file == sq.file + knight_offsets()[i].0
                &&& candidate_moves(sq)[i].to.rank == sq.rank + knight_offsets()[i].1
            },
        forall|i: int, j: int|
            0 <= i < 8 && 0 <= j < 8 && i != j ==> !(#[trigger] candidate_moves(sq)[i].to
                == #[trigger] candidate_moves(sq)[j].to),
{
    let offs = knight_offsets();
    assert forall|i: int| 0 <= i < offs.len() implies (#[trigger] translate(sq, offs[i].0, offs[i].1)) is Some by {}
    lemma_destinations_all_on_board(sq, offs);
    let dests = destinations(sq, offs);
    assert forall|i: int, j: int| 0 <= i < 8 && 0 <= j < 8 && i != j implies !(
    #[trigger] candidate_moves(sq)[i].to == #[trigger] candidate_moves(sq)[j].to) by {
        assert(Some(dests[i]) == translate(sq, offs[i].0, offs[i].1));
        assert(Some(dests[j]) == translate(sq, offs[j].0, offs[j].1));
    }
}

/// Every ray offset moves at most seven files and seven ranks.
proof fn lemma_rays_bounded(kind: PieceType, ds: Seq<RayDirection>)
    requires
        0 <= kind_multiplier(kind) <= 7,
    ensures
        forall|i: int|
            0 <= i < rays_along(kind, ds).len() ==> {
                &&& -7 <= (#[trigger] rays_along(kind, ds)[i]).0 <= 7
                &&& -7 <= rays_along(kind, ds)[i].1 <= 7
            },
    decreases ds.len(),
{
    if ds.len() > 0 {
        lemma_rays_bounded(kind, ds.drop_last());
        let d = ds.last();
        let r = ray(d, ray_length(kind, d));
        assert forall|i: int| 0 <= i < r.len() implies -7 <= (#[trigger] r[i]).0 <= 7 && -7 <= r[i].1 <= 7 by {
            let s = direction_step(d);
            assert(-7 <= (i + 1) * s.0 <= 7) by (nonlinear_arith)
                requires
                    0 <= i < 7,
                    -1 <= s.0 <= 1,
            ;
            assert(-7 <= (i + 1) * s.1 <= 7) by (nonlinear_arith)
                requires
                    0 <= i < 7,
                    -1 <= s.1 <= 1,
            ;
        }
        let prev = rays_along(kind, ds.drop_last());
        assert forall|i: int| 0 <= i < (prev + r).len() implies {
            &&& -7 <= (#[trigger] (prev + r)[i]).0 <= 7
            &&& -7 <= (prev + r)[i].1 <= 7
        } by {
            if i < prev.len() {
                assert((prev + r)[i] == prev[i]);
            } else {
                assert((prev + r)[i] == r[i - prev.len()]);
            }
        }
    }
}

/// Lists the geometric candidate moves from one square.
pub struct MovesFinder {
    from: Square,
}

impl MovesFinder {
    /// The square whose moves are listed.
    pub closed spec fn origin(&self) -> Square {
        self.from
    }

    /// The candidate moves of the piece on the origin: one for each square
    /// its geometry reaches on the board, none where the origin is empty.
    pub fn list(&self) -> (r: Moves)
        ensures
            r.0@ == candidate_moves(self.origin()),
    {
        let mut moves: Vec<Move> = Vec::new();
        if let Some(offsets) = Direction::offsets(self.from) {
            let ghost dests = offsets@;
            for i in 0..offsets.len()
                invariant
                    dests == offsets@,
                    moves@ == dests.take(i as int).map_values(|t: Square| Move { from: self.from, to: t }),
            {
                moves.push(Move { from: self.from, to: offsets[i] });
                proof {
                    assert(dests.take(i + 1) == dests.take(i as int).push(dests[i as int]));
                }
            }
            assert(dests.take(dests.len() as int) == dests);
        }
        Moves(moves)
    }

    pub fn new(from: Square) -> (r: Self)
        ensures
            r.origin() == from,
    {
        Self { from }
    }
}

/// A family of movement directions.
#[derive(Debug, PartialEq, Eq, Structural)]
pub enum Direction {
    Ray(RayDirection),
    Knight(KnightDirection),
}

impl Direction {
    /// The squares that the piece on `sq` reaches by its geometry alone, in
    /// its direction-table order; `None` for an empty square.
    pub fn offsets(sq: Square) -> (r: Option<Vec<Square>>)
        ensures
            match sq.piece {
                Some(p) => r matches Some(v) && v@ == destinations(sq, piece_offsets(p)),
                None => r is None,
            },
    {
        let piece = match sq.piece {
            Some(p) => p,
            None => return None,
        };
        let mut offsets: Vec<Square> = Vec::new();
        if piece.kind == PieceType::Knight {
            let directions = [
                KnightDirection::NorthNorthWest,
                KnightDirection::NorthNorthEast,
                KnightDirection::NorthEastEast,
                KnightDirection::SouthEastEast,
                KnightDirection::SouthSouthEast,
                KnightDirection::SouthSouthWest,
                KnightDirection::SouthWestWest,
                KnightDirection::NorthWestWest,
            ];
            let ghost offs = knight_offsets();
            for i in 0..8usize
                invariant
                    offs == knight_offsets(),
                    forall|j: int| 0 <= j < 8 ==> #[trigger] knight_offset(directions@[j]) == offs[j],
                    offsets@ == destinations(sq, offs.take(i as int)),
            {
                let o = directions[i].offset();
                proof {
                    assert(offs.take(i + 1).drop_last() == offs.take(i as int));
                }
                if let Some(s) = sq.move_to(o) {
                    offsets.push(s);
                }
            }
            assert(offs.take(8) == offs);
        } else {
            let rays = RayDirection::rays(piece.kind);
            let flip = piece.kind == PieceType::Pawn && piece.color == Color::Black;
            let ghost offs = piece_offsets(piece);
            proof {
                lemma_rays_bounded(piece.kind, kind_directions(piece.kind));
            }
            for i in 0..rays.len()
                invariant
                    offs == piece_offsets(piece),
                    piece.kind != PieceType::Knight,
                    flip == (piece.kind == PieceType::Pawn && piece.color == Color::Black),
                    offsets_value(rays@) == ray_offsets(piece.kind),
                    forall|j: int|
                        0 <= j < ray_offsets(piece.kind).len() ==> -7 <= (
                        #[trigger] ray_offsets(piece.kind)[j]).1 <= 7,
                    offsets@ == destinations(sq, offs.take(i as int)),
            {
                let o = rays[i];
                assert(offsets_value(rays@)[i as int] == offset_value(o));
                let o = if flip {
                    (o.0, -o.1)
                } else {
                    o
                };
                proof {
                    assert(offs.take(i + 1).drop_last() == offs.take(i as int));
                }
                if let Some(s) = sq.move_to(o) {
                    offsets.push(s);
                }
            }
            assert(offs.take(rays.len() as int) == offs);
        }
        Some(offsets)
    }
}

/// The eight knight jumps.
#[derive(Debug, Clone, Copy, PartialEq, Eq, Structural)]
pub enum KnightDirection {
    NorthNorthWest,
    NorthNorthEast,
    NorthEastEast,
    SouthEastEast,
    SouthSouthEast,
    SouthSouthWest,
    SouthWestWest,
    NorthWestWest,
}

/// The displacement of each knight jump.
pub open spec fn knight_offset(d: KnightDirection) -> (int, int) {
    match d {
        KnightDirection::NorthNorthWest => (-1, 2),
        KnightDirection::NorthNorthEast => (1, 2),
        KnightDirection::NorthEastEast => (2, 1),
        KnightDirection::SouthEastEast => (2, -1),
        KnightDirection::SouthSouthEast => (1, -2),
        KnightDirection::SouthSouthWest => (-1, -2),
        KnightDirection::SouthWestWest => (-2, -1),
        KnightDirection::NorthWestWest => (-2, 1),
    }
}

impl KnightDirection {
    fn offset(&self) -> (r: MoveOffset)
        ensures
            offset_value(r) == knight_offset(*self),
    {
        match self {
            KnightDirection::NorthNorthWest => (-1, 2),
            KnightDirection::NorthNorthEast => (1, 2),
            KnightDirection::NorthEastEast => (2, 1),
            KnightDirection::SouthEastEast => (2, -1),
            KnightDirection::SouthSouthEast => (1, -2),
            KnightDirection::SouthSouthWest => (-1, -2),
            KnightDirection::SouthWestWest => (-2, -1),
            KnightDirection::NorthWestWest => (-2, 1),
        }
    }
}

/// The eight compass directions along which rays run.
#[derive(Debug, Clone, Copy, PartialEq, Eq, Structural)]
pub enum RayDirection {
    North,
    NorthEast,
    East,
    SouthEast,
    South,
    SouthWest,
    West,
    NorthWest,
}

impl RayDirection {
    fn piece_directions(pt: PieceType) -> (r: Vec<RayDirection>)
        ensures
            r@ == kind_directions(pt),
    {
        match pt {
            PieceType::Pawn => vec![RayDirection::North, RayDirection::NorthEast, RayDirection::NorthWest],
            PieceType::Knight => vec![],
            PieceType::Bishop => vec![
                RayDirection::NorthEast,
                RayDirection::SouthEast,
                RayDirection::SouthWest,
                RayDirection::NorthWest,
            ],
            PieceType::Rook => vec![
                RayDirection::North,
                RayDirection::East,
                RayDirection::South,
                RayDirection::West,
            ],
            PieceType::Queen | PieceType::King => vec![
                RayDirection::North,
                RayDirection::NorthEast,
                RayDirection::East,
                RayDirection::SouthEast,
                RayDirection::South,
                RayDirection::SouthWest,
                RayDirection::West,
                RayDirection::NorthWest,
            ],
        }
    }

    fn multiplier(pt: PieceType) -> (r: i8)
        ensures
            r == kind_multiplier(pt),
    {
        match pt {
            PieceType::Pawn => 2,
            PieceType::King | PieceType::Knight => 1,
            PieceType::Bishop | PieceType::Rook | PieceType::Queen => 7,
        }
    }

    fn offset(&self) -> (r: MoveOffset)
        ensures
            offset_value(r) == direction_step(*self),
    {
        match self {
            RayDirection::North => (0, 1),
            RayDirection::NorthEast => (1, 1),
            RayDirection::East => (1, 0),
            RayDirection::SouthEast => (1, -1),
            RayDirection::South => (0, -1),
            RayDirection::SouthWest => (-1, -1),
            RayDirection::West => (-1, 0),
            RayDirection::NorthWest => (-1, 1),
        }
    }

    /// Every offset along the rays of `piece`, direction by direction and,
    /// within a direction, nearest first; seen from White's side.
    pub fn rays(piece: PieceType) -> (r: Vec<MoveOffset>)
        ensures
            offsets_value(r@) == ray_offsets(piece),
    {
        let mut res: Vec<MoveOffset> = Vec::new();
        let directions = RayDirection::piece_directions(piece);
        let ghost ds = directions@;
        for i in 0..directions.len()
            invariant
                ds == directions@,
                ds == kind_directions(piece),
                offsets_value(res@) == rays_along(piece, ds.take(i as int)),
        {
            let direction = directions[i];
            let step = direction.offset();
            let limit: i8 = if piece == PieceType::Pawn && direction != RayDirection::North {
                1
            } else {
                RayDirection::multiplier(piece)
            };
            assert(ds.take(i + 1).drop_last() == ds.take(i as int));
            let ghost before = offsets_value(res@);
            let mut mult: i8 = 1;
            while mult <= limit
                invariant
                    1 <= mult <= limit + 1,
                    limit == ray_length(piece, direction),
                    1 <= limit <= 7,
                    offset_value(step) == direction_step(direction),
                    offsets_value(res@) == before + ray(direction, mult - 1),
                decreases limit + 1 - mult,
            {
                let ghost s = direction_step(direction);
                assert(-7 <= mult * step.0 <= 7) by (nonlinear_arith)
                    requires
                        1 <= mult <= 7,
                        -1 <= step.0 <= 1,
                ;
                assert(-7 <= mult * step.1 <= 7) by (nonlinear_arith)
                    requires
                        1 <= mult <= 7,
                        -1 <= step.1 <= 1,
                ;
                let ghost prev = res@;
                res.push((mult * step.0, mult * step.1));
                assert(offsets_value(res@) == offsets_value(prev).push(
                    (mult * step.0, mult * step.1),
                ));
                assert(ray(direction, mult as int) == ray(direction, mult - 1).push(
                    (mult * s.0, mult * s.1),
                ));
                mult = mult + 1;
            }
            assert(rays_along(piece, ds.take(i + 1)) == rays_along(piece, ds.take(i as int)) + ray(
                direction,
                ray_length(piece, direction),
            ));
        }
        assert(ds.take(ds.len() as int) == ds);
        res
    }
}

/// A move: the square left and the square reached, each as it stands on the
/// board. Two moves are equal when their squares' coordinates are.
#[derive(Debug, Copy, Clone)]
pub struct Move {
    pub from: Square,
    pub to: Square,
}

impl PartialEq for Move {
    fn eq(&self, other: &Self) -> (r: bool)
        ensures
            r == (self.from.file == other.from.file && self.from.rank == other.from.rank
                && self.to.file == other.to.file && self.to.rank == other.to.rank),
    {
        self.from == other.from && self.to == other.to
    }
}

impl vstd::std_specs::cmp::PartialEqSpecImpl for Move {
    open spec fn obeys_eq_spec() -> bool {
        true
    }

    open spec fn eq_spec(&self, other: &Move) -> bool {
        self.from.file == other.from.file && self.from.rank == other.from.rank && self.to.file
            == other.to.file && self.to.rank == other.to.rank
    }
}

impl Move {
    /// The move changes file and rank by the same nonzero distance.
    pub open spec fn spec_is_diagonal(&self) -> bool {
        let df = self.to.file - self.from.file;
        let dr = self.to.rank - self.from.rank;
        df != 0 && (df == dr || df == -dr)
    }

    /// The move stays on its file and changes rank by two.
    pub open spec fn is_double_step(self) -> bool {
        self.to.file == self.from.file && (self.to.rank - self.from.rank == 2 || self.from.rank
            - self.to.rank == 2)
    }

    /// Whether the move changes file and rank by the same nonzero distance.
    #[verifier::when_used_as_spec(spec_is_diagonal)]
    pub fn is_diagonal(&self) -> (r: bool)
        ensures
            r == self.spec_is_diagonal(),
    {
        let df = if self.to.file >= self.from.file {
            self.to.file - self.from.file
        } else {
            self.from.file - self.to.file
        };
        let dr = if self.to.rank >= self.from.rank {
            self.to.rank - self.from.rank
        } else {
            self.from.rank - self.to.rank
        };
        df != 0 && df == dr
    }

    /// The move in the form `e2-e4`.
    pub fn to_string(&self) -> (r: String)
        requires
            self.from.wf(),
            self.to.wf(),
        ensures
            r@ == move_text(*self),
    {
        let mut s = self.from.get_square_string();
        push_char(&mut s, '-');
        let to = self.to.get_square_string();
        push_char(&mut s, to.as_str().get_char(0));
        push_char(&mut s, to.as_str().get_char(1));
        s
    }
}

/// The text of a move: both squares' names joined by `-`.
pub open spec fn move_text(m: Move) -> Seq<char> {
    notation(m.from.file as int, m.from.rank as int) + seq!['-'] + notation(
        m.to.file as int,
        m.to.rank as int,
    )
}

/// The text of a sequence of moves: each move followed by a space.
pub open spec fn moves_text(ms: Seq<Move>) -> Seq<char>
    decreases ms.len(),
{
    if ms.len() == 0 {
        seq![]
    } else {
        moves_text(ms.drop_last()) + move_text(ms.last()) + seq![' ']
    }
}

/// An ordered list of moves.
#[derive(Debug)]
pub struct Moves(pub Vec<Move>);

impl Moves {
    /// Each move in the form `e2-e4`, each followed by a space.
    pub fn to_string(&self) -> (r: String)
        requires
            forall|i: int| 0 <= i < self.0@.len() ==> (#[trigger] self.0@[i]).from.wf() && self.0@[i].to.wf(),
        ensures
            r@ == moves_text(self.0@),
    {
        let mut s = String::new();
        for i in 0..self.0.len()
            invariant
                forall|j: int| 0 <= j < self.0@.len() ==> (#[trigger] self.0@[j]).from.wf() && self.0@[j].to.wf(),
                s@ == moves_text(self.0@.take(i as int)),
        {
            let text = self.0[i].to_string();
            let ghost before = s@;
            push_char(&mut s, text.as_str().get_char(0));
            push_char(&mut s, text.as_str().get_char(1));
            push_char(&mut s, text.as_str().get_char(2));
            push_char(&mut s, text.as_str().get_char(3));
            push_char(&mut s, text.as_str().get_char(4));
            push_char(&mut s, ' ');
            assert(self.0@.take(i + 1).drop_last() == self.0@.take(i as int));
            assert(s@ == before + text@ + seq![' ']);
        }
        assert(self.0@.take(self.0@.len() as int) == self.0@);
        s
    }
}

impl From<Vec<Move>> for Moves {
    fn from(moves: Vec<Move>) -> (r: Self)
        ensures
            r.0@ == moves@,
    {
        Moves(moves)
    }
}

impl vstd::std_specs::convert::FromSpecImpl<Vec<Move>> for Moves {
    open spec fn obeys_from_spec() -> bool {
        true
    }

    open spec fn from_spec(moves: Vec<Move>) -> Moves {
        Moves(moves)
    }
}

} // verus!
