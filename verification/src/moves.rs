//! Move legality: how a move of one piece to a square is classified, which
//! pieces stand on a diagonal path, and which squares a piece can reach.

use vstd::prelude::*;
use vstd::math::abs;
use crate::board::{Color, Position, Square, board_squares};
use crate::piece::{Piece, PieceType, piece_at, find_piece_at_position};

verus! {

/// What a requested move amounts to.
#[derive(Clone, Copy, Debug, PartialEq, Eq, Structural)]
pub enum MoveType {
    /// Not a move the rules allow; nothing changes.
    Invalid,
    /// A jump over one adjacent piece of the other side, which is captured.
    Take,
    /// A single diagonal step onto an empty square.
    Regular,
    /// The piece stays where it is and the turn ends.
    Pass,
}

impl MoveType {
    /// Whether this is a move that takes the piece to another square.
    pub open spec fn is_move(self) -> bool {
        self == MoveType::Regular || self == MoveType::Take
    }

    /// Tells whether this is a move that takes the piece to another square.
    pub fn moves_piece(&self) -> (r: bool)
        ensures
            r == self.is_move(),
    {
        match self {
            MoveType::Regular => true,
            MoveType::Take => true,
            MoveType::Invalid => false,
            MoveType::Pass => false,
        }
    }
}

/// Whether `piece` may change its row by `dx`: a king may go either way, a
/// normal piece only towards the row where it is crowned.
pub open spec fn direction_allowed(piece: Piece, dx: int) -> bool {
    match piece.piece_type {
        PieceType::King => true,
        PieceType::Normal => match piece.color {
            Color::White => dx > 0,
            Color::Black => dx < 0,
        },
    }
}

/// The coordinates half way between `piece` and `dest`: the square jumped
/// over where `dest` is two diagonal steps away.
pub open spec fn jumped_square(piece: Piece, dest: Square) -> (int, int) {
    (piece.x + (dest.x - piece.x) / 2, piece.y + (dest.y - piece.y) / 2)
}

/// The classification of the move of `piece` to `dest`, a square of the
/// board, among `pieces`.
///
/// Staying in place is a pass. Otherwise the destination must be empty and
/// the row must change in a direction allowed to the piece; then one
/// diagonal step is a regular move, and two diagonal steps over a piece of
/// the other side are a take. Everything else is invalid.
///
/// A square off the board is no destination at all: to ask for one is a
/// misuse, and nothing is said of it here.
pub open spec fn classify(piece: Piece, dest: Square, pieces: Seq<Piece>) -> MoveType
    recommends
        dest.on_board(),
{
    let dx = dest.x - piece.x;
    let dy = dest.y - piece.y;
    if dx == 0 && dy == 0 {
        MoveType::Pass
    } else if piece_at(pieces, dest.x as int, dest.y as int) is Some {
        MoveType::Invalid
    } else if !direction_allowed(piece, dx) {
        MoveType::Invalid
    } else if abs(dx) == 1 && abs(dy) == 1 {
        MoveType::Regular
    } else if abs(dx) == 2 && abs(dy) == 2 {
        match piece_at(pieces, jumped_square(piece, dest).0, jumped_square(piece, dest).1) {
            Some(other) => if other.color != piece.color {
                MoveType::Take
            } else {
                MoveType::Invalid
            },
            None => MoveType::Invalid,
        }
    } else {
        MoveType::Invalid
    }
}

/// The coordinates `n` diagonal steps from `begin` in the direction of `end`.
pub open spec fn diagonal_square(begin: Position, end: Position, n: int) -> (int, int) {
    (
        if begin.0 < end.0 {
            begin.0 + n
        } else {
            begin.0 - n
        },
        if begin.1 < end.1 {
            begin.1 + n
        } else {
            begin.1 - n
        },
    )
}

/// The pieces met on the first `n` squares after `begin` on the way to
/// `end`, nearest first.
pub open spec fn collisions_within(
    begin: Position,
    end: Position,
    pieces: Seq<Piece>,
    n: nat,
) -> Seq<Piece>
    decreases n,
{
    if n == 0 {
        Seq::empty()
    } else {
        let nearer = collisions_within(begin, end, pieces, (n - 1) as nat);
        let (x, y) = diagonal_square(begin, end, n as int);
        match piece_at(pieces, x, y) {
            Some(p) => nearer.push(p),
            None => nearer,
        }
    }
}

/// The pieces that stand strictly between `begin` and `end`, nearest to
/// `begin` first, where the two lie on one diagonal; none where they do not.
pub open spec fn collisions(begin: Position, end: Position, pieces: Seq<Piece>) -> Seq<Piece> {
    let dx = abs(begin.0 - end.0);
    let dy = abs(begin.1 - end.1);
    if dx == dy && dx > 0 {
        collisions_within(begin, end, pieces, (dx - 1) as nat)
    } else {
        Seq::empty()
    }
}

/// The squares, as a predicate, to which `piece` can move among `pieces`
/// by a regular move or a take.
pub open spec fn reaches(piece: Piece, pieces: Seq<Piece>) -> spec_fn(Square) -> bool {
    |sq: Square| classify(piece, sq, pieces).is_move()
}

/// The coordinates of a square.
pub open spec fn position_of() -> spec_fn(Square) -> Position {
    |sq: Square| (sq.x, sq.y)
}

/// Whether each of `squares` lies on the board.
pub open spec fn all_on_board(squares: Seq<Square>) -> bool {
    forall|k: int| 0 <= k < squares.len() ==> (#[trigger] squares[k]).on_board()
}

/// Those of `squares`, squares of the board, in their order, to which
/// `piece` can move among `pieces` by a regular move or a take.
pub open spec fn destinations_among(piece: Piece, squares: Seq<Square>, pieces: Seq<Piece>) -> Seq<
    Position,
>
    recommends
        all_on_board(squares),
{
    squares.filter(reaches(piece, pieces)).map_values(position_of())
}

/// The squares of the board, row by row, to which `piece` can move among
/// `pieces` by a regular move or a take.
pub open spec fn destinations(piece: Piece, pieces: Seq<Piece>) -> Seq<Position> {
    destinations_among(piece, board_squares(), pieces)
}

/// Whether the move of `piece` to one of `squares`, squares of the board,
/// is a take.
pub open spec fn takes_among(piece: Piece, squares: Seq<Square>, pieces: Seq<Piece>) -> bool
    recommends
        all_on_board(squares),
{
    exists|k: int|
        0 <= k < squares.len() && classify(piece, #[trigger] squares[k], pieces) == MoveType::Take
}

/// Whether `piece` has a take to some square of the board.
pub open spec fn has_take(piece: Piece, pieces: Seq<Piece>) -> bool {
    takes_among(piece, board_squares(), pieces)
}

/// The distance between two coordinates.
fn distance(a: u8, b: u8) -> (r: u8)
    ensures
        r == abs(a - b),
{
    if a < b {
        b - a
    } else {
        a - b
    }
}

/// The coordinate `n` steps from `from` towards `to`.
fn stepped(from: u8, to: u8, n: u8) -> (r: u8)
    requires
        n <= abs(from - to),
    ensures
        r == (if from < to {
            from + n
        } else {
            from - n
        }),
{
    if from < to {
        from + n
    } else {
        from - n
    }
}

impl Piece {
    /// Tells whether this piece may change its row from its own to `row`.
    pub fn may_head_to(&self, row: u8) -> (r: bool)
        ensures
            r == direction_allowed(*self, row - self.x),
    {
        match self.piece_type {
            PieceType::King => true,
            PieceType::Normal => match self.color {
                Color::White => row > self.x,
                Color::Black => row < self.x,
            },
        }
    }

    /// Returns the pieces that stand strictly between `begin` and `end` on
    /// their diagonal, nearest to `begin` first.
    pub fn path_collisions(&self, begin: (u8, u8), end: (u8, u8), pieces: &Vec<Piece>) -> (r: Vec<
        Piece,
    >)
        ensures
            r@ == collisions(begin, end, pieces@),
    {
        let mut found: Vec<Piece> = Vec::new();
        let x_diff = distance(begin.0, end.0);
        let y_diff = distance(begin.1, end.1);
        if x_diff == y_diff && x_diff > 0 {
            let mut i: u8 = 1;
            while i < x_diff
                invariant
                    1 <= i <= x_diff,
                    x_diff == abs(begin.0 - end.0),
                    x_diff == abs(begin.1 - end.1),
                    found@ == collisions_within(begin, end, pieces@, (i - 1) as nat),
                decreases x_diff - i,
            {
                let pos = (stepped(begin.0, end.0, i), stepped(begin.1, end.1, i));
                if let Some(piece) = find_piece_at_position(pos, pieces) {
                    found.push(piece);
                }
                i = i + 1;
            }
        }
        found
    }

    /// Classifies the move of this piece to `new_square`, a square of the
    /// board, among `pieces`.
    pub fn is_move_valid(&self, new_square: Square, pieces: &Vec<Piece>) -> (r: MoveType)
        requires
            new_square.on_board(),
        ensures
            r == classify(*self, new_square, pieces@),
    {
        if self.x == new_square.x && self.y == new_square.y {
            return MoveType::Pass;
        }
        if find_piece_at_position((new_square.x, new_square.y), pieces).is_some() {
            return MoveType::Invalid;
        }
        let found = self.path_collisions((self.x, self.y), (new_square.x, new_square.y), pieces);
        let x_diff = distance(self.x, new_square.x);
        let y_diff = distance(self.y, new_square.y);
        let diagonal = x_diff == y_diff;
        let heading = self.may_head_to(new_square.x);
        proof {
            reveal_with_fuel(collisions_within, 2);
        }
        if found.len() == 0 {
            if diagonal && x_diff == 1 && heading {
                MoveType::Regular
            } else {
                MoveType::Invalid
            }
        } else if found.len() == 1 {
            if diagonal && x_diff == 2 && heading {
                if found[0].color != self.color {
                    MoveType::Take
                } else {
                    MoveType::Invalid
                }
            } else {
                MoveType::Invalid
            }
        } else {
            MoveType::Invalid
        }
    }

    /// Classifies the move of this piece to `new_square` among `pieces`, or
    /// returns nothing if `new_square` lies off the board: such a request is
    /// a misuse and gets no classification.
    pub fn classify_move(&self, new_square: Square, pieces: &Vec<Piece>) -> (r: Option<MoveType>)
        ensures
            r == (if new_square.on_board() {
                Some(classify(*self, new_square, pieces@))
            } else {
                None
            }),
    {
        if new_square.is_on_board() {
            Some(self.is_move_valid(new_square, pieces))
        } else {
            None
        }
    }

    /// Returns those of `squares`, squares of the board, in their order, to
    /// which this piece can move among `pieces` by a regular move or a take.
    pub fn reachable(&self, squares: &Vec<Square>, pieces: &Vec<Piece>) -> (r: Vec<Position>)
        requires
            all_on_board(squares@),
        ensures
            r@ == destinations_among(*self, squares@, pieces@),
    {
        let mut out: Vec<Position> = Vec::new();
        let mut i: usize = 0;
        assert(squares@.take(0) =~= Seq::<Square>::empty());
        while i < squares.len()
            invariant
                i <= squares.len(),
                all_on_board(squares@),
                out@ == destinations_among(*self, squares@.take(i as int), pieces@),
            decreases squares.len() - i,
        {
            let sq = squares[i];
            let kind = self.is_move_valid(sq, pieces);
            proof {
                let seen = squares@.take(i as int);
                squares@.lemma_take_succ_push(i as int);
                seen.lemma_filter_push(sq, reaches(*self, pieces@));
                seen.filter(reaches(*self, pieces@)).lemma_push_map_commute(position_of(), sq);
            }
            if kind.moves_piece() {
                out.push((sq.x, sq.y));
            }
            i = i + 1;
        }
        assert(squares@.take(squares.len() as int) =~= squares@);
        out
    }

    /// Tells whether the move of this piece to one of `squares`, squares of
    /// the board, is a take.
    pub fn can_take(&self, squares: &Vec<Square>, pieces: &Vec<Piece>) -> (r: bool)
        requires
            all_on_board(squares@),
        ensures
            r == takes_among(*self, squares@, pieces@),
    {
        let mut i: usize = 0;
        while i < squares.len()
            invariant
                i <= squares.len(),
                all_on_board(squares@),
                forall|k: int|
                    0 <= k < i ==> classify(*self, #[trigger] squares@[k], pieces@)
                        != MoveType::Take,
            decreases squares.len() - i,
        {
            if self.is_move_valid(squares[i], pieces) == MoveType::Take {
                return true;
            }
            i = i + 1;
        }
        false
    }
}

} // verus!
