//! Pieces, and the lookups by square and by identity on a list of pieces.

use vstd::prelude::*;
use crate::board::{Color, Square, on_board};

verus! {

/// Number of pieces in a game, and so the bound of the piece identities.
pub const PIECE_COUNT: u8 = 24;

/// The row on which a normal White piece is crowned.
pub const WHITE_CROWN_ROW: u8 = 7;

/// The row on which a normal Black piece is crowned.
pub const BLACK_CROWN_ROW: u8 = 0;

/// The rank of a piece. A normal piece becomes a king; a king stays one.
#[derive(Clone, Copy, Debug, PartialEq, Eq, Structural)]
pub enum PieceType {
    Normal,
    King,
}

/// A piece: its side, its rank, where it stands and its identity.
#[derive(Clone, Copy, Debug, PartialEq, Eq, Structural)]
pub struct Piece {
    pub color: Color,
    pub piece_type: PieceType,
    pub y: u8,
    pub x: u8,
    pub id: u8,
}

/// The row on which a normal piece of the given side is crowned: the row
/// farthest from where that side starts.
pub open spec fn crown_row(color: Color) -> int {
    match color {
        Color::White => WHITE_CROWN_ROW as int,
        Color::Black => BLACK_CROWN_ROW as int,
    }
}

impl Piece {
    /// Whether this piece stands on `(x, y)`.
    pub open spec fn stands_on(self, x: int, y: int) -> bool {
        self.x == x && self.y == y
    }

    /// Whether this piece stands on the board.
    pub open spec fn on_board(self) -> bool {
        on_board(self.x as int, self.y as int)
    }

    /// This piece, set down on `square`, a square of the board.
    pub open spec fn placed(self, square: Square) -> Piece
        recommends
            square.on_board(),
    {
        Piece { x: square.x, y: square.y, ..self }
    }

    /// The rank of this piece once it stands where it does: a king if it is
    /// one already or stands on its crown row.
    pub open spec fn rank_here(self) -> PieceType {
        if self.x == crown_row(self.color) {
            PieceType::King
        } else {
            self.piece_type
        }
    }

    /// This piece after a move to `square`, a square of the board: set down
    /// there, and crowned if that is its crown row.
    pub open spec fn landed(self, square: Square) -> Piece
        recommends
            square.on_board(),
    {
        Piece { piece_type: self.placed(square).rank_here(), ..self.placed(square) }
    }

    /// Sets this piece down on `square`, a square of the board. The rank is
    /// left as it is.
    pub fn move_to_square(&mut self, square: Square)
        requires
            square.on_board(),
        ensures
            *final(self) == old(self).placed(square),
            final(self).on_board(),
    {
        self.x = square.x;
        self.y = square.y;
    }

    /// Crowns this piece if it stands on its crown row.
    pub fn crown_if_due(&mut self)
        ensures
            *final(self) == (Piece { piece_type: old(self).rank_here(), ..*old(self) }),
    {
        let due = match self.color {
            Color::White => self.x == WHITE_CROWN_ROW,
            Color::Black => self.x == BLACK_CROWN_ROW,
        };
        if due {
            self.piece_type = PieceType::King;
        }
    }
}

/// Whether `i` is the first place in `pieces` of a piece on `(x, y)`.
pub open spec fn is_first_at(pieces: Seq<Piece>, i: int, x: int, y: int) -> bool {
    &&& 0 <= i < pieces.len()
    &&& pieces[i].stands_on(x, y)
    &&& forall|j: int| 0 <= j < i ==> !(#[trigger] pieces[j]).stands_on(x, y)
}

/// The first place in `pieces` of a piece on `(x, y)`, if there is one.
pub open spec fn index_at(pieces: Seq<Piece>, x: int, y: int) -> Option<int> {
    if exists|i: int| is_first_at(pieces, i, x, y) {
        Some(choose|i: int| is_first_at(pieces, i, x, y))
    } else {
        None
    }
}

/// The first piece of `pieces` on `(x, y)`, if there is one.
pub open spec fn piece_at(pieces: Seq<Piece>, x: int, y: int) -> Option<Piece> {
    match index_at(pieces, x, y) {
        Some(i) => Some(pieces[i]),
        None => None,
    }
}

/// Whether `i` is the first place in `pieces` of a piece with identity `id`.
pub open spec fn is_first_with_id(pieces: Seq<Piece>, i: int, id: u8) -> bool {
    &&& 0 <= i < pieces.len()
    &&& pieces[i].id == id
    &&& forall|j: int| 0 <= j < i ==> (#[trigger] pieces[j]).id != id
}

/// The first place in `pieces` of a piece with identity `id`, if there is one.
pub open spec fn index_of_id(pieces: Seq<Piece>, id: u8) -> Option<int> {
    if exists|i: int| is_first_with_id(pieces, i, id) {
        Some(choose|i: int| is_first_with_id(pieces, i, id))
    } else {
        None
    }
}

/// The first piece of `pieces` with identity `id`, if there is one.
pub open spec fn piece_by_id(pieces: Seq<Piece>, id: u8) -> Option<Piece> {
    match index_of_id(pieces, id) {
        Some(i) => Some(pieces[i]),
        None => None,
    }
}

/// What `index_at` finds: the first place of a piece on the square, or
/// nothing when no piece stands there.
pub proof fn lemma_index_at(pieces: Seq<Piece>, x: int, y: int)
    ensures
        match index_at(pieces, x, y) {
            Some(i) => is_first_at(pieces, i, x, y),
            None => forall|j: int| 0 <= j < pieces.len() ==> !(#[trigger] pieces[j]).stands_on(x, y),
        },
{
    if exists|i: int| is_first_at(pieces, i, x, y) {
    } else {
        assert forall|j: int| 0 <= j < pieces.len() implies !(#[trigger] pieces[j]).stands_on(
            x,
            y,
        ) by {
            lemma_no_piece_before(pieces, j, x, y);
        }
    }
}

/// If no place is the first of a piece on `(x, y)`, none of the first
/// `n + 1` pieces stands there.
proof fn lemma_no_piece_before(pieces: Seq<Piece>, n: int, x: int, y: int)
    requires
        0 <= n < pieces.len(),
        !exists|i: int| is_first_at(pieces, i, x, y),
    ensures
        forall|j: int| 0 <= j <= n ==> !(#[trigger] pieces[j]).stands_on(x, y),
    decreases n,
{
    if n > 0 {
        lemma_no_piece_before(pieces, n - 1, x, y);
    }
    if pieces[n].stands_on(x, y) {
        assert(is_first_at(pieces, n, x, y));
    }
}

/// A place that is the first of a piece on `(x, y)` is the one `index_at`
/// finds.
pub proof fn lemma_index_at_is(pieces: Seq<Piece>, i: int, x: int, y: int)
    requires
        is_first_at(pieces, i, x, y),
    ensures
        index_at(pieces, x, y) == Some(i),
        piece_at(pieces, x, y) == Some(pieces[i]),
{
    let c = choose|c: int| is_first_at(pieces, c, x, y);
    assert(is_first_at(pieces, c, x, y));
    if c < i {
        assert(!pieces[c].stands_on(x, y));
    } else if c > i {
        assert(!pieces[i].stands_on(x, y));
    }
}

/// What `index_of_id` finds: the first place of a piece with the identity,
/// or nothing when no piece has it.
pub proof fn lemma_index_of_id(pieces: Seq<Piece>, id: u8)
    ensures
        match index_of_id(pieces, id) {
            Some(i) => is_first_with_id(pieces, i, id),
            None => forall|j: int| 0 <= j < pieces.len() ==> (#[trigger] pieces[j]).id != id,
        },
{
    if exists|i: int| is_first_with_id(pieces, i, id) {
    } else {
        assert forall|j: int| 0 <= j < pieces.len() implies (#[trigger] pieces[j]).id != id by {
            lemma_no_id_before(pieces, j, id);
        }
    }
}

/// If no place is the first of a piece with identity `id`, none of the
/// first `n + 1` pieces has it.
proof fn lemma_no_id_before(pieces: Seq<Piece>, n: int, id: u8)
    requires
        0 <= n < pieces.len(),
        !exists|i: int| is_first_with_id(pieces, i, id),
    ensures
        forall|j: int| 0 <= j <= n ==> (#[trigger] pieces[j]).id != id,
    decreases n,
{
    if n > 0 {
        lemma_no_id_before(pieces, n - 1, id);
    }
    if pieces[n].id == id {
        assert(is_first_with_id(pieces, n, id));
    }
}

/// A place that is the first of a piece with identity `id` is the one
/// `index_of_id` finds.
pub proof fn lemma_index_of_id_is(pieces: Seq<Piece>, i: int, id: u8)
    requires
        is_first_with_id(pieces, i, id),
    ensures
        index_of_id(pieces, id) == Some(i),
        piece_by_id(pieces, id) == Some(pieces[i]),
{
    let c = choose|c: int| is_first_with_id(pieces, c, id);
    assert(is_first_with_id(pieces, c, id));
    if c < i {
        assert(pieces[c].id != id);
    } else if c > i {
        assert(pieces[i].id != id);
    }
}

/// Returns the place in `pieces` of the first piece on `pos`, if any.
pub fn find_index_at_position(pos: (u8, u8), pieces: &Vec<Piece>) -> (r: Option<usize>)
    ensures
        match r {
            Some(i) => index_at(pieces@, pos.0 as int, pos.1 as int) == Some(i as int),
            None => index_at(pieces@, pos.0 as int, pos.1 as int) is None,
        },
{
    let mut i: usize = 0;
    while i < pieces.len()
        invariant
            i <= pieces.len(),
            forall|j: int| 0 <= j < i ==> !(#[trigger] pieces@[j]).stands_on(pos.0 as int, pos.1 as int),
        decreases pieces.len() - i,
    {
        if pieces[i].x == pos.0 && pieces[i].y == pos.1 {
            proof {
                lemma_index_at_is(pieces@, i as int, pos.0 as int, pos.1 as int);
            }
            return Some(i);
        }
        i = i + 1;
    }
    proof {
        lemma_index_at(pieces@, pos.0 as int, pos.1 as int);
    }
    None
}

/// Returns the first piece of `pieces` on `pos`, if any.
pub fn find_piece_at_position(pos: (u8, u8), pieces: &Vec<Piece>) -> (r: Option<Piece>)
    ensures
        r == piece_at(pieces@, pos.0 as int, pos.1 as int),
{
    match find_index_at_position(pos, pieces) {
        Some(i) => Some(pieces[i]),
        None => None,
    }
}

/// Returns the place in `pieces` of the first piece with identity `id`, if any.
pub fn find_index_by_id(id: u8, pieces: &Vec<Piece>) -> (r: Option<usize>)
    ensures
        match r {
            Some(i) => index_of_id(pieces@, id) == Some(i as int),
            None => index_of_id(pieces@, id) is None,
        },
{
    let mut i: usize = 0;
    while i < pieces.len()
        invariant
            i <= pieces.len(),
            forall|j: int| 0 <= j < i ==> (#[trigger] pieces@[j]).id != id,
        decreases pieces.len() - i,
    {
        if pieces[i].id == id {
            proof {
                lemma_index_of_id_is(pieces@, i as int, id);
            }
            return Some(i);
        }
        i = i + 1;
    }
    proof {
        lemma_index_of_id(pieces@, id);
    }
    None
}

/// Returns the first piece of `pieces` with identity `id`, if any.
pub fn find_piece_by_id(id: u8, pieces: &Vec<Piece>) -> (r: Option<Piece>)
    ensures
        r == piece_by_id(pieces@, id),
{
    match find_index_by_id(id, pieces) {
        Some(i) => Some(pieces[i]),
        None => None,
    }
}

} // verus!
