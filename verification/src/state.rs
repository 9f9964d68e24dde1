//! The state of a game: the pieces in play, the pieces taken, and the turn
//! record; with the operations that move and remove pieces.

use vstd::prelude::*;
use crate::board::{
    Color, Square, start_position, BLACK_FIRST_ROW, BOARD_SIZE, PIECES_PER_SIDE, WHITE_FIRST_ROW,
};
use crate::piece::{
    Piece, PieceType, PIECE_COUNT, find_index_by_id, find_piece_at_position, find_piece_by_id,
    index_at, index_of_id, is_first_at, is_first_with_id, lemma_index_at, lemma_index_at_is,
    lemma_index_of_id, lemma_index_of_id_is, piece_at, piece_by_id,
};
use crate::turn::{PlayerTurn, CHAIN_LIMIT, NO_PIECE};

verus! {

/// The state of a game as plain data.
#[derive(Debug, PartialEq, Eq)]
pub struct GameState {
    /// The pieces in play.
    pub pieces: Vec<Piece>,
    /// The pieces taken so far, in the order in which they were taken.
    pub removed_pieces: Vec<Piece>,
    /// The turn record.
    pub turn: PlayerTurn,
}

/// The mathematical value of a `GameState`.
pub struct GameStateView {
    pub pieces: Seq<Piece>,
    pub removed_pieces: Seq<Piece>,
    pub turn: PlayerTurn,
}

impl View for GameState {
    type V = GameStateView;

    open spec fn view(&self) -> GameStateView {
        GameStateView {
            pieces: self.pieces@,
            removed_pieces: self.removed_pieces@,
            turn: self.turn,
        }
    }
}

/// The pieces are at most `PIECE_COUNT`, stand on the board on squares of
/// their own, and have identities of their own below `PIECE_COUNT`.
pub open spec fn pieces_wf(pieces: Seq<Piece>) -> bool {
    &&& pieces.len() <= PIECE_COUNT
    &&& forall|i: int|
        0 <= i < pieces.len() ==> (#[trigger] pieces[i]).on_board() && pieces[i].id < PIECE_COUNT
    &&& forall|i: int, j: int|
        0 <= i < j < pieces.len() ==> (#[trigger] pieces[i]).id != (#[trigger] pieces[j]).id
    &&& forall|i: int, j: int|
        0 <= i < j < pieces.len() ==> !(#[trigger] pieces[i]).stands_on(
            (#[trigger] pieces[j]).x as int,
            pieces[j].y as int,
        )
}

/// `pieces` after the piece `id` has moved to `square`, a square of the
/// board; unchanged if no piece has that identity.
pub open spec fn relocated(pieces: Seq<Piece>, id: u8, square: Square) -> Seq<Piece>
    recommends
        square.on_board(),
{
    match index_of_id(pieces, id) {
        Some(i) => pieces.update(i, pieces[i].landed(square)),
        None => pieces,
    }
}

/// `pieces` without the piece `id`; unchanged if no piece has that identity.
pub open spec fn without(pieces: Seq<Piece>, id: u8) -> Seq<Piece> {
    match index_of_id(pieces, id) {
        Some(i) => pieces.remove(i),
        None => pieces,
    }
}

/// The piece with identity `id` at the start of a game: White has the
/// first twelve identities, Black the others.
pub open spec fn start_piece(id: int) -> Piece {
    let position = if id < PIECES_PER_SIDE {
        start_position(WHITE_FIRST_ROW as int, id)
    } else {
        start_position(BLACK_FIRST_ROW as int, id - PIECES_PER_SIDE)
    };
    Piece {
        color: if id < PIECES_PER_SIDE {
            Color::White
        } else {
            Color::Black
        },
        piece_type: PieceType::Normal,
        x: position.0,
        y: position.1,
        id: id as u8,
    }
}

impl GameStateView {
    /// The state at the start of a game.
    pub open spec fn initial() -> GameStateView {
        GameStateView {
            pieces: Seq::new(PIECE_COUNT as nat, |id: int| start_piece(id)),
            removed_pieces: Seq::empty(),
            turn: PlayerTurn::initial(),
        }
    }

    /// The state with no pieces, at the start of a game.
    pub open spec fn empty() -> GameStateView {
        GameStateView {
            pieces: Seq::empty(),
            removed_pieces: Seq::empty(),
            turn: PlayerTurn::initial(),
        }
    }

    /// The invariant of a game state: the pieces in play are well formed,
    /// the turn record is consistent, and the piece that chains, if there
    /// is one, is in play.
    pub open spec fn wf(self) -> bool {
        &&& pieces_wf(self.pieces)
        &&& self.turn.wf()
        &&& self.turn.in_chain() ==> index_of_id(self.pieces, self.turn.chain_piece_id as u8) is Some
    }

    /// The state after the piece `id` has moved to `square`, a square of
    /// the board.
    pub open spec fn with_relocation(self, id: u8, square: Square) -> GameStateView
        recommends
            square.on_board(),
    {
        GameStateView { pieces: relocated(self.pieces, id, square), ..self }
    }

    /// The state after the piece `id` has been taken: it leaves the pieces
    /// in play and joins the pieces taken.
    pub open spec fn with_capture(self, id: u8) -> GameStateView {
        match piece_by_id(self.pieces, id) {
            Some(victim) => GameStateView {
                pieces: without(self.pieces, id),
                removed_pieces: self.removed_pieces.push(victim),
                ..self
            },
            None => self,
        }
    }
}

/// Among well-formed pieces, each is the one found by its identity and the
/// one found on its square.
pub proof fn lemma_piece_is_found(pieces: Seq<Piece>, i: int)
    requires
        pieces_wf(pieces),
        0 <= i < pieces.len(),
    ensures
        index_of_id(pieces, pieces[i].id) == Some(i),
        index_at(pieces, pieces[i].x as int, pieces[i].y as int) == Some(i),
{
    assert(is_first_with_id(pieces, i, pieces[i].id));
    lemma_index_of_id_is(pieces, i, pieces[i].id);
    assert(is_first_at(pieces, i, pieces[i].x as int, pieces[i].y as int));
    lemma_index_at_is(pieces, i, pieces[i].x as int, pieces[i].y as int);
}

/// A move of one of well-formed pieces to an empty square of the board
/// leaves them well formed, and each identity at the place where it was.
pub proof fn lemma_relocation(pieces: Seq<Piece>, id: u8, square: Square)
    requires
        pieces_wf(pieces),
        square.on_board(),
        index_at(pieces, square.x as int, square.y as int) is None,
    ensures
        pieces_wf(relocated(pieces, id, square)),
        relocated(pieces, id, square).len() == pieces.len(),
        forall|k: u8| index_of_id(relocated(pieces, id, square), k) == index_of_id(pieces, k),
        forall|j: int|
            0 <= j < pieces.len() && pieces[j].id != id ==> relocated(pieces, id, square)[j]
                == pieces[j],
        forall|j: int|
            0 <= j < pieces.len() && pieces[j].id == id ==> relocated(pieces, id, square)[j]
                == pieces[j].landed(square),
{
    let after = relocated(pieces, id, square);
    lemma_index_at(pieces, square.x as int, square.y as int);
    lemma_index_of_id(pieces, id);
    assert forall|j: int| 0 <= j < pieces.len() implies (#[trigger] after[j]).id == pieces[j].id by {}
    assert forall|j: int| 0 <= j < pieces.len() && pieces[j].id == id implies after[j]
        == pieces[j].landed(square) by {
        lemma_piece_is_found(pieces, j);
    }
    assert forall|k: u8| index_of_id(after, k) == index_of_id(pieces, k) by {
        lemma_index_of_id(pieces, k);
        lemma_index_of_id(after, k);
        match index_of_id(pieces, k) {
            Some(i) => {
                assert(is_first_with_id(after, i, k)) by {
                    assert forall|j: int| 0 <= j < i implies (#[trigger] after[j]).id != k by {
                        assert(pieces[j].id != k);
                    }
                }
                lemma_index_of_id_is(after, i, k);
            },
            None => {
                if index_of_id(after, k) is Some {
                    let i = index_of_id(after, k)->0;
                    assert(pieces[i].id != k);
                }
            },
        }
    }
    assert(pieces_wf(after)) by {
        assert forall|i: int| 0 <= i < after.len() implies (#[trigger] after[i]).on_board()
            && after[i].id < PIECE_COUNT by {
            assert(pieces[i].on_board());
        }
        assert forall|i: int, j: int| 0 <= i < j < after.len() implies (#[trigger] after[i]).id != (
        #[trigger] after[j]).id by {
            assert(pieces[i].id != pieces[j].id);
        }
        assert forall|i: int, j: int| 0 <= i < j < after.len() implies !(#[trigger] after[i]).stands_on(
            (#[trigger] after[j]).x as int,
            after[j].y as int,
        ) by {
            assert(!pieces[i].stands_on(pieces[j].x as int, pieces[j].y as int));
            assert(!pieces[i].stands_on(square.x as int, square.y as int));
            assert(!pieces[j].stands_on(square.x as int, square.y as int));
            assert(pieces[i].id != pieces[j].id);
        }
    }
}

/// Taking one of well-formed pieces out leaves them well formed; the other
/// pieces are still found by their identities, and no piece stands where
/// the one taken out stood.
pub proof fn lemma_removal(pieces: Seq<Piece>, id: u8)
    requires
        pieces_wf(pieces),
    ensures
        pieces_wf(without(pieces, id)),
        index_of_id(without(pieces, id), id) is None,
        forall|k: u8| k != id ==> piece_by_id(without(pieces, id), k) == piece_by_id(pieces, k),
        forall|x: int, y: int|
            index_at(pieces, x, y) is None ==> index_at(without(pieces, id), x, y) is None,
        piece_by_id(pieces, id) matches Some(victim) ==> {
            &&& without(pieces, id).len() == pieces.len() - 1
            &&& index_at(without(pieces, id), victim.x as int, victim.y as int) is None
        },
        piece_by_id(pieces, id) is None ==> without(pieces, id) == pieces,
{
    let after = without(pieces, id);
    lemma_index_of_id(pieces, id);
    match index_of_id(pieces, id) {
        None => {},
        Some(v) => {
            let victim = pieces[v];
            // Each piece that stays is the piece of `pieces` at `origin(j)`.
            let origin = |j: int| if j < v { j } else { j + 1 };
            assert forall|j: int| 0 <= j < after.len() implies #[trigger] after[j] == pieces[origin(j)] by {}
            assert(pieces_wf(after)) by {
                assert forall|i: int| 0 <= i < after.len() implies (#[trigger] after[i]).on_board()
                    && after[i].id < PIECE_COUNT by {
                    assert(pieces[origin(i)].on_board());
                }
                assert forall|i: int, j: int| 0 <= i < j < after.len() implies (
                #[trigger] after[i]).id != (#[trigger] after[j]).id by {
                    assert(pieces[origin(i)].id != pieces[origin(j)].id);
                }
                assert forall|i: int, j: int| 0 <= i < j < after.len() implies !(
                #[trigger] after[i]).stands_on((#[trigger] after[j]).x as int, after[j].y as int) by {
                    assert(!pieces[origin(i)].stands_on(
                        pieces[origin(j)].x as int,
                        pieces[origin(j)].y as int,
                    ));
                }
            }
            assert(index_of_id(after, id) is None) by {
                lemma_index_of_id(after, id);
                if index_of_id(after, id) is Some {
                    let i = index_of_id(after, id)->0;
                    lemma_piece_is_found(pieces, origin(i));
                }
            }
            assert forall|k: u8| k != id implies piece_by_id(after, k) == piece_by_id(pieces, k) by {
                lemma_index_of_id(pieces, k);
                lemma_index_of_id(after, k);
                match index_of_id(pieces, k) {
                    Some(i) => {
                        let j = if i < v { i } else { i - 1 };
                        assert(after[j] == pieces[origin(j)]);
                        lemma_piece_is_found(after, j);
                    },
                    None => {
                        if index_of_id(after, k) is Some {
                            let i = index_of_id(after, k)->0;
                            assert(pieces[origin(i)].id != k);
                        }
                    },
                }
            }
            assert forall|x: int, y: int| index_at(pieces, x, y) is None implies index_at(
                after,
                x,
                y,
            ) is None by {
                lemma_index_at(pieces, x, y);
                lemma_index_at(after, x, y);
                if index_at(after, x, y) is Some {
                    let i = index_at(after, x, y)->0;
                    assert(!pieces[origin(i)].stands_on(x, y));
                }
            }
            assert(index_at(after, victim.x as int, victim.y as int) is None) by {
                lemma_index_at(after, victim.x as int, victim.y as int);
                if index_at(after, victim.x as int, victim.y as int) is Some {
                    let i = index_at(after, victim.x as int, victim.y as int)->0;
                    lemma_piece_is_found(pieces, origin(i));
                    lemma_piece_is_found(pieces, v);
                }
            }
        },
    }
}

/// Tells whether `pieces` are well formed.
pub fn pieces_well_formed(pieces: &Vec<Piece>) -> (r: bool)
    ensures
        r == pieces_wf(pieces@),
{
    if pieces.len() > PIECE_COUNT as usize {
        return false;
    }
    let mut j: usize = 0;
    while j < pieces.len()
        invariant
            j <= pieces.len() <= PIECE_COUNT,
            forall|i: int|
                0 <= i < j ==> (#[trigger] pieces@[i]).on_board() && pieces@[i].id < PIECE_COUNT,
            forall|a: int, b: int|
                0 <= a < b < j ==> (#[trigger] pieces@[a]).id != (#[trigger] pieces@[b]).id,
            forall|a: int, b: int|
                0 <= a < b < j ==> !(#[trigger] pieces@[a]).stands_on(
                    (#[trigger] pieces@[b]).x as int,
                    pieces@[b].y as int,
                ),
        decreases pieces.len() - j,
    {
        let q = pieces[j];
        if q.x >= BOARD_SIZE || q.y >= BOARD_SIZE || q.id >= PIECE_COUNT {
            assert(!(pieces@[j as int].on_board() && pieces@[j as int].id < PIECE_COUNT));
            return false;
        }
        let mut i: usize = 0;
        while i < j
            invariant
                i <= j < pieces.len(),
                q == pieces@[j as int],
                forall|a: int| 0 <= a < i ==> (#[trigger] pieces@[a]).id != q.id,
                forall|a: int| 0 <= a < i ==> !(#[trigger] pieces@[a]).stands_on(q.x as int, q.y as int),
            decreases j - i,
        {
            let p = pieces[i];
            if p.id == q.id || (p.x == q.x && p.y == q.y) {
                assert(pieces@[i as int].id == pieces@[j as int].id || pieces@[i as int].stands_on(
                    pieces@[j as int].x as int,
                    pieces@[j as int].y as int,
                ));
                return false;
            }
            i = i + 1;
        }
        j = j + 1;
    }
    true
}

/// Returns a copy of `pieces`.
pub fn copy_pieces(pieces: &Vec<Piece>) -> (r: Vec<Piece>)
    ensures
        r@ == pieces@,
{
    let mut r: Vec<Piece> = Vec::new();
    let mut i: usize = 0;
    while i < pieces.len()
        invariant
            i <= pieces.len(),
            r@ == pieces@.take(i as int),
        decreases pieces.len() - i,
    {
        r.push(pieces[i]);
        i = i + 1;
    }
    r
}

impl Clone for GameState {
    /// Returns a copy of this state.
    fn clone(&self) -> (r: Self)
        ensures
            r@ == self@,
    {
        GameState {
            pieces: copy_pieces(&self.pieces),
            removed_pieces: copy_pieces(&self.removed_pieces),
            turn: self.turn,
        }
    }
}

impl Default for GameState {
    /// The state with no pieces, at the start of a game.
    fn default() -> (r: Self)
        ensures
            r@ == GameStateView::empty(),
    {
        GameState { pieces: Vec::new(), removed_pieces: Vec::new(), turn: PlayerTurn::default() }
    }
}

impl GameState {
    /// The invariant of a game state.
    pub open spec fn wf(&self) -> bool {
        self@.wf()
    }

    /// Returns the piece in play on `(x, y)`, if there is one.
    pub fn piece_at(&self, x: u8, y: u8) -> (r: Option<Piece>)
        ensures
            r == piece_at(self@.pieces, x as int, y as int),
    {
        find_piece_at_position((x, y), &self.pieces)
    }

    /// Returns the piece in play with identity `id`, if there is one.
    pub fn piece_by_id(&self, id: u8) -> (r: Option<Piece>)
        ensures
            r == piece_by_id(self@.pieces, id),
    {
        find_piece_by_id(id, &self.pieces)
    }

    /// Tells whether this state meets the invariant of a game state.
    pub fn is_well_formed(&self) -> (r: bool)
        ensures
            r == self.wf(),
    {
        if !pieces_well_formed(&self.pieces) {
            return false;
        }
        let turn = self.turn;
        if turn.chain_count > CHAIN_LIMIT {
            return false;
        }
        if turn.chain_count == 0 {
            turn.chain_piece_id == NO_PIECE
        } else if 0 <= turn.chain_piece_id && turn.chain_piece_id < PIECE_COUNT as i16 {
            find_index_by_id(turn.chain_piece_id as u8, &self.pieces).is_some()
        } else {
            false
        }
    }

    /// Moves the piece `id` to `square`, a square of the board, and crowns
    /// it if that is its crown row. Nothing changes if no piece in play has
    /// that identity. Whether the move is legal is not examined.
    pub fn apply_relocation(&mut self, id: u8, square: Square)
        requires
            square.on_board(),
        ensures
            final(self)@ == old(self)@.with_relocation(id, square),
    {
        match find_index_by_id(id, &self.pieces) {
            Some(i) => {
                let mut piece = self.pieces[i];
                piece.move_to_square(square);
                piece.crown_if_due();
                self.pieces.set(i, piece);
            },
            None => {},
        }
    }

    /// Takes the piece `id` out of play and adds it to the pieces taken.
    /// Nothing changes if no piece in play has that identity. Whether the
    /// capture is legal is not examined.
    pub fn capture(&mut self, id: u8)
        ensures
            final(self)@ == old(self)@.with_capture(id),
    {
        match find_index_by_id(id, &self.pieces) {
            Some(i) => {
                let victim = self.pieces.remove(i);
                self.removed_pieces.push(victim);
            },
            None => {},
        }
    }
}

} // verus!
