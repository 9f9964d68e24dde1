//! The game: one entry point that applies a requested move, and the
//! queries for the legal moves and for the end of the game.

use vstd::prelude::*;
use crate::board::{
    Color, Position, Square, board_squares, black_start_positions, lemma_start_positions, squares,
    start_positions, white_start_positions, BLACK_FIRST_ROW, PIECES_PER_SIDE, WHITE_FIRST_ROW,
};
use crate::moves::{MoveType, classify, collisions_within, destinations, has_take, jumped_square};
use crate::piece::{
    Piece, PieceType, PIECE_COUNT, find_piece_by_id, index_at, index_of_id, lemma_index_at,
    lemma_index_of_id, piece_at, piece_by_id,
};
use crate::state::{
    GameState, GameStateView, lemma_piece_is_found, lemma_relocation, lemma_removal, pieces_wf,
    relocated, start_piece, without,
};
use crate::turn::{PlayerTurn, MOVE_LIMIT, NO_PIECE, lemma_turn_stays_consistent};

verus! {

/// Whether the game has ended, and how.
#[derive(Clone, Copy, Debug, PartialEq, Eq, Structural)]
pub enum GameTermination {
    /// White has won, with this many pieces in play.
    White(u8),
    /// Black has won, with this many pieces in play.
    Black(u8),
    /// The game has ended with as many pieces on either side.
    Draw,
    /// The game goes on.
    Unterminated,
}

/// Why a request was refused as a misuse, not as a move against the rules.
#[derive(Clone, Copy, Debug, PartialEq, Eq, Structural)]
pub enum StepError {
    /// No piece in play has the identity given.
    UnknownPiece,
    /// The destination does not lie on the board.
    OffBoard,
}

/// The pieces, as a predicate, of the side `color`.
pub open spec fn of_color(color: Color) -> spec_fn(Piece) -> bool {
    |p: Piece| p.color == color
}

/// The number of `pieces` of the side `color`.
pub open spec fn count_of(pieces: Seq<Piece>, color: Color) -> nat {
    pieces.filter(of_color(color)).len()
}

impl GameStateView {
    /// Whether the game has ended, and how. It has ended once a side has no
    /// piece in play or more than `MOVE_LIMIT` turns have been completed;
    /// the side with more pieces in play has then won.
    pub open spec fn termination(self) -> GameTermination {
        let whites = count_of(self.pieces, Color::White);
        let blacks = count_of(self.pieces, Color::Black);
        if self.turn.turn_count > MOVE_LIMIT || whites == 0 || blacks == 0 {
            if whites > blacks {
                GameTermination::White(whites as u8)
            } else if whites < blacks {
                GameTermination::Black(blacks as u8)
            } else {
                GameTermination::Draw
            }
        } else {
            GameTermination::Unterminated
        }
    }

    /// Whether `piece` is one that may move now: during a capture chain the
    /// piece that chains, else any piece of the side to move.
    pub open spec fn may_move(self, piece: Piece) -> bool {
        if self.turn.in_chain() {
            piece.id == self.turn.chain_piece_id
        } else {
            piece.color == self.turn.color
        }
    }

    /// The squares to which the piece `id` may move now, in the order of
    /// the board: none if no such piece is in play or it may not move now.
    pub open spec fn legal_destinations(self, id: u8) -> Seq<Position> {
        match piece_by_id(self.pieces, id) {
            Some(piece) => if self.may_move(piece) {
                destinations(piece, self.pieces)
            } else {
                Seq::empty()
            },
            None => Seq::empty(),
        }
    }

    /// The state after `piece`, one of the pieces in play, has taken by
    /// jumping to `square`, a square of the board: the piece stands there, crowned if due, the
    /// piece jumped over has left play, and the take is recorded in the
    /// turn record, which ends the turn unless the piece has a further take
    /// and the chain is within its limit.
    pub open spec fn after_take(self, piece: Piece, square: Square) -> GameStateView
        recommends
            square.on_board(),
    {
        let (x, y) = jumped_square(piece, square);
        match piece_at(self.pieces, x, y) {
            Some(victim) => {
                let moved = self.with_relocation(piece.id, square).with_capture(victim.id);
                GameStateView {
                    turn: self.turn.after_take(
                        piece.id,
                        has_take(piece.landed(square), moved.pieces),
                    ),
                    ..moved
                }
            },
            None => self,
        }
    }

    /// The state after the move of `piece` to `square`, a square of the
    /// board, classified as `kind`, has been applied.
    pub open spec fn after_move(self, piece: Piece, square: Square, kind: MoveType) -> GameStateView
        recommends
            square.on_board(),
    {
        match kind {
            MoveType::Invalid => self,
            MoveType::Pass => GameStateView { turn: self.turn.ended(), ..self },
            MoveType::Regular => GameStateView {
                turn: self.turn.ended(),
                ..self.with_relocation(piece.id, square)
            },
            MoveType::Take => self.after_take(piece, square),
        }
    }

    /// What the request to move the piece `id` to `square` amounts to, and
    /// the state after it.
    ///
    /// A request for a piece that is not in play, or for a square off the
    /// board, is an error. A request for another piece than the one that
    /// chains is invalid. Any other request is classified by the rules of
    /// movement and applied.
    pub open spec fn step(self, id: u8, square: Square) -> Result<
        (MoveType, GameStateView),
        StepError,
    > {
        match piece_by_id(self.pieces, id) {
            None => Err(StepError::UnknownPiece),
            Some(piece) => if !square.on_board() {
                Err(StepError::OffBoard)
            } else if self.turn.excludes(id) {
                Ok((MoveType::Invalid, self))
            } else {
                let kind = classify(piece, square, self.pieces);
                Ok((kind, self.after_move(piece, square, kind)))
            },
        }
    }
}

/// What a take does to well-formed pieces: the piece jumped over is
/// another piece than the one that jumps, it is the one that leaves play,
/// and the pieces stay well formed with the piece that jumped among them
/// on its new square.
pub proof fn lemma_take(s: GameStateView, piece: Piece, square: Square)
    requires
        pieces_wf(s.pieces),
        piece_by_id(s.pieces, piece.id) == Some(piece),
        square.on_board(),
        classify(piece, square, s.pieces) == MoveType::Take,
    ensures
        piece_at(s.pieces, jumped_square(piece, square).0, jumped_square(piece, square).1) matches Some(
            victim,
        ) && {
            let after = s.after_take(piece, square);
            &&& victim.id != piece.id
            &&& victim.color != piece.color
            &&& piece_by_id(s.pieces, victim.id) == Some(victim)
            &&& pieces_wf(after.pieces)
            &&& after.pieces == without(relocated(s.pieces, piece.id, square), victim.id)
            &&& after.pieces.len() == s.pieces.len() - 1
            &&& after.removed_pieces == s.removed_pieces.push(victim)
            &&& piece_by_id(after.pieces, piece.id) == Some(piece.landed(square))
            &&& piece_by_id(after.pieces, victim.id) is None
            &&& piece_at(after.pieces, victim.x as int, victim.y as int) is None
            &&& forall|other: u8|
                other != piece.id && other != victim.id ==> piece_by_id(after.pieces, other)
                    == piece_by_id(s.pieces, other)
        },
{
    let before = s.pieces;
    let (x, y) = jumped_square(piece, square);
    lemma_index_of_id(before, piece.id);
    lemma_index_at(before, x, y);
    lemma_index_at(before, square.x as int, square.y as int);
    let i = index_of_id(before, piece.id)->0;
    let j = index_at(before, x, y)->0;
    let victim = before[j];
    lemma_piece_is_found(before, j);
    // The piece moves first; the piece jumped over stays where it was.
    lemma_relocation(before, piece.id, square);
    let between = relocated(before, piece.id, square);
    assert(between[j] == victim);
    assert(between[i] == piece.landed(square));
    lemma_piece_is_found(between, j);
    lemma_piece_is_found(between, i);
    // Then the piece jumped over leaves; the piece that moved stays.
    lemma_removal(between, victim.id);
    assert(piece_by_id(without(between, victim.id), piece.id) == piece_by_id(between, piece.id));
    assert forall|other: u8| other != piece.id && other != victim.id implies piece_by_id(
        without(between, victim.id),
        other,
    ) == piece_by_id(before, other) by {
        lemma_index_of_id(before, other);
        assert(piece_by_id(between, other) == piece_by_id(before, other));
    }
}

/// A request applied to a state that meets the invariant leaves a state
/// that meets it.
pub proof fn lemma_step_keeps_wf(s: GameStateView, id: u8, square: Square)
    requires
        s.wf(),
    ensures
        s.step(id, square) matches Ok((_, after)) ==> after.wf(),
{
    match piece_by_id(s.pieces, id) {
        None => {},
        Some(piece) => {
            lemma_index_of_id(s.pieces, id);
            lemma_turn_stays_consistent(s.turn, id, true);
            lemma_turn_stays_consistent(s.turn, id, false);
            if square.on_board() && !s.turn.excludes(id) {
                match classify(piece, square, s.pieces) {
                    MoveType::Take => {
                        lemma_take(s, piece, square);
                    },
                    MoveType::Regular => {
                        lemma_relocation(s.pieces, id, square);
                    },
                    MoveType::Pass => {},
                    MoveType::Invalid => {},
                }
            }
        },
    }
}

/// The game: its state, and the squares of the board.
#[derive(Debug)]
pub struct Game {
    pub state: GameState,
    pub squares: Vec<Square>,
}

/// Returns the number of `pieces` of the side `color`.
pub fn count_pieces(pieces: &Vec<Piece>, color: Color) -> (r: usize)
    ensures
        r == count_of(pieces@, color),
        r <= pieces@.len(),
{
    let mut n: usize = 0;
    let mut i: usize = 0;
    assert(pieces@.take(0) =~= Seq::<Piece>::empty());
    while i < pieces.len()
        invariant
            i <= pieces.len(),
            n <= i,
            n == count_of(pieces@.take(i as int), color),
        decreases pieces.len() - i,
    {
        proof {
            pieces@.lemma_take_succ_push(i as int);
            pieces@.take(i as int).lemma_filter_push(pieces@[i as int], of_color(color));
        }
        if pieces[i].color == color {
            n = n + 1;
        }
        i = i + 1;
    }
    assert(pieces@.take(pieces.len() as int) =~= pieces@);
    n
}

/// The pieces with which a game starts are well formed.
pub proof fn lemma_initial_state_wf()
    ensures
        GameStateView::initial().wf(),
{
    let pieces = GameStateView::initial().pieces;
    assert forall|i: int, j: int| 0 <= i < j < pieces.len() implies !(#[trigger] pieces[i]).stands_on(
        (#[trigger] pieces[j]).x as int,
        pieces[j].y as int,
    ) by {
        let a = if i < PIECES_PER_SIDE { i } else { i - PIECES_PER_SIDE };
        let b = if j < PIECES_PER_SIDE { j } else { j - PIECES_PER_SIDE };
        lemma_start_positions(WHITE_FIRST_ROW as int, a, b);
        lemma_start_positions(BLACK_FIRST_ROW as int, a, b);
        lemma_start_positions(WHITE_FIRST_ROW as int, a, a);
        lemma_start_positions(BLACK_FIRST_ROW as int, b, b);
    }
    assert forall|i: int| 0 <= i < pieces.len() implies (#[trigger] pieces[i]).on_board()
        && pieces[i].id < PIECE_COUNT by {
        let a = if i < PIECES_PER_SIDE { i } else { i - PIECES_PER_SIDE };
        lemma_start_positions(WHITE_FIRST_ROW as int, a, a);
        lemma_start_positions(BLACK_FIRST_ROW as int, a, a);
    }
}

impl Default for Game {
    /// The game at its start.
    fn default() -> (r: Self)
        ensures
            r.wf(),
            r.state@ == GameStateView::initial(),
    {
        let mut pieces: Vec<Piece> = Vec::new();
        let mut i: u8 = 0;
        let whites = white_start_positions();
        let mut k: usize = 0;
        while k < whites.len()
            invariant
                whites@ == start_positions(WHITE_FIRST_ROW as int),
                k <= whites.len(),
                i == k,
                pieces@.len() == k,
                forall|n: int| 0 <= n < k ==> pieces@[n] == start_piece(n),
            decreases whites.len() - k,
        {
            let (x, y) = whites[k];
            pieces.push(Piece { color: Color::White, piece_type: PieceType::Normal, x, y, id: i });
            i = i + 1;
            k = k + 1;
        }
        let blacks = black_start_positions();
        let mut k: usize = 0;
        while k < blacks.len()
            invariant
                blacks@ == start_positions(BLACK_FIRST_ROW as int),
                k <= blacks.len(),
                i == PIECES_PER_SIDE + k,
                pieces@.len() == PIECES_PER_SIDE + k,
                forall|n: int| 0 <= n < PIECES_PER_SIDE + k ==> pieces@[n] == start_piece(n),
            decreases blacks.len() - k,
        {
            let (x, y) = blacks[k];
            pieces.push(Piece { color: Color::Black, piece_type: PieceType::Normal, x, y, id: i });
            i = i + 1;
            k = k + 1;
        }
        let game = Game {
            squares: squares(),
            state: GameState {
                pieces,
                removed_pieces: Vec::new(),
                turn: PlayerTurn {
                    color: Color::White,
                    chain_count: 0,
                    turn_count: 0,
                    chain_piece_id: NO_PIECE,
                },
            },
        };
        proof {
            assert(game.state@.pieces =~= GameStateView::initial().pieces);
            lemma_initial_state_wf();
        }
        game
    }
}

impl Clone for Game {
    /// Returns a copy of this game.
    fn clone(&self) -> (r: Self)
        ensures
            r.state@ == self.state@,
            r.squares@ == self.squares@,
    {
        let mut board: Vec<Square> = Vec::new();
        let mut i: usize = 0;
        while i < self.squares.len()
            invariant
                i <= self.squares.len(),
                board@ == self.squares@.take(i as int),
            decreases self.squares.len() - i,
        {
            board.push(self.squares[i]);
            i = i + 1;
        }
        Game { state: self.state.clone(), squares: board }
    }
}

impl Game {
    /// The invariant of a game: its state meets the invariant of a game
    /// state, and its squares are those of the board, row by row.
    pub open spec fn wf(&self) -> bool {
        &&& self.state@.wf()
        &&& self.squares@ == board_squares()
    }

    /// Returns the game at its start.
    pub fn new() -> (r: Game)
        ensures
            r.wf(),
            r.state@ == GameStateView::initial(),
    {
        Game::default()
    }

    /// Tells whether this game meets its invariant.
    pub fn is_well_formed(&self) -> (r: bool)
        ensures
            r == self.wf(),
    {
        if !self.state.is_well_formed() {
            return false;
        }
        let board = squares();
        if self.squares.len() != board.len() {
            return false;
        }
        let mut i: usize = 0;
        while i < board.len()
            invariant
                i <= board.len(),
                board@ == board_squares(),
                self.squares@.len() == board@.len(),
                forall|k: int| 0 <= k < i ==> self.squares@[k] == board@[k],
            decreases board.len() - i,
        {
            if self.squares[i].x != board[i].x || self.squares[i].y != board[i].y {
                return false;
            }
            i = i + 1;
        }
        assert(self.squares@ =~= board_squares());
        true
    }

    /// Tells whether the game has ended, and how.
    pub fn check_termination(&self) -> (r: GameTermination)
        requires
            self.wf(),
        ensures
            r == self.state@.termination(),
    {
        let number_of_whites = count_pieces(&self.state.pieces, Color::White);
        let number_of_blacks = count_pieces(&self.state.pieces, Color::Black);
        if self.state.turn.turn_count > MOVE_LIMIT || number_of_whites == 0 || number_of_blacks
            == 0 {
            if number_of_whites > number_of_blacks {
                return GameTermination::White(number_of_whites as u8);
            } else if number_of_whites < number_of_blacks {
                return GameTermination::Black(number_of_blacks as u8);
            } else {
                return GameTermination::Draw;
            }
        }
        GameTermination::Unterminated
    }

    /// Applies the request to move the piece `piece_id` to `square`.
    ///
    /// Returns what the request amounted to, a copy of the state after it,
    /// and whether the game has ended; or the error, with the state
    /// unchanged, if no such piece is in play or the square is off the
    /// board.
    pub fn step(&mut self, piece_id: u8, square: Square) -> (r: Result<
        (MoveType, GameState, GameTermination),
        StepError,
    >)
        requires
            old(self).wf(),
            old(self).state.turn.turn_count < u16::MAX,
        ensures
            final(self).wf(),
            match r {
                Ok((kind, snapshot, termination)) => {
                    &&& old(self).state@.step(piece_id, square) == Ok::<
                        (MoveType, GameStateView),
                        StepError,
                    >((kind, final(self).state@))
                    &&& snapshot@ == final(self).state@
                    &&& termination == final(self).state@.termination()
                },
                Err(e) => {
                    &&& old(self).state@.step(piece_id, square) == Err::<
                        (MoveType, GameStateView),
                        StepError,
                    >(e)
                    &&& final(self).state@ == old(self).state@
                },
            },
    {
        let piece = match find_piece_by_id(piece_id, &self.state.pieces) {
            Some(p) => p,
            None => {
                return Err(StepError::UnknownPiece);
            },
        };
        if !square.is_on_board() {
            return Err(StepError::OffBoard);
        }
        let mut move_type = MoveType::Invalid;
        if !self.state.turn.shuts_out(piece_id) {
            move_type = piece.is_move_valid(square, &self.state.pieces);
            proof {
                lemma_step_keeps_wf(self.state@, piece_id, square);
            }
            match move_type {
                MoveType::Take => {
                    let found = piece.path_collisions(
                        (piece.x, piece.y),
                        (square.x, square.y),
                        &self.state.pieces,
                    );
                    proof {
                        reveal_with_fuel(collisions_within, 2);
                    }
                    let collision = found[0];
                    assert(piece_at(
                        self.state@.pieces,
                        jumped_square(piece, square).0,
                        jumped_square(piece, square).1,
                    ) == Some(collision));
                    self.state.apply_relocation(piece_id, square);
                    self.state.capture(collision.id);
                    let mut moved = piece;
                    moved.move_to_square(square);
                    moved.crown_if_due();
                    let further_take = moved.can_take(&self.squares, &self.state.pieces);
                    self.state.turn.record_take(piece_id, further_take);
                },
                MoveType::Regular => {
                    self.state.apply_relocation(piece_id, square);
                    self.state.turn.change();
                },
                MoveType::Pass => {
                    self.state.turn.change();
                },
                MoveType::Invalid => {},
            }
        }
        let termination = self.check_termination();
        Ok((move_type, self.state.clone(), termination))
    }

    /// Returns, for each piece identity, the squares to which that piece
    /// may move now, in the order of the board.
    pub fn possible_moves(&self) -> (r: [Vec<Position>; 24])
        requires
            self.wf(),
        ensures
            forall|id: u8|
                id < PIECE_COUNT ==> (#[trigger] r@[id as int])@ == self.state@.legal_destinations(
                    id,
                ),
    {
        let mut moveset: [Vec<Position>; 24] = [
            Vec::new(), Vec::new(), Vec::new(), Vec::new(), Vec::new(), Vec::new(),
            Vec::new(), Vec::new(), Vec::new(), Vec::new(), Vec::new(), Vec::new(),
            Vec::new(), Vec::new(), Vec::new(), Vec::new(), Vec::new(), Vec::new(),
            Vec::new(), Vec::new(), Vec::new(), Vec::new(), Vec::new(), Vec::new(),
        ];
        let mut i: u8 = 0;
        while i < PIECE_COUNT
            invariant
                i <= PIECE_COUNT,
                self.squares@ == board_squares(),
                forall|id: u8|
                    id < i ==> (#[trigger] moveset@[id as int])@
                        == self.state@.legal_destinations(id),
                forall|id: u8| i <= id < PIECE_COUNT ==> (#[trigger] moveset@[id as int])@.len() == 0,
            decreases PIECE_COUNT - i,
        {
            if let Some(p) = find_piece_by_id(i, &self.state.pieces) {
                if self.state.is_to_move(&p) {
                    moveset[i as usize] = p.reachable(&self.squares, &self.state.pieces);
                }
            }
            i = i + 1;
        }
        moveset
    }
}

impl GameState {
    /// Tells whether `piece` is one that may move now: during a capture
    /// chain the piece that chains, else any piece of the side to move.
    pub fn is_to_move(&self, piece: &Piece) -> (r: bool)
        ensures
            r == self@.may_move(*piece),
    {
        if self.turn.chain_count > 0 {
            piece.id as i16 == self.turn.chain_piece_id
        } else {
            piece.color == self.turn.color
        }
    }
}

} // verus!
