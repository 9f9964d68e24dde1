//! What holds of every game: the laws of movement, capture, chaining,
//! crowning, turn-taking and termination, each proved of the state
//! transition that `Game::step` carries out.

use vstd::prelude::*;
use vstd::math::abs;
use crate::board::{Color, Square, board_squares, lemma_square_index};
use crate::game::{
    GameTermination, StepError, count_of, lemma_initial_state_wf, lemma_step_keeps_wf, lemma_take,
    of_color,
};
use crate::moves::{
    MoveType, classify, destinations, direction_allowed, has_take, jumped_square, reaches,
};
use crate::piece::{
    Piece, PieceType, crown_row, index_of_id, lemma_index_at, lemma_index_of_id, piece_at,
    piece_by_id,
};
use crate::state::{
    GameStateView, lemma_piece_is_found, lemma_relocation, lemma_removal, pieces_wf, relocated,
};
use crate::turn::{CHAIN_LIMIT, MOVE_LIMIT, NO_PIECE};

verus! {

/// A regular move goes exactly one diagonal step, in a direction allowed
/// to the piece, to a square on which no piece stands.
pub proof fn law_regular_is_one_step(piece: Piece, dest: Square, pieces: Seq<Piece>)
    requires
        dest.on_board(),
        classify(piece, dest, pieces) == MoveType::Regular,
    ensures
        abs(dest.x - piece.x) == 1,
        abs(dest.y - piece.y) == 1,
        direction_allowed(piece, dest.x - piece.x),
        piece_at(pieces, dest.x as int, dest.y as int) is None,
        forall|k: int| 0 <= k < pieces.len() ==> !(#[trigger] pieces[k]).stands_on(
            dest.x as int,
            dest.y as int,
        ),
{
    lemma_index_at(pieces, dest.x as int, dest.y as int);
}

/// A take goes exactly two diagonal steps, in a direction allowed to the
/// piece, to a square on which no piece stands, over a square on which a
/// piece of the other side stands; among well-formed pieces that piece is
/// the only one there.
pub proof fn law_take_jumps_one_opponent(piece: Piece, dest: Square, pieces: Seq<Piece>)
    requires
        dest.on_board(),
        classify(piece, dest, pieces) == MoveType::Take,
    ensures
        abs(dest.x - piece.x) == 2,
        abs(dest.y - piece.y) == 2,
        direction_allowed(piece, dest.x - piece.x),
        piece_at(pieces, dest.x as int, dest.y as int) is None,
        jumped_square(piece, dest).0 - piece.x == dest.x - jumped_square(piece, dest).0,
        jumped_square(piece, dest).1 - piece.y == dest.y - jumped_square(piece, dest).1,
        piece_at(pieces, jumped_square(piece, dest).0, jumped_square(piece, dest).1) matches Some(
            victim,
        ) && {
            &&& victim.color == piece.color.opposite()
            &&& victim.stands_on(jumped_square(piece, dest).0, jumped_square(piece, dest).1)
            &&& pieces_wf(pieces) ==> forall|k: int|
                0 <= k < pieces.len() && (#[trigger] pieces[k]).stands_on(
                    jumped_square(piece, dest).0,
                    jumped_square(piece, dest).1,
                ) ==> pieces[k] == victim
        },
{
    let (x, y) = jumped_square(piece, dest);
    lemma_index_at(pieces, x, y);
    if pieces_wf(pieces) {
        assert forall|k: int|
            0 <= k < pieces.len() && (#[trigger] pieces[k]).stands_on(x, y) implies pieces[k]
            == piece_at(pieces, x, y)->0 by {
            lemma_piece_is_found(pieces, k);
        }
    }
}

/// Whether the request to move the piece `id` to `square` is one that the
/// rules of movement decide: `piece` is that piece and is in play, the
/// square lies on the board, and no chain in progress shuts the piece out.
pub open spec fn is_decided_by_the_rules(
    s: GameStateView,
    id: u8,
    square: Square,
    piece: Piece,
) -> bool {
    &&& piece_by_id(s.pieces, id) == Some(piece)
    &&& square.on_board()
    &&& !s.turn.excludes(id)
}

/// A request that the rules decide is answered with the classification of
/// the move.
pub proof fn law_step_classifies(s: GameStateView, id: u8, square: Square, piece: Piece)
    requires
        is_decided_by_the_rules(s, id, square, piece),
    ensures
        s.step(id, square) matches Ok((kind, after)) && kind == classify(piece, square, s.pieces)
            && after == s.after_move(piece, square, kind),
{
}

/// A request for one diagonal step, in a direction allowed to the piece,
/// to an empty square is answered with a regular move. After it the piece
/// stands on that square, crowned if due, every other piece is as it was,
/// no piece has been taken, and the turn has ended: the other side is to
/// move, one more turn is counted and no chain is in progress.
pub proof fn law_regular_step(s: GameStateView, id: u8, square: Square, piece: Piece)
    requires
        s.wf(),
        is_decided_by_the_rules(s, id, square, piece),
        classify(piece, square, s.pieces) == MoveType::Regular,
    ensures
        abs(square.x - piece.x) == 1 && abs(square.y - piece.y) == 1,
        direction_allowed(piece, square.x - piece.x),
        piece_at(s.pieces, square.x as int, square.y as int) is None,
        s.step(id, square) matches Ok((kind, after)) && {
            &&& kind == MoveType::Regular
            &&& piece_by_id(after.pieces, id) == Some(piece.landed(square))
            &&& forall|other: u8|
                other != id ==> piece_by_id(after.pieces, other) == piece_by_id(s.pieces, other)
            &&& after.pieces.len() == s.pieces.len()
            &&& after.removed_pieces == s.removed_pieces
            &&& after.turn.color == s.turn.color.opposite()
            &&& s.turn.turn_count < u16::MAX ==> after.turn.turn_count == s.turn.turn_count + 1
            &&& after.turn.chain_count == 0
            &&& after.turn.chain_piece_id == NO_PIECE
        },
{
    law_regular_is_one_step(piece, square, s.pieces);
    lemma_index_of_id(s.pieces, id);
    lemma_relocation(s.pieces, id, square);
    let after = relocated(s.pieces, id, square);
    assert forall|other: u8| other != id implies piece_by_id(after, other) == piece_by_id(
        s.pieces,
        other,
    ) by {
        lemma_index_of_id(s.pieces, other);
    }
}

/// A request for a jump over a piece of the other side is answered with a
/// take. After it the piece jumped over has left play and is the last of
/// the pieces taken, the square it stood on is empty, the piece that
/// jumped stands on its destination, crowned if due, and every other piece
/// is as it was.
pub proof fn law_take_step(s: GameStateView, id: u8, square: Square, piece: Piece)
    requires
        s.wf(),
        is_decided_by_the_rules(s, id, square, piece),
        classify(piece, square, s.pieces) == MoveType::Take,
    ensures
        s.step(id, square) matches Ok((kind, after)) && piece_at(
            s.pieces,
            jumped_square(piece, square).0,
            jumped_square(piece, square).1,
        ) matches Some(victim) && {
            &&& kind == MoveType::Take
            &&& victim.color == piece.color.opposite()
            &&& victim.id != id
            &&& piece_by_id(s.pieces, victim.id) == Some(victim)
            &&& piece_by_id(after.pieces, victim.id) is None
            &&& piece_at(after.pieces, victim.x as int, victim.y as int) is None
            &&& after.removed_pieces == s.removed_pieces.push(victim)
            &&& after.pieces.len() == s.pieces.len() - 1
            &&& piece_by_id(after.pieces, id) == Some(piece.landed(square))
            &&& forall|other: u8|
                other != id && other != victim.id ==> piece_by_id(after.pieces, other)
                    == piece_by_id(s.pieces, other)
        },
{
    lemma_take(s, piece, square);
}

/// A request to move a piece to the square on which it stands is answered
/// with a pass. After it every piece is as it was, no piece has been
/// taken, and the turn has ended: the other side is to move, one more turn
/// is counted and no chain is in progress.
pub proof fn law_pass_step(s: GameStateView, id: u8, square: Square, piece: Piece)
    requires
        s.wf(),
        is_decided_by_the_rules(s, id, square, piece),
        square.x == piece.x && square.y == piece.y,
    ensures
        s.step(id, square) matches Ok((kind, after)) && {
            &&& kind == MoveType::Pass
            &&& after.pieces == s.pieces
            &&& after.removed_pieces == s.removed_pieces
            &&& after.turn.color == s.turn.color.opposite()
            &&& s.turn.turn_count < u16::MAX ==> after.turn.turn_count == s.turn.turn_count + 1
            &&& after.turn.chain_count == 0
            &&& after.turn.chain_piece_id == NO_PIECE
        },
{
}

/// While a capture chain is in progress, no other piece than the one that
/// chains has a square to move to, and a request for another piece in play
/// is invalid and changes nothing.
pub proof fn law_chain_binds(s: GameStateView, other: u8, square: Square)
    requires
        s.turn.in_chain(),
        other != s.turn.chain_piece_id,
    ensures
        s.legal_destinations(other).len() == 0,
        piece_by_id(s.pieces, other) is Some && square.on_board() ==> s.step(other, square) == Ok::<
            (MoveType, GameStateView),
            StepError,
        >((MoveType::Invalid, s)),
{
    lemma_index_of_id(s.pieces, other);
}

/// A take that leaves the piece with a further take, and the chain within
/// its limit, keeps the turn with the same side: the chain is one take
/// longer, the piece is the one that chains, and it alone has squares to
/// move to.
pub proof fn law_chain_forcing(s: GameStateView, id: u8, square: Square, piece: Piece)
    requires
        s.wf(),
        is_decided_by_the_rules(s, id, square, piece),
        classify(piece, square, s.pieces) == MoveType::Take,
        s.turn.chain_count < CHAIN_LIMIT,
        has_take(piece.landed(square), s.after_take(piece, square).pieces),
    ensures
        s.step(id, square) matches Ok((kind, after)) && {
            &&& kind == MoveType::Take
            &&& piece_by_id(after.pieces, id) == Some(piece.landed(square))
            &&& after.turn.color == s.turn.color
            &&& after.turn.turn_count == s.turn.turn_count
            &&& after.turn.chain_count == s.turn.chain_count + 1
            &&& after.turn.chain_piece_id == id
            &&& forall|other: u8|
                other != id ==> (#[trigger] after.legal_destinations(other)).len() == 0
            &&& after.legal_destinations(id) == destinations(piece.landed(square), after.pieces)
        },
{
    lemma_take(s, piece, square);
    let after = s.after_take(piece, square);
    assert forall|other: u8| other != id implies (#[trigger] after.legal_destinations(
        other,
    )).len() == 0 by {
        law_chain_binds(after, other, square);
    }
}

/// A take made when the chain has reached its limit ends the turn,
/// whatever further takes the piece has: the other side is to move, one
/// more turn is counted and no chain is in progress.
pub proof fn law_chain_cap(s: GameStateView, id: u8, square: Square, piece: Piece)
    requires
        s.wf(),
        is_decided_by_the_rules(s, id, square, piece),
        classify(piece, square, s.pieces) == MoveType::Take,
        s.turn.chain_count == CHAIN_LIMIT,
    ensures
        s.step(id, square) matches Ok((kind, after)) && {
            &&& kind == MoveType::Take
            &&& after.turn == s.turn.ended()
            &&& after.turn.color == s.turn.color.opposite()
            &&& s.turn.turn_count < u16::MAX ==> after.turn.turn_count == s.turn.turn_count + 1
            &&& after.turn.chain_count == 0
            &&& after.turn.chain_piece_id == NO_PIECE
        },
{
    lemma_take(s, piece, square);
}

/// Whether the piece `id`, asked to go to each of `squares` in turn, takes
/// each time.
pub open spec fn takes_in_a_row(s: GameStateView, id: u8, squares: Seq<Square>) -> bool
    decreases squares.len(),
{
    squares.len() > 0 ==> (s.step(id, squares[0]) matches Ok((kind, after)) && kind
        == MoveType::Take && takes_in_a_row(after, id, squares.drop_first()))
}

/// The state after the piece `id` has been asked to go to each of
/// `squares` in turn.
pub open spec fn after_requests(s: GameStateView, id: u8, squares: Seq<Square>) -> GameStateView
    decreases squares.len(),
{
    if squares.len() == 0 {
        s
    } else {
        match s.step(id, squares[0]) {
            Ok((_, after)) => after_requests(after, id, squares.drop_first()),
            Err(_) => s,
        }
    }
}

/// Takes in a row that end no turn are all counted in the chain.
proof fn lemma_takes_are_counted(s: GameStateView, id: u8, squares: Seq<Square>)
    requires
        s.wf(),
        takes_in_a_row(s, id, squares),
        s.turn.turn_count + squares.len() <= u16::MAX,
    ensures
        after_requests(s, id, squares).wf(),
        after_requests(s, id, squares).turn.turn_count >= s.turn.turn_count,
        after_requests(s, id, squares).turn.turn_count == s.turn.turn_count ==> after_requests(
            s,
            id,
            squares,
        ).turn.chain_count == s.turn.chain_count + squares.len(),
    decreases squares.len(),
{
    if squares.len() > 0 {
        let after = s.step(id, squares[0])->Ok_0.1;
        lemma_step_keeps_wf(s, id, squares[0]);
        law_turn_alternation(s, id, squares[0]);
        lemma_index_of_id(s.pieces, id);
        lemma_take(s, piece_by_id(s.pieces, id)->0, squares[0]);
        lemma_takes_are_counted(after, id, squares.drop_first());
    }
}

/// Of any `CHAIN_LIMIT + 1` takes that one piece makes in a row, one ends
/// the turn, whatever further takes the piece has.
pub proof fn law_chain_cap_in_a_row(s: GameStateView, id: u8, squares: Seq<Square>)
    requires
        s.wf(),
        squares.len() == CHAIN_LIMIT + 1,
        takes_in_a_row(s, id, squares),
        s.turn.turn_count + squares.len() <= u16::MAX,
    ensures
        after_requests(s, id, squares).turn.turn_count > s.turn.turn_count,
{
    lemma_takes_are_counted(s, id, squares);
}

/// A piece that moves to its crown row, by a regular move or a take, is a
/// king in the state that follows: of the same side and identity, on the
/// square it moved to; and a king may change its row either way.
pub proof fn law_promotion(s: GameStateView, id: u8, square: Square, piece: Piece)
    requires
        s.wf(),
        is_decided_by_the_rules(s, id, square, piece),
        classify(piece, square, s.pieces).is_move(),
        square.x == crown_row(piece.color),
    ensures
        s.step(id, square) matches Ok((_, after)) && piece_by_id(after.pieces, id) matches Some(
            moved,
        ) && {
            &&& moved == (Piece {
                color: piece.color,
                piece_type: PieceType::King,
                x: square.x,
                y: square.y,
                id,
            })
            &&& forall|dx: int| direction_allowed(moved, dx)
        },
{
    lemma_index_of_id(s.pieces, id);
    if classify(piece, square, s.pieces) == MoveType::Regular {
        law_regular_step(s, id, square, piece);
    } else {
        law_take_step(s, id, square, piece);
    }
}

/// A king in play stays a king for as long as it is in play.
pub proof fn law_rank_is_kept(s: GameStateView, id: u8, square: Square, king: u8)
    requires
        s.wf(),
        piece_by_id(s.pieces, king) matches Some(piece) && piece.piece_type == PieceType::King,
    ensures
        s.step(id, square) matches Ok((_, after)) ==> (piece_by_id(after.pieces, king) matches Some(
            piece,
        ) ==> piece.piece_type == PieceType::King),
{
    if s.step(id, square) is Ok {
        let (kind, after) = s.step(id, square)->Ok_0;
        let piece = piece_by_id(s.pieces, id)->0;
        lemma_index_of_id(s.pieces, id);
        lemma_index_of_id(s.pieces, king);
        if kind == MoveType::Regular {
            law_regular_step(s, id, square, piece);
        } else if kind == MoveType::Take {
            lemma_take(s, piece, square);
            let victim = piece_at(
                s.pieces,
                jumped_square(piece, square).0,
                jumped_square(piece, square).1,
            )->0;
            lemma_relocation(s.pieces, id, square);
            let between = relocated(s.pieces, id, square);
            lemma_removal(between, victim.id);
            if king != id && king != victim.id {
                assert(piece_by_id(between, king) == piece_by_id(s.pieces, king));
            }
        }
    }
}

/// A regular move and a pass hand the turn to the other side and count
/// one more turn, as far as the counter reaches; a take that goes on as a
/// chain leaves the turn where it is, and one that does not hands it on;
/// an invalid request changes nothing.
pub proof fn law_turn_alternation(s: GameStateView, id: u8, square: Square)
    requires
        s.wf(),
    ensures
        s.step(id, square) matches Ok((kind, after)) ==> {
            &&& kind == MoveType::Regular || kind == MoveType::Pass ==> {
                &&& after.turn.color == s.turn.color.opposite()
                &&& s.turn.turn_count < u16::MAX ==> after.turn.turn_count == s.turn.turn_count
                    + 1
                &&& !after.turn.in_chain()
                &&& after.turn.chain_piece_id == NO_PIECE
            }
            &&& kind == MoveType::Pass ==> after.pieces == s.pieces && after.removed_pieces
                == s.removed_pieces
            &&& kind == MoveType::Take && after.turn.in_chain() ==> {
                &&& after.turn.color == s.turn.color
                &&& after.turn.turn_count == s.turn.turn_count
            }
            &&& kind == MoveType::Take && !after.turn.in_chain() ==> {
                &&& after.turn.color == s.turn.color.opposite()
                &&& s.turn.turn_count < u16::MAX ==> after.turn.turn_count == s.turn.turn_count
                    + 1
            }
            &&& kind == MoveType::Invalid ==> after == s
        },
{
    if s.step(id, square) is Ok {
        let kind = s.step(id, square)->Ok_0.0;
        let piece = piece_by_id(s.pieces, id)->0;
        lemma_index_of_id(s.pieces, id);
        if kind == MoveType::Take {
            lemma_take(s, piece, square);
        }
    }
}

/// An error leaves no doubt about its cause: the piece is not in play, or
/// it is and the square is off the board.
pub proof fn law_errors(s: GameStateView, id: u8, square: Square)
    ensures
        s.step(id, square) == Err::<(MoveType, GameStateView), StepError>(StepError::UnknownPiece)
            <==> piece_by_id(s.pieces, id) is None,
        s.step(id, square) == Err::<(MoveType, GameStateView), StepError>(StepError::OffBoard)
            <==> piece_by_id(s.pieces, id) is Some && !square.on_board(),
        s.step(id, square) is Ok <==> piece_by_id(s.pieces, id) is Some && square.on_board(),
{
}

/// Replacing a piece by one of the same side leaves the number of pieces
/// of each side as it was.
pub proof fn lemma_count_after_update(pieces: Seq<Piece>, i: int, piece: Piece, color: Color)
    requires
        0 <= i < pieces.len(),
        piece.color == pieces[i].color,
    ensures
        count_of(pieces.update(i, piece), color) == count_of(pieces, color),
    decreases pieces.len(),
{
    reveal(Seq::filter);
    let after = pieces.update(i, piece);
    if i == pieces.len() - 1 {
        assert(after.drop_last() =~= pieces.drop_last());
    } else {
        assert(after.drop_last() =~= pieces.drop_last().update(i, piece));
        lemma_count_after_update(pieces.drop_last(), i, piece, color);
    }
}

/// Taking a piece out lowers the number of pieces of its side by one and
/// leaves the number of pieces of the other side as it was.
pub proof fn lemma_count_after_removal(pieces: Seq<Piece>, i: int, color: Color)
    requires
        0 <= i < pieces.len(),
    ensures
        count_of(pieces.remove(i), color) == count_of(pieces, color) - (if pieces[i].color
            == color {
            1int
        } else {
            0int
        }),
    decreases pieces.len(),
{
    reveal(Seq::filter);
    let after = pieces.remove(i);
    if i == pieces.len() - 1 {
        assert(after =~= pieces.drop_last());
    } else {
        assert(after.drop_last() =~= pieces.drop_last().remove(i));
        assert(after.last() == pieces.last());
        lemma_count_after_removal(pieces.drop_last(), i, color);
    }
}

/// A take costs the side of the piece jumped over one piece and the side
/// that takes none; a regular move, a pass and an invalid request cost
/// neither side a piece.
pub proof fn law_material(s: GameStateView, id: u8, square: Square)
    requires
        s.wf(),
    ensures
        s.step(id, square) matches Ok((kind, after)) ==> piece_by_id(s.pieces, id) matches Some(
            piece,
        ) && {
            &&& kind == MoveType::Take ==> {
                &&& count_of(after.pieces, piece.color) == count_of(s.pieces, piece.color)
                &&& count_of(after.pieces, piece.color.opposite()) == count_of(
                    s.pieces,
                    piece.color.opposite(),
                ) - 1
            }
            &&& kind != MoveType::Take ==> {
                &&& count_of(after.pieces, Color::White) == count_of(s.pieces, Color::White)
                &&& count_of(after.pieces, Color::Black) == count_of(s.pieces, Color::Black)
                &&& after.removed_pieces == s.removed_pieces
            }
        },
{
    if s.step(id, square) is Ok {
        let kind = s.step(id, square)->Ok_0.0;
        let piece = piece_by_id(s.pieces, id)->0;
        lemma_index_of_id(s.pieces, id);
        let i = index_of_id(s.pieces, id)->0;
        let between = relocated(s.pieces, id, square);
        if kind == MoveType::Regular {
            lemma_count_after_update(s.pieces, i, piece.landed(square), Color::White);
            lemma_count_after_update(s.pieces, i, piece.landed(square), Color::Black);
        } else if kind == MoveType::Take {
            lemma_take(s, piece, square);
            let victim = piece_at(
                s.pieces,
                jumped_square(piece, square).0,
                jumped_square(piece, square).1,
            )->0;
            lemma_count_after_update(s.pieces, i, piece.landed(square), Color::White);
            lemma_count_after_update(s.pieces, i, piece.landed(square), Color::Black);
            lemma_relocation(s.pieces, id, square);
            lemma_index_of_id(between, victim.id);
            let j = index_of_id(between, victim.id)->0;
            lemma_index_of_id(s.pieces, victim.id);
            assert(between[j] == victim) by {
                lemma_piece_is_found(s.pieces, j);
            }
            lemma_count_after_removal(between, j, Color::White);
            lemma_count_after_removal(between, j, Color::Black);
        }
    }
}

/// No request takes anything away from the pieces taken so far: they stay,
/// in their order, at the head of the pieces taken.
pub proof fn law_history_is_kept(s: GameStateView, id: u8, square: Square)
    requires
        s.wf(),
    ensures
        s.step(id, square) matches Ok((_, after)) ==> s.removed_pieces.is_prefix_of(
            after.removed_pieces,
        ),
{
    if s.step(id, square) is Ok {
        let kind = s.step(id, square)->Ok_0.0;
        lemma_index_of_id(s.pieces, id);
        if kind == MoveType::Take {
            lemma_take(s, piece_by_id(s.pieces, id)->0, square);
        }
    }
}

/// A side without a piece in play has lost to a side with one; once more
/// than `MOVE_LIMIT` turns have been completed the side with more pieces
/// has won, and the game is drawn where neither has more; until then a
/// game in which both sides have a piece goes on.
pub proof fn law_termination(s: GameStateView)
    requires
        s.pieces.len() <= u8::MAX,
    ensures
        count_of(s.pieces, Color::White) == 0 && count_of(s.pieces, Color::Black) > 0
            ==> s.termination() == GameTermination::Black(
            count_of(s.pieces, Color::Black) as u8,
        ),
        count_of(s.pieces, Color::Black) == 0 && count_of(s.pieces, Color::White) > 0
            ==> s.termination() == GameTermination::White(
            count_of(s.pieces, Color::White) as u8,
        ),
        s.turn.turn_count > MOVE_LIMIT && count_of(s.pieces, Color::White) == count_of(
            s.pieces,
            Color::Black,
        ) ==> s.termination() == GameTermination::Draw,
        s.turn.turn_count <= MOVE_LIMIT && count_of(s.pieces, Color::White) > 0 && count_of(
            s.pieces,
            Color::Black,
        ) > 0 ==> s.termination() == GameTermination::Unterminated,
        s.termination() matches GameTermination::White(n) ==> n == count_of(
            s.pieces,
            Color::White,
        ) && n > count_of(s.pieces, Color::Black),
        s.termination() matches GameTermination::Black(n) ==> n == count_of(
            s.pieces,
            Color::Black,
        ) && n > count_of(s.pieces, Color::White),
{
    broadcast use vstd::seq_lib::group_filter_ensures;

}

/// Before the first move the game goes on.
pub proof fn law_initial_state_goes_on()
    ensures
        GameStateView::initial().termination() == GameTermination::Unterminated,
{
    let pieces = GameStateView::initial().pieces;
    assert(pieces[0].color == Color::White);
    assert(pieces[12].color == Color::Black);
    pieces.lemma_filter_contains(of_color(Color::White), 0);
    pieces.lemma_filter_contains(of_color(Color::Black), 12);
}

/// The squares listed for a piece are the squares of the board to which
/// its move is a regular move or a take.
pub proof fn law_destinations(piece: Piece, pieces: Seq<Piece>, square: Square)
    ensures
        destinations(piece, pieces).contains((square.x, square.y)) <==> square.on_board()
            && classify(piece, square, pieces).is_move(),
{
    let kept = board_squares().filter(reaches(piece, pieces));
    let listed = destinations(piece, pieces);
    if square.on_board() && classify(piece, square, pieces).is_move() {
        lemma_square_index(square);
        let k = 8 * square.x + square.y;
        board_squares().lemma_filter_contains(reaches(piece, pieces), k);
        let m = choose|m: int| 0 <= m < kept.len() && kept[m] == square;
        assert(listed[m] == (square.x, square.y));
    }
    if listed.contains((square.x, square.y)) {
        let m = choose|m: int| 0 <= m < listed.len() && listed[m] == (square.x, square.y);
        assert(kept[m] == square);
        board_squares().lemma_filter_pred(reaches(piece, pieces), m);
        board_squares().lemma_filter_contains_rev(reaches(piece, pieces), square);
    }
}

/// A piece has a take exactly if its move to some square of the board is
/// one.
pub proof fn law_has_take(piece: Piece, pieces: Seq<Piece>)
    ensures
        has_take(piece, pieces) <==> exists|square: Square|
            square.on_board() && #[trigger] classify(piece, square, pieces) == MoveType::Take,
{
    if has_take(piece, pieces) {
        let k = choose|k: int|
            0 <= k < board_squares().len() && classify(piece, #[trigger] board_squares()[k], pieces)
                == MoveType::Take;
        assert(board_squares()[k].on_board());
    }
    if exists|square: Square|
        square.on_board() && #[trigger] classify(piece, square, pieces) == MoveType::Take {
        let square = choose|square: Square|
            square.on_board() && #[trigger] classify(piece, square, pieces) == MoveType::Take;
        lemma_square_index(square);
    }
}

/// A square is listed among the legal moves of a piece exactly if the
/// piece is in play and may move now, the square lies on the board, and
/// the move is a regular move or a take; a request for a listed square is
/// answered with that move.
pub proof fn law_legal_moves_are_accepted(s: GameStateView, id: u8, square: Square)
    ensures
        s.legal_destinations(id).contains((square.x, square.y)) <==> (piece_by_id(s.pieces, id) matches Some(
            piece,
        ) && s.may_move(piece) && square.on_board() && classify(piece, square, s.pieces).is_move()),
        s.legal_destinations(id).contains((square.x, square.y)) ==> (s.step(id, square) matches Ok(
            (kind, _),
        ) && kind.is_move()),
{
    lemma_index_of_id(s.pieces, id);
    match piece_by_id(s.pieces, id) {
        Some(piece) => {
            law_destinations(piece, s.pieces, square);
        },
        None => {},
    }
}

/// Whatever is requested of a state that meets the invariant, the state
/// that follows meets it.
pub proof fn law_invariant_is_kept(s: GameStateView, id: u8, square: Square)
    requires
        s.wf(),
    ensures
        s.step(id, square) matches Ok((_, after)) ==> after.wf(),
        GameStateView::initial().wf(),
{
    lemma_step_keeps_wf(s, id, square);
    lemma_initial_state_wf();
}

} // verus!
