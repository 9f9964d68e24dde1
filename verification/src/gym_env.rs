//! A game wrapped as an environment for a learning agent: actions go in,
//! observations and rewards come out, and the game can be set back.

use vstd::prelude::*;
use crate::board::{Color, Square};
use crate::game::{Game, GameTermination, StepError, count_of};
use crate::moves::MoveType;
use crate::piece::Piece;
use crate::state::{GameState, GameStateView};

verus! {

/// A requested move: the piece to move, named by its identity, and the
/// square to move it to.
#[derive(Clone, Copy, Debug, PartialEq, Eq, Structural)]
pub struct Action {
    pub piece: Piece,
    pub square: Square,
}

/// What one action led to.
#[derive(Debug)]
pub struct Step {
    /// The state after the action.
    pub obs: GameState,
    /// The action taken.
    pub action: Action,
    /// The reward, from Black's point of view.
    pub reward: i8,
    /// Whether the game has ended.
    pub is_done: bool,
}

/// A game together with the state to which it can be set back.
pub struct CheckersEnv {
    /// The game in progress.
    pub game: Game,
    /// The state to which `reset` sets the game back.
    pub initial_state: GameState,
}

/// The reward for an outcome, from Black's point of view: the number of
/// pieces of the winner, counted against Black where White has won, and
/// nothing for a draw or a game that goes on.
pub open spec fn reward_of(termination: GameTermination) -> int {
    match termination {
        GameTermination::Unterminated => 0,
        GameTermination::Black(n) => n as int,
        GameTermination::Draw => 0,
        GameTermination::White(n) => -(n as int),
    }
}

/// The winner of an ended game is reported with the number of its pieces
/// in play, which is at least one and at most the number of pieces in play.
pub proof fn lemma_termination_counts(s: GameStateView)
    requires
        s.pieces.len() <= u8::MAX,
    ensures
        match s.termination() {
            GameTermination::White(n) => n == count_of(s.pieces, Color::White) && 0 < n
                <= s.pieces.len(),
            GameTermination::Black(n) => n == count_of(s.pieces, Color::Black) && 0 < n
                <= s.pieces.len(),
            GameTermination::Draw => count_of(s.pieces, Color::White) == count_of(
                s.pieces,
                Color::Black,
            ),
            GameTermination::Unterminated => true,
        },
{
    broadcast use vstd::seq_lib::group_filter_ensures;

}

impl CheckersEnv {
    /// The invariant of an environment: its game and the state kept for
    /// `reset` meet theirs.
    pub open spec fn wf(&self) -> bool {
        &&& self.game.wf()
        &&& self.initial_state@.wf()
    }

    /// Tells whether this environment meets its invariant.
    pub fn is_well_formed(&self) -> (r: bool)
        ensures
            r == self.wf(),
    {
        self.game.is_well_formed() && self.initial_state.is_well_formed()
    }

    /// Wraps `game`, whose present state is the one to which `reset` sets
    /// the game back. The environment meets its invariant if `game` meets
    /// its own.
    pub fn new(game: Game) -> (r: CheckersEnv)
        ensures
            r.game == game,
            r.initial_state@ == game.state@,
            r.wf() == game.wf(),
    {
        let initial_state = game.state.clone();
        CheckersEnv { game, initial_state }
    }

    /// Sets the game to `state`, or to the state kept from the start where
    /// none is given, and returns a copy of the state set. The invariant is
    /// kept if the state given, where one is given, meets that of a game
    /// state.
    pub fn reset(&mut self, state: Option<GameState>) -> (r: GameState)
        ensures
            old(self).wf() && (state matches Some(given) ==> given.wf()) ==> final(self).wf(),
            final(self).game.state@ == (match state {
                Some(given) => given@,
                None => old(self).initial_state@,
            }),
            final(self).game.squares == old(self).game.squares,
            final(self).initial_state@ == old(self).initial_state@,
            r@ == final(self).game.state@,
    {
        if let Some(given) = state {
            self.game.state = given;
        } else {
            self.game.state = self.initial_state.clone();
        }
        self.game.state.clone()
    }

    /// Applies `action` to the game and reports the state reached, the
    /// reward and whether the game has ended; or the error, with the game
    /// unchanged, if the piece is not in play or the square is off the
    /// board.
    pub fn step(&mut self, action: Action) -> (r: Result<Step, StepError>)
        requires
            old(self).wf(),
            old(self).game.state.turn.turn_count < u16::MAX,
        ensures
            final(self).wf(),
            final(self).initial_state@ == old(self).initial_state@,
            match r {
                Ok(step) => {
                    &&& old(self).game.state@.step(action.piece.id, action.square) matches Ok(
                        (_, after),
                    ) && after == final(self).game.state@
                    &&& step.obs@ == final(self).game.state@
                    &&& step.action == action
                    &&& step.reward == reward_of(final(self).game.state@.termination())
                    &&& step.is_done == (final(self).game.state@.termination()
                        != GameTermination::Unterminated)
                },
                Err(e) => {
                    &&& old(self).game.state@.step(action.piece.id, action.square) == Err::<
                        (MoveType, GameStateView),
                        StepError,
                    >(e)
                    &&& final(self).game.state@ == old(self).game.state@
                },
            },
    {
        match self.game.step(action.piece.id, action.square) {
            Ok((_move_type, state, termination)) => {
                proof {
                    lemma_termination_counts(self.game.state@);
                }
                Ok(
                    Step {
                        obs: state,
                        action,
                        reward: match termination {
                            GameTermination::Unterminated => 0,
                            GameTermination::Black(num) => num as i8,
                            GameTermination::Draw => 0,
                            GameTermination::White(num) => -(num as i8),
                        },
                        is_done: !matches!(termination, GameTermination::Unterminated),
                    },
                )
            },
            Err(e) => Err(e),
        }
    }
}

} // verus!
