//! Whose turn it is, how many turns have been completed, and the capture
//! chain that may be in progress.

use vstd::prelude::*;
use crate::board::Color;
use crate::piece::PIECE_COUNT;

verus! {

/// The game ends once more turns than this have been completed.
pub const MOVE_LIMIT: u16 = 33;

/// The most takes one piece may chain before the turn is ended for it.
pub const CHAIN_LIMIT: u16 = 5;

/// What `chain_piece_id` holds while no chain is in progress.
pub const NO_PIECE: i16 = -1;

/// The turn record: the side to move, the number of completed turns, the
/// number of takes chained so far in this turn, and the piece that chains.
#[derive(Clone, Copy, Debug, PartialEq, Eq, Structural)]
pub struct PlayerTurn {
    pub color: Color,
    pub turn_count: u16,
    pub chain_count: u16,
    pub chain_piece_id: i16,
}

impl PlayerTurn {
    /// The record at the start of a game: White to move, nothing counted.
    pub open spec fn initial() -> PlayerTurn {
        PlayerTurn { color: Color::White, turn_count: 0, chain_count: 0, chain_piece_id: NO_PIECE }
    }

    /// Whether a capture chain is in progress.
    pub open spec fn in_chain(self) -> bool {
        self.chain_count > 0
    }

    /// The record is consistent: the chain is within its limit, and a piece
    /// is named exactly while a chain is in progress.
    pub open spec fn wf(self) -> bool {
        &&& self.chain_count <= CHAIN_LIMIT
        &&& !self.in_chain() ==> self.chain_piece_id == NO_PIECE
        &&& self.in_chain() ==> 0 <= self.chain_piece_id < PIECE_COUNT
    }

    /// Whether a chain is in progress that the piece `id` is not part of,
    /// so that this piece may not move now.
    pub open spec fn excludes(self, id: u8) -> bool {
        self.in_chain() && self.chain_piece_id != id
    }

    /// The record after the turn has ended: the other side is to move, one
    /// more turn is counted and no chain is in progress.
    pub open spec fn ended(self) -> PlayerTurn {
        PlayerTurn {
            color: self.color.opposite(),
            turn_count: (self.turn_count + 1) as u16,
            chain_count: 0,
            chain_piece_id: NO_PIECE,
        }
    }

    /// The record after a take by `id` that leaves the turn with the same
    /// side: one more take is counted and `id` is the piece that chains.
    pub open spec fn chained(self, id: u8) -> PlayerTurn {
        PlayerTurn {
            chain_count: (self.chain_count + 1) as u16,
            chain_piece_id: id as i16,
            ..self
        }
    }

    /// The record after a take by `id`. The take is counted; if the count
    /// then exceeds `CHAIN_LIMIT`, or the piece has no further take
    /// (`further_take`), the turn ends, else the chain goes on with `id`.
    pub open spec fn after_take(self, id: u8, further_take: bool) -> PlayerTurn {
        if self.chain_count + 1 > CHAIN_LIMIT || !further_take {
            self.ended()
        } else {
            self.chained(id)
        }
    }

    /// Tells whether a chain is in progress that the piece `id` is not
    /// part of.
    pub fn shuts_out(&self, id: u8) -> (r: bool)
        ensures
            r == self.excludes(id),
    {
        self.chain_count > 0 && self.chain_piece_id != id as i16
    }

    /// Ends the turn.
    pub fn change(&mut self)
        requires
            old(self).turn_count < u16::MAX,
        ensures
            *final(self) == old(self).ended(),
    {
        self.color = self.color.other();
        self.turn_count = self.turn_count + 1;
        self.chain_count = 0;
        self.chain_piece_id = NO_PIECE;
    }

    /// Records a take by the piece `id`, which has a further take available
    /// or not, as `further_take` says.
    pub fn record_take(&mut self, id: u8, further_take: bool)
        requires
            old(self).turn_count < u16::MAX,
        ensures
            *final(self) == old(self).after_take(id, further_take),
    {
        if self.chain_count >= CHAIN_LIMIT || !further_take {
            self.change();
        } else {
            self.chain_count = self.chain_count + 1;
            self.chain_piece_id = id as i16;
        }
    }
}

impl Default for PlayerTurn {
    /// The record at the start of a game.
    fn default() -> (r: Self)
        ensures
            r == PlayerTurn::initial(),
    {
        PlayerTurn { color: Color::White, turn_count: 0, chain_count: 0, chain_piece_id: NO_PIECE }
    }
}

/// Ending a turn, or chaining a take within the limit, keeps the record
/// consistent.
pub proof fn lemma_turn_stays_consistent(turn: PlayerTurn, id: u8, further_take: bool)
    requires
        turn.wf(),
        id < PIECE_COUNT,
    ensures
        turn.ended().wf(),
        turn.after_take(id, further_take).wf(),
{
}

} // verus!
