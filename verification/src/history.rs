//! The history stack: one snapshot of the scalar state per applied move,
//! pushed on make and popped on unmake.

use vstd::prelude::*;
use crate::board::Board;
use crate::castle::CastleRights;
use crate::color::Color;
use crate::piece_move::Move;
use crate::square::Square;
use crate::zobrist::ZobristHash;

verus! {

pub type History = Vec<OldState>;

/// What a move cannot reconstruct on its own: the scalar state before it was
/// made, and the move itself.
#[derive(Clone, Copy, PartialEq, Eq, Structural, Debug)]
pub struct OldState {
    pub color: Color,
    pub en_passant: Option<Square>,
    pub castle_rights: CastleRights,
    pub halfmove_clock: u8,
    pub fullmove_number: u16,
    pub move_made: Move,
    pub hash: ZobristHash,
}

/// The snapshot a board yields before `move_made` is applied to it.
pub open spec fn snap_of(board: Board, move_made: Move) -> OldState {
    OldState {
        color: board.color,
        en_passant: board.en_passant,
        castle_rights: board.castle_rights,
        halfmove_clock: board.halfmove_clock,
        fullmove_number: board.fullmove_number,
        move_made,
        hash: board.hash,
    }
}

impl OldState {
    /// Snapshot the scalar state of `board` before `move_made` is applied.
    pub fn new(board: &Board, move_made: Move) -> (r: Self)
        ensures
            r == snap_of(*board, move_made),
    {
        Self {
            hash: board.hash,
            color: board.color,
            en_passant: board.en_passant,
            castle_rights: board.castle_rights,
            halfmove_clock: board.halfmove_clock,
            fullmove_number: board.fullmove_number,
            move_made,
        }
    }
}

} // verus!
