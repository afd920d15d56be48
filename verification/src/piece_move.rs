//! The packed move representation: one integer holding piece kind,
//! from-square, to-square, captured piece, promotion piece and three flags,
//! at fixed bit offsets.

use vstd::prelude::*;
use crate::piece::Piece;
use crate::square::Square;

verus! {

/// A move, packed into fixed bit fields:
/// piece 0..3, from 3..9, to 9..15, captured 15..18, promoted 18..21,
/// en passant 21, double push 22, castling 23.
#[derive(Clone, Copy, PartialEq, Eq, Structural, Debug)]
pub struct Move(pub u64);

pub open spec fn mv_piece(m: Move) -> int {
    (m.0 & 7) as int
}

pub open spec fn mv_from(m: Move) -> int {
    ((m.0 >> 3) & 0x3f) as int
}

pub open spec fn mv_to(m: Move) -> int {
    ((m.0 >> 9) & 0x3f) as int
}

pub open spec fn mv_captured(m: Move) -> int {
    ((m.0 >> 15) & 7) as int
}

pub open spec fn mv_promoted(m: Move) -> int {
    ((m.0 >> 18) & 7) as int
}

pub open spec fn mv_en_passant(m: Move) -> bool {
    (m.0 >> 21) & 1 == 1
}

pub open spec fn mv_two_step(m: Move) -> bool {
    (m.0 >> 22) & 1 == 1
}

pub open spec fn mv_castling(m: Move) -> bool {
    (m.0 >> 23) & 1 == 1
}

/// The packed form of a move with the given fields.
pub open spec fn mv_encode(
    piece: u64,
    from: u64,
    to: u64,
    captured: u64,
    promoted: u64,
    ep: bool,
    two_step: bool,
    castling: bool,
) -> u64 {
    piece | (from << 3) | (to << 9) | (captured << 15) | (promoted << 18) | (if ep {
        1u64 << 21
    } else {
        0u64
    }) | (if two_step {
        1u64 << 22
    } else {
        0u64
    }) | (if castling {
        1u64 << 23
    } else {
        0u64
    })
}

/// Each bit field reads back exactly the value the packed form was built
/// from.
pub proof fn lemma_mv_roundtrip(
    piece: u64,
    from: u64,
    to: u64,
    captured: u64,
    promoted: u64,
    ep: bool,
    two_step: bool,
    castling: bool,
)
    by (bit_vector)
    requires
        piece < 8,
        from < 64,
        to < 64,
        captured < 8,
        promoted < 8,
    ensures
        mv_encode(piece, from, to, captured, promoted, ep, two_step, castling) & 7 == piece,
        (mv_encode(piece, from, to, captured, promoted, ep, two_step, castling) >> 3) & 0x3f
            == from,
        (mv_encode(piece, from, to, captured, promoted, ep, two_step, castling) >> 9) & 0x3f == to,
        (mv_encode(piece, from, to, captured, promoted, ep, two_step, castling) >> 15) & 7
            == captured,
        (mv_encode(piece, from, to, captured, promoted, ep, two_step, castling) >> 18) & 7
            == promoted,
        ((mv_encode(piece, from, to, captured, promoted, ep, two_step, castling) >> 21) & 1 == 1)
            == ep,
        ((mv_encode(piece, from, to, captured, promoted, ep, two_step, castling) >> 22) & 1 == 1)
            == two_step,
        ((mv_encode(piece, from, to, captured, promoted, ep, two_step, castling) >> 23) & 1 == 1)
            == castling,
{
}

/// The bit fields of any packed word are in range.
pub proof fn lemma_mv_bounds(x: u64)
    by (bit_vector)
    ensures
        x & 7 < 8,
        (x >> 3) & 0x3f < 64,
        (x >> 9) & 0x3f < 64,
        (x >> 15) & 7 < 8,
        (x >> 18) & 7 < 8,
{
}

impl Move {
    pub const PIECE: u64 = 0;

    pub const FROM_SQUARE: u64 = 3;

    pub const TO_SQUARE: u64 = 9;

    pub const CAPTURE: u64 = 15;

    pub const PROMOTION: u64 = 18;

    pub const EN_PASSANT: u64 = 21;

    pub const TWO_STEP: u64 = 22;

    pub const CASTLING: u64 = 23;

    /// A move from its packed form.
    pub fn new(data: u64) -> (r: Self)
        ensures
            r.0 == data,
    {
        Move(data)
    }

    /// The kind of the moving piece.
    pub fn piece(&self) -> (r: Piece)
        ensures
            r == mv_piece(*self),
            r < 8,
    {
        proof {
            lemma_mv_bounds(self.0);
        }
        (self.0 & 7) as usize
    }

    /// The square the piece moves from.
    pub fn from(&self) -> (r: Square)
        ensures
            r == mv_from(*self),
            r < 64,
    {
        proof {
            lemma_mv_bounds(self.0);
        }
        ((self.0 >> 3) & 0x3f) as usize
    }

    /// The square the piece moves to.
    pub fn to(&self) -> (r: Square)
        ensures
            r == mv_to(*self),
            r < 64,
    {
        proof {
            lemma_mv_bounds(self.0);
        }
        ((self.0 >> 9) & 0x3f) as usize
    }

    /// The captured piece kind, or 6 when nothing is captured.
    pub fn captured(&self) -> (r: Piece)
        ensures
            r == mv_captured(*self),
            r < 8,
    {
        proof {
            lemma_mv_bounds(self.0);
        }
        ((self.0 >> 15) & 7) as usize
    }

    /// The piece a pawn promotes to, or 6 when the move is no promotion.
    pub fn promoted(&self) -> (r: Piece)
        ensures
            r == mv_promoted(*self),
            r < 8,
    {
        proof {
            lemma_mv_bounds(self.0);
        }
        ((self.0 >> 18) & 7) as usize
    }

    /// Is the move an en-passant capture?
    pub fn en_passant(&self) -> (r: bool)
        ensures
            r == mv_en_passant(*self),
    {
        (self.0 >> 21) & 1 == 1
    }

    /// Is the move a double pawn push?
    pub fn two_step(&self) -> (r: bool)
        ensures
            r == mv_two_step(*self),
    {
        (self.0 >> 22) & 1 == 1
    }

    /// Is the move castling?
    pub fn castling(&self) -> (r: bool)
        ensures
            r == mv_castling(*self),
    {
        (self.0 >> 23) & 1 == 1
    }
}

} // verus!
