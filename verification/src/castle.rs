//! Castling rights: a four-bit flag set and the four individual rights.

use vstd::prelude::*;
use crate::bitboard::Bitboard;
use crate::bitboard::sq_bb;
use crate::square::Square;

verus! {

/// The set of castling rights still held, as four flag bits:
/// 1 white king side, 2 white queen side, 4 black king side, 8 black queen side.
#[derive(Clone, Copy, PartialEq, Eq, Structural, Debug)]
pub struct CastleRights(pub u8);

/// One castling right.
#[derive(Clone, Copy, PartialEq, Eq, Structural, Debug)]
pub enum CastleRight {
    WhiteKing,
    WhiteQueen,
    BlackKing,
    BlackQueen,
}

/// The flag bit of one castling right.
pub open spec fn right_bit(right: CastleRight) -> u8 {
    match right {
        CastleRight::WhiteKing => 1u8,
        CastleRight::WhiteQueen => 2u8,
        CastleRight::BlackKing => 4u8,
        CastleRight::BlackQueen => 8u8,
    }
}

/// The rights revoked when a piece moves from, or is captured on, `sq`:
/// nonzero only on the king and rook home squares.
pub open spec fn square_rights(sq: int) -> u8 {
    if sq == 7 {
        1u8
    } else if sq == 0 {
        2u8
    } else if sq == 4 {
        3u8
    } else if sq == 63 {
        4u8
    } else if sq == 56 {
        8u8
    } else if sq == 60 {
        12u8
    } else {
        0u8
    }
}

impl Default for CastleRights {
    /// No rights held.
    fn default() -> (r: Self)
        ensures
            r.0 == 0,
    {
        CastleRights(0)
    }
}

impl CastleRights {
    pub const NONE: u8 = 0;

    pub const ALL: u8 = 15;

    /// The rights revoked when a piece moves from, or is captured on,
    /// `square`: the rights whose king or rook home square it is.
    pub fn square(square: Square) -> (r: CastleRights)
        requires
            square < 64,
        ensures
            r.0 == square_rights(square as int),
    {
        match square {
            7 => CastleRights(1),
            0 => CastleRights(2),
            4 => CastleRights(3),
            63 => CastleRights(4),
            56 => CastleRights(8),
            60 => CastleRights(12),
            _ => CastleRights(0),
        }
    }

    /// Is the right part of the set?
    pub fn has(&self, right: CastleRight) -> (r: bool)
        ensures
            r == (self.0 & right_bit(right) != 0),
    {
        let b: u8 = right.bits();
        self.0 & b != 0
    }

    /// Add one right to the set.
    pub fn insert(&mut self, right: CastleRight)
        ensures
            final(self).0 == old(self).0 | right_bit(right),
    {
        let b: u8 = right.bits();
        self.0 = self.0 | b;
    }

    /// The set without the rights of `other`.
    pub fn remove(&self, other: CastleRights) -> (r: CastleRights)
        ensures
            r.0 == self.0 & !other.0,
    {
        CastleRights(self.0 & !other.0)
    }

    /// Is any right held?
    pub fn any(&self) -> (r: bool)
        ensures
            r == (self.0 != 0),
    {
        self.0 != 0
    }

    /// The rights written as a subset of `KQkq`, in that order.
    pub fn to_string(&self) -> (r: String)
        ensures
            r@ == rights_string(self.0),
    {
        proof {
            reveal_strlit("K");
            reveal_strlit("Q");
            reveal_strlit("k");
            reveal_strlit("q");
        }
        let mut result: String = String::new();
        if self.0 & 1 != 0 {
            result.append("K");
        }
        if self.0 & 2 != 0 {
            result.append("Q");
        }
        if self.0 & 4 != 0 {
            result.append("k");
        }
        if self.0 & 8 != 0 {
            result.append("q");
        }
        proof {
            assert(result@ =~= rights_string(self.0));
        }
        result
    }
}

/// The rights written as a subset of `KQkq`, in that order.
pub open spec fn rights_string(bits: u8) -> Seq<char> {
    (if bits & 1 != 0 {
        seq!['K']
    } else {
        Seq::<char>::empty()
    }) + (if bits & 2 != 0 {
        seq!['Q']
    } else {
        Seq::<char>::empty()
    }) + (if bits & 4 != 0 {
        seq!['k']
    } else {
        Seq::<char>::empty()
    }) + (if bits & 8 != 0 {
        seq!['q']
    } else {
        Seq::<char>::empty()
    })
}

impl CastleRight {
    /// The flag bit of the right.
    pub fn bits(&self) -> (r: u8)
        ensures
            r == right_bit(*self),
    {
        match self {
            CastleRight::WhiteKing => 1,
            CastleRight::WhiteQueen => 2,
            CastleRight::BlackKing => 4,
            CastleRight::BlackQueen => 8,
        }
    }

    /// The right a placement letter stands for.
    pub fn from(value: char) -> (r: CastleRight)
        requires
            value == 'K' || value == 'Q' || value == 'k' || value == 'q',
        ensures
            value == 'K' ==> r == CastleRight::WhiteKing,
            value == 'Q' ==> r == CastleRight::WhiteQueen,
            value == 'k' ==> r == CastleRight::BlackKing,
            value == 'q' ==> r == CastleRight::BlackQueen,
    {
        match value {
            'K' => CastleRight::WhiteKing,
            'Q' => CastleRight::WhiteQueen,
            'k' => CastleRight::BlackKing,
            'q' => CastleRight::BlackQueen,
            _ => vstd::pervasive::unreached(),
        }
    }

    /// The four rights, in the order the flag bits have them.
    pub fn iter() -> (r: Vec<CastleRight>)
        ensures
            r@ == seq![
                CastleRight::WhiteKing,
                CastleRight::WhiteQueen,
                CastleRight::BlackKing,
                CastleRight::BlackQueen,
            ],
    {
        let mut v: Vec<CastleRight> = Vec::new();
        v.push(CastleRight::WhiteKing);
        v.push(CastleRight::WhiteQueen);
        v.push(CastleRight::BlackKing);
        v.push(CastleRight::BlackQueen);
        proof {
            assert(v@ =~= seq![
                CastleRight::WhiteKing,
                CastleRight::WhiteQueen,
                CastleRight::BlackKing,
                CastleRight::BlackQueen,
            ]);
        }
        v
    }

    /// The squares between king and rook that must be empty for this right.
    pub fn blocker(&self) -> (r: Bitboard)
        ensures
            r == right_blockers(*self),
    {
        match self {
            CastleRight::WhiteKing => (1u64 << 5) | (1u64 << 6),
            CastleRight::WhiteQueen => (1u64 << 1) | (1u64 << 2) | (1u64 << 3),
            CastleRight::BlackKing => (1u64 << 61) | (1u64 << 62),
            CastleRight::BlackQueen => (1u64 << 57) | (1u64 << 58) | (1u64 << 59),
        }
    }

    /// The square the king passes over when castling with this right.
    pub fn neighbor(&self) -> (r: Square)
        ensures
            r == right_neighbor(*self),
    {
        match self {
            CastleRight::WhiteKing => 5,
            CastleRight::WhiteQueen => 3,
            CastleRight::BlackKing => 61,
            CastleRight::BlackQueen => 59,
        }
    }

    /// The square the king lands on when castling with this right.
    pub fn square(&self) -> (r: Square)
        ensures
            r == right_target(*self),
    {
        match self {
            CastleRight::WhiteKing => 6,
            CastleRight::WhiteQueen => 2,
            CastleRight::BlackKing => 62,
            CastleRight::BlackQueen => 58,
        }
    }

    /// The placement letter of the right.
    pub fn to_string(&self) -> (r: String)
        ensures
            *self == CastleRight::WhiteKing ==> r@ == "K"@,
            *self == CastleRight::WhiteQueen ==> r@ == "Q"@,
            *self == CastleRight::BlackKing ==> r@ == "k"@,
            *self == CastleRight::BlackQueen ==> r@ == "q"@,
    {
        match self {
            CastleRight::WhiteKing => String::from_str("K"),
            CastleRight::WhiteQueen => String::from_str("Q"),
            CastleRight::BlackKing => String::from_str("k"),
            CastleRight::BlackQueen => String::from_str("q"),
        }
    }
}

/// The empty-square requirement between king and rook, per right.
pub open spec fn right_blockers(right: CastleRight) -> u64 {
    match right {
        CastleRight::WhiteKing => sq_bb(5) | sq_bb(6),
        CastleRight::WhiteQueen => sq_bb(1) | sq_bb(2) | sq_bb(3),
        CastleRight::BlackKing => sq_bb(61) | sq_bb(62),
        CastleRight::BlackQueen => sq_bb(57) | sq_bb(58) | sq_bb(59),
    }
}

/// The king's transit square, per right.
pub open spec fn right_neighbor(right: CastleRight) -> int {
    match right {
        CastleRight::WhiteKing => 5int,
        CastleRight::WhiteQueen => 3int,
        CastleRight::BlackKing => 61int,
        CastleRight::BlackQueen => 59int,
    }
}

/// The king's landing square, per right.
pub open spec fn right_target(right: CastleRight) -> int {
    match right {
        CastleRight::WhiteKing => 6int,
        CastleRight::WhiteQueen => 2int,
        CastleRight::BlackKing => 62int,
        CastleRight::BlackQueen => 58int,
    }
}

/// A single right parsed from, or written to, a placement description.
pub struct CastleRightUtils;

impl CastleRightUtils {
    /// The rights-set holding just the right a placement letter names.
    pub fn parse(value: char) -> (r: CastleRights)
        requires
            value == 'K' || value == 'Q' || value == 'k' || value == 'q',
        ensures
            value == 'K' ==> r.0 == 1,
            value == 'Q' ==> r.0 == 2,
            value == 'k' ==> r.0 == 4,
            value == 'q' ==> r.0 == 8,
    {
        let right: CastleRight = CastleRight::from(value);
        CastleRights(right.bits())
    }

    /// The rights written as a subset of `KQkq`.
    pub fn to_string(castle_right: CastleRights) -> (r: String)
        ensures
            r@ == rights_string(castle_right.0),
    {
        castle_right.to_string()
    }
}

} // verus!
