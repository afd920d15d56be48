//! Piece kinds are indexes: pawn 0, knight 1, bishop 2, rook 3, queen 4,
//! king 5, with 6 as the "no piece" sentinel.

use vstd::prelude::*;
use crate::color::Color;

verus! {

pub type Piece = usize;

pub struct PieceUtils;

impl PieceUtils {
    pub const SIZE: usize = 6;

    pub const PAWN: Piece = 0;
    pub const KNIGHT: Piece = 1;
    pub const BISHOP: Piece = 2;
    pub const ROOK: Piece = 3;
    pub const QUEEN: Piece = 4;
    pub const KING: Piece = 5;
    pub const NONE: Piece = 6;
}

/// Is `c` a letter that names a piece in a placement description?
pub open spec fn is_piece_char(c: char) -> bool {
    c == 'P' || c == 'p' || c == 'N' || c == 'n' || c == 'B' || c == 'b' || c == 'R' || c == 'r'
        || c == 'Q' || c == 'q' || c == 'K' || c == 'k'
}

/// The piece kind a placement letter stands for.
pub open spec fn piece_of_char(c: char) -> int {
    if c == 'P' || c == 'p' {
        0int
    } else if c == 'N' || c == 'n' {
        1int
    } else if c == 'B' || c == 'b' {
        2int
    } else if c == 'R' || c == 'r' {
        3int
    } else if c == 'Q' || c == 'q' {
        4int
    } else {
        5int
    }
}

impl PieceUtils {
    /// The piece kind named by a placement letter, either case.
    pub fn parse(value: char) -> (r: Piece)
        requires
            is_piece_char(value),
        ensures
            r == piece_of_char(value),
            r < 6,
    {
        match value {
            'P' | 'p' => 0,
            'N' | 'n' => 1,
            'B' | 'b' => 2,
            'R' | 'r' => 3,
            'Q' | 'q' => 4,
            'K' | 'k' => 5,
            _ => vstd::pervasive::unreached(),
        }
    }

    /// The placement letter for a piece of a color: upper case for white,
    /// lower case for black.
    pub fn to_string(piece: Piece, color: Color) -> (r: String)
        requires
            piece < 6,
            color < 2,
        ensures
            r@.len() == 1,
            color == 0 ==> r@[0] == piece_char(piece as int, 0),
            color == 1 ==> r@[0] == piece_char(piece as int, 1),
    {
        let s: &str = if color == 0 {
            match piece {
                0 => "P",
                1 => "N",
                2 => "B",
                3 => "R",
                4 => "Q",
                5 => "K",
                _ => vstd::pervasive::unreached(),
            }
        } else {
            match piece {
                0 => "p",
                1 => "n",
                2 => "b",
                3 => "r",
                4 => "q",
                5 => "k",
                _ => vstd::pervasive::unreached(),
            }
        };
        proof {
            reveal_strlit("P");
            reveal_strlit("N");
            reveal_strlit("B");
            reveal_strlit("R");
            reveal_strlit("Q");
            reveal_strlit("K");
            reveal_strlit("p");
            reveal_strlit("n");
            reveal_strlit("b");
            reveal_strlit("r");
            reveal_strlit("q");
            reveal_strlit("k");
        }
        String::from_str(s)
    }
}

/// The placement letter for a piece of a color.
pub open spec fn piece_char(piece: int, color: int) -> char {
    if color == 0 {
        if piece == 0 {
            'P'
        } else if piece == 1 {
            'N'
        } else if piece == 2 {
            'B'
        } else if piece == 3 {
            'R'
        } else if piece == 4 {
            'Q'
        } else {
            'K'
        }
    } else {
        if piece == 0 {
            'p'
        } else if piece == 1 {
            'n'
        } else if piece == 2 {
            'b'
        } else if piece == 3 {
            'r'
        } else if piece == 4 {
            'q'
        } else {
            'k'
        }
    }
}

} // verus!
