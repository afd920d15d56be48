//! The ways a placement description can be rejected.

use vstd::prelude::*;

verus! {

/// Why a placement description was refused. The payload is the offending
/// character where one exists.
#[derive(Clone, Copy, PartialEq, Eq, Structural, Debug)]
pub enum Error {
    InvalidRank(char),
    InvalidFile(char),
    InvalidColor(char),
    InvalidPiece(char),
    InvalidSquare(char),
    InvalidPieceBoth(char),
    InvalidCastleRight(char),
    InvalidCastlingMove(char),
    /// The description has the wrong number of fields, or a field is
    /// inconsistent with the placement (a right without its rook, a pawn on
    /// a back rank, an impossible en-passant target, a missing king).
    InvalidPosition,
    /// Building the magic attack tables hit a slot collision, which can only
    /// mean the shipped magic constants are wrong.
    MagicCollision,
}

impl Error {
    /// A short description of the rejection.
    pub fn description(&self) -> (r: String)
        ensures
            r@.len() > 0,
    {
        proof {
            reveal_strlit("invalid rank");
            reveal_strlit("invalid file");
            reveal_strlit("invalid color");
            reveal_strlit("invalid piece");
            reveal_strlit("invalid square");
            reveal_strlit("invalid piece cannot be indexed");
            reveal_strlit("invalid castle right");
            reveal_strlit("invalid castling move");
            reveal_strlit("invalid position");
            reveal_strlit("magic table collision");
        }
        match self {
            Error::InvalidRank(_) => String::from_str("invalid rank"),
            Error::InvalidFile(_) => String::from_str("invalid file"),
            Error::InvalidColor(_) => String::from_str("invalid color"),
            Error::InvalidPiece(_) => String::from_str("invalid piece"),
            Error::InvalidSquare(_) => String::from_str("invalid square"),
            Error::InvalidPieceBoth(_) => String::from_str("invalid piece cannot be indexed"),
            Error::InvalidCastleRight(_) => String::from_str("invalid castle right"),
            Error::InvalidCastlingMove(_) => String::from_str("invalid castling move"),
            Error::InvalidPosition => String::from_str("invalid position"),
            Error::MagicCollision => String::from_str("magic table collision"),
        }
    }
}

} // verus!
