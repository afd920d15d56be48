//! Squares are indexes 0..64, rank-major: a1 = 0, h1 = 7, a8 = 56, h8 = 63.

use vstd::prelude::*;
use crate::file_rank::FileUtils;
use crate::file_rank::RankUtils;
use crate::file_rank::file_char;
use crate::file_rank::file_of_char;
use crate::file_rank::is_file_char;
use crate::file_rank::is_rank_char;
use crate::file_rank::rank_char;
use crate::file_rank::rank_of_char;

verus! {

pub type Square = usize;

pub struct SquareUtils;

impl SquareUtils {
    pub const SIZE: usize = 64;

    pub const A1: Square = 0;
    pub const B1: Square = 1;
    pub const C1: Square = 2;
    pub const D1: Square = 3;
    pub const E1: Square = 4;
    pub const F1: Square = 5;
    pub const G1: Square = 6;
    pub const H1: Square = 7;
    pub const A8: Square = 56;
    pub const B8: Square = 57;
    pub const C8: Square = 58;
    pub const D8: Square = 59;
    pub const E8: Square = 60;
    pub const F8: Square = 61;
    pub const G8: Square = 62;
    pub const H8: Square = 63;
}

impl SquareUtils {
    /// The square on the given file and rank.
    pub fn from_location(file: usize, rank: usize) -> (r: Square)
        requires
            file < 8,
            rank < 8,
        ensures
            r == rank * 8 + file,
            r < 64,
    {
        rank * 8 + file
    }

    /// The (file, rank) location of a square.
    pub fn location(square: Square) -> (r: (usize, usize))
        requires
            square < 64,
        ensures
            r.0 == square % 8,
            r.1 == square / 8,
    {
        (square % 8, square / 8)
    }

    /// The square named by a file letter followed by a rank digit.
    pub fn parse(value: &str) -> (r: Square)
        requires
            value@.len() >= 2,
            is_file_char(value@[0]),
            is_rank_char(value@[1]),
        ensures
            r == rank_of_char(value@[1]) * 8 + file_of_char(value@[0]),
            r < 64,
    {
        let file_ch: char = value.get_char(0);
        let rank_ch: char = value.get_char(1);
        let file: usize = FileUtils::from_char(file_ch);
        let rank: usize = RankUtils::from_char(rank_ch);
        rank * 8 + file
    }

    /// The square written as its file letter and rank digit.
    pub fn to_string(square: Square) -> (r: String)
        requires
            square < 64,
        ensures
            r@ == seq![file_char((square % 8) as int), rank_char((square / 8) as int)],
    {
        let file: usize = square % 8;
        let rank: usize = square / 8;
        let file_part: &str = match file {
            0 => "a",
            1 => "b",
            2 => "c",
            3 => "d",
            4 => "e",
            5 => "f",
            6 => "g",
            7 => "h",
            _ => vstd::pervasive::unreached(),
        };
        let rank_part: &str = match rank {
            0 => "1",
            1 => "2",
            2 => "3",
            3 => "4",
            4 => "5",
            5 => "6",
            6 => "7",
            7 => "8",
            _ => vstd::pervasive::unreached(),
        };
        proof {
            reveal_strlit("a");
            reveal_strlit("b");
            reveal_strlit("c");
            reveal_strlit("d");
            reveal_strlit("e");
            reveal_strlit("f");
            reveal_strlit("g");
            reveal_strlit("h");
            reveal_strlit("1");
            reveal_strlit("2");
            reveal_strlit("3");
            reveal_strlit("4");
            reveal_strlit("5");
            reveal_strlit("6");
            reveal_strlit("7");
            reveal_strlit("8");
        }
        let mut result: String = String::from_str(file_part);
        result.append(rank_part);
        proof {
            assert(result@ =~= seq![
                file_char((square % 8) as int),
                rank_char((square / 8) as int),
            ]);
        }
        result
    }
}

} // verus!
