//! Rendering a board as text: the framed diagram and the placement
//! description line.

use vstd::prelude::*;
use crate::board::Board;
use crate::board::color_at;
use crate::board::placement_ok;
use crate::board::wf_bounds;
use crate::castle::CastleRightUtils;
use crate::color::ColorUtils;
use crate::piece::PieceUtils;
use crate::square::SquareUtils;

verus! {

/// The decimal digits of a counter value, most significant first.
fn u32_string(v: u32) -> (r: String)
    ensures
        r@.len() > 0,
{
    proof {
        reveal_strlit("0");
    }
    if v == 0 {
        return String::from_str("0");
    }
    let mut digits: Vec<char> = Vec::new();
    let mut x: u32 = v;
    while x > 0
        invariant
            x <= v,
            v > 0,
            x < v ==> digits@.len() > 0,
        decreases x,
    {
        let d: u32 = x % 10;
        digits.push(
            match d {
                0 => '0',
                1 => '1',
                2 => '2',
                3 => '3',
                4 => '4',
                5 => '5',
                6 => '6',
                7 => '7',
                8 => '8',
                _ => '9',
            },
        );
        x = x / 10;
    }
    let mut r: String = String::new();
    let mut i: usize = digits.len();
    while i > 0
        invariant
            i <= digits@.len(),
            r@.len() == digits@.len() - i,
        decreases i,
    {
        i = i - 1;
        let part: &str = match digits[i] {
            '0' => "0",
            '1' => "1",
            '2' => "2",
            '3' => "3",
            '4' => "4",
            '5' => "5",
            '6' => "6",
            '7' => "7",
            '8' => "8",
            _ => "9",
        };
        proof {
            reveal_strlit("0");
            reveal_strlit("1");
            reveal_strlit("2");
            reveal_strlit("3");
            reveal_strlit("4");
            reveal_strlit("5");
            reveal_strlit("6");
            reveal_strlit("7");
            reveal_strlit("8");
            reveal_strlit("9");
        }
        r.append(part);
    }
    r
}

impl Board {
    /// The framed diagram of the position, ranks from the top down.
    pub fn board_string(&self) -> (r: String)
        requires
            wf_bounds(*self),
            placement_ok(*self),
        ensures
            r@.len() > 0,
    {
        proof {
            reveal_strlit("   +---+---+---+---+---+---+---+---+\n");
        }
        let mut board: String = String::from_str("   +---+---+---+---+---+---+---+---+\n");
        let mut rank: usize = 8;
        while rank > 0
            invariant
                rank <= 8,
                wf_bounds(*self),
                placement_ok(*self),
                board@.len() > 0,
            decreases rank,
        {
            rank = rank - 1;
            let rank_label: &str = match rank {
                0 => " 0 ",
                1 => " 1 ",
                2 => " 2 ",
                3 => " 3 ",
                4 => " 4 ",
                5 => " 5 ",
                6 => " 6 ",
                _ => " 7 ",
            };
            board.append(rank_label);
            let mut file: usize = 0;
            while file < 8
                invariant
                    file <= 8,
                    rank < 8,
                    wf_bounds(*self),
                    placement_ok(*self),
                    board@.len() > 0,
                decreases 8 - file,
            {
                proof {
                    reveal_strlit("| ");
                    reveal_strlit(" ");
                    reveal_strlit(" ");
                }
                board.append("| ");
                let square: usize = SquareUtils::from_location(file, rank);
                match self.get_piece(square) {
                    Some((piece, color)) => {
                        let s: String = PieceUtils::to_string(piece, color);
                        board.append(s.as_str());
                    },
                    None => {
                        board.append(" ");
                    },
                }
                board.append(" ");
                file = file + 1;
            }
            proof {
                reveal_strlit("|\n   +---+---+---+---+---+---+---+---+\n");
            }
            board.append("|\n   +---+---+---+---+---+---+---+---+\n");
        }
        proof {
            reveal_strlit("     a   b   c   d   e   f   g   h\n");
        }
        board.append("     a   b   c   d   e   f   g   h\n");
        board
    }

    /// The placement description of the position: piece placement by rank
    /// from the top, side to move, castle rights, en-passant target and the
    /// two counters.
    pub fn fen_string(&self) -> (r: String)
        requires
            wf_bounds(*self),
            placement_ok(*self),
        ensures
            r@.len() > 0,
    {
        let mut pieces: String = String::new();
        let mut rank: usize = 8;
        while rank > 0
            invariant
                rank <= 8,
                wf_bounds(*self),
                placement_ok(*self),
            decreases rank,
        {
            rank = rank - 1;
            let mut empty: usize = 0;
            let mut file: usize = 0;
            while file < 8
                invariant
                    file <= 8,
                    empty <= file,
                    rank < 8,
                    wf_bounds(*self),
                    placement_ok(*self),
                decreases 8 - file,
            {
                let square: usize = SquareUtils::from_location(file, rank);
                match self.get_piece(square) {
                    Some((piece, color)) => {
                        if empty > 0 {
                            let s: String = u32_string(empty as u32);
                            pieces.append(s.as_str());
                            empty = 0;
                        }
                        let s: String = PieceUtils::to_string(piece, color);
                        pieces.append(s.as_str());
                    },
                    None => {
                        empty = empty + 1;
                    },
                }
                file = file + 1;
            }
            if empty > 0 {
                let s: String = u32_string(empty as u32);
                pieces.append(s.as_str());
            }
            if rank > 0 {
                proof {
                    reveal_strlit("/");
                }
                pieces.append("/");
            }
        }
        proof {
            reveal_strlit(" ");
            reveal_strlit("-");
        }
        pieces.append(" ");
        let color_s: String = ColorUtils::to_string(self.color);
        pieces.append(color_s.as_str());
        pieces.append(" ");
        let rights_s: String = CastleRightUtils::to_string(self.castle_rights);
        pieces.append(rights_s.as_str());
        pieces.append(" ");
        match self.en_passant {
            Some(square) => {
                let s: String = SquareUtils::to_string(square);
                pieces.append(s.as_str());
            },
            None => {
                pieces.append("-");
            },
        }
        pieces.append(" ");
        let hm: String = u32_string(self.halfmove_clock as u32);
        pieces.append(hm.as_str());
        pieces.append(" ");
        let fm: String = u32_string(self.fullmove_number as u32);
        pieces.append(fm.as_str());
        proof {
            assert(pieces@.len() > 0);
        }
        pieces
    }
}

} // verus!
