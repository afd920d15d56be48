//! Constructing a board from a placement description: piece placement, side
//! to move, castle rights, en-passant target and the two counters, separated
//! by spaces. A description that does not describe a well-formed position is
//! rejected; an accepted one yields a board satisfying the full invariant.

use vstd::prelude::*;
use crate::bitboard::BitboardOccupied;
use crate::bitboard::bit;
use crate::bitboard::sq_bb;
use crate::bitboard::lemma_bit_auto;
use crate::board::Board;
use crate::board::placement_ok;
use crate::board::wf_bounds;
use crate::castle::CastleRights;
use crate::color::ColorUtils;
use crate::error::Error;
use crate::file_rank::FileUtils;
use crate::file_rank::RankUtils;
use crate::piece::PieceUtils;
use crate::square::SquareUtils;
use crate::zobrist::HashTable;

verus! {

/// Four one-bit flags summed give back each flag under masking.
proof fn lemma_rights_compose(a: u8, b: u8, c: u8, d: u8)
    by (bit_vector)
    requires
        a == 0 || a == 1,
        b == 0 || b == 2,
        c == 0 || c == 4,
        d == 0 || d == 8,
    ensures
        (vstd::prelude::add(vstd::prelude::add(vstd::prelude::add(a, b), c), d) & 1 != 0) == (a == 1),
        (vstd::prelude::add(vstd::prelude::add(vstd::prelude::add(a, b), c), d) & 2 != 0) == (b == 2),
        (vstd::prelude::add(vstd::prelude::add(vstd::prelude::add(a, b), c), d) & 4 != 0) == (c == 4),
        (vstd::prelude::add(vstd::prelude::add(vstd::prelude::add(a, b), c), d) & 8 != 0) == (d == 8),
        vstd::prelude::add(vstd::prelude::add(vstd::prelude::add(a, b), c), d) < 16,
{
}

/// An empty board carrying a fresh table of hash keys.
fn empty_board() -> (r: Board)
    ensures
        wf_bounds(r),
        placement_ok(r),
        crate::board::pawns_ok(r),
        forall|s: int| 0 <= s < 64 ==> r.piece_list[s] == 6,
        r.color == 0,
        r.en_passant is None,
        r.castle_rights.0 == 0,
        r.halfmove_clock == 0,
        r.fullmove_number == 1,
        r.occupancy == 0,
        r.occupancy_color@[0] == 0 && r.occupancy_color@[1] == 0,
        forall|idx: int| 0 <= idx < 12 ==> r.pieces@[idx] == 0,
{
    let r = Board {
        pieces: [0u64; 12],
        color: 0,
        en_passant: None,
        castle_rights: CastleRights(0),
        piece_list: [6usize; 64],
        occupancy: 0,
        occupancy_color: [0u64; 2],
        halfmove_clock: 0,
        fullmove_number: 1,
        hash: 0,
        hash_table: HashTable::new(),
    };
    proof {
        lemma_bit_auto();
    }
    r
}

/// The digit value of a counter character, or 10 for anything else.
fn digit_of(c: char) -> (r: u32)
    ensures
        r <= 10,
{
    match c {
        '0' => 0,
        '1' => 1,
        '2' => 2,
        '3' => 3,
        '4' => 4,
        '5' => 5,
        '6' => 6,
        '7' => 7,
        '8' => 8,
        '9' => 9,
        _ => 10,
    }
}

/// A counter field parsed as the original does: a value with a non-digit or
/// one too large for the target type falls back to the default.
fn parse_counter(chars: &Vec<char>, start: usize, end: usize, max: u32, default: u32) -> (r: u32)
    requires
        start <= end <= chars@.len(),
        default <= max,
        10 <= max <= 0xffff,
    ensures
        r <= max,
{
    if start == end {
        return default;
    }
    let mut value: u32 = 0;
    let mut i: usize = start;
    while i < end
        invariant
            start <= i <= end <= chars@.len(),
            value <= max,
            default <= max,
            10 <= max <= 0xffff,
        decreases end - i,
    {
        let d: u32 = digit_of(chars[i]);
        if d > 9 {
            return default;
        }
        if value > (max - d) / 10 {
            return default;
        }
        proof {
            assert(value * 10 + d <= max) by (nonlinear_arith)
                requires
                    value <= (max - d) / 10,
                    d <= 9,
                    d <= max,
                    max <= 0xffff,
            ;
        }
        value = value * 10 + d;
        i = i + 1;
    }
    value
}

/// Construct a board from a placement description. `Ok` means the text
/// described a coherent position: every accepted board satisfies the full
/// well-formedness invariant, including the agreement of bitboards and
/// lookup array and a fresh hash.
#[verifier::rlimit(100)]
#[verifier::spinoff_prover]
pub fn from_fen(fen: &str) -> (r: Result<Board, Error>)
    ensures
        (r matches Ok(b) ==> b.inv()),
{
    proof {
        lemma_bit_auto();
    }
    let n: usize = fen.unicode_len();
    let mut chars: Vec<char> = Vec::new();
    let mut i: usize = 0;
    while i < n
        invariant
            i <= n,
            n == fen@.len(),
            chars@.len() == i,
        decreases n - i,
    {
        chars.push(fen.get_char(i));
        i = i + 1;
    }
    // field boundaries, split on single spaces
    let mut fields: Vec<(usize, usize)> = Vec::new();
    let mut start: usize = 0;
    let mut j: usize = 0;
    while j < n
        invariant
            start <= j <= n,
            chars@.len() == n,
            forall|k: int|
                0 <= k < fields@.len() ==> #[trigger] fields@[k].0 < fields@[k].1 <= n,
        decreases n - j,
    {
        if chars[j] == ' ' {
            if start < j {
                fields.push((start, j));
            }
            start = j + 1;
        }
        j = j + 1;
    }
    if start < n {
        fields.push((start, n));
    }
    proof {
        assert(forall|k: int|
            0 <= k < fields@.len() ==> #[trigger] fields@[k].0 < fields@[k].1 <= n);
    }
    if fields.len() < 4 {
        return Err(Error::InvalidPosition);
    }
    let mut board: Board = empty_board();

    // piece placement
    let (p_start, p_end): (usize, usize) = fields[0];
    let mut rank: usize = 7;
    let mut file: usize = 0;
    let mut k: usize = p_start;
    while k < p_end
        invariant
            p_start <= k <= p_end <= chars@.len(),
            rank < 8,
            file <= 8,
            wf_bounds(board),
            placement_ok(board),
            crate::board::pawns_ok(board),
            board.color == 0,
            board.en_passant is None,
            board.castle_rights.0 == 0,
        decreases p_end - k,
    {
        let c: char = chars[k];
        if c == '/' {
            if rank == 0 {
                return Err(Error::InvalidPosition);
            }
            rank = rank - 1;
            file = 0;
        } else {
            let d: u32 = digit_of(c);
            if 1 <= d && d <= 8 {
                file = file + (d as usize);
                if file > 8 {
                    return Err(Error::InvalidPosition);
                }
            } else if c == 'P' || c == 'p' || c == 'N' || c == 'n' || c == 'B' || c == 'b' || c
                == 'R' || c == 'r' || c == 'Q' || c == 'q' || c == 'K' || c == 'k' {
                if file > 7 {
                    return Err(Error::InvalidPosition);
                }
                let piece: usize = PieceUtils::parse(c);
                let color: usize = ColorUtils::from_bool(
                    c == 'P' || c == 'N' || c == 'B' || c == 'R' || c == 'Q' || c == 'K',
                );
                let square: usize = SquareUtils::from_location(file, rank);
                if piece == 0 && (rank == 0 || rank == 7) {
                    return Err(Error::InvalidPosition);
                }
                if board.piece_list[square] != 6 {
                    return Err(Error::InvalidPosition);
                }
                board.add_piece(piece, color, square);
                file = file + 1;
            } else {
                return Err(Error::InvalidPiece(c));
            }
        }
        k = k + 1;
    }

    // side to move
    let (c_start, c_end): (usize, usize) = fields[1];
    if c_end - c_start != 1 {
        return Err(Error::InvalidPosition);
    }
    let color_ch: char = chars[c_start];
    if color_ch == 'w' || color_ch == 'W' {
        board.color = 0;
    } else if color_ch == 'b' || color_ch == 'B' {
        board.color = 1;
    } else {
        return Err(Error::InvalidColor(color_ch));
    }

    // castle rights, validated against the placement
    let (r_start, r_end): (usize, usize) = fields[2];
    let mut wk: bool = false;
    let mut wq: bool = false;
    let mut bk: bool = false;
    let mut bq: bool = false;
    if !(r_end - r_start == 1 && chars[r_start] == '-') {
        let mut k2: usize = r_start;
        while k2 < r_end
            invariant
                r_start <= k2 <= r_end <= chars@.len(),
            decreases r_end - k2,
        {
            let c: char = chars[k2];
            if c == 'K' {
                wk = true;
            } else if c == 'Q' {
                wq = true;
            } else if c == 'k' {
                bk = true;
            } else if c == 'q' {
                bq = true;
            } else {
                return Err(Error::InvalidCastleRight(c));
            }
            k2 = k2 + 1;
        }
    }
    let white_home: bool = board.piece_list[4] == 5 && board.occupancy_color[0].occupied(4);
    let black_home: bool = board.piece_list[60] == 5 && board.occupancy_color[1].occupied(60);
    if wk && !(white_home && board.piece_list[7] == 3 && board.occupancy_color[0].occupied(7)) {
        return Err(Error::InvalidPosition);
    }
    if wq && !(white_home && board.piece_list[0] == 3 && board.occupancy_color[0].occupied(0)) {
        return Err(Error::InvalidPosition);
    }
    if bk && !(black_home && board.piece_list[63] == 3 && board.occupancy_color[1].occupied(63)) {
        return Err(Error::InvalidPosition);
    }
    if bq && !(black_home && board.piece_list[56] == 3 && board.occupancy_color[1].occupied(56)) {
        return Err(Error::InvalidPosition);
    }
    let w1: u8 = if wk {
        1
    } else {
        0
    };
    let w2: u8 = if wq {
        2
    } else {
        0
    };
    let b4v: u8 = if bk {
        4
    } else {
        0
    };
    let b8v: u8 = if bq {
        8
    } else {
        0
    };
    proof {
        lemma_rights_compose(w1, w2, b4v, b8v);
    }
    let bits: u8 = w1 + w2 + b4v + b8v;
    board.castle_rights = CastleRights(bits);

    // en-passant target, validated against the placement and side to move
    let (e_start, e_end): (usize, usize) = fields[3];
    if !(e_end - e_start == 1 && chars[e_start] == '-') {
        if e_end - e_start != 2 {
            return Err(Error::InvalidSquare(chars[e_start]));
        }
        let fc: char = chars[e_start];
        let rc: char = chars[e_start + 1];
        if !(fc == 'a' || fc == 'b' || fc == 'c' || fc == 'd' || fc == 'e' || fc == 'f' || fc == 'g'
            || fc == 'h') {
            return Err(Error::InvalidFile(fc));
        }
        if !(rc == '3' || rc == '6') {
            return Err(Error::InvalidRank(rc));
        }
        let ep_file: usize = FileUtils::from_char(fc);
        let ep_rank: usize = RankUtils::from_char(rc);
        let s: usize = SquareUtils::from_location(ep_file, ep_rank);
        if board.color == 0 {
            if !(ep_rank == 5 && board.piece_list[s] == 6 && board.piece_list[s - 8] == 0
                && board.occupancy_color[1].occupied(s - 8)) {
                return Err(Error::InvalidPosition);
            }
        } else {
            if !(ep_rank == 2 && board.piece_list[s] == 6 && board.piece_list[s + 8] == 0
                && board.occupancy_color[0].occupied(s + 8)) {
                return Err(Error::InvalidPosition);
            }
        }
        board.en_passant = Some(s);
    }

    // the two counters, with the original's fallback defaults
    if fields.len() >= 5 {
        let (h_start, h_end): (usize, usize) = fields[4];
        let hm: u32 = parse_counter(&chars, h_start, h_end, 255, 0);
        board.halfmove_clock = hm as u8;
    }
    if fields.len() >= 6 {
        let (f_start, f_end): (usize, usize) = fields[5];
        let fm: u32 = parse_counter(&chars, f_start, f_end, 0xffff, 1);
        board.fullmove_number = fm as u16;
    }

    // both kings must be on the board
    if board.pieces[5] == 0 || board.pieces[11] == 0 {
        return Err(Error::InvalidPosition);
    }
    board.init_hash();
    Ok(board)
}

/// The single-square masks of the starting placement combined into the
/// familiar whole-board constants.
proof fn lemma_start_masks()
    by (bit_vector)
    ensures
        ((0u64 | sq_bb(0)) | sq_bb(7)) == 0x81u64,
        ((0u64 | sq_bb(1)) | sq_bb(6)) == 0x42u64,
        ((0u64 | sq_bb(2)) | sq_bb(5)) == 0x24u64,
        (0u64 | sq_bb(3)) == 0x8u64,
        (0u64 | sq_bb(4)) == 0x10u64,
        ((((((((0u64 | sq_bb(8)) | sq_bb(9)) | sq_bb(10)) | sq_bb(11)) | sq_bb(12)) | sq_bb(13))
            | sq_bb(14)) | sq_bb(15)) == 0xff00u64,
        ((0u64 | sq_bb(56)) | sq_bb(63)) == 0x8100_0000_0000_0000u64,
        ((0u64 | sq_bb(57)) | sq_bb(62)) == 0x4200_0000_0000_0000u64,
        ((0u64 | sq_bb(58)) | sq_bb(61)) == 0x2400_0000_0000_0000u64,
        (0u64 | sq_bb(59)) == 0x0800_0000_0000_0000u64,
        (0u64 | sq_bb(60)) == 0x1000_0000_0000_0000u64,
        ((((((((0u64 | sq_bb(48)) | sq_bb(49)) | sq_bb(50)) | sq_bb(51)) | sq_bb(52)) | sq_bb(53))
            | sq_bb(54)) | sq_bb(55)) == 0x00ff_0000_0000_0000u64,
        ((((((((((((((((0u64 | sq_bb(0)) | sq_bb(1)) | sq_bb(2)) | sq_bb(3)) | sq_bb(4)) | sq_bb(
            5,
        )) | sq_bb(6)) | sq_bb(7)) | sq_bb(8)) | sq_bb(9)) | sq_bb(10)) | sq_bb(11)) | sq_bb(12))
            | sq_bb(13)) | sq_bb(14)) | sq_bb(15)) == 0xffffu64,
        ((((((((((((((((0u64 | sq_bb(56)) | sq_bb(57)) | sq_bb(58)) | sq_bb(59)) | sq_bb(60))
            | sq_bb(61)) | sq_bb(62)) | sq_bb(63)) | sq_bb(48)) | sq_bb(49)) | sq_bb(50)) | sq_bb(
            51,
        )) | sq_bb(52)) | sq_bb(53)) | sq_bb(54)) | sq_bb(55)) == 0xffff_0000_0000_0000u64,
        ((((((((((((((((((((((((((((((((0u64 | sq_bb(0)) | sq_bb(1)) | sq_bb(2)) | sq_bb(3))
            | sq_bb(4)) | sq_bb(5)) | sq_bb(6)) | sq_bb(7)) | sq_bb(8)) | sq_bb(9)) | sq_bb(10))
            | sq_bb(11)) | sq_bb(12)) | sq_bb(13)) | sq_bb(14)) | sq_bb(15)) | sq_bb(56)) | sq_bb(
            57,
        )) | sq_bb(58)) | sq_bb(59)) | sq_bb(60)) | sq_bb(61)) | sq_bb(62)) | sq_bb(63)) | sq_bb(
            48,
        )) | sq_bb(49)) | sq_bb(50)) | sq_bb(51)) | sq_bb(52)) | sq_bb(53)) | sq_bb(54)) | sq_bb(
            55,
        )) == 0xffff_0000_0000_ffffu64,
{
}

/// The standard starting position, built square by square: the placement,
/// the scalar fields and the bitboard constants are all pinned, and the full
/// board invariant holds.
#[verifier::rlimit(100)]
#[verifier::spinoff_prover]
pub fn start_board() -> (r: Board)
    ensures
        r.inv(),
        r.color == 0,
        r.castle_rights.0 == 15,
        r.en_passant is None,
        r.halfmove_clock == 0,
        r.fullmove_number == 1,
        r.occupancy == 0xffff_0000_0000_ffffu64,
        r.occupancy_color@[0] == 0xffffu64,
        r.occupancy_color@[1] == 0xffff_0000_0000_0000u64,
        r.pieces@[0] == 0xff00u64,
        r.pieces@[1] == 0x42u64,
        r.pieces@[2] == 0x24u64,
        r.pieces@[3] == 0x81u64,
        r.pieces@[4] == 0x8u64,
        r.pieces@[5] == 0x10u64,
        r.pieces@[6] == 0x00ff_0000_0000_0000u64,
        r.pieces@[7] == 0x4200_0000_0000_0000u64,
        r.pieces@[8] == 0x2400_0000_0000_0000u64,
        r.pieces@[9] == 0x8100_0000_0000_0000u64,
        r.pieces@[10] == 0x0800_0000_0000_0000u64,
        r.pieces@[11] == 0x1000_0000_0000_0000u64,
{
    proof {
        lemma_bit_auto();
        lemma_start_masks();
    }
    let mut board: Board = empty_board();
    board.add_piece(3, 0, 0);
    board.add_piece(1, 0, 1);
    board.add_piece(2, 0, 2);
    board.add_piece(4, 0, 3);
    board.add_piece(5, 0, 4);
    board.add_piece(2, 0, 5);
    board.add_piece(1, 0, 6);
    board.add_piece(3, 0, 7);
    board.add_piece(0, 0, 8);
    board.add_piece(0, 0, 9);
    board.add_piece(0, 0, 10);
    board.add_piece(0, 0, 11);
    board.add_piece(0, 0, 12);
    board.add_piece(0, 0, 13);
    board.add_piece(0, 0, 14);
    board.add_piece(0, 0, 15);
    board.add_piece(3, 1, 56);
    board.add_piece(1, 1, 57);
    board.add_piece(2, 1, 58);
    board.add_piece(4, 1, 59);
    board.add_piece(5, 1, 60);
    board.add_piece(2, 1, 61);
    board.add_piece(1, 1, 62);
    board.add_piece(3, 1, 63);
    board.add_piece(0, 1, 48);
    board.add_piece(0, 1, 49);
    board.add_piece(0, 1, 50);
    board.add_piece(0, 1, 51);
    board.add_piece(0, 1, 52);
    board.add_piece(0, 1, 53);
    board.add_piece(0, 1, 54);
    board.add_piece(0, 1, 55);
    board.castle_rights = CastleRights(15);
    board.init_hash();
    proof {
        assert(crate::board::pawns_ok(board)) by {
            assert forall|q: int| 0 <= q < 64 && #[trigger] board.piece_list[q] == 0 implies 8 <= q
                < 56 by {}
        }
        assert(crate::board::kings_ok(board));
        assert(crate::board::castle_ok(board));
        assert(crate::board::ep_ok(board));
    }
    board
}

} // verus!
