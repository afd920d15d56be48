//! The move generator: precomputed step tables for king, knight and pawns,
//! and perfect-hash (magic) attack tables for the sliding pieces.
//!
//! [`MoveGen::inv`] states the tables' correctness: every magic lookup, for
//! every square and every occupancy, returns exactly the brute-force ray-cast
//! attack set, and the step tables hold the step formulas they were built
//! from.

use vstd::prelude::*;
use crate::bitboard::Bitboard;
use crate::bitboard::bit;
use crate::bitboard::file_bb;
use crate::bitboard::lemma_bit_auto;
use crate::bitboard::rank_bb;
use crate::bitboard::sq_bb;
use crate::board::Board;
use crate::color::Color;
use crate::magic::Magic;
use crate::magic::magic_index;
use crate::masks::bishop_attacks_spec;
use crate::masks::bishop_mask_spec;
use crate::masks::lemma_bishop_mask_indep;
use crate::masks::lemma_rook_mask_indep;
use crate::masks::rook_attacks_spec;
use crate::masks::rook_mask_spec;
use crate::square::Square;

verus! {

pub const ROOK_TABLE_SIZE: usize = 102400;

pub const BISHOP_TABLE_SIZE: usize = 5248;

/// The precomputed tables, built once at startup and read-only afterwards.
#[derive(Clone)]
pub struct MoveGen {
    /// King step targets, by square.
    pub king: [u64; 64],
    /// The shared rook attack table all squares' magics index into.
    pub rooks: Vec<Bitboard>,
    /// The shared bishop attack table.
    pub bishops: Vec<Bitboard>,
    /// Per-square rook magic entries.
    pub rook_magics: [Magic; 64],
    /// Per-square bishop magic entries.
    pub bishop_magics: [Magic; 64],
    /// Knight step targets, by square.
    pub knight: [u64; 64],
    /// Pawn capture targets, by color then square: index `color*64 + square`.
    pub pawns: [u64; 128],
}

/// The king's step targets: the up-to-eight neighboring squares.
pub open spec fn king_steps(s: u64) -> u64 {
    let b = sq_bb(s);
    ((b & !file_bb(0) & !rank_bb(7)) << 7) | ((b & !rank_bb(7)) << 8) | ((b & !rank_bb(7)
        & !file_bb(7)) << 9) | ((b & !file_bb(7)) << 1) | ((b & !rank_bb(0) & !file_bb(7)) >> 7) | (
    (b & !rank_bb(0)) >> 8) | ((b & !rank_bb(0) & !file_bb(0)) >> 9) | ((b & !file_bb(0)) >> 1)
}

/// The knight's step targets.
pub open spec fn knight_steps(s: u64) -> u64 {
    let b = sq_bb(s);
    ((b & !rank_bb(7) & !rank_bb(6) & !file_bb(0)) << 15) | ((b & !rank_bb(7) & !rank_bb(6)
        & !file_bb(7)) << 17) | ((b & !rank_bb(7) & !file_bb(0) & !file_bb(1)) << 6) | ((b
        & !rank_bb(7) & !file_bb(6) & !file_bb(7)) << 10) | ((b & !rank_bb(0) & !rank_bb(1)
        & !file_bb(0)) >> 17) | ((b & !rank_bb(0) & !rank_bb(1) & !file_bb(7)) >> 15) | ((b
        & !rank_bb(0) & !file_bb(0) & !file_bb(1)) >> 10) | ((b & !rank_bb(0) & !file_bb(6)
        & !file_bb(7)) >> 6)
}

/// The squares a white pawn on `s` attacks.
pub open spec fn pawn_attacks_w(s: u64) -> u64 {
    let b = sq_bb(s);
    ((b & !file_bb(0)) << 7) | ((b & !file_bb(7)) << 9)
}

/// The squares a black pawn on `s` attacks.
pub open spec fn pawn_attacks_b(s: u64) -> u64 {
    let b = sq_bb(s);
    ((b & !file_bb(7)) >> 7) | ((b & !file_bb(0)) >> 9)
}

/// The squares a pawn of `c` on `s` attacks.
pub open spec fn pawn_attacks(c: int, s: u64) -> u64 {
    if c == 0 {
        pawn_attacks_w(s)
    } else {
        pawn_attacks_b(s)
    }
}

/// A white pawn's attack targets lie one rank up, seven or nine up in index.
pub proof fn lemma_pawn_attack_w(s: u64, t: u64)
    by (bit_vector)
    requires
        s < 64,
        t < 64,
        bit(pawn_attacks_w(s), t),
    ensures
        t == s + 7 || t == s + 9,
        t / 8 == s / 8 + 1,
{
}

/// A black pawn's attack targets lie one rank down, seven or nine down.
pub proof fn lemma_pawn_attack_b(s: u64, t: u64)
    by (bit_vector)
    requires
        s < 64,
        t < 64,
        bit(pawn_attacks_b(s), t),
    ensures
        t + 7 == s || t + 9 == s,
        t / 8 + 1 == s / 8,
{
}

/// One magic entry serves its square: for every blocker subset of its mask,
/// the hashed slot is inside the shared table and holds the brute-force
/// attack set.
pub open spec fn magic_ok(m: Magic, table: Seq<u64>, s: int, is_rook: bool) -> bool {
    &&& m.shift < 64
    &&& m.mask == if is_rook {
        rook_mask_spec(s)
    } else {
        bishop_mask_spec(s)
    }
    &&& forall|b: u64|
        b & m.mask == b ==> 0 <= #[trigger] magic_index(m, b) < table.len() && table[magic_index(
            m,
            b,
        )] == if is_rook {
            rook_attacks_spec(b, s)
        } else {
            bishop_attacks_spec(b, s)
        }
}

impl MoveGen {
    /// The tables are exactly the step formulas and ray casts they stand for.
    pub open spec fn inv(&self) -> bool {
        &&& forall|s: u64| s < 64 ==> #[trigger] self.king[s as int] == king_steps(s)
        &&& forall|s: u64| s < 64 ==> #[trigger] self.knight[s as int] == knight_steps(s)
        &&& forall|c: int, s: u64|
            0 <= c < 2 && s < 64 ==> #[trigger] self.pawns[c * 64 + s] == pawn_attacks(c, s)
        &&& self.rooks@.len() == ROOK_TABLE_SIZE
        &&& self.bishops@.len() == BISHOP_TABLE_SIZE
        &&& forall|s: int| 0 <= s < 64 ==> magic_ok(#[trigger] self.rook_magics[s], self.rooks@, s, true)
        &&& forall|s: int|
            0 <= s < 64 ==> magic_ok(#[trigger] self.bishop_magics[s], self.bishops@, s, false)
    }

    /// The rook attack set of `square` under `occupancy`, from one magic
    /// lookup: exactly the brute-force ray cast for the same inputs.
    pub fn rook_attack_lookup(&self, square: Square, occupancy: Bitboard) -> (r: Bitboard)
        requires
            self.inv(),
            square < 64,
        ensures
            r == rook_attacks_spec(occupancy, square as int),
    {
        let m: Magic = self.rook_magics[square];
        proof {
            lemma_and_mask_idem(occupancy, m.mask);
            let b = occupancy & m.mask;
            assert(b & m.mask == b);
            assert(magic_ok(m, self.rooks@, square as int, true));
            assert(0 <= magic_index(m, b) < self.rooks@.len());
            assert(magic_index(m, occupancy) == magic_index(m, b));
        }
        let idx: usize = m.index(occupancy);
        let att: Bitboard = self.rooks[idx];
        proof {
            lemma_rook_mask_indep(occupancy, square as int);
        }
        att
    }

    /// The bishop attack set of `square` under `occupancy`, from one magic
    /// lookup: exactly the brute-force ray cast for the same inputs.
    pub fn bishop_attack_lookup(&self, square: Square, occupancy: Bitboard) -> (r: Bitboard)
        requires
            self.inv(),
            square < 64,
        ensures
            r == bishop_attacks_spec(occupancy, square as int),
    {
        let m: Magic = self.bishop_magics[square];
        proof {
            lemma_and_mask_idem(occupancy, m.mask);
            let b = occupancy & m.mask;
            assert(b & m.mask == b);
            assert(magic_ok(m, self.bishops@, square as int, false));
            assert(0 <= magic_index(m, b) < self.bishops@.len());
            assert(magic_index(m, occupancy) == magic_index(m, b));
        }
        let idx: usize = m.index(occupancy);
        let att: Bitboard = self.bishops[idx];
        proof {
            lemma_bishop_mask_indep(occupancy, square as int);
        }
        att
    }
}

/// Every magic lookup, for every square and every occupancy, agrees with the
/// brute-force ray cast for the same inputs.
pub proof fn lemma_magic_tables_exact(mg: MoveGen, s: int, occ: u64)
    requires
        mg.inv(),
        0 <= s < 64,
    ensures
        magic_index(mg.rook_magics[s], occ) < mg.rooks@.len(),
        mg.rooks@[magic_index(mg.rook_magics[s], occ)] == rook_attacks_spec(occ, s),
        magic_index(mg.bishop_magics[s], occ) < mg.bishops@.len(),
        mg.bishops@[magic_index(mg.bishop_magics[s], occ)] == bishop_attacks_spec(occ, s),
{
    lemma_and_mask_idem(occ, mg.rook_magics[s].mask);
    lemma_and_mask_idem(occ, mg.bishop_magics[s].mask);
    let br = occ & mg.rook_magics[s].mask;
    assert(br & mg.rook_magics[s].mask == br);
    assert(0 <= magic_index(mg.rook_magics[s], br) < mg.rooks@.len());
    assert(magic_index(mg.rook_magics[s], occ) == magic_index(mg.rook_magics[s], br));
    let bb = occ & mg.bishop_magics[s].mask;
    assert(bb & mg.bishop_magics[s].mask == bb);
    assert(0 <= magic_index(mg.bishop_magics[s], bb) < mg.bishops@.len());
    assert(magic_index(mg.bishop_magics[s], occ) == magic_index(mg.bishop_magics[s], bb));
    lemma_rook_mask_indep(occ, s);
    lemma_bishop_mask_indep(occ, s);
}

/// Masking is idempotent, and an occupancy's relevant part is a mask subset.
pub proof fn lemma_and_mask_idem(x: u64, m: u64)
    by (bit_vector)
    ensures
        (x & m) & m == x & m,
{
}

/// Is `square` attacked by a piece of `by_color`? The brute-force reading:
/// a step or ray from `square` meets a matching piece of that color.
pub open spec fn attacked_spec(b: Board, by_color: int, s: int) -> bool {
    ||| king_steps(s as u64) & b.pieces[by_color * 6 + 5] != 0
    ||| (rook_attacks_spec(b.occupancy, s) | bishop_attacks_spec(b.occupancy, s)) & b.pieces[by_color
        * 6 + 4] != 0
    ||| rook_attacks_spec(b.occupancy, s) & b.pieces[by_color * 6 + 3] != 0
    ||| bishop_attacks_spec(b.occupancy, s) & b.pieces[by_color * 6 + 2] != 0
    ||| knight_steps(s as u64) & b.pieces[by_color * 6 + 1] != 0
    ||| pawn_attacks(1 - by_color, s as u64) & b.pieces[by_color * 6 + 0] != 0
}

impl MoveGen {
    /// Is `square` attacked by any piece of color `opponent`? Tests each
    /// piece class's attack set from the target square against that class's
    /// pieces of the attacking color.
    pub fn square_attacked(&self, board: &Board, opponent: Color, square: Square) -> (r: bool)
        requires
            self.inv(),
            opponent < 2,
            square < 64,
        ensures
            r == attacked_spec(*board, opponent as int, square as int),
    {
        let occupancy: Bitboard = board.occupancy;
        let king: u64 = self.king[square];
        let rook: u64 = self.rook_attack_lookup(square, occupancy);
        let bishop: u64 = self.bishop_attack_lookup(square, occupancy);
        let knight: u64 = self.knight[square];
        let pawn: u64 = self.pawns[(1 - opponent) * 64 + square];
        let queen: u64 = rook | bishop;
        (king & board.pieces[opponent * 6 + 5] > 0) || (queen & board.pieces[opponent * 6 + 4] > 0)
            || (rook & board.pieces[opponent * 6 + 3] > 0) || (bishop & board.pieces[opponent * 6
            + 2] > 0) || (knight & board.pieces[opponent * 6 + 1] > 0) || (pawn
            & board.pieces[opponent * 6] > 0)
    }
}

} // verus!
