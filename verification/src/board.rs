//! The position: piece bitboards, the square-to-piece lookup array, scalar
//! state, and the incrementally maintained Zobrist hash.
//!
//! The well-formedness predicate [`Board::inv`] ties it all together: the
//! bitboards and the lookup array agree exactly on every square, the two
//! colors' occupancy is disjoint and unions to the combined occupancy, and the
//! stored hash always equals a from-scratch recomputation.

use vstd::prelude::*;
use crate::bitboard::Bitboard;
use crate::bitboard::bit;
use crate::bitboard::lemma_bit_auto;
use crate::bitboard::sq_bb;
use crate::castle::CastleRights;
use crate::color::Color;
use crate::piece::Piece;
use crate::square::Square;
use crate::zobrist::HashTable;
use crate::zobrist::ZobristHash;
use crate::zobrist::ep_file;

verus! {

broadcast use vstd::array::group_array_axioms;

/// The full board state.
#[derive(Clone, Copy)]
pub struct Board {
    /// One bitboard per (color, piece): index `color*6 + piece`.
    pub pieces: [u64; 12],
    /// The side to move.
    pub color: Color,
    /// The en-passant target square, when the last move was a double push.
    pub en_passant: Option<Square>,
    /// The castling rights still held.
    pub castle_rights: CastleRights,
    /// For each square, the piece kind on it, or 6 for an empty square.
    pub piece_list: [usize; 64],
    /// All occupied squares.
    pub occupancy: Bitboard,
    /// The squares occupied by each color.
    pub occupancy_color: [u64; 2],
    /// Halfmoves since the last capture or pawn move.
    pub halfmove_clock: u8,
    /// The move count, starting at 1, advanced after Black's move.
    pub fullmove_number: u16,
    /// The incrementally maintained Zobrist hash.
    pub hash: ZobristHash,
    /// The random keys the hash is built from.
    pub hash_table: HashTable,
}

/// The color occupying a square: 0 if white's occupancy holds it, else 1.
/// Meaningful only on occupied squares.
pub open spec fn color_at(b: Board, s: int) -> int {
    if bit(b.occupancy_color[0], s as u64) {
        0int
    } else {
        1int
    }
}

/// Scalar fields are in range and the lookup array holds piece kinds.
pub open spec fn wf_bounds(b: Board) -> bool {
    &&& b.color < 2
    &&& b.castle_rights.0 < 16
    &&& (forall|s: int| 0 <= s < 64 ==> #[trigger] b.piece_list[s] <= 6)
    &&& match b.en_passant {
        Some(s) => s < 64,
        None => true,
    }
}

/// The piece bitboards, the occupancy bitboards and the lookup array agree
/// exactly: every square holds at most one piece of one color, the combined
/// occupancy is the union of the two colors', and a (color, piece) bitboard
/// holds a square exactly when the lookup array and that color's occupancy
/// say so.
pub open spec fn placement_ok(b: Board) -> bool {
    &&& (forall|s: u64| s < 64 ==> #[trigger] bit(b.occupancy, s) == (b.piece_list[s as int] != 6))
    &&& (forall|s: u64|
        s < 64 ==> #[trigger] bit(b.occupancy, s) == (bit(b.occupancy_color[0], s) || bit(
            b.occupancy_color[1],
            s,
        )))
    &&& (forall|s: u64| s < 64 ==> !(bit(b.occupancy_color[0], s) && bit(b.occupancy_color[1], s)))
    &&& (forall|c: int, p: int, s: u64|
        0 <= c < 2 && 0 <= p < 6 && s < 64 ==> #[trigger] bit(b.pieces[c * 6 + p], s) == (
        b.piece_list[s as int] == p && bit(b.occupancy_color[c], s)))
}

/// Both kings are on the board.
pub open spec fn kings_ok(b: Board) -> bool {
    b.pieces[5] != 0 && b.pieces[11] != 0
}

/// No pawn stands on a back rank.
pub open spec fn pawns_ok(b: Board) -> bool {
    forall|s: int| 0 <= s < 64 && #[trigger] b.piece_list[s] == 0 ==> 8 <= s < 56
}

/// When an en-passant target is set it is a real one: the target square is
/// empty and the doubly pushed enemy pawn stands right behind it.
pub open spec fn ep_ok(b: Board) -> bool {
    match b.en_passant {
        None => true,
        Some(s) => {
            &&& s < 64
            &&& if b.color == 0 {
                &&& s / 8 == 5
                &&& b.piece_list[s as int] == 6
                &&& b.piece_list[s as int - 8] == 0
                &&& bit(b.occupancy_color[1], (s - 8) as u64)
            } else {
                &&& s / 8 == 2
                &&& b.piece_list[s as int] == 6
                &&& b.piece_list[s as int + 8] == 0
                &&& bit(b.occupancy_color[0], (s + 8) as u64)
            }
        },
    }
}

/// A held castling right has its king and rook still on their home squares.
pub open spec fn castle_ok(b: Board) -> bool {
    &&& b.castle_rights.0 & 1 != 0 ==> b.piece_list[4] == 5 && bit(b.occupancy_color[0], 4)
        && b.piece_list[7] == 3 && bit(b.occupancy_color[0], 7)
    &&& b.castle_rights.0 & 2 != 0 ==> b.piece_list[4] == 5 && bit(b.occupancy_color[0], 4)
        && b.piece_list[0] == 3 && bit(b.occupancy_color[0], 0)
    &&& b.castle_rights.0 & 4 != 0 ==> b.piece_list[60] == 5 && bit(b.occupancy_color[1], 60)
        && b.piece_list[63] == 3 && bit(b.occupancy_color[1], 63)
    &&& b.castle_rights.0 & 8 != 0 ==> b.piece_list[60] == 5 && bit(b.occupancy_color[1], 60)
        && b.piece_list[56] == 3 && bit(b.occupancy_color[1], 56)
}

/// The hash key contributed by one square: the key of the piece on it, or 0.
pub open spec fn square_key(b: Board, s: int) -> u64 {
    if b.piece_list[s] == 6 {
        0u64
    } else {
        b.hash_table.pieces[color_at(b, s) * 384 + b.piece_list[s] * 64 + s]
    }
}

/// The from-scratch hash of the pieces on squares below `n`.
pub open spec fn pieces_hash_upto(b: Board, n: int) -> u64
    decreases n,
{
    if n <= 0 {
        0u64
    } else {
        pieces_hash_upto(b, n - 1) ^ square_key(b, n - 1)
    }
}

/// The from-scratch recomputation of the position hash: the keys of every
/// piece on the board, the side to move, the castle rights and the
/// en-passant state, all XORed together.
pub open spec fn hash_spec(b: Board) -> u64 {
    pieces_hash_upto(b, 64) ^ b.hash_table.colors[b.color as int]
        ^ b.hash_table.castles[b.castle_rights.0 as int] ^ b.hash_table.en_passant[ep_file(
        b.en_passant,
    )]
}

/// The incrementally maintained hash equals the from-scratch recomputation.
pub open spec fn hash_ok(b: Board) -> bool {
    b.hash == hash_spec(b)
}

impl Board {
    /// The well-formedness invariant every reachable board satisfies.
    pub open spec fn inv(&self) -> bool {
        &&& wf_bounds(*self)
        &&& placement_ok(*self)
        &&& kings_ok(*self)
        &&& pawns_ok(*self)
        &&& ep_ok(*self)
        &&& castle_ok(*self)
        &&& hash_ok(*self)
    }
}

/// Every reachable board's square-to-piece lookup array and piece bitboards
/// agree exactly: a (color, piece) bitboard holds a square exactly when the
/// array names that piece there and that color occupies it, occupied squares
/// are those the array marks nonempty, and no square is occupied twice.
pub proof fn lemma_placement_consistent(b: Board)
    requires
        b.inv(),
    ensures
        forall|c: int, p: int, s: u64|
            0 <= c < 2 && 0 <= p < 6 && s < 64 ==> #[trigger] bit(b.pieces[c * 6 + p], s) == (
            b.piece_list[s as int] == p && bit(b.occupancy_color[c], s)),
        forall|s: u64| s < 64 ==> #[trigger] bit(b.occupancy, s) == (b.piece_list[s as int] != 6),
        forall|s: u64| s < 64 ==> !(bit(b.occupancy_color[0], s) && bit(b.occupancy_color[1], s)),
{
}

/// The incrementally maintained hash of every reachable board equals the
/// from-scratch recomputation from its current state.
pub proof fn lemma_hash_fresh(b: Board)
    requires
        b.inv(),
    ensures
        b.hash == hash_spec(b),
{
}

/// XOR facts the hash bookkeeping rests on.
pub proof fn lemma_xor(a: u64, b: u64, c: u64)
    by (bit_vector)
    ensures
        a ^ 0u64 == a,
        0u64 ^ a == a,
        a ^ a == 0u64,
        a ^ b == b ^ a,
        (a ^ b) ^ c == a ^ (b ^ c),
        (a ^ b) ^ b == a,
        (a ^ b) ^ c == (a ^ c) ^ b,
{
}

/// Pulling one key out of the four-term XOR of the hash definition.
proof fn lemma_xor_pull(p: u64, k: u64, c: u64, r: u64, e: u64)
    by (bit_vector)
    ensures
        (((p ^ k) ^ c) ^ r) ^ e == ((((p ^ c) ^ r) ^ e) ^ k),
{
}

/// If two boards give every square the same key, their piece hashes agree.
proof fn lemma_pieces_hash_same(b1: Board, b2: Board, n: int)
    requires
        forall|q: int| 0 <= q < 64 ==> square_key(b1, q) == square_key(b2, q),
        n <= 64,
    ensures
        pieces_hash_upto(b1, n) == pieces_hash_upto(b2, n),
    decreases n,
{
    if n > 0 {
        lemma_pieces_hash_same(b1, b2, n - 1);
    }
}

/// If two boards differ only in the key of square `s`, and there by XOR with
/// `d`, their piece hashes differ by XOR with `d`.
proof fn lemma_pieces_hash_change(b1: Board, b2: Board, s: int, d: u64, n: int)
    requires
        0 <= s < 64,
        n <= 64,
        forall|q: int| 0 <= q < 64 && q != s ==> square_key(b1, q) == square_key(b2, q),
        square_key(b2, s) == square_key(b1, s) ^ d,
    ensures
        n > s ==> pieces_hash_upto(b2, n) == pieces_hash_upto(b1, n) ^ d,
        n <= s ==> pieces_hash_upto(b2, n) == pieces_hash_upto(b1, n),
    decreases n,
{
    if n > 0 {
        lemma_pieces_hash_change(b1, b2, s, d, n - 1);
        let p1 = pieces_hash_upto(b1, n - 1);
        let k1 = square_key(b1, n - 1);
        let k2 = square_key(b2, n - 1);
        if n - 1 == s {
            lemma_xor(p1, k1, d);
            assert((p1 ^ k1) ^ d == p1 ^ (k1 ^ d));
        } else if n - 1 > s {
            lemma_xor(p1, d, k1);
            assert((p1 ^ d) ^ k1 == (p1 ^ k1) ^ d);
        }
    }
}

/// Two boards that differ only in fields the hash does not read (the two
/// counters) are equally fresh.
pub proof fn lemma_scalar_hash(b1: Board, b2: Board)
    requires
        b1.piece_list == b2.piece_list,
        b1.occupancy_color == b2.occupancy_color,
        b1.hash_table == b2.hash_table,
        b1.color == b2.color,
        b1.castle_rights == b2.castle_rights,
        b1.en_passant == b2.en_passant,
        b1.hash == b2.hash,
    ensures
        hash_ok(b1) == hash_ok(b2),
{
    lemma_pieces_hash_same(b1, b2, 64);
}

/// The board after a piece of `c` is put on the empty square `s`.
pub open spec fn board_add(b: Board, p: int, c: int, s: int) -> Board {
    Board {
        pieces: vstd::array::spec_array_update(
            b.pieces,
            c * 6 + p,
            b.pieces[c * 6 + p] | sq_bb(s as u64),
        ),
        piece_list: vstd::array::spec_array_update(b.piece_list, s, p as usize),
        occupancy: b.occupancy | sq_bb(s as u64),
        occupancy_color: vstd::array::spec_array_update(
            b.occupancy_color,
            c,
            b.occupancy_color[c] | sq_bb(s as u64),
        ),
        hash: b.hash ^ b.hash_table.pieces[c * 384 + p * 64 + s],
        ..b
    }
}

/// The board after the piece of `c` on square `s` is taken off.
pub open spec fn board_remove(b: Board, p: int, c: int, s: int) -> Board {
    Board {
        pieces: vstd::array::spec_array_update(
            b.pieces,
            c * 6 + p,
            b.pieces[c * 6 + p] & !sq_bb(s as u64),
        ),
        piece_list: vstd::array::spec_array_update(b.piece_list, s, 6usize),
        occupancy: b.occupancy & !sq_bb(s as u64),
        occupancy_color: vstd::array::spec_array_update(
            b.occupancy_color,
            c,
            b.occupancy_color[c] & !sq_bb(s as u64),
        ),
        hash: b.hash ^ b.hash_table.pieces[c * 384 + p * 64 + s],
        ..b
    }
}

impl Board {
    /// Put a piece on an empty square, updating the bitboards, the lookup
    /// array and the hash together.
    pub fn add_piece(&mut self, piece: Piece, color: Color, square: Square)
        requires
            piece < 6,
            color < 2,
            square < 64,
            wf_bounds(*old(self)),
            placement_ok(*old(self)),
            old(self).piece_list[square as int] == 6,
        ensures
            *final(self) == board_add(*old(self), piece as int, color as int, square as int),
            placement_ok(*final(self)),
            wf_bounds(*final(self)),
            hash_ok(*old(self)) ==> hash_ok(*final(self)),
    {
        proof {
            lemma_bit_auto();
        }
        let m: u64 = 1u64 << (square as u64);
        let idx: usize = color * 6 + piece;
        let bb: u64 = self.pieces[idx];
        self.pieces[idx] = bb | m;
        self.piece_list[square] = piece;
        self.occupancy = self.occupancy | m;
        let oc: u64 = self.occupancy_color[color];
        self.occupancy_color[color] = oc | m;
        let key: u64 = self.hash_table.piece(piece, color, square);
        self.hash = self.hash ^ key;
        proof {
            let o = *old(self);
            let n = *final(self);
            let pi = piece as int;
            let ci = color as int;
            let si = square as int;
            assert(n == board_add(o, pi, ci, si));
            assert(placement_ok(n)) by {
                assert(!bit(o.occupancy, square as u64));
                assert forall|s: u64| s < 64 implies #[trigger] bit(n.occupancy, s) == (
                n.piece_list[s as int] != 6) by {}
                assert forall|c: int, p: int, s: u64|
                    0 <= c < 2 && 0 <= p < 6 && s < 64 implies #[trigger] bit(
                    n.pieces[c * 6 + p],
                    s,
                ) == (n.piece_list[s as int] == p && bit(n.occupancy_color[c], s)) by {
                    assert(c * 6 + p != ci * 6 + pi ==> n.pieces[c * 6 + p] == o.pieces[c * 6 + p]);
                }
            }
            if hash_ok(o) {
                assert(hash_ok(n)) by {
                    let k = o.hash_table.pieces[ci * 384 + pi * 64 + si];
                    assert forall|q: int| 0 <= q < 64 && q != si implies square_key(o, q)
                        == square_key(n, q) by {}
                    assert(square_key(o, si) == 0u64);
                    assert(color_at(n, si) == ci);
                    assert(square_key(n, si) == k);
                    lemma_xor(k, 0u64, 0u64);
                    assert(square_key(n, si) == square_key(o, si) ^ k) by {
                        lemma_xor(k, 0u64, 0u64);
                        assert(0u64 ^ k == k);
                    }
                    lemma_pieces_hash_change(o, n, si, k, 64);
                    lemma_xor_pull(
                        pieces_hash_upto(o, 64),
                        k,
                        o.hash_table.colors[o.color as int],
                        o.hash_table.castles[o.castle_rights.0 as int],
                        o.hash_table.en_passant[ep_file(o.en_passant)],
                    );
                }
            }
        }
    }

    /// Take a piece of `color` off its square, updating the bitboards, the
    /// lookup array and the hash together.
    pub fn remove_piece(&mut self, piece: Piece, color: Color, square: Square)
        requires
            piece < 6,
            color < 2,
            square < 64,
            wf_bounds(*old(self)),
            placement_ok(*old(self)),
            old(self).piece_list[square as int] == piece,
            bit(old(self).occupancy_color[color as int], square as u64),
        ensures
            *final(self) == board_remove(*old(self), piece as int, color as int, square as int),
            placement_ok(*final(self)),
            wf_bounds(*final(self)),
            hash_ok(*old(self)) ==> hash_ok(*final(self)),
    {
        proof {
            lemma_bit_auto();
        }
        let m: u64 = 1u64 << (square as u64);
        let idx: usize = color * 6 + piece;
        let bb: u64 = self.pieces[idx];
        self.pieces[idx] = bb & !m;
        self.piece_list[square] = 6;
        self.occupancy = self.occupancy & !m;
        let oc: u64 = self.occupancy_color[color];
        self.occupancy_color[color] = oc & !m;
        let key: u64 = self.hash_table.piece(piece, color, square);
        self.hash = self.hash ^ key;
        proof {
            let o = *old(self);
            let n = *final(self);
            let pi = piece as int;
            let ci = color as int;
            let si = square as int;
            assert(n == board_remove(o, pi, ci, si));
            assert(placement_ok(n)) by {
                assert forall|c: int, p: int, s: u64|
                    0 <= c < 2 && 0 <= p < 6 && s < 64 implies #[trigger] bit(
                    n.pieces[c * 6 + p],
                    s,
                ) == (n.piece_list[s as int] == p && bit(n.occupancy_color[c], s)) by {
                    assert(c * 6 + p != ci * 6 + pi ==> n.pieces[c * 6 + p] == o.pieces[c * 6 + p]);
                }
            }
            if hash_ok(o) {
                assert(hash_ok(n)) by {
                    let k = o.hash_table.pieces[ci * 384 + pi * 64 + si];
                    assert forall|q: int| 0 <= q < 64 && q != si implies square_key(o, q)
                        == square_key(n, q) by {}
                    assert(color_at(o, si) == ci);
                    assert(square_key(o, si) == k);
                    assert(square_key(n, si) == 0u64);
                    assert(square_key(n, si) == square_key(o, si) ^ k) by {
                        lemma_xor(k, 0u64, 0u64);
                    }
                    lemma_pieces_hash_change(o, n, si, k, 64);
                    lemma_xor_pull(
                        pieces_hash_upto(o, 64),
                        k,
                        o.hash_table.colors[o.color as int],
                        o.hash_table.castles[o.castle_rights.0 as int],
                        o.hash_table.en_passant[ep_file(o.en_passant)],
                    );
                }
            }
        }
    }

    /// Hand the move to the other side, keeping the hash current.
    pub fn switch_color(&mut self)
        requires
            old(self).color < 2,
        ensures
            *final(self) == (Board {
                color: (1 - old(self).color) as usize,
                hash: (old(self).hash ^ old(self).hash_table.colors[old(self).color as int])
                    ^ old(self).hash_table.colors[1 - old(self).color as int],
                ..*old(self)
            }),
            hash_ok(*old(self)) ==> hash_ok(*final(self)),
    {
        let k0: u64 = self.hash_table.color(self.color);
        self.hash = self.hash ^ k0;
        self.color = 1 - self.color;
        let k1: u64 = self.hash_table.color(self.color);
        self.hash = self.hash ^ k1;
        proof {
            let o = *old(self);
            let n = *final(self);
            if hash_ok(o) {
                lemma_pieces_hash_same(o, n, 64);
                let p = pieces_hash_upto(o, 64);
                let c0 = o.hash_table.colors[o.color as int];
                let c1 = o.hash_table.colors[1 - o.color as int];
                let r = o.hash_table.castles[o.castle_rights.0 as int];
                let e = o.hash_table.en_passant[ep_file(o.en_passant)];
                assert((((p ^ c0) ^ r) ^ e) ^ c0 ^ c1 == ((p ^ c1) ^ r) ^ e) by (bit_vector);
            }
        }
    }

    /// Replace the castle rights, keeping the hash current.
    pub fn update_castle_rights(&mut self, castle_rights: CastleRights)
        requires
            old(self).castle_rights.0 < 16,
            castle_rights.0 < 16,
        ensures
            *final(self) == (Board {
                castle_rights,
                hash: (old(self).hash ^ old(self).hash_table.castles[old(
                    self,
                ).castle_rights.0 as int]) ^ old(self).hash_table.castles[castle_rights.0 as int],
                ..*old(self)
            }),
            hash_ok(*old(self)) ==> hash_ok(*final(self)),
    {
        let k0: u64 = self.hash_table.castle(self.castle_rights);
        self.hash = self.hash ^ k0;
        self.castle_rights = castle_rights;
        let k1: u64 = self.hash_table.castle(self.castle_rights);
        self.hash = self.hash ^ k1;
        proof {
            let o = *old(self);
            let n = *final(self);
            if hash_ok(o) {
                lemma_pieces_hash_same(o, n, 64);
                let p = pieces_hash_upto(o, 64);
                let c = o.hash_table.colors[o.color as int];
                let r0 = o.hash_table.castles[o.castle_rights.0 as int];
                let r1 = o.hash_table.castles[castle_rights.0 as int];
                let e = o.hash_table.en_passant[ep_file(o.en_passant)];
                assert((((p ^ c) ^ r0) ^ e) ^ r0 ^ r1 == ((p ^ c) ^ r1) ^ e) by (bit_vector);
            }
        }
    }

    /// Set the en-passant target square, keeping the hash current.
    pub fn set_en_passant(&mut self, square: Square)
        requires
            square < 64,
            match old(self).en_passant {
                Some(s) => s < 64,
                None => true,
            },
        ensures
            *final(self) == (Board {
                en_passant: Some(square),
                hash: (old(self).hash ^ old(self).hash_table.en_passant[ep_file(
                    old(self).en_passant,
                )]) ^ old(self).hash_table.en_passant[square as int % 8],
                ..*old(self)
            }),
            hash_ok(*old(self)) ==> hash_ok(*final(self)),
    {
        let k0: u64 = self.hash_table.en_passant(self.en_passant);
        self.hash = self.hash ^ k0;
        self.en_passant = Some(square);
        let k1: u64 = self.hash_table.en_passant(self.en_passant);
        self.hash = self.hash ^ k1;
        proof {
            let o = *old(self);
            let n = *final(self);
            if hash_ok(o) {
                lemma_pieces_hash_same(o, n, 64);
                let p = pieces_hash_upto(o, 64);
                let c = o.hash_table.colors[o.color as int];
                let r = o.hash_table.castles[o.castle_rights.0 as int];
                let e0 = o.hash_table.en_passant[ep_file(o.en_passant)];
                let e1 = o.hash_table.en_passant[ep_file(Some(square))];
                assert((((p ^ c) ^ r) ^ e0) ^ e0 ^ e1 == ((p ^ c) ^ r) ^ e1) by (bit_vector);
            }
        }
    }

    /// Clear the en-passant target square, keeping the hash current.
    pub fn clear_en_passant(&mut self)
        requires
            match old(self).en_passant {
                Some(s) => s < 64,
                None => true,
            },
        ensures
            *final(self) == (Board {
                en_passant: None,
                hash: (old(self).hash ^ old(self).hash_table.en_passant[ep_file(
                    old(self).en_passant,
                )]) ^ old(self).hash_table.en_passant[8],
                ..*old(self)
            }),
            hash_ok(*old(self)) ==> hash_ok(*final(self)),
    {
        let k0: u64 = self.hash_table.en_passant(self.en_passant);
        self.hash = self.hash ^ k0;
        self.en_passant = None;
        let k1: u64 = self.hash_table.en_passant(self.en_passant);
        self.hash = self.hash ^ k1;
        proof {
            let o = *old(self);
            let n = *final(self);
            if hash_ok(o) {
                lemma_pieces_hash_same(o, n, 64);
                let p = pieces_hash_upto(o, 64);
                let c = o.hash_table.colors[o.color as int];
                let r = o.hash_table.castles[o.castle_rights.0 as int];
                let e0 = o.hash_table.en_passant[ep_file(o.en_passant)];
                let e1 = o.hash_table.en_passant[8];
                assert((((p ^ c) ^ r) ^ e0) ^ e0 ^ e1 == ((p ^ c) ^ r) ^ e1) by (bit_vector);
            }
        }
    }

    /// The squares the side to move occupies.
    pub fn ally(&self) -> (r: Bitboard)
        requires
            self.color < 2,
        ensures
            r == self.occupancy_color[self.color as int],
    {
        self.occupancy_color[self.color]
    }

    /// The squares the side not to move occupies.
    pub fn enemy(&self) -> (r: Bitboard)
        requires
            self.color < 2,
        ensures
            r == self.occupancy_color[1 - self.color as int],
    {
        self.occupancy_color[1 - self.color]
    }

    /// The piece and color on a square, if any.
    pub fn get_piece(&self, square: Square) -> (r: Option<(Piece, Color)>)
        requires
            square < 64,
            wf_bounds(*self),
            placement_ok(*self),
        ensures
            r == if self.piece_list[square as int] == 6 {
                None::<(Piece, Color)>
            } else {
                Some((self.piece_list[square as int], color_at(*self, square as int) as usize))
            },
    {
        let piece: usize = self.piece_list[square];
        if piece == 6 {
            None
        } else {
            proof {
                lemma_bit_auto();
            }
            if (self.occupancy_color[0] >> (square as u64)) & 1u64 == 1u64 {
                Some((piece, 0))
            } else {
                Some((piece, 1))
            }
        }
    }

    /// Recompute the hash from scratch and store it.
    pub fn init_hash(&mut self)
        requires
            wf_bounds(*old(self)),
        ensures
            *final(self) == (Board { hash: hash_spec(*old(self)), ..*old(self) }),
            hash_ok(*final(self)),
    {
        let h: u64 = hash_from_scratch(self);
        self.hash = h;
        proof {
            let o = *old(self);
            let n = *final(self);
            lemma_pieces_hash_same(o, n, 64);
        }
    }
}

/// The hash recomputed from the current board state alone.
fn hash_from_scratch(b: &Board) -> (r: u64)
    requires
        wf_bounds(*b),
    ensures
        r == hash_spec(*b),
{
    proof {
        lemma_bit_auto();
    }
    let mut acc: u64 = 0;
    let mut i: usize = 0;
    while i < 64
        invariant
            i <= 64,
            wf_bounds(*b),
            acc == pieces_hash_upto(*b, i as int),
        decreases 64 - i,
    {
        let piece: usize = b.piece_list[i];
        if piece != 6 {
            let c: usize = if (b.occupancy_color[0] >> (i as u64)) & 1u64 == 1u64 {
                0
            } else {
                1
            };
            proof {
                assert(c as int == color_at(*b, i as int));
            }
            let key: u64 = b.hash_table.piece(piece, c, i);
            acc = acc ^ key;
        } else {
            proof {
                lemma_xor(acc, 0u64, 0u64);
            }
        }
        i = i + 1;
    }
    let r1: u64 = acc ^ b.hash_table.color(b.color);
    let r2: u64 = r1 ^ b.hash_table.castle(b.castle_rights);
    let r3: u64 = r2 ^ b.hash_table.en_passant(b.en_passant);
    r3
}

/// Does the incrementally maintained hash equal the from-scratch
/// recomputation? On a well-formed board this is always true.
pub fn check_incrementals(board: &Board) -> (r: bool)
    requires
        wf_bounds(*board),
    ensures
        r == (board.hash == hash_spec(*board)),
        board.inv() ==> r,
{
    let h: u64 = hash_from_scratch(board);
    board.hash == h
}

} // verus!
