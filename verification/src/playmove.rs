//! Applying and reverting moves. `play_move` mutates the position in place,
//! gates on legality (the mover's own king must not be left attacked), and
//! rolls back exactly when the move is rejected; `undo_move` restores the
//! position bit for bit to what it was before the matching `play_move`.

use vstd::prelude::*;
use crate::Chess;
use crate::bitboard::BitboardLSB;
use crate::bitboard::bit;
use crate::bitboard::lemma_bit_auto;
use crate::bitboard::lemma_bit_ext;
use crate::board::Board;
use crate::board::board_add;
use crate::board::board_remove;
use crate::board::castle_ok;
use crate::board::ep_ok;
use crate::board::kings_ok;
use crate::board::pawns_ok;
use crate::castle::CastleRights;
use crate::castle::square_rights;
use crate::history::OldState;
use crate::history::snap_of;
use crate::movegen::attacked_spec;
use crate::movegen_gen::move_ok;
use crate::piece_move::Move;
use crate::piece_move::mv_captured;
use crate::piece_move::mv_castling;
use crate::piece_move::mv_en_passant;
use crate::piece_move::mv_from;
use crate::piece_move::mv_piece;
use crate::piece_move::mv_promoted;
use crate::piece_move::mv_to;
use crate::piece_move::mv_two_step;
use crate::zobrist::ep_file;

verus! {

broadcast use vstd::array::group_array_axioms;

/// A halfmove counter one higher, stopping at the type's ceiling.
pub open spec fn sat_inc_u8(x: u8) -> u8 {
    if x == 255 {
        255u8
    } else {
        (x + 1) as u8
    }
}

/// A fullmove counter one higher, stopping at the type's ceiling.
pub open spec fn sat_inc_u16(x: u16) -> u16 {
    if x == 0xffff {
        0xffffu16
    } else {
        (x + 1) as u16
    }
}

/// The board with the en-passant target cleared and the hash kept current.
pub open spec fn spec_clear_ep(b: Board) -> Board {
    Board {
        en_passant: None,
        hash: (b.hash ^ b.hash_table.en_passant[ep_file(b.en_passant)])
            ^ b.hash_table.en_passant[8],
        ..b
    }
}

/// The board with the en-passant target set and the hash kept current.
pub open spec fn spec_set_ep(b: Board, s: int) -> Board {
    Board {
        en_passant: Some(s as usize),
        hash: (b.hash ^ b.hash_table.en_passant[ep_file(b.en_passant)])
            ^ b.hash_table.en_passant[s % 8],
        ..b
    }
}

/// The board with new castle rights and the hash kept current.
pub open spec fn spec_set_rights(b: Board, r: CastleRights) -> Board {
    Board {
        castle_rights: r,
        hash: (b.hash ^ b.hash_table.castles[b.castle_rights.0 as int])
            ^ b.hash_table.castles[r.0 as int],
        ..b
    }
}

/// The board with the move handed to the other side and the hash kept
/// current.
pub open spec fn spec_switch(b: Board) -> Board {
    Board {
        color: (1 - b.color) as usize,
        hash: (b.hash ^ b.hash_table.colors[b.color as int]) ^ b.hash_table.colors[1 - b.color
            as int],
        ..b
    }
}

/// The exact board a well-formed move produces, before the legality gate:
/// the halfmove clock advances (resetting on captures and pawn moves), a set
/// en-passant target is cleared, the captured piece leaves (revoking the
/// right of a rook taken on its home square), the mover relocates
/// (substituting the promotion piece, removing the passed pawn, recording a
/// new en-passant target, revoking rights on king and rook moves, and moving
/// the castling rook), the side to move flips, and the move number advances
/// after Black's move.
pub open spec fn board_after_make(b: Board, m: Move) -> Board {
    let p = mv_piece(m);
    let f = mv_from(m);
    let t = mv_to(m);
    let cap = mv_captured(m);
    let promo = mv_promoted(m);
    let mover = b.color as int;
    let opp = 1 - b.color as int;
    let had_rights = b.castle_rights.0 != 0;
    let b1 = Board { halfmove_clock: sat_inc_u8(b.halfmove_clock), ..b };
    let b2 = if b1.en_passant is Some {
        spec_clear_ep(b1)
    } else {
        b1
    };
    let b3 = if cap != 6 {
        let bc = board_remove(Board { halfmove_clock: 0, ..b2 }, cap, opp, t);
        if cap == 3 && had_rights {
            spec_set_rights(bc, CastleRights(bc.castle_rights.0 & !square_rights(t)))
        } else {
            bc
        }
    } else {
        b2
    };
    let b4 = if p == 0 {
        let bp = board_add(
            board_remove(Board { halfmove_clock: 0, ..b3 }, 0, mover, f),
            if promo == 6 {
                0
            } else {
                promo
            },
            mover,
            t,
        );
        let bq = if mv_en_passant(m) {
            board_remove(
                bp,
                0,
                opp,
                if b.color == 0 {
                    t - 8
                } else {
                    t + 8
                },
            )
        } else {
            bp
        };
        if mv_two_step(m) {
            spec_set_ep(
                bq,
                if b.color == 0 {
                    t - 8
                } else {
                    t + 8
                },
            )
        } else {
            bq
        }
    } else {
        let bn = board_add(board_remove(b3, p, mover, f), p, mover, t);
        let br = if (p == 5 || p == 3) && had_rights {
            spec_set_rights(bn, CastleRights(bn.castle_rights.0 & !square_rights(f)))
        } else {
            bn
        };
        if mv_castling(m) {
            if t == 6 {
                board_add(board_remove(br, 3, mover, 7), 3, mover, 5)
            } else if t == 2 {
                board_add(board_remove(br, 3, mover, 0), 3, mover, 3)
            } else if t == 62 {
                board_add(board_remove(br, 3, mover, 63), 3, mover, 61)
            } else {
                board_add(board_remove(br, 3, mover, 56), 3, mover, 59)
            }
        } else {
            br
        }
    };
    let b5 = spec_switch(b4);
    if b.color == 1 {
        Board { fullmove_number: sat_inc_u16(b5.fullmove_number), ..b5 }
    } else {
        b5
    }
}

/// The exact board reverting a move produces: scalars back from the
/// snapshot, the placement reversed, and the hash restored verbatim.
pub open spec fn board_after_unmake(n: Board, st: OldState) -> Board {
    let m = st.move_made;
    let p = mv_piece(m);
    let f = mv_from(m);
    let t = mv_to(m);
    let cap = mv_captured(m);
    let promo = mv_promoted(m);
    let mover = st.color as int;
    let b0 = Board {
        en_passant: st.en_passant,
        castle_rights: st.castle_rights,
        halfmove_clock: st.halfmove_clock,
        fullmove_number: st.fullmove_number,
        color: st.color,
        ..n
    };
    let b1 = if promo == 6 {
        let bx = board_add(board_remove(b0, p, mover, t), p, mover, f);
        if mv_castling(m) {
            if t == 6 {
                board_add(board_remove(bx, 3, mover, 5), 3, mover, 7)
            } else if t == 2 {
                board_add(board_remove(bx, 3, mover, 3), 3, mover, 0)
            } else if t == 62 {
                board_add(board_remove(bx, 3, mover, 61), 3, mover, 63)
            } else {
                board_add(board_remove(bx, 3, mover, 59), 3, mover, 56)
            }
        } else {
            bx
        }
    } else {
        board_add(board_remove(b0, promo, mover, t), 0, mover, f)
    };
    let b2 = if cap != 6 {
        board_add(b1, cap, 1 - mover, t)
    } else {
        b1
    };
    let b3 = if mv_en_passant(m) {
        board_add(
            b2,
            0,
            1 - mover,
            if st.color == 0 {
                t - 8
            } else {
                t + 8
            },
        )
    } else {
        b2
    };
    Board { hash: st.hash, ..b3 }
}

/// The square of the first king of `c` on the board.
pub open spec fn king_sq(b: Board, c: int) -> int {
    vstd::std_specs::bits::u64_trailing_zeros(b.pieces[c * 6 + 5]) as int
}

/// Revoking rights keeps the four-bit range.
proof fn lemma_rights_bound(a: u8, s: u8)
    by (bit_vector)
    requires
        a < 16,
    ensures
        a & !s < 16,
{
}

/// The flag bits of each rights mask a home square can revoke.
proof fn lemma_square_rights_bits()
    by (bit_vector)
    ensures
        1u8 & 1 != 0 && 1u8 & 2 == 0 && 1u8 & 4 == 0 && 1u8 & 8 == 0,
        2u8 & 1 == 0 && 2u8 & 2 != 0 && 2u8 & 4 == 0 && 2u8 & 8 == 0,
        3u8 & 1 != 0 && 3u8 & 2 != 0 && 3u8 & 4 == 0 && 3u8 & 8 == 0,
        4u8 & 1 == 0 && 4u8 & 2 == 0 && 4u8 & 4 != 0 && 4u8 & 8 == 0,
        8u8 & 1 == 0 && 8u8 & 2 == 0 && 8u8 & 4 == 0 && 8u8 & 8 != 0,
        12u8 & 1 == 0 && 12u8 & 2 == 0 && 12u8 & 4 != 0 && 12u8 & 8 != 0,
        0u8 & 1 == 0 && 0u8 & 2 == 0 && 0u8 & 4 == 0 && 0u8 & 8 == 0,
{
}

/// How revoking rights acts on each of the four flag bits.
proof fn lemma_u8_bits(a: u8, s: u8)
    by (bit_vector)
    ensures
        ((a & !s) & 1 != 0) == (a & 1 != 0 && s & 1 == 0),
        ((a & !s) & 2 != 0) == (a & 2 != 0 && s & 2 == 0),
        ((a & !s) & 4 != 0) == (a & 4 != 0 && s & 4 == 0),
        ((a & !s) & 8 != 0) == (a & 8 != 0 && s & 8 == 0),
{
}

/// Making a well-formed move keeps the parts of the board invariant that the
/// placement updates do not maintain on their own: both kings stay on the
/// board, no pawn lands on a back rank, a recorded en-passant target is real,
/// and every right still held has its king and rook at home.
#[verifier::spinoff_prover]
#[verifier::rlimit(100)]
proof fn lemma_make_keeps(b: Board, m: Move)
    requires
        b.inv(),
        move_ok(b, m),
    ensures
        kings_ok(board_after_make(b, m)),
        pawns_ok(board_after_make(b, m)),
        ep_ok(board_after_make(b, m)),
        castle_ok(board_after_make(b, m)),
        board_after_make(b, m).pieces[b.color as int * 6 + 5] != 0,
        board_after_make(b, m).color == 1 - b.color,
{
    lemma_bit_auto();
    let n = board_after_make(b, m);
    let p = mv_piece(m);
    let f = mv_from(m);
    let t = mv_to(m);
    let mover = b.color as int;
    lemma_square_rights_bits();
    lemma_u8_bits(b.castle_rights.0, square_rights(t));
    lemma_u8_bits(b.castle_rights.0, square_rights(f));
    lemma_u8_bits(b.castle_rights.0 & !square_rights(t), square_rights(f));
    assert(kings_ok(n) && n.pieces[mover * 6 + 5] != 0) by {
        if p == 5 {
            assert(bit(n.pieces[mover * 6 + 5], t as u64));
            if n.pieces[mover * 6 + 5] == 0 {
                assert(!bit(0u64, t as u64));
            }
        } else {
            assert(n.pieces[mover * 6 + 5] == b.pieces[mover * 6 + 5]);
        }
        assert(n.pieces[(1 - mover) * 6 + 5] == b.pieces[(1 - mover) * 6 + 5]);
    }
    assert(pawns_ok(n)) by {
        assert forall|s: int| 0 <= s < 64 && #[trigger] n.piece_list[s] == 0 implies 8 <= s
            < 56 by {
            if b.piece_list[s] != 0 || n.piece_list[s] != b.piece_list[s] {
                assert(s == t);
            }
        }
    }
    assert(ep_ok(n));
    let cap = mv_captured(m);
    let cr = n.castle_rights.0;
    assert(castle_ok(n)) by {
        if cr & 1 != 0 {
            assert(b.castle_rights.0 & 1 != 0);
            assert(f != 4 && f != 7 && t != 4 && t != 7) by {
                if f == 4 {
                    assert(p == 5);
                    assert(square_rights(4) == 3);
                    assert(cr & 1 == 0);
                }
                if f == 7 {
                    assert(p == 3);
                    assert(square_rights(7) == 1);
                    assert(cr & 1 == 0);
                }
                if t == 4 {
                    assert(cap == 5);
                }
                if t == 7 {
                    assert(cap == 3);
                    assert(square_rights(7) == 1);
                    assert(cr & 1 == 0);
                }
            }
            assert(n.piece_list[4] == 5 && bit(n.occupancy_color[0], 4) && n.piece_list[7] == 3
                && bit(n.occupancy_color[0], 7));
        }
        if cr & 2 != 0 {
            assert(b.castle_rights.0 & 2 != 0);
            assert(f != 4 && f != 0 && t != 4 && t != 0) by {
                if f == 4 {
                    assert(p == 5);
                    assert(square_rights(4) == 3);
                    assert(cr & 2 == 0);
                }
                if f == 0 {
                    assert(p == 3);
                    assert(square_rights(0) == 2);
                    assert(cr & 2 == 0);
                }
                if t == 4 {
                    assert(cap == 5);
                }
                if t == 0 {
                    assert(cap == 3);
                    assert(square_rights(0) == 2);
                    assert(cr & 2 == 0);
                }
            }
            assert(n.piece_list[4] == 5 && bit(n.occupancy_color[0], 4) && n.piece_list[0] == 3
                && bit(n.occupancy_color[0], 0));
        }
        if cr & 4 != 0 {
            assert(b.castle_rights.0 & 4 != 0);
            assert(f != 60 && f != 63 && t != 60 && t != 63) by {
                if f == 60 {
                    assert(p == 5);
                    assert(square_rights(60) == 12);
                    assert(cr & 4 == 0);
                }
                if f == 63 {
                    assert(p == 3);
                    assert(square_rights(63) == 4);
                    assert(cr & 4 == 0);
                }
                if t == 60 {
                    assert(cap == 5);
                }
                if t == 63 {
                    assert(cap == 3);
                    assert(square_rights(63) == 4);
                    assert(cr & 4 == 0);
                }
            }
            assert(n.piece_list[60] == 5 && bit(n.occupancy_color[1], 60) && n.piece_list[63] == 3
                && bit(n.occupancy_color[1], 63));
        }
        if cr & 8 != 0 {
            assert(b.castle_rights.0 & 8 != 0);
            assert(f != 60 && f != 56 && t != 60 && t != 56) by {
                if f == 60 {
                    assert(p == 5);
                    assert(square_rights(60) == 12);
                    assert(cr & 8 == 0);
                }
                if f == 56 {
                    assert(p == 3);
                    assert(square_rights(56) == 8);
                    assert(cr & 8 == 0);
                }
                if t == 60 {
                    assert(cap == 5);
                }
                if t == 56 {
                    assert(cap == 3);
                    assert(square_rights(56) == 8);
                    assert(cr & 8 == 0);
                }
            }
            assert(n.piece_list[60] == 5 && bit(n.occupancy_color[1], 60) && n.piece_list[56] == 3
                && bit(n.occupancy_color[1], 56));
        }
    }
}

/// Make then unmake is the identity: reverting a well-formed move restores
/// the position bit for bit — placement, side to move, castle rights,
/// en-passant target, both counters, and the hash.
#[verifier::spinoff_prover]
#[verifier::rlimit(100)]
pub proof fn lemma_make_unmake(b: Board, m: Move)
    requires
        b.inv(),
        move_ok(b, m),
    ensures
        board_after_unmake(board_after_make(b, m), snap_of(b, m)) == b,
{
    lemma_bit_auto();
    let n = board_after_make(b, m);
    let u = board_after_unmake(n, snap_of(b, m));
    let p = mv_piece(m);
    let f = mv_from(m);
    let t = mv_to(m);
    let cap = mv_captured(m);
    let mover = b.color as int;
    let opp = 1 - b.color as int;
    assert(bit(b.occupancy, f as u64));
    assert(bit(b.occupancy_color@[mover], f as u64));
    assert(!bit(b.occupancy_color@[mover], t as u64));
    if cap != 6 {
        assert(bit(b.occupancy, t as u64));
        assert(bit(b.occupancy_color@[opp], t as u64));
    } else {
        assert(!bit(b.occupancy, t as u64));
        assert(!bit(b.occupancy_color@[opp], t as u64));
    }
    if mv_en_passant(m) {
        let e = if b.color == 0 {
            t - 8
        } else {
            t + 8
        };
        assert(b.piece_list[e] == 0);
        assert(bit(b.occupancy_color@[opp], e as u64));
        assert(bit(b.occupancy, e as u64));
        assert(!bit(b.occupancy_color@[mover], e as u64));
    }
    if mv_castling(m) {
        if t == 6 {
            assert(b.piece_list[7] == 3 && bit(b.occupancy_color@[0], 7) && !bit(
                b.occupancy_color@[1],
                7,
            ) && bit(b.occupancy, 7));
            assert(b.piece_list[5] == 6 && !bit(b.occupancy, 5) && !bit(b.occupancy_color@[0], 5)
                && !bit(b.occupancy_color@[1], 5));
        } else if t == 2 {
            assert(b.piece_list[0] == 3 && bit(b.occupancy_color@[0], 0) && !bit(
                b.occupancy_color@[1],
                0,
            ) && bit(b.occupancy, 0));
            assert(b.piece_list[3] == 6 && !bit(b.occupancy, 3) && !bit(b.occupancy_color@[0], 3)
                && !bit(b.occupancy_color@[1], 3));
        } else if t == 62 {
            assert(b.piece_list[63] == 3 && bit(b.occupancy_color@[1], 63) && !bit(
                b.occupancy_color@[0],
                63,
            ) && bit(b.occupancy, 63));
            assert(b.piece_list[61] == 6 && !bit(b.occupancy, 61) && !bit(b.occupancy_color@[0], 61)
                && !bit(b.occupancy_color@[1], 61));
        } else {
            assert(b.piece_list[56] == 3 && bit(b.occupancy_color@[1], 56) && !bit(
                b.occupancy_color@[0],
                56,
            ) && bit(b.occupancy, 56));
            assert(b.piece_list[59] == 6 && !bit(b.occupancy, 59) && !bit(b.occupancy_color@[0], 59)
                && !bit(b.occupancy_color@[1], 59));
        }
    }
    assert forall|q: int| 0 <= q < 64 implies u.piece_list@[q] == b.piece_list@[q] by {}
    assert(u.piece_list@ =~= b.piece_list@);
    assert forall|idx: int| 0 <= idx < 12 implies u.pieces@[idx] == b.pieces@[idx] by {
        let c = idx / 6;
        let pp = idx % 6;
        assert(idx == c * 6 + pp);
        assert forall|i: u64| i < 64 implies bit(u.pieces@[idx], i) == bit(b.pieces@[idx], i) by {
            assert(bit(b.pieces[c * 6 + pp], i) == (b.piece_list[i as int] == pp && bit(
                b.occupancy_color[c],
                i,
            )));
        }
        lemma_bit_ext(u.pieces@[idx], b.pieces@[idx]);
    }
    assert(u.pieces@ =~= b.pieces@);
    assert forall|idx: int|
        0 <= idx < 2 implies u.occupancy_color@[idx] == b.occupancy_color@[idx] by {
        assert forall|i: u64|
            i < 64 implies bit(u.occupancy_color@[idx], i) == bit(b.occupancy_color@[idx], i) by {}
        lemma_bit_ext(u.occupancy_color@[idx], b.occupancy_color@[idx]);
    }
    assert(u.occupancy_color@ =~= b.occupancy_color@);
    assert(u.occupancy == b.occupancy) by {
        assert forall|i: u64| i < 64 implies bit(u.occupancy, i) == bit(b.occupancy, i) by {}
        lemma_bit_ext(u.occupancy, b.occupancy);
    }
    assert(u.pieces == b.pieces);
    assert(u.piece_list == b.piece_list);
    assert(u.occupancy_color == b.occupancy_color);
    assert(u.hash_table == b.hash_table);
    assert(u == b);
}

/// Apply a well-formed move to the board alone: the full placement, scalar
/// and hash update sequence, without the history bookkeeping.
#[verifier::rlimit(100)]
#[verifier::spinoff_prover]
fn do_make(board: &mut Board, m: Move)
    requires
        old(board).inv(),
        move_ok(*old(board), m),
    ensures
        *final(board) == board_after_make(*old(board), m),
        final(board).inv(),
        final(board).color == 1 - old(board).color,
        final(board).pieces[old(board).color as int * 6 + 5] != 0,
{
    proof {
        lemma_bit_auto();
    }
    let ghost ob = *board;
    let color: usize = board.color;
    let opponent: usize = 1 - color;
    let has_rights: bool = board.castle_rights.any();
    let piece: usize = m.piece();
    let from: usize = m.from();
    let to: usize = m.to();
    let captured: usize = m.captured();
    let promoted: usize = m.promoted();
    let ghost g0 = *board;
    board.halfmove_clock = if board.halfmove_clock == 255 {
        255
    } else {
        board.halfmove_clock + 1
    };
    proof {
        crate::board::lemma_scalar_hash(g0, *board);
    }
    let ghost b1s = Board { halfmove_clock: sat_inc_u8(ob.halfmove_clock), ..ob };
    if board.en_passant.is_some() {
        board.clear_en_passant();
    }
    let ghost b2s = if b1s.en_passant is Some {
        spec_clear_ep(b1s)
    } else {
        b1s
    };
    proof {
        assert(*board == b2s);
    }
    if captured != 6 {
        let ghost g1 = *board;
        board.halfmove_clock = 0;
        proof {
            crate::board::lemma_scalar_hash(g1, *board);
        }
        proof {
            assert(opponent as int == 1 - ob.color as int);
            assert(ob.piece_list[to as int] != 6);
            assert(bit(ob.occupancy, to as u64));
            assert(bit(ob.occupancy_color[0], to as u64) || bit(ob.occupancy_color[1], to as u64));
            assert(!bit(ob.occupancy_color[ob.color as int], to as u64));
            assert(bit(board.occupancy_color[1 - ob.color as int], to as u64));
        }
        board.remove_piece(captured, opponent, to);
        if captured == 3 && has_rights {
            proof {
                lemma_rights_bound(board.castle_rights.0, square_rights(to as int));
            }
            let keep: CastleRights = CastleRights::square(to);
            let nr: CastleRights = board.castle_rights.remove(keep);
            board.update_castle_rights(nr);
        }
    }
    let ghost b3s = if mv_captured(m) != 6 {
        let bc = board_remove(
            Board { halfmove_clock: 0, ..b2s },
            mv_captured(m),
            1 - ob.color as int,
            mv_to(m),
        );
        if mv_captured(m) == 3 && ob.castle_rights.0 != 0 {
            spec_set_rights(bc, CastleRights(bc.castle_rights.0 & !square_rights(mv_to(m))))
        } else {
            bc
        }
    } else {
        b2s
    };
    proof {
        assert(*board == b3s);
    }
    if piece == 0 {
        let ghost g2 = *board;
        board.halfmove_clock = 0;
        proof {
            crate::board::lemma_scalar_hash(g2, *board);
        }
        board.remove_piece(piece, color, from);
        board.add_piece(
            if promoted == 6 {
                0
            } else {
                promoted
            },
            color,
            to,
        );
        if m.en_passant() {
            let cap_sq: usize = if color == 0 {
                to - 8
            } else {
                to + 8
            };
            board.remove_piece(0, opponent, cap_sq);
        }
        if m.two_step() {
            let target: usize = if color == 0 {
                to - 8
            } else {
                to + 8
            };
            board.set_en_passant(target);
        }
    } else {
        board.remove_piece(piece, color, from);
        board.add_piece(piece, color, to);
        if (piece == 5 || piece == 3) && has_rights {
            proof {
                lemma_rights_bound(board.castle_rights.0, square_rights(from as int));
            }
            let nr: CastleRights = board.castle_rights.remove(CastleRights::square(from));
            board.update_castle_rights(nr);
        }
        if m.castling() {
            match to {
                6 => {
                    board.remove_piece(3, color, 7);
                    board.add_piece(3, color, 5);
                },
                2 => {
                    board.remove_piece(3, color, 0);
                    board.add_piece(3, color, 3);
                },
                62 => {
                    board.remove_piece(3, color, 63);
                    board.add_piece(3, color, 61);
                },
                58 => {
                    board.remove_piece(3, color, 56);
                    board.add_piece(3, color, 59);
                },
                _ => {
                    proof {
                        assert(false);
                    }
                },
            }
        }
    }
    let ghost b4s = if mv_piece(m) == 0 {
        let bp = board_add(
            board_remove(Board { halfmove_clock: 0, ..b3s }, 0, ob.color as int, mv_from(m)),
            if mv_promoted(m) == 6 {
                0
            } else {
                mv_promoted(m)
            },
            ob.color as int,
            mv_to(m),
        );
        let bq = if mv_en_passant(m) {
            board_remove(
                bp,
                0,
                1 - ob.color as int,
                if ob.color == 0 {
                    mv_to(m) - 8
                } else {
                    mv_to(m) + 8
                },
            )
        } else {
            bp
        };
        if mv_two_step(m) {
            spec_set_ep(
                bq,
                if ob.color == 0 {
                    mv_to(m) - 8
                } else {
                    mv_to(m) + 8
                },
            )
        } else {
            bq
        }
    } else {
        let bn = board_add(
            board_remove(b3s, mv_piece(m), ob.color as int, mv_from(m)),
            mv_piece(m),
            ob.color as int,
            mv_to(m),
        );
        let br = if (mv_piece(m) == 5 || mv_piece(m) == 3) && ob.castle_rights.0 != 0 {
            spec_set_rights(bn, CastleRights(bn.castle_rights.0 & !square_rights(mv_from(m))))
        } else {
            bn
        };
        if mv_castling(m) {
            if mv_to(m) == 6 {
                board_add(board_remove(br, 3, ob.color as int, 7), 3, ob.color as int, 5)
            } else if mv_to(m) == 2 {
                board_add(board_remove(br, 3, ob.color as int, 0), 3, ob.color as int, 3)
            } else if mv_to(m) == 62 {
                board_add(board_remove(br, 3, ob.color as int, 63), 3, ob.color as int, 61)
            } else {
                board_add(board_remove(br, 3, ob.color as int, 56), 3, ob.color as int, 59)
            }
        } else {
            br
        }
    };
    proof {
        assert(*board == b4s);
    }
    board.switch_color();
    if color == 1 {
        let ghost g3 = *board;
        board.fullmove_number = if board.fullmove_number == 0xffff {
            0xffff
        } else {
            board.fullmove_number + 1
        };
        proof {
            crate::board::lemma_scalar_hash(g3, *board);
        }
    }
    proof {
        assert(*board == (if ob.color == 1 {
            Board { fullmove_number: sat_inc_u16(spec_switch(b4s).fullmove_number), ..spec_switch(b4s) }
        } else {
            spec_switch(b4s)
        }));
        assert(*board == board_after_make(ob, m));
        lemma_make_keeps(ob, m);
    }
}

/// Revert a just-made move on the board alone: scalars back from the
/// snapshot, placement reversed, hash restored verbatim.
#[verifier::rlimit(100)]
#[verifier::spinoff_prover]
fn do_unmake(board: &mut Board, state: OldState, Ghost(prior): Ghost<Board>)
    requires
        prior.inv(),
        move_ok(prior, state.move_made),
        state == snap_of(prior, state.move_made),
        *old(board) == board_after_make(prior, state.move_made),
        old(board).inv(),
    ensures
        *final(board) == prior,
{
    proof {
        lemma_bit_auto();
        lemma_unmake_shape(prior, state.move_made);
    }
    let m: Move = state.move_made;
    board.en_passant = state.en_passant;
    board.castle_rights = state.castle_rights;
    board.halfmove_clock = state.halfmove_clock;
    board.fullmove_number = state.fullmove_number;
    board.color = state.color;
    let color: usize = board.color;
    let piece: usize = m.piece();
    let from: usize = m.from();
    let to: usize = m.to();
    let captured: usize = m.captured();
    let promoted: usize = m.promoted();
    if promoted == 6 {
        board.remove_piece(piece, color, to);
        board.add_piece(piece, color, from);
        if m.castling() {
            match to {
                6 => {
                    board.remove_piece(3, color, 5);
                    board.add_piece(3, color, 7);
                },
                2 => {
                    board.remove_piece(3, color, 3);
                    board.add_piece(3, color, 0);
                },
                62 => {
                    board.remove_piece(3, color, 61);
                    board.add_piece(3, color, 63);
                },
                58 => {
                    board.remove_piece(3, color, 59);
                    board.add_piece(3, color, 56);
                },
                _ => {
                    proof {
                        assert(false);
                    }
                },
            }
        }
    } else {
        board.remove_piece(promoted, color, to);
        board.add_piece(0, color, from);
    }
    if captured != 6 {
        board.add_piece(captured, 1 - color, to);
    }
    if m.en_passant() {
        let cap_sq: usize = if color == 0 {
            to - 8
        } else {
            to + 8
        };
        board.add_piece(0, 1 - color, cap_sq);
    }
    board.hash = state.hash;
    proof {
        assert(*board == board_after_unmake(board_after_make(prior, m), snap_of(prior, m)));
        lemma_make_unmake(prior, m);
    }
}

impl Chess {
    /// Apply a pseudo-legal move. Returns whether it was legal: an illegal
    /// move (the mover's own king left attacked) is fully rolled back, a
    /// legal one leaves the new position on the board with the prior board
    /// snapshotted on the history stack.
    pub fn play_move(&mut self, m: Move) -> (legal: bool)
        requires
            old(self).wf(),
            move_ok(old(self).board, m),
        ensures
            final(self).wf(),
            final(self).move_gen == old(self).move_gen,
            legal == !attacked_spec(
                board_after_make(old(self).board, m),
                1 - old(self).board.color as int,
                king_sq(board_after_make(old(self).board, m), old(self).board.color as int),
            ),
            legal ==> final(self).board == board_after_make(old(self).board, m)
                && final(self).history@ == old(self).history@.push(snap_of(old(self).board, m))
                && final(self).hist_boards@ == old(self).hist_boards@.push(old(self).board),
            !legal ==> final(self).board == old(self).board
                && final(self).history@ == old(self).history@
                && final(self).hist_boards@ == old(self).hist_boards@,
    {
        let ghost ob = self.board;
        let snapshot: OldState = OldState::new(&self.board, m);
        self.history.push(snapshot);
        self.hist_boards = Ghost(self.hist_boards@.push(self.board));
        let color: usize = self.board.color;
        let opponent: usize = 1 - color;
        do_make(&mut self.board, m);
        let ksq: usize = self.board.pieces[color * 6 + 5].lsb();
        let legal: bool = !self.move_gen.square_attacked(&self.board, opponent, ksq);
        proof {
            lemma_chess_chain_push(*old(self), *self, ob, m, snapshot);
        }
        if !legal {
            self.undo_move();
            proof {
                assert(old(self).hist_boards@.push(ob).drop_last() =~= old(self).hist_boards@);
                assert(old(self).history@.push(snapshot).drop_last() =~= old(self).history@);
            }
        }
        legal
    }

    /// Revert the most recently applied move: restore the scalar state from
    /// the popped snapshot, reverse the placement, and restore the hash from
    /// the snapshot verbatim. The position is bit for bit what it was before
    /// the matching `play_move`. With no move on the stack, nothing changes.
    pub fn undo_move(&mut self)
        requires
            old(self).wf(),
        ensures
            final(self).wf(),
            final(self).move_gen == old(self).move_gen,
            old(self).history@.len() == 0 ==> final(self).board == old(self).board
                && final(self).history@ == old(self).history@
                && final(self).hist_boards@ == old(self).hist_boards@,
            old(self).history@.len() > 0 ==> final(self).board == old(self).hist_boards@.last()
                && final(self).history@ == old(self).history@.drop_last()
                && final(self).hist_boards@ == old(self).hist_boards@.drop_last(),
    {
        let popped: Option<OldState> = self.history.pop();
        match popped {
            None => {
            },
            Some(state) => {
                let ghost prior = old(self).hist_boards@.last();
                proof {
                    assert(old(self).chain_at(old(self).history@.len() - 1));
                }
                do_unmake(&mut self.board, state, Ghost(prior));
                self.hist_boards = Ghost(self.hist_boards@.drop_last());
                proof {
                    assert forall|i: int|
                        0 <= i < self.history@.len() implies #[trigger] self.chain_at(i) by {
                        assert(old(self).chain_at(i));
                    }
                }
            },
        }
    }
}

/// What the placement of a just-made move looks like at the squares the
/// revert touches: everything the reverse placement operations need.
#[verifier::spinoff_prover]
#[verifier::rlimit(100)]
proof fn lemma_unmake_shape(b: Board, m: Move)
    requires
        b.inv(),
        move_ok(b, m),
    ensures
        ({
            let n = board_after_make(b, m);
            let p = mv_piece(m);
            let f = mv_from(m);
            let t = mv_to(m);
            let cap = mv_captured(m);
            let promo = mv_promoted(m);
            let mover = b.color as int;
            &&& (promo == 6 ==> n.piece_list[t] == p && bit(n.occupancy_color[mover], t as u64))
            &&& (promo != 6 ==> n.piece_list[t] == promo && bit(n.occupancy_color[mover], t as u64))
            &&& n.piece_list[f] == 6
            &&& (mv_castling(m) && t == 6 ==> n.piece_list[5] == 3 && bit(
                n.occupancy_color[mover],
                5,
            ) && n.piece_list[7] == 6)
            &&& (mv_castling(m) && t == 2 ==> n.piece_list[3] == 3 && bit(
                n.occupancy_color[mover],
                3,
            ) && n.piece_list[0] == 6)
            &&& (mv_castling(m) && t == 62 ==> n.piece_list[61] == 3 && bit(
                n.occupancy_color[mover],
                61,
            ) && n.piece_list[63] == 6)
            &&& (mv_castling(m) && t == 58 ==> n.piece_list[59] == 3 && bit(
                n.occupancy_color[mover],
                59,
            ) && n.piece_list[56] == 6)
            &&& (mv_en_passant(m) ==> n.piece_list[if b.color == 0 {
                t - 8
            } else {
                t + 8
            }] == 6)
        }),
{
    lemma_bit_auto();
}

/// Pushing one coherent level onto the chain keeps the whole chain coherent.
proof fn lemma_chess_chain_push(pre: Chess, post: Chess, ob: Board, m: Move, snapshot: OldState)
    requires
        pre.wf(),
        move_ok(ob, m),
        ob == pre.board,
        snapshot == snap_of(ob, m),
        post.history@ == pre.history@.push(snapshot),
        post.hist_boards@ == pre.hist_boards@.push(ob),
        post.board == board_after_make(ob, m),
        post.board.inv(),
        post.move_gen == pre.move_gen,
    ensures
        post.wf(),
{
    assert forall|i: int| 0 <= i < post.history@.len() implies #[trigger] post.chain_at(i) by {
        if i < pre.history@.len() {
            assert(pre.chain_at(i));
        }
    }
}

} // verus!
