//! Generating pseudo-legal moves, one function per piece class. Each
//! generator's contract pins the emitted sequence exactly — one group of
//! moves per piece square, lowest square first, over that class's target
//! squares — and every appended move is well-formed for the board it was
//! generated on ([`move_ok`]): exactly the shape the make/unmake engine
//! needs to apply it and roll it back without corrupting the position.

use vstd::prelude::*;
use crate::bitboard::Bitboard;
use crate::bitboard::BitboardLSB;
use crate::bitboard::BitboardUtils;
use crate::bitboard::bit;
use crate::bitboard::lemma_bit_auto;
use crate::bitboard::sq_bb;
use crate::board::Board;
use crate::move_list::MoveList;
use crate::movegen::MoveGen;
use crate::bitboard::rank_bb;
use crate::movegen::king_steps;
use crate::movegen::knight_steps;
use crate::movegen::lemma_pawn_attack_b;
use crate::movegen::lemma_pawn_attack_w;
use crate::movegen::pawn_attacks;
use crate::piece::Piece;
use crate::piece_move::Move;
use crate::piece_move::lemma_mv_roundtrip;
use crate::piece_move::mv_captured;
use crate::piece_move::mv_castling;
use crate::piece_move::mv_en_passant;
use crate::piece_move::mv_encode;
use crate::piece_move::mv_from;
use crate::piece_move::mv_piece;
use crate::piece_move::mv_promoted;
use crate::piece_move::mv_to;
use crate::piece_move::mv_two_step;
use crate::square::Square;

verus! {

/// A move is well-formed for a board: the moving piece of the side to move
/// stands on the from-square, the captured field names exactly what is on the
/// to-square (never a king), the to-square is not occupied by the mover's own
/// color, promotions are exactly the pawn moves to a back rank, and the three
/// flags only stand on moves with the matching shape. This is everything the
/// make/unmake engine needs to apply the move and restore the position.
pub open spec fn move_ok(b: Board, m: Move) -> bool {
    let p = mv_piece(m);
    let f = mv_from(m);
    let t = mv_to(m);
    let cap = mv_captured(m);
    let promo = mv_promoted(m);
    &&& p < 6
    &&& f < 64
    &&& t < 64
    &&& f != t
    &&& b.piece_list[f] == p
    &&& bit(b.occupancy_color[b.color as int], f as u64)
    &&& cap == b.piece_list[t]
    &&& cap != 5
    &&& !bit(b.occupancy_color[b.color as int], t as u64)
    &&& (promo == 6 || (p == 0 && 1 <= promo <= 4))
    &&& (p == 0 ==> (0 < t / 8 < 7 || promo != 6))
    &&& (p != 0 ==> promo == 6)
    &&& (mv_en_passant(m) ==> p == 0 && b.en_passant == Some(t as usize) && cap == 6)
    &&& (mv_two_step(m) ==> p == 0 && cap == 6 && promo == 6 && (if b.color == 0 {
        t / 8 == 3 && f == t - 16 && b.piece_list[t - 8] == 6
    } else {
        t / 8 == 4 && f == t + 16 && b.piece_list[t + 8] == 6
    }))
    &&& (mv_castling(m) ==> p == 5 && cap == 6 && (if b.color == 0 {
        f == 4 && ((t == 6 && b.castle_rights.0 & 1 != 0 && !bit(b.occupancy, 5) && !bit(
            b.occupancy,
            6,
        )) || (t == 2 && b.castle_rights.0 & 2 != 0 && !bit(b.occupancy, 1) && !bit(b.occupancy, 2)
            && !bit(b.occupancy, 3)))
    } else {
        f == 60 && ((t == 62 && b.castle_rights.0 & 4 != 0 && !bit(b.occupancy, 61) && !bit(
            b.occupancy,
            62,
        )) || (t == 58 && b.castle_rights.0 & 8 != 0 && !bit(b.occupancy, 57) && !bit(
            b.occupancy,
            58,
        ) && !bit(b.occupancy, 59)))
    }))
}

/// What a generator must know of each target square it hands to
/// [`MoveGen::add_move`].
pub open spec fn target_ok(b: Board, p: int, f: int, t: int) -> bool {
    &&& 0 <= t < 64
    &&& !bit(b.occupancy_color[b.color as int], t as u64)
    &&& (p == 0 ==> pawn_target_ok(b, f, t))
    &&& (p == 5 && (t == f + 2 || t + 2 == f) ==> castle_target_ok(b, f, t))
}

/// Pawn targets are a single push onto an empty square, a double push over an
/// empty square onto the fourth rank, or a diagonal step.
pub open spec fn pawn_target_ok(b: Board, f: int, t: int) -> bool {
    if b.color == 0 {
        ||| t == f + 7
        ||| t == f + 9
        ||| (t == f + 8 && b.piece_list[t] == 6)
        ||| (t == f + 16 && t / 8 == 3 && b.piece_list[t] == 6 && b.piece_list[t - 8] == 6)
    } else {
        ||| t == f - 7
        ||| t == f - 9
        ||| (t == f - 8 && b.piece_list[t] == 6)
        ||| (t == f - 16 && t / 8 == 4 && b.piece_list[t] == 6 && b.piece_list[t + 8] == 6)
    }
}

/// A two-square king move must be a castle the side may still play: the
/// right held and the squares between king and rook empty.
pub open spec fn castle_target_ok(b: Board, f: int, t: int) -> bool {
    if b.color == 0 {
        f == 4 && ((t == 6 && b.castle_rights.0 & 1 != 0 && !bit(b.occupancy, 5) && !bit(
            b.occupancy,
            6,
        )) || (t == 2 && b.castle_rights.0 & 2 != 0 && !bit(b.occupancy, 1) && !bit(b.occupancy, 2)
            && !bit(b.occupancy, 3)))
    } else {
        f == 60 && ((t == 62 && b.castle_rights.0 & 4 != 0 && !bit(b.occupancy, 61) && !bit(
            b.occupancy,
            62,
        )) || (t == 58 && b.castle_rights.0 & 8 != 0 && !bit(b.occupancy, 57) && !bit(
            b.occupancy,
            58,
        ) && !bit(b.occupancy, 59)))
    }
}

/// The list grew by zero or more moves, all well-formed for `b` and all of
/// piece class `piece`; the moves already in the list are untouched.
pub open spec fn gen_extends(b: Board, pre: Seq<Move>, post: Seq<Move>, piece: int) -> bool {
    &&& pre.len() <= post.len()
    &&& post.subrange(0, pre.len() as int) == pre
    &&& forall|k: int|
        pre.len() <= k < post.len() ==> move_ok(b, #[trigger] post[k]) && mv_piece(post[k]) == piece
}

/// The moves emitted for one target square `t`: nothing when a king stands
/// there, the four promotions in knight-bishop-rook-queen order when a pawn
/// reaches its back rank, and otherwise one move, with the captured field
/// read off the board and the three flags exactly when the move has the
/// matching shape.
pub open spec fn target_moves(b: Board, piece: int, from: int, t: int) -> Seq<Move> {
    let cap = b.piece_list[t] as u64;
    let ep = piece == 0 && b.en_passant == Some(t as usize);
    let two_step = piece == 0 && (t == from + 16 || t + 16 == from);
    let castling = piece == 5 && (t == from + 2 || t + 2 == from);
    let promotion = piece == 0 && t / 8 == (if b.color == 0 {
        7int
    } else {
        0int
    });
    if b.piece_list[t] == 5 {
        Seq::empty()
    } else if promotion {
        seq![
            Move(mv_encode(piece as u64, from as u64, t as u64, cap, 1, ep, two_step, false)),
            Move(mv_encode(piece as u64, from as u64, t as u64, cap, 2, ep, two_step, false)),
            Move(mv_encode(piece as u64, from as u64, t as u64, cap, 3, ep, two_step, false)),
            Move(mv_encode(piece as u64, from as u64, t as u64, cap, 4, ep, two_step, false)),
        ]
    } else {
        seq![
            Move(mv_encode(piece as u64, from as u64, t as u64, cap, 6, ep, two_step, castling)),
        ]
    }
}

/// The moves emitted for a whole target bitboard: one group of
/// [`target_moves`] per set bit, lowest square first.
pub open spec fn class_moves(b: Board, piece: int, from: int, targets: u64) -> Seq<Move>
    decreases targets,
    when true
    via class_moves_decreases
{
    if targets == 0 {
        Seq::empty()
    } else {
        let t = vstd::std_specs::bits::u64_trailing_zeros(targets) as int;
        target_moves(b, piece, from, t) + class_moves(
            b,
            piece,
            from,
            targets & !sq_bb(t as u64),
        )
    }
}

#[via_fn]
proof fn class_moves_decreases(b: Board, piece: int, from: int, targets: u64) {
    if targets != 0 {
        crate::bitboard::lemma_clear_lowest(targets);
    }
}

/// The target squares of one piece of the side to move, per piece class: its
/// step or ray attack set minus its own color's squares, and for pawns the
/// pushes, captures and en-passant capture of the design.
pub open spec fn piece_targets(b: Board, piece: int, s: int) -> u64 {
    let ally = b.occupancy_color[b.color as int];
    if piece == 5 {
        king_steps(s as u64) & !ally
    } else if piece == 4 {
        (crate::masks::rook_attacks_spec(b.occupancy, s) | crate::masks::bishop_attacks_spec(
            b.occupancy,
            s,
        )) & !ally
    } else if piece == 3 {
        crate::masks::rook_attacks_spec(b.occupancy, s) & !ally
    } else if piece == 2 {
        crate::masks::bishop_attacks_spec(b.occupancy, s) & !ally
    } else if piece == 1 {
        knight_steps(s as u64) & !ally
    } else {
        pawn_piece_targets(b, s)
    }
}

/// A pawn's targets: the single push onto an empty square, the double push
/// over it onto the fourth rank, the diagonal captures, and the en-passant
/// target when one is set and attacked.
pub open spec fn pawn_piece_targets(b: Board, s: int) -> u64 {
    let empty = !b.occupancy;
    let to = if b.color == 0 {
        s + 8
    } else {
        s - 8
    };
    let one_step = empty & sq_bb(to as u64);
    let two_step = if b.color == 0 {
        (one_step << 8) & empty & rank_bb(3)
    } else {
        (one_step >> 8) & empty & rank_bb(4)
    };
    let attacks = pawn_attacks(b.color as int, s as u64);
    let captures = attacks & b.occupancy_color[1 - b.color as int];
    let ep = match b.en_passant {
        Some(e) => attacks & sq_bb(e as u64),
        None => 0u64,
    };
    one_step | two_step | captures | ep
}

/// The moves one generator call emits: one [`class_moves`] group per piece
/// square of the side to move, lowest square first.
pub open spec fn gen_squares(b: Board, piece: int, squares: u64) -> Seq<Move>
    decreases squares,
    when true
    via gen_squares_decreases
{
    if squares == 0 {
        Seq::empty()
    } else {
        let s = vstd::std_specs::bits::u64_trailing_zeros(squares) as int;
        class_moves(b, piece, s, piece_targets(b, piece, s)) + gen_squares(
            b,
            piece,
            squares & !sq_bb(s as u64),
        )
    }
}

#[via_fn]
proof fn gen_squares_decreases(b: Board, piece: int, squares: u64) {
    if squares != 0 {
        crate::bitboard::lemma_clear_lowest(squares);
    }
}

/// The king moves emitted: one group from the king's square (only the first
/// king is served when a malformed placement holds several).
pub open spec fn king_moves(b: Board) -> Seq<Move> {
    let s = crate::playmove::king_sq(b, b.color as int);
    class_moves(b, 5, s, piece_targets(b, 5, s))
}

/// The castling moves emitted, king side then queen side: each requires its
/// right still held, the squares between king and rook empty, and neither
/// the king's square nor its transit square attacked by the opponent.
pub open spec fn castle_moves(b: Board) -> Seq<Move> {
    let opp = 1 - b.color as int;
    if b.color == 0 {
        (if b.castle_rights.0 & 1 != 0 && b.occupancy & (sq_bb(5) | sq_bb(6)) == 0
            && !crate::movegen::attacked_spec(b, opp, 4) && !crate::movegen::attacked_spec(
            b,
            opp,
            5,
        ) {
            class_moves(b, 5, 4, sq_bb(6))
        } else {
            Seq::empty()
        }) + (if b.castle_rights.0 & 2 != 0 && b.occupancy & (sq_bb(1) | sq_bb(2) | sq_bb(3)) == 0
            && !crate::movegen::attacked_spec(b, opp, 4) && !crate::movegen::attacked_spec(
            b,
            opp,
            3,
        ) {
            class_moves(b, 5, 4, sq_bb(2))
        } else {
            Seq::empty()
        })
    } else {
        (if b.castle_rights.0 & 4 != 0 && b.occupancy & (sq_bb(61) | sq_bb(62)) == 0
            && !crate::movegen::attacked_spec(b, opp, 60) && !crate::movegen::attacked_spec(
            b,
            opp,
            61,
        ) {
            class_moves(b, 5, 60, sq_bb(62))
        } else {
            Seq::empty()
        }) + (if b.castle_rights.0 & 8 != 0 && b.occupancy & (sq_bb(57) | sq_bb(58) | sq_bb(59))
            == 0 && !crate::movegen::attacked_spec(b, opp, 60) && !crate::movegen::attacked_spec(
            b,
            opp,
            59,
        ) {
            class_moves(b, 5, 60, sq_bb(58))
        } else {
            Seq::empty()
        })
    }
}

/// Everything `generate_moves` emits, in the class order it walks: king,
/// queens, rooks, bishops, knights, pawns, castling.
pub open spec fn pseudo_legal_moves(b: Board) -> Seq<Move> {
    king_moves(b) + gen_squares(b, 4, b.pieces[b.color as int * 6 + 4]) + gen_squares(
        b,
        3,
        b.pieces[b.color as int * 6 + 3],
    ) + gen_squares(b, 2, b.pieces[b.color as int * 6 + 2]) + gen_squares(
        b,
        1,
        b.pieces[b.color as int * 6 + 1],
    ) + gen_squares(b, 0, b.pieces[b.color as int * 6 + 0]) + castle_moves(b)
}

/// A king step is never two files along the same rank, so a generated king
/// step can never look like a castling move.
proof fn lemma_king_no_two(s: u64, t: u64)
    by (bit_vector)
    requires
        s < 64,
        t < 64,
        bit(king_steps(s), t),
    ensures
        t != s + 2,
        s != t + 2,
{
}

/// Reading a bitboard shifted one rank up or down.
proof fn lemma_shift_rank(x: u64, t: u64)
    by (bit_vector)
    requires
        t < 64,
    ensures
        bit(x << 8, t) == (t >= 8 && bit(x, vstd::prelude::sub(t, 8))),
        bit(x >> 8, t) == (t < 56 && bit(x, vstd::prelude::add(t, 8))),
{
}

impl MoveGen {
    /// Append the side to move's king steps.
    pub fn king(&self, board: &Board, list: &mut MoveList)
        requires
            self.inv(),
            board.inv(),
        ensures
            gen_extends(*board, old(list).moves(), final(list).moves(), 5),
            final(list).moves() == old(list).moves() + king_moves(*board),
    {
        proof {
            lemma_bit_auto();
        }
        let color: usize = board.color;
        let mut piece: u64 = board.pieces[color * 6 + 5];
        let square: Square = piece.pop_lsb();
        let moves: u64 = self.king[square] & !board.ally();
        proof {
            assert(square as int == crate::playmove::king_sq(*board, board.color as int));
            assert(moves == piece_targets(*board, 5, square as int));
            assert forall|t: u64| t < 64 && bit(moves, t) implies target_ok(
                *board,
                5,
                square as int,
                t as int,
            ) by {
                assert(bit(king_steps(square as u64), t));
                lemma_king_no_two(square as u64, t);
            }
        }
        self.add_move(board, 5, square, moves, list);
    }

    /// Append the side to move's queen moves.
    pub fn queens(&self, board: &Board, list: &mut MoveList)
        requires
            self.inv(),
            board.inv(),
        ensures
            gen_extends(*board, old(list).moves(), final(list).moves(), 4),
            final(list).moves() == old(list).moves() + gen_squares(
                *board,
                4,
                board.pieces[board.color as int * 6 + 4],
            ),
    {
        proof {
            lemma_bit_auto();
        }
        let color: usize = board.color;
        let occupancy: u64 = board.occupancy;
        let ally: u64 = board.ally();
        let mut pieces: u64 = board.pieces[color * 6 + 4];
        let ghost orig = pieces;
        let ghost pre = list.moves();
        proof {
            lemma_extends_refl(*board, pre, 4);
            assert(pre + gen_squares(*board, 4, orig) =~= list.moves() + gen_squares(
                *board,
                4,
                pieces,
            ));
        }
        while pieces > 0
            invariant
                self.inv(),
                board.inv(),
                color == board.color,
                ally == board.occupancy_color[color as int],
                occupancy == board.occupancy,
                forall|t: u64| t < 64 && #[trigger] bit(pieces, t) ==> bit(
                    board.pieces[color as int * 6 + 4],
                    t,
                ),
                gen_extends(*board, pre, list.moves(), 4),
                pre + gen_squares(*board, 4, orig) == list.moves() + gen_squares(
                    *board,
                    4,
                    pieces,
                ),
            decreases pieces,
        {
            let ghost pieces_before = pieces;
            let square: Square = pieces.pop_lsb();
            let rook_moves: u64 = self.rook_attack_lookup(square, occupancy);
            let bishop_moves: u64 = self.bishop_attack_lookup(square, occupancy);
            let moves: u64 = (rook_moves | bishop_moves) & !ally;
            proof {
                lemma_bit_auto();
                assert(moves == piece_targets(*board, 4, square as int));
                assert(gen_squares(*board, 4, pieces_before) == class_moves(
                    *board,
                    4,
                    square as int,
                    moves,
                ) + gen_squares(*board, 4, pieces));
            }
            let ghost mid = list.moves();
            self.add_move(board, 4, square, moves, list);
            proof {
                lemma_extends_trans(*board, pre, mid, list.moves(), 4);
                assert(mid + (class_moves(*board, 4, square as int, moves) + gen_squares(
                    *board,
                    4,
                    pieces,
                )) =~= list.moves() + gen_squares(*board, 4, pieces));
            }
        }
    }

    /// Append the side to move's rook moves.
    pub fn rooks(&self, board: &Board, list: &mut MoveList)
        requires
            self.inv(),
            board.inv(),
        ensures
            gen_extends(*board, old(list).moves(), final(list).moves(), 3),
            final(list).moves() == old(list).moves() + gen_squares(
                *board,
                3,
                board.pieces[board.color as int * 6 + 3],
            ),
    {
        proof {
            lemma_bit_auto();
        }
        let color: usize = board.color;
        let occupancy: u64 = board.occupancy;
        let ally: u64 = board.ally();
        let mut pieces: u64 = board.pieces[color * 6 + 3];
        let ghost orig = pieces;
        let ghost pre = list.moves();
        proof {
            lemma_extends_refl(*board, pre, 3);
            assert(pre + gen_squares(*board, 3, orig) =~= list.moves() + gen_squares(
                *board,
                3,
                pieces,
            ));
        }
        while pieces > 0
            invariant
                self.inv(),
                board.inv(),
                color == board.color,
                ally == board.occupancy_color[color as int],
                occupancy == board.occupancy,
                forall|t: u64| t < 64 && #[trigger] bit(pieces, t) ==> bit(
                    board.pieces[color as int * 6 + 3],
                    t,
                ),
                gen_extends(*board, pre, list.moves(), 3),
                pre + gen_squares(*board, 3, orig) == list.moves() + gen_squares(
                    *board,
                    3,
                    pieces,
                ),
            decreases pieces,
        {
            let ghost pieces_before = pieces;
            let square: Square = pieces.pop_lsb();
            let moves: u64 = self.rook_attack_lookup(square, occupancy) & !ally;
            proof {
                lemma_bit_auto();
                assert(moves == piece_targets(*board, 3, square as int));
                assert(gen_squares(*board, 3, pieces_before) == class_moves(
                    *board,
                    3,
                    square as int,
                    moves,
                ) + gen_squares(*board, 3, pieces));
            }
            let ghost mid = list.moves();
            self.add_move(board, 3, square, moves, list);
            proof {
                lemma_extends_trans(*board, pre, mid, list.moves(), 3);
                assert(mid + (class_moves(*board, 3, square as int, moves) + gen_squares(
                    *board,
                    3,
                    pieces,
                )) =~= list.moves() + gen_squares(*board, 3, pieces));
            }
        }
    }

    /// Append the side to move's bishop moves.
    pub fn bishops(&self, board: &Board, list: &mut MoveList)
        requires
            self.inv(),
            board.inv(),
        ensures
            gen_extends(*board, old(list).moves(), final(list).moves(), 2),
            final(list).moves() == old(list).moves() + gen_squares(
                *board,
                2,
                board.pieces[board.color as int * 6 + 2],
            ),
    {
        proof {
            lemma_bit_auto();
        }
        let color: usize = board.color;
        let occupancy: u64 = board.occupancy;
        let ally: u64 = board.ally();
        let mut pieces: u64 = board.pieces[color * 6 + 2];
        let ghost orig = pieces;
        let ghost pre = list.moves();
        proof {
            lemma_extends_refl(*board, pre, 2);
            assert(pre + gen_squares(*board, 2, orig) =~= list.moves() + gen_squares(
                *board,
                2,
                pieces,
            ));
        }
        while pieces > 0
            invariant
                self.inv(),
                board.inv(),
                color == board.color,
                ally == board.occupancy_color[color as int],
                occupancy == board.occupancy,
                forall|t: u64| t < 64 && #[trigger] bit(pieces, t) ==> bit(
                    board.pieces[color as int * 6 + 2],
                    t,
                ),
                gen_extends(*board, pre, list.moves(), 2),
                pre + gen_squares(*board, 2, orig) == list.moves() + gen_squares(
                    *board,
                    2,
                    pieces,
                ),
            decreases pieces,
        {
            let ghost pieces_before = pieces;
            let square: Square = pieces.pop_lsb();
            let moves: u64 = self.bishop_attack_lookup(square, occupancy) & !ally;
            proof {
                lemma_bit_auto();
                assert(moves == piece_targets(*board, 2, square as int));
                assert(gen_squares(*board, 2, pieces_before) == class_moves(
                    *board,
                    2,
                    square as int,
                    moves,
                ) + gen_squares(*board, 2, pieces));
            }
            let ghost mid = list.moves();
            self.add_move(board, 2, square, moves, list);
            proof {
                lemma_extends_trans(*board, pre, mid, list.moves(), 2);
                assert(mid + (class_moves(*board, 2, square as int, moves) + gen_squares(
                    *board,
                    2,
                    pieces,
                )) =~= list.moves() + gen_squares(*board, 2, pieces));
            }
        }
    }

    /// Append the side to move's knight moves.
    pub fn knights(&self, board: &Board, list: &mut MoveList)
        requires
            self.inv(),
            board.inv(),
        ensures
            gen_extends(*board, old(list).moves(), final(list).moves(), 1),
            final(list).moves() == old(list).moves() + gen_squares(
                *board,
                1,
                board.pieces[board.color as int * 6 + 1],
            ),
    {
        proof {
            lemma_bit_auto();
        }
        let color: usize = board.color;
        let ally: u64 = board.ally();
        let mut pieces: u64 = board.pieces[color * 6 + 1];
        let ghost orig = pieces;
        let ghost pre = list.moves();
        proof {
            lemma_extends_refl(*board, pre, 1);
            assert(pre + gen_squares(*board, 1, orig) =~= list.moves() + gen_squares(
                *board,
                1,
                pieces,
            ));
        }
        while pieces > 0
            invariant
                self.inv(),
                board.inv(),
                color == board.color,
                ally == board.occupancy_color[color as int],
                forall|t: u64| t < 64 && #[trigger] bit(pieces, t) ==> bit(
                    board.pieces[color as int * 6 + 1],
                    t,
                ),
                gen_extends(*board, pre, list.moves(), 1),
                pre + gen_squares(*board, 1, orig) == list.moves() + gen_squares(
                    *board,
                    1,
                    pieces,
                ),
            decreases pieces,
        {
            let ghost pieces_before = pieces;
            let square: Square = pieces.pop_lsb();
            let moves: u64 = self.knight[square] & !ally;
            proof {
                lemma_bit_auto();
                assert(moves == piece_targets(*board, 1, square as int));
                assert(gen_squares(*board, 1, pieces_before) == class_moves(
                    *board,
                    1,
                    square as int,
                    moves,
                ) + gen_squares(*board, 1, pieces));
            }
            let ghost mid = list.moves();
            self.add_move(board, 1, square, moves, list);
            proof {
                lemma_extends_trans(*board, pre, mid, list.moves(), 1);
                assert(mid + (class_moves(*board, 1, square as int, moves) + gen_squares(
                    *board,
                    1,
                    pieces,
                )) =~= list.moves() + gen_squares(*board, 1, pieces));
            }
        }
    }

    /// Append the side to move's pawn moves: single and double pushes,
    /// captures, and en-passant captures.
    pub fn pawns(&self, board: &Board, list: &mut MoveList)
        requires
            self.inv(),
            board.inv(),
        ensures
            gen_extends(*board, old(list).moves(), final(list).moves(), 0),
            final(list).moves() == old(list).moves() + gen_squares(
                *board,
                0,
                board.pieces[board.color as int * 6 + 0],
            ),
    {
        proof {
            lemma_bit_auto();
        }
        let color: usize = board.color;
        let enemy: u64 = board.enemy();
        let empty: u64 = !board.occupancy;
        let mut pieces: u64 = board.pieces[color * 6];
        let ghost orig = pieces;
        let ghost pre = list.moves();
        proof {
            lemma_extends_refl(*board, pre, 0);
            assert(pre + gen_squares(*board, 0, orig) =~= list.moves() + gen_squares(
                *board,
                0,
                pieces,
            ));
        }
        while pieces > 0
            invariant
                self.inv(),
                board.inv(),
                color == board.color,
                enemy == board.occupancy_color[1 - color as int],
                empty == !board.occupancy,
                forall|t: u64| t < 64 && #[trigger] bit(pieces, t) ==> bit(
                    board.pieces[color as int * 6],
                    t,
                ),
                gen_extends(*board, pre, list.moves(), 0),
                pre + gen_squares(*board, 0, orig) == list.moves() + gen_squares(
                    *board,
                    0,
                    pieces,
                ),
            decreases pieces,
        {
            let ghost pieces_before = pieces;
            let square: Square = pieces.pop_lsb();
            proof {
                lemma_bit_auto();
                assert(bit(board.pieces[color as int * 6 + 0], square as u64));
                assert(board.piece_list[square as int] == 0);
                assert(8 <= square < 56);
            }
            let to: usize = if color == 0 {
                square + 8
            } else {
                square - 8
            };
            let one_step: u64 = empty & (1u64 << (to as u64));
            let two_step: u64 = if color == 0 {
                (one_step << 8) & empty & BitboardUtils::rank(3)
            } else {
                (one_step >> 8) & empty & BitboardUtils::rank(4)
            };
            let attacks: u64 = self.pawns[color * 64 + square];
            let captures: u64 = attacks & enemy;
            let en_passant: u64 = match board.en_passant {
                Some(ep) => attacks & (1u64 << (ep as u64)),
                None => 0,
            };
            let moves: u64 = one_step | two_step | captures | en_passant;
            proof {
                assert(attacks == pawn_attacks(color as int, square as u64));
                assert(one_step == empty & sq_bb(to as u64));
                if board.en_passant is Some {
                    assert(en_passant == attacks & sq_bb(board.en_passant->Some_0 as u64));
                }
                assert forall|t: u64| t < 64 && bit(moves, t) implies target_ok(
                    *board,
                    0,
                    square as int,
                    t as int,
                ) by {
                    crate::bitboard::lemma_line_bits(3, t);
                    crate::bitboard::lemma_line_bits(4, t);
                    lemma_shift_rank(one_step, t);
                    assert(bit(one_step, t) || bit(two_step, t) || bit(captures, t) || bit(
                        en_passant,
                        t,
                    ));
                    if bit(one_step, t) {
                        assert(t == to);
                        assert(!bit(board.occupancy, t));
                        assert(board.piece_list[t as int] == 6);
                    } else if bit(two_step, t) {
                        assert(bit(empty, t));
                        assert(board.piece_list[t as int] == 6);
                        assert(bit(one_step, (if color == 0 {
                            (t - 8) as u64
                        } else {
                            (t + 8) as u64
                        })));
                        assert(board.piece_list[to as int] == 6);
                    } else if bit(captures, t) {
                        if color == 0 {
                            lemma_pawn_attack_w(square as u64, t);
                        } else {
                            lemma_pawn_attack_b(square as u64, t);
                        }
                        assert(bit(board.occupancy_color[1 - color as int], t));
                    } else {
                        if color == 0 {
                            lemma_pawn_attack_w(square as u64, t);
                        } else {
                            lemma_pawn_attack_b(square as u64, t);
                        }
                        assert(board.piece_list[t as int] == 6);
                        assert(!bit(board.occupancy, t));
                    }
                }
            }
            proof {
                assert(moves == piece_targets(*board, 0, square as int));
                assert(gen_squares(*board, 0, pieces_before) == class_moves(
                    *board,
                    0,
                    square as int,
                    moves,
                ) + gen_squares(*board, 0, pieces));
            }
            let ghost mid = list.moves();
            self.add_move(board, 0, square, moves, list);
            proof {
                lemma_extends_trans(*board, pre, mid, list.moves(), 0);
                assert(mid + (class_moves(*board, 0, square as int, moves) + gen_squares(
                    *board,
                    0,
                    pieces,
                )) =~= list.moves() + gen_squares(*board, 0, pieces));
            }
        }
    }

    /// Append the side to move's castling moves: for each right still held,
    /// the squares between king and rook must be empty and neither the king's
    /// square nor its transit square attacked by the opponent.
    pub fn castling(&self, board: &Board, list: &mut MoveList)
        requires
            self.inv(),
            board.inv(),
        ensures
            gen_extends(*board, old(list).moves(), final(list).moves(), 5),
            final(list).moves() == old(list).moves() + castle_moves(*board),
    {
        proof {
            lemma_bit_auto();
        }
        let color: usize = board.color;
        let opponent: usize = 1 - color;
        let occupancy: u64 = board.occupancy;
        let rights: u8 = board.castle_rights.0;
        let ghost pre = list.moves();
        proof {
            lemma_extends_refl(*board, pre, 5);
        }
        if color == 0 {
            let ghost king_part = (if board.castle_rights.0 & 1 != 0 && board.occupancy & (sq_bb(5)
                | sq_bb(6)) == 0 && !crate::movegen::attacked_spec(*board, 1, 4)
                && !crate::movegen::attacked_spec(*board, 1, 5) {
                class_moves(*board, 5, 4, sq_bb(6))
            } else {
                Seq::<Move>::empty()
            });
            if rights & 1 != 0 {
                let blockers: u64 = (1u64 << 5) | (1u64 << 6);
                if occupancy & blockers == 0 && !self.square_attacked(board, opponent, 4)
                    && !self.square_attacked(board, opponent, 5) {
                    let ghost mid = list.moves();
                    proof {
                        assert(blockers == sq_bb(5) | sq_bb(6));
                        assert(bit(occupancy & blockers, 5) == bit(0u64, 5));
                        assert(bit(occupancy & blockers, 6) == bit(0u64, 6));
                        assert(!bit(board.occupancy, 5) && !bit(board.occupancy, 6));
                        assert(board.piece_list[4] == 5 && bit(board.occupancy_color[0], 4));
                        assert(1u64 << 6 == sq_bb(6));
                        assert forall|t: u64| t < 64 && bit(1u64 << 6, t) implies target_ok(
                            *board,
                            5,
                            4,
                            t as int,
                        ) by {
                            assert(t == 6);
                            assert(!bit(board.occupancy_color[0], 6));
                        }
                    }
                    self.add_move(board, 5, 4, 1u64 << 6, list);
                    proof {
                        lemma_extends_trans(*board, pre, mid, list.moves(), 5);
                    }
                }
            }
            proof {
                assert(list.moves() =~= pre + king_part);
            }
            let ghost queen_part = (if board.castle_rights.0 & 2 != 0 && board.occupancy & (sq_bb(1)
                | sq_bb(2) | sq_bb(3)) == 0 && !crate::movegen::attacked_spec(*board, 1, 4)
                && !crate::movegen::attacked_spec(*board, 1, 3) {
                class_moves(*board, 5, 4, sq_bb(2))
            } else {
                Seq::<Move>::empty()
            });
            if rights & 2 != 0 {
                let blockers: u64 = (1u64 << 1) | (1u64 << 2) | (1u64 << 3);
                if occupancy & blockers == 0 && !self.square_attacked(board, opponent, 4)
                    && !self.square_attacked(board, opponent, 3) {
                    let ghost mid = list.moves();
                    proof {
                        assert(blockers == sq_bb(1) | sq_bb(2) | sq_bb(3));
                        assert(bit(occupancy & blockers, 1) == bit(0u64, 1));
                        assert(bit(occupancy & blockers, 2) == bit(0u64, 2));
                        assert(bit(occupancy & blockers, 3) == bit(0u64, 3));
                        assert(!bit(board.occupancy, 1) && !bit(board.occupancy, 2) && !bit(
                            board.occupancy,
                            3,
                        ));
                        assert(board.piece_list[4] == 5 && bit(board.occupancy_color[0], 4));
                        assert(1u64 << 2 == sq_bb(2));
                        assert forall|t: u64| t < 64 && bit(1u64 << 2, t) implies target_ok(
                            *board,
                            5,
                            4,
                            t as int,
                        ) by {
                            assert(t == 2);
                            assert(!bit(board.occupancy_color[0], 2));
                        }
                    }
                    self.add_move(board, 5, 4, 1u64 << 2, list);
                    proof {
                        lemma_extends_trans(*board, pre, mid, list.moves(), 5);
                    }
                }
            }
            proof {
                assert(list.moves() =~= (pre + king_part) + queen_part);
                assert(castle_moves(*board) == king_part + queen_part);
                assert(list.moves() =~= pre + (king_part + queen_part));
            }
        } else {
            let ghost king_part = (if board.castle_rights.0 & 4 != 0 && board.occupancy & (sq_bb(61)
                | sq_bb(62)) == 0 && !crate::movegen::attacked_spec(*board, 0, 60)
                && !crate::movegen::attacked_spec(*board, 0, 61) {
                class_moves(*board, 5, 60, sq_bb(62))
            } else {
                Seq::<Move>::empty()
            });
            if rights & 4 != 0 {
                let blockers: u64 = (1u64 << 61) | (1u64 << 62);
                if occupancy & blockers == 0 && !self.square_attacked(board, opponent, 60)
                    && !self.square_attacked(board, opponent, 61) {
                    let ghost mid = list.moves();
                    proof {
                        assert(blockers == sq_bb(61) | sq_bb(62));
                        assert(bit(occupancy & blockers, 61) == bit(0u64, 61));
                        assert(bit(occupancy & blockers, 62) == bit(0u64, 62));
                        assert(!bit(board.occupancy, 61) && !bit(board.occupancy, 62));
                        assert(board.piece_list[60] == 5 && bit(board.occupancy_color[1], 60));
                        assert(1u64 << 62 == sq_bb(62));
                        assert forall|t: u64| t < 64 && bit(1u64 << 62, t) implies target_ok(
                            *board,
                            5,
                            60,
                            t as int,
                        ) by {
                            assert(t == 62);
                            assert(!bit(board.occupancy_color[1], 62));
                        }
                    }
                    self.add_move(board, 5, 60, 1u64 << 62, list);
                    proof {
                        lemma_extends_trans(*board, pre, mid, list.moves(), 5);
                    }
                }
            }
            proof {
                assert(list.moves() =~= pre + king_part);
            }
            let ghost queen_part = (if board.castle_rights.0 & 8 != 0 && board.occupancy & (sq_bb(
                57,
            ) | sq_bb(58) | sq_bb(59)) == 0 && !crate::movegen::attacked_spec(*board, 0, 60)
                && !crate::movegen::attacked_spec(*board, 0, 59) {
                class_moves(*board, 5, 60, sq_bb(58))
            } else {
                Seq::<Move>::empty()
            });
            if rights & 8 != 0 {
                let blockers: u64 = (1u64 << 57) | (1u64 << 58) | (1u64 << 59);
                if occupancy & blockers == 0 && !self.square_attacked(board, opponent, 60)
                    && !self.square_attacked(board, opponent, 59) {
                    let ghost mid = list.moves();
                    proof {
                        assert(blockers == sq_bb(57) | sq_bb(58) | sq_bb(59));
                        assert(bit(occupancy & blockers, 57) == bit(0u64, 57));
                        assert(bit(occupancy & blockers, 58) == bit(0u64, 58));
                        assert(bit(occupancy & blockers, 59) == bit(0u64, 59));
                        assert(!bit(board.occupancy, 57) && !bit(board.occupancy, 58) && !bit(
                            board.occupancy,
                            59,
                        ));
                        assert(board.piece_list[60] == 5 && bit(board.occupancy_color[1], 60));
                        assert(1u64 << 58 == sq_bb(58));
                        assert forall|t: u64| t < 64 && bit(1u64 << 58, t) implies target_ok(
                            *board,
                            5,
                            60,
                            t as int,
                        ) by {
                            assert(t == 58);
                            assert(!bit(board.occupancy_color[1], 58));
                        }
                    }
                    self.add_move(board, 5, 60, 1u64 << 58, list);
                    proof {
                        lemma_extends_trans(*board, pre, mid, list.moves(), 5);
                    }
                }
            }
            proof {
                assert(list.moves() =~= (pre + king_part) + queen_part);
                assert(castle_moves(*board) == king_part + queen_part);
                assert(list.moves() =~= pre + (king_part + queen_part));
            }
        }
    }

    /// Turn a from-square and a target bitboard into packed moves on the
    /// list, one per target, expanding pawn moves onto a back rank into the
    /// four promotions. A target still holding a king is dropped: in a
    /// position reachable through the legality gate no such target is ever
    /// generated, and skipping it keeps every emitted move applicable.
    pub fn add_move(
        &self,
        board: &Board,
        piece: Piece,
        from: Square,
        moves: Bitboard,
        list: &mut MoveList,
    )
        requires
            board.inv(),
            piece < 6,
            from < 64,
            board.piece_list[from as int] == piece,
            bit(board.occupancy_color[board.color as int], from as u64),
            forall|t: u64|
                t < 64 && #[trigger] bit(moves, t) ==> target_ok(
                    *board,
                    piece as int,
                    from as int,
                    t as int,
                ),
        ensures
            gen_extends(*board, old(list).moves(), final(list).moves(), piece as int),
            final(list).moves() == old(list).moves() + class_moves(
                *board,
                piece as int,
                from as int,
                moves,
            ),
    {
        proof {
            lemma_bit_auto();
        }
        let ghost orig = moves;
        let mut moves: u64 = moves;
        let color: usize = board.color;
        let is_pawn: bool = piece == 0;
        let promotion_rank: usize = if color == 0 {
            7
        } else {
            0
        };
        let ghost pre = list.moves();
        proof {
            lemma_extends_refl(*board, pre, piece as int);
            assert(pre + class_moves(*board, piece as int, from as int, orig) =~= list.moves()
                + class_moves(*board, piece as int, from as int, moves));
        }
        while moves > 0
            invariant
                board.inv(),
                piece < 6,
                from < 64,
                color == board.color,
                is_pawn == (piece == 0),
                promotion_rank == (if color == 0 {
                    7int
                } else {
                    0int
                }),
                board.piece_list[from as int] == piece,
                bit(board.occupancy_color[board.color as int], from as u64),
                forall|t: u64|
                    t < 64 && #[trigger] bit(moves, t) ==> target_ok(
                        *board,
                        piece as int,
                        from as int,
                        t as int,
                    ),
                gen_extends(*board, pre, list.moves(), piece as int),
                pre + class_moves(*board, piece as int, from as int, orig) == list.moves()
                    + class_moves(*board, piece as int, from as int, moves),
            decreases moves,
        {
            let ghost moves_before = moves;
            let to: Square = moves.pop_lsb();
            proof {
                assert(target_ok(*board, piece as int, from as int, to as int));
                lemma_bit_auto();
                assert(class_moves(*board, piece as int, from as int, moves_before)
                    == target_moves(*board, piece as int, from as int, to as int) + class_moves(
                    *board,
                    piece as int,
                    from as int,
                    moves,
                ));
            }
            let ghost tmoves = target_moves(*board, piece as int, from as int, to as int);
            let capture: usize = board.piece_list[to];
            if capture != 5 {
                let en_passant: bool = match board.en_passant {
                    Some(ep) => is_pawn && ep == to,
                    None => false,
                };
                let promotion: bool = is_pawn && to / 8 == promotion_rank;
                let two_step: bool = is_pawn && (if to >= from {
                    to - from == 16
                } else {
                    from - to == 16
                });
                let castling: bool = piece == 5 && (if to >= from {
                    to - from == 2
                } else {
                    from - to == 2
                });
                if !promotion {
                    let data: u64 = (piece as u64) | ((from as u64) << 3) | ((to as u64) << 9) | ((
                    capture as u64) << 15) | (6u64 << 18) | (if en_passant {
                        1u64 << 21
                    } else {
                        0u64
                    }) | (if two_step {
                        1u64 << 22
                    } else {
                        0u64
                    }) | (if castling {
                        1u64 << 23
                    } else {
                        0u64
                    });
                    let m: Move = Move::new(data);
                    proof {
                        assert(data == mv_encode(
                            piece as u64,
                            from as u64,
                            to as u64,
                            capture as u64,
                            6u64,
                            en_passant,
                            two_step,
                            castling,
                        ));
                        lemma_mv_roundtrip(
                            piece as u64,
                            from as u64,
                            to as u64,
                            capture as u64,
                            6u64,
                            en_passant,
                            two_step,
                            castling,
                        );
                        assert(move_ok(*board, m));
                        assert(tmoves =~= seq![m]);
                    }
                    let ghost mid = list.moves();
                    list.push(m);
                    proof {
                        lemma_push_extends(*board, pre, mid, m, piece as int);
                        assert(mid + (tmoves + class_moves(
                            *board,
                            piece as int,
                            from as int,
                            moves,
                        )) =~= list.moves() + class_moves(*board, piece as int, from as int, moves));
                    }
                } else {
                    let ghost mid0 = list.moves();
                    let mut promoted: usize = 1;
                    while promoted < 5
                        invariant
                            1 <= promoted <= 5,
                            board.inv(),
                            piece == 0,
                            is_pawn,
                            from < 64,
                            to < 64,
                            color == board.color,
                            promotion_rank == (if color == 0 {
                                7int
                            } else {
                                0int
                            }),
                            to as int / 8 == promotion_rank,
                            capture == board.piece_list[to as int],
                            capture != 5,
                            board.piece_list[from as int] == piece,
                            bit(board.occupancy_color[board.color as int], from as u64),
                            target_ok(*board, piece as int, from as int, to as int),
                            en_passant == (match board.en_passant {
                                Some(ep) => ep == to,
                                None => false,
                            }),
                            two_step == false || (two_step && (to as int == from as int + 16 || to
                                as int + 16 == from as int)),
                            two_step ==> target_ok(*board, 0, from as int, to as int),
                            castling == false,
                            tmoves == target_moves(*board, piece as int, from as int, to as int),
                            tmoves.len() == 4,
                            gen_extends(*board, pre, list.moves(), piece as int),
                            list.moves() == mid0 + tmoves.subrange(0, promoted - 1),
                        decreases 5 - promoted,
                    {
                        let data: u64 = (piece as u64) | ((from as u64) << 3) | ((to as u64) << 9)
                            | ((capture as u64) << 15) | ((promoted as u64) << 18) | (
                        if en_passant {
                            1u64 << 21
                        } else {
                            0u64
                        }) | (if two_step {
                            1u64 << 22
                        } else {
                            0u64
                        }) | 0u64;
                        let m: Move = Move::new(data);
                        proof {
                            lemma_bit_auto();
                            assert(data == mv_encode(
                                piece as u64,
                                from as u64,
                                to as u64,
                                capture as u64,
                                promoted as u64,
                                en_passant,
                                two_step,
                                false,
                            ));
                            lemma_mv_roundtrip(
                                piece as u64,
                                from as u64,
                                to as u64,
                                capture as u64,
                                promoted as u64,
                                en_passant,
                                two_step,
                                false,
                            );
                            assert(move_ok(*board, m));
                            assert(tmoves[promoted - 1] == m);
                        }
                        let ghost mid = list.moves();
                        list.push(m);
                        proof {
                            lemma_push_extends(*board, pre, mid, m, piece as int);
                            assert(list.moves() =~= mid0 + tmoves.subrange(0, promoted as int));
                        }
                        promoted = promoted + 1;
                    }
                    proof {
                        assert(tmoves.subrange(0, 4) =~= tmoves);
                        assert(mid0 + (tmoves + class_moves(
                            *board,
                            piece as int,
                            from as int,
                            moves,
                        )) =~= list.moves() + class_moves(*board, piece as int, from as int, moves));
                    }
                }
            } else {
                proof {
                    assert(tmoves =~= Seq::<Move>::empty());
                    assert(list.moves() + (tmoves + class_moves(
                        *board,
                        piece as int,
                        from as int,
                        moves,
                    )) =~= list.moves() + class_moves(*board, piece as int, from as int, moves));
                }
            }
        }
        proof {
            assert(class_moves(*board, piece as int, from as int, 0u64) =~= Seq::<Move>::empty());
            assert(list.moves() + class_moves(*board, piece as int, from as int, 0u64)
                =~= list.moves());
            assert(final(list).moves() =~= pre + class_moves(
                *board,
                piece as int,
                from as int,
                orig,
            ));
        }
    }
}

/// A list extends itself by nothing.
proof fn lemma_extends_refl(b: Board, s: Seq<Move>, piece: int)
    ensures
        gen_extends(b, s, s, piece),
{
    assert(s.subrange(0, s.len() as int) =~= s);
}

/// Extending an extension is an extension.
proof fn lemma_extends_trans(b: Board, pre: Seq<Move>, mid: Seq<Move>, post: Seq<Move>, piece: int)
    requires
        gen_extends(b, pre, mid, piece),
        gen_extends(b, mid, post, piece),
    ensures
        gen_extends(b, pre, post, piece),
{
    assert forall|i: int| 0 <= i < pre.len() implies post[i] == pre[i] by {
        assert(mid.subrange(0, pre.len() as int)[i] == mid[i]);
        assert(post.subrange(0, mid.len() as int)[i] == post[i]);
    }
    assert(post.subrange(0, pre.len() as int) =~= pre);
    assert forall|k: int| pre.len() <= k < post.len() implies move_ok(b, #[trigger] post[k])
        && mv_piece(post[k]) == piece by {
        if k < mid.len() {
            assert(post.subrange(0, mid.len() as int)[k] == post[k]);
            assert(mid[k] == post[k]);
        }
    }
}

/// Pushing one well-formed move keeps the extension.
proof fn lemma_push_extends(b: Board, pre: Seq<Move>, mid: Seq<Move>, m: Move, piece: int)
    requires
        gen_extends(b, pre, mid, piece),
        move_ok(b, m),
        mv_piece(m) == piece,
    ensures
        gen_extends(b, pre, mid.push(m), piece),
{
    assert forall|i: int| 0 <= i < pre.len() implies mid.push(m)[i] == pre[i] by {
        assert(mid.subrange(0, pre.len() as int)[i] == mid[i]);
    }
    assert(mid.push(m).subrange(0, pre.len() as int) =~= pre);
}

} // verus!
