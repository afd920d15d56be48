//! A verified chess move-generation and perft core.
//!
//! The board is a set of 64-bit piece bitboards kept in exact agreement with a
//! square-to-piece lookup array; sliding-piece attacks come from perfect-hash
//! (magic) tables proved equal to a brute-force ray cast; moves are applied and
//! reverted in place with an incrementally maintained Zobrist hash proved equal
//! to a from-scratch recomputation.

pub mod bitboard;
pub mod board;
pub mod castle;
pub mod color;
pub mod direction;
pub mod display;
pub mod error;
pub mod fen;
pub mod file_rank;
pub mod history;
pub mod magic;
pub mod masks;
pub mod move_list;
pub mod movegen;
pub mod movegen_gen;
pub mod movegen_init;
pub mod perft;
pub mod piece;
pub mod piece_move;
pub mod playmove;
pub mod square;
pub mod transposition;
pub mod zobrist;

use vstd::prelude::*;
use crate::board::Board;
use crate::error::Error;
use crate::history::OldState;
use crate::history::snap_of;
use crate::move_list::MoveList;
use crate::movegen::MoveGen;
use crate::movegen_gen::gen_extends;
use crate::movegen_gen::move_ok;
use crate::piece_move::Move;
use crate::playmove::board_after_make;

verus! {

/// A full game state: the position, the shared read-only generator tables,
/// and the history stack of applied moves.
#[derive(Clone)]
pub struct Chess {
    pub board: Board,
    pub move_gen: MoveGen,
    pub history: Vec<OldState>,
    /// The boards the applied moves were made from, oldest first: the ghost
    /// record that lets unmake promise bit-for-bit restoration.
    pub hist_boards: Ghost<Seq<Board>>,
}

/// Every move of a list is well-formed for the board.
pub open spec fn all_moves_ok(b: Board, s: Seq<Move>) -> bool {
    forall|k: int| 0 <= k < s.len() ==> move_ok(b, #[trigger] s[k])
}

/// Extending a list of well-formed moves with well-formed moves keeps every
/// move well-formed.
proof fn lemma_extend_all_ok(b: Board, pre: Seq<Move>, post: Seq<Move>, piece: int)
    requires
        all_moves_ok(b, pre),
        gen_extends(b, pre, post, piece),
    ensures
        all_moves_ok(b, post),
{
    assert forall|k: int| 0 <= k < post.len() implies move_ok(b, #[trigger] post[k]) by {
        if k < pre.len() {
            assert(post.subrange(0, pre.len() as int)[k] == post[k]);
        }
    }
}

impl Chess {
    /// One history level is coherent: its snapshot was taken from the
    /// recorded prior board, the move was well-formed there, and applying it
    /// yields the next recorded board (the current one at the top).
    pub open spec fn chain_at(&self, i: int) -> bool {
        let prior = self.hist_boards@[i];
        let st = self.history@[i];
        let nxt = if i + 1 < self.history@.len() {
            self.hist_boards@[i + 1]
        } else {
            self.board
        };
        &&& prior.inv()
        &&& move_ok(prior, st.move_made)
        &&& st == snap_of(prior, st.move_made)
        &&& nxt == board_after_make(prior, st.move_made)
    }

    /// The game state is well-formed: the position and the tables satisfy
    /// their invariants and the history chain is coherent, so every applied
    /// move can be reverted exactly.
    pub open spec fn wf(&self) -> bool {
        &&& self.board.inv()
        &&& self.move_gen.inv()
        &&& self.hist_boards@.len() == self.history@.len()
        &&& forall|i: int| 0 <= i < self.history@.len() ==> #[trigger] self.chain_at(i)
    }

    /// A game from a placement description, with freshly built tables.
    pub fn from_fen(fen: &str) -> (r: Result<Chess, Error>)
        ensures
            (r matches Ok(c) ==> c.wf() && c.history@.len() == 0),
    {
        let board: Board = match crate::fen::from_fen(fen) {
            Ok(b) => b,
            Err(e) => {
                return Err(e);
            },
        };
        let move_gen: MoveGen = match MoveGen::new() {
            Some(mg) => mg,
            None => {
                return Err(Error::MagicCollision);
            },
        };
        Ok(Chess { board, move_gen, history: Vec::new(), hist_boards: Ghost(Seq::empty()) })
    }

    /// A game from the standard starting position, its placement pinned.
    /// `None` only when the magic tables cannot be built, which would mean
    /// the shipped constants are wrong.
    pub fn new() -> (r: Option<Chess>)
        ensures
            (r matches Some(c) ==> c.wf() && c.history@.len() == 0 && c.board.occupancy
                == 0xffff_0000_0000_ffffu64 && c.board.occupancy_color@[0] == 0xffffu64
                && c.board.occupancy_color@[1] == 0xffff_0000_0000_0000u64
                && c.board.castle_rights.0 == 15 && c.board.color == 0 && c.board.en_passant
                is None && c.board.halfmove_clock == 0 && c.board.fullmove_number == 1),
    {
        let board: Board = crate::fen::start_board();
        let move_gen: MoveGen = match MoveGen::new() {
            Some(mg) => mg,
            None => {
                return None;
            },
        };
        Some(Chess { board, move_gen, history: Vec::new(), hist_boards: Ghost(Seq::empty()) })
    }

    /// All pseudo-legal moves of the side to move: exactly the king, queen,
    /// rook, bishop, knight, pawn and castling moves the design describes, in
    /// that class order, every one well-formed for the current board.
    pub fn generate_moves(&self) -> (r: MoveList)
        requires
            self.wf(),
        ensures
            all_moves_ok(self.board, r.moves()),
            r.moves() == crate::movegen_gen::pseudo_legal_moves(self.board),
    {
        let mut list: MoveList = MoveList::new();
        let ghost s0 = list.moves();
        self.move_gen.king(&self.board, &mut list);
        proof {
            lemma_extend_all_ok(self.board, s0, list.moves(), 5);
        }
        let ghost s1 = list.moves();
        self.move_gen.queens(&self.board, &mut list);
        proof {
            lemma_extend_all_ok(self.board, s1, list.moves(), 4);
        }
        let ghost s2 = list.moves();
        self.move_gen.rooks(&self.board, &mut list);
        proof {
            lemma_extend_all_ok(self.board, s2, list.moves(), 3);
        }
        let ghost s3 = list.moves();
        self.move_gen.bishops(&self.board, &mut list);
        proof {
            lemma_extend_all_ok(self.board, s3, list.moves(), 2);
        }
        let ghost s4 = list.moves();
        self.move_gen.knights(&self.board, &mut list);
        proof {
            lemma_extend_all_ok(self.board, s4, list.moves(), 1);
        }
        let ghost s5 = list.moves();
        self.move_gen.pawns(&self.board, &mut list);
        proof {
            lemma_extend_all_ok(self.board, s5, list.moves(), 0);
        }
        let ghost s6 = list.moves();
        self.move_gen.castling(&self.board, &mut list);
        proof {
            lemma_extend_all_ok(self.board, s6, list.moves(), 5);
            assert(s0 =~= Seq::<Move>::empty());
            assert(s1 =~= s0 + crate::movegen_gen::king_moves(self.board));
            assert(s1 =~= crate::movegen_gen::king_moves(self.board));
            assert(list.moves() =~= crate::movegen_gen::pseudo_legal_moves(self.board));
        }
        list
    }
}

} // verus!
