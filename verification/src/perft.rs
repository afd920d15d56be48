//! The perft driver: exhaustively walk the legal move tree to a fixed depth
//! and count the leaves, optionally consulting a transposition table. With
//! the table disabled the result is exactly the leaf count of the legal move
//! tree (saturating at the machine limit); however the walk went, the
//! position comes back exactly as it was.

use vstd::prelude::*;
use crate::Chess;
use crate::board::Board;
use crate::move_list::MoveList;
use crate::movegen::attacked_spec;
use crate::movegen_gen::pseudo_legal_moves;
use crate::piece_move::Move;
use crate::playmove::board_after_make;
use crate::playmove::king_sq;
use crate::transposition::PerftData;
use crate::transposition::TranspositionTable;

verus! {

/// Is `m` legal on `b`: applying it must not leave the mover's own king
/// attacked.
pub open spec fn legal_move(b: Board, m: Move) -> bool {
    !attacked_spec(
        board_after_make(b, m),
        1 - b.color as int,
        king_sq(board_after_make(b, m), b.color as int),
    )
}

/// The leaf count of the legal move tree `depth` plies below `b`: one leaf
/// at depth zero, else the sum over the legal pseudo-legal moves of the count
/// one ply down.
pub open spec fn perft_count(b: Board, depth: nat) -> nat
    decreases depth, 1int, 0int,
{
    if depth == 0 {
        1nat
    } else {
        perft_list_count(b, pseudo_legal_moves(b), depth)
    }
}

/// The leaf counts of a move list's legal moves summed, front to back.
pub open spec fn perft_list_count(b: Board, s: Seq<Move>, depth: nat) -> nat
    decreases depth, 0int, s.len(),
    when depth >= 1
{
    if s.len() == 0 {
        0nat
    } else {
        (if legal_move(b, s[0]) {
            perft_count(board_after_make(b, s[0]), (depth - 1) as nat)
        } else {
            0nat
        }) + perft_list_count(b, s.drop_first(), depth)
    }
}

/// A tree count clamped to what the machine word can report.
pub open spec fn sat_count(n: nat) -> usize {
    if n > usize::MAX {
        usize::MAX
    } else {
        n as usize
    }
}

/// Appending one move adds exactly its subtree count.
proof fn lemma_perft_list_push(b: Board, s: Seq<Move>, m: Move, depth: nat)
    requires
        depth >= 1,
    ensures
        perft_list_count(b, s.push(m), depth) == perft_list_count(b, s, depth) + (if legal_move(
            b,
            m,
        ) {
            perft_count(board_after_make(b, m), (depth - 1) as nat)
        } else {
            0nat
        }),
    decreases s.len(),
{
    if s.len() == 0 {
        assert(s.push(m)[0] == m);
        assert(s.push(m).drop_first() =~= s);
    } else {
        assert(s.push(m)[0] == s[0]);
        assert(s.push(m).drop_first() =~= s.drop_first().push(m));
        lemma_perft_list_push(b, s.drop_first(), m, depth);
    }
}

/// Saturating addition of two clamped counts clamps their true sum.
proof fn lemma_sat_add(a: nat, c: nat, x: usize, y: usize)
    requires
        x == sat_count(a),
        y == sat_count(c),
    ensures
        (if x > usize::MAX - y {
            usize::MAX
        } else {
            (x + y) as usize
        }) == sat_count(a + c),
{
}

impl Chess {
    /// Count the leaves of the legal move tree `depth` plies below the
    /// current position, depth first: play each pseudo-legal move, skip the
    /// illegal ones, recurse, and take everything back. With the table
    /// disabled the result is exactly the tree's leaf count, saturating at
    /// the machine limit, and the table is untouched; with it enabled,
    /// subtrees already cached at exactly this depth are reused and fresh
    /// counts are stored. The position and the history are restored exactly.
    pub fn perft_driver(
        &mut self,
        depth: u8,
        tt: &mut TranspositionTable,
        tt_enabled: bool,
    ) -> (nodes: usize)
        requires
            old(self).wf(),
        ensures
            final(self).wf(),
            final(self).board == old(self).board,
            final(self).history@ == old(self).history@,
            final(self).hist_boards@ == old(self).hist_boards@,
            final(self).move_gen == old(self).move_gen,
            !tt_enabled ==> *final(tt) == *old(tt),
            !tt_enabled ==> nodes == sat_count(perft_count(old(self).board, depth as nat)),
            tt_enabled ==> final(tt).entries@.len() == old(tt).entries@.len(),
        decreases depth, 1int,
    {
        if depth == 0 {
            return 1;
        }
        if tt_enabled {
            match tt.get(self.board.hash) {
                Some(data) => {
                    if data.depth == depth {
                        return data.nodes();
                    }
                },
                None => {
                },
            }
        }
        let list: MoveList = self.generate_moves();
        let nodes: usize = self.perft_moves(depth, &list, tt, tt_enabled);
        if tt_enabled {
            tt.insert(self.board.hash, PerftData::new(depth, nodes));
        }
        nodes
    }

    /// Walk one move list at the current position, summing the subtree
    /// counts of the legal moves. Counts saturate at the machine limit.
    fn perft_moves(
        &mut self,
        depth: u8,
        list: &MoveList,
        tt: &mut TranspositionTable,
        tt_enabled: bool,
    ) -> (nodes: usize)
        requires
            old(self).wf(),
            depth >= 1,
            crate::all_moves_ok(old(self).board, list.moves()),
        ensures
            final(self).wf(),
            final(self).board == old(self).board,
            final(self).history@ == old(self).history@,
            final(self).hist_boards@ == old(self).hist_boards@,
            final(self).move_gen == old(self).move_gen,
            !tt_enabled ==> *final(tt) == *old(tt),
            !tt_enabled ==> nodes == sat_count(
                perft_list_count(old(self).board, list.moves(), depth as nat),
            ),
            tt_enabled ==> final(tt).entries@.len() == old(tt).entries@.len(),
        decreases depth, 0int,
    {
        let mut nodes: usize = 0;
        let mut i: usize = 0;
        let len: usize = list.len();
        proof {
            assert(list.moves().subrange(0, 0) =~= Seq::<Move>::empty());
        }
        while i < len
            invariant
                i <= len,
                len == list.moves().len(),
                depth >= 1,
                self.wf(),
                self.board == old(self).board,
                self.history@ == old(self).history@,
                self.hist_boards@ == old(self).hist_boards@,
                self.move_gen == old(self).move_gen,
                crate::all_moves_ok(old(self).board, list.moves()),
                !tt_enabled ==> *tt == *old(tt),
                !tt_enabled ==> nodes == sat_count(
                    perft_list_count(
                        old(self).board,
                        list.moves().subrange(0, i as int),
                        depth as nat,
                    ),
                ),
                tt_enabled ==> tt.entries@.len() == old(tt).entries@.len(),
            decreases len - i,
        {
            let ghost prefix = list.moves().subrange(0, i as int);
            let ghost sum = perft_list_count(old(self).board, prefix, depth as nat);
            let m: Move = list.get(i);
            proof {
                assert(list.moves().subrange(0, i + 1) =~= prefix.push(m));
                lemma_perft_list_push(old(self).board, prefix, m, depth as nat);
            }
            if self.play_move(m) {
                let move_nodes: usize = self.perft_driver(depth - 1, tt, tt_enabled);
                self.undo_move();
                proof {
                    assert(old(self).hist_boards@.push(old(self).board).drop_last() =~= old(
                        self,
                    ).hist_boards@);
                    assert(old(self).history@.push(
                        crate::history::snap_of(old(self).board, m),
                    ).drop_last() =~= old(self).history@);
                    if !tt_enabled {
                        lemma_sat_add(
                            perft_list_count(old(self).board, prefix, depth as nat),
                            perft_count(
                                board_after_make(old(self).board, m),
                                (depth - 1) as nat,
                            ),
                            nodes,
                            move_nodes,
                        );
                    }
                }
                nodes = if nodes > usize::MAX - move_nodes {
                    usize::MAX
                } else {
                    nodes + move_nodes
                };
            }
            i = i + 1;
        }
        proof {
            assert(list.moves().subrange(0, len as int) =~= list.moves());
        }
        nodes
    }
}

} // verus!
