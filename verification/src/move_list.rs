//! A caller-owned list the generator appends pseudo-legal moves to.

use vstd::prelude::*;
use crate::piece_move::Move;

verus! {

/// The list of moves generated for one position.
#[derive(Clone)]
pub struct MoveList {
    pub list: Vec<Move>,
}

impl MoveList {
    /// The moves as a sequence, in generation order.
    pub open spec fn moves(&self) -> Seq<Move> {
        self.list@
    }

    /// An empty list.
    pub fn new() -> (r: Self)
        ensures
            r.moves() == Seq::<Move>::empty(),
    {
        MoveList { list: Vec::new() }
    }

    /// Append one move.
    pub fn push(&mut self, m: Move)
        ensures
            final(self).moves() == old(self).moves().push(m),
    {
        self.list.push(m);
    }

    /// How many moves the list holds.
    pub fn len(&self) -> (r: usize)
        ensures
            r == self.moves().len(),
    {
        self.list.len()
    }

    /// The move at an index.
    pub fn get(&self, i: usize) -> (r: Move)
        requires
            i < self.moves().len(),
        ensures
            r == self.moves()[i as int],
    {
        self.list[i]
    }

    /// A copy of the moves, for callers that want to walk them on their own.
    pub fn iter(&self) -> (r: Vec<Move>)
        ensures
            r@ == self.moves(),
    {
        let mut v: Vec<Move> = Vec::new();
        let mut i: usize = 0;
        while i < self.list.len()
            invariant
                i <= self.list.len(),
                v@ == self.list@.subrange(0, i as int),
            decreases self.list.len() - i,
        {
            v.push(self.list[i]);
            i = i + 1;
        }
        proof {
            assert(v@ =~= self.moves());
        }
        v
    }

    /// The list cut into chunks of exactly `chunk_size` moves, except that
    /// the last chunk holds whatever remains; every chunk is nonempty. Joined
    /// back together, the chunks are exactly the list: the total over any
    /// per-move counts is the same whether the chunks are walked by one
    /// worker or many.
    pub fn chunks(&self, chunk_size: usize) -> (r: Vec<Vec<Move>>)
        requires
            chunk_size > 0,
        ensures
            r@.map_values(|v: Vec<Move>| v@).flatten() == self.moves(),
            forall|k: int| 0 <= k < r@.len() ==> #[trigger] r@[k]@.len() <= chunk_size,
            forall|k: int| 0 <= k < r@.len() ==> #[trigger] r@[k]@.len() >= 1,
            forall|k: int| 0 <= k < r@.len() - 1 ==> #[trigger] r@[k]@.len() == chunk_size,
    {
        let mut r: Vec<Vec<Move>> = Vec::new();
        let mut i: usize = 0;
        proof {
            broadcast use vstd::seq_lib::group_seq_properties;

            assert(r@.map_values(|v: Vec<Move>| v@).flatten() =~= self.moves().subrange(0, 0));
        }
        while i < self.list.len()
            invariant
                i <= self.list.len(),
                i == 0 ==> r@.len() == 0,
                r@.map_values(|v: Vec<Move>| v@).flatten() == self.moves().subrange(0, i as int),
                forall|k: int| 0 <= k < r@.len() ==> #[trigger] r@[k]@.len() <= chunk_size,
                forall|k: int| 0 <= k < r@.len() ==> #[trigger] r@[k]@.len() >= 1,
                forall|k: int|
                    0 <= k < r@.len() ==> #[trigger] r@[k]@.len() == chunk_size || (k == r@.len()
                        - 1 && i == self.list@.len()),
                chunk_size > 0,
            decreases self.list.len() - i,
        {
            let mut chunk: Vec<Move> = Vec::new();
            let mut j: usize = 0;
            let ghost start = i as int;
            while j < chunk_size && i < self.list.len()
                invariant
                    j <= chunk_size,
                    0 <= start <= i <= self.list.len(),
                    i == start + j,
                    chunk@ == self.list@.subrange(start, i as int),
                decreases chunk_size - j,
            {
                let m: Move = self.list[i];
                chunk.push(m);
                proof {
                    assert(chunk@ =~= self.list@.subrange(start, i + 1));
                }
                i = i + 1;
                j = j + 1;
            }
            proof {
                let prev = r@.map_values(|v: Vec<Move>| v@);
                Seq::lemma_flatten_push(prev, chunk@);
                assert(r@.push(chunk).map_values(|v: Vec<Move>| v@) =~= prev.push(chunk@));
                assert(prev.flatten() + chunk@ =~= self.moves().subrange(0, i as int));
            }
            r.push(chunk);
        }
        proof {
            assert(self.moves().subrange(0, self.moves().len() as int) =~= self.moves());
        }
        r
    }
}

/// The total of a sequence of counts.
pub open spec fn count_sum(s: Seq<nat>) -> nat
    decreases s.len(),
{
    if s.len() == 0 {
        0nat
    } else {
        count_sum(s.drop_last()) + s.last()
    }
}

/// Totals add over concatenation.
pub proof fn lemma_count_sum_concat(a: Seq<nat>, b: Seq<nat>)
    ensures
        count_sum(a + b) == count_sum(a) + count_sum(b),
    decreases b.len(),
{
    if b.len() == 0 {
        assert(a + b =~= a);
    } else {
        assert((a + b).drop_last() =~= a + b.drop_last());
        assert((a + b).last() == b.last());
        lemma_count_sum_concat(a, b.drop_last());
    }
}

/// However a list of per-move counts is cut into chunks, the per-chunk
/// totals sum to the whole list's total: the aggregate leaf count of a perft
/// run is a pure sum, independent of how the root moves are split across
/// workers and of the order the workers finish in.
pub proof fn lemma_chunk_sum(chunks: Seq<Seq<nat>>, whole: Seq<nat>)
    requires
        chunks.flatten() == whole,
    ensures
        count_sum(chunks.map_values(|c: Seq<nat>| count_sum(c))) == count_sum(whole),
    decreases chunks.len(),
{
    let totals = chunks.map_values(|c: Seq<nat>| count_sum(c));
    if chunks.len() == 0 {
        assert(whole =~= Seq::<nat>::empty());
        assert(totals =~= Seq::<nat>::empty());
    } else {
        let rest = chunks.drop_first();
        let rest_totals = rest.map_values(|c: Seq<nat>| count_sum(c));
        lemma_chunk_sum(rest, rest.flatten());
        assert(whole == chunks.first() + rest.flatten());
        lemma_count_sum_concat(chunks.first(), rest.flatten());
        let single = seq![count_sum(chunks.first())];
        assert(totals =~= single + rest_totals);
        lemma_count_sum_concat(single, rest_totals);
        assert(single.drop_last() =~= Seq::<nat>::empty());
        assert(count_sum(single.drop_last()) == 0);
        assert(count_sum(single) == count_sum(chunks.first()));
    }
}

} // verus!
