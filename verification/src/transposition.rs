//! The transposition table: a fixed-capacity cache from position hash to
//! perft results, with fixed-associativity buckets. The bucket index comes
//! from the hash's high bits and a verification tag from its low bits, so an
//! index collision between unrelated positions reads as a tag mismatch and
//! falls through to recomputation.

use vstd::prelude::*;
use crate::zobrist::ZobristHash;

verus! {

/// How many entries one bucket holds.
pub const ENTRIES_PER_BUCKET: usize = 4;

/// The bytes one bucket occupies; the capacity is a byte budget divided by
/// this entry size.
pub const BUCKET_BYTES: usize = 96;

/// Read back the depth a cached value was computed at.
pub trait Depth {
    fn depth(&self) -> u8;
}

/// A perft result: the node count beneath a position at a given depth.
#[derive(Clone, Copy, PartialEq, Eq, Structural, Debug)]
pub struct PerftData {
    pub depth: u8,
    pub nodes: usize,
}

impl PerftData {
    /// A result for `depth` with `nodes` leaves beneath it.
    pub fn new(depth: u8, nodes: usize) -> (r: Self)
        ensures
            r.depth == depth,
            r.nodes == nodes,
    {
        Self { depth, nodes }
    }

    /// The stored node count.
    pub fn nodes(&self) -> (r: usize)
        ensures
            r == self.nodes,
    {
        self.nodes
    }
}

impl Depth for PerftData {
    fn depth(&self) -> (r: u8)
        ensures
            r == self.depth,
    {
        self.depth
    }
}

/// One cached value with its verification tag.
#[derive(Clone, Copy, PartialEq, Eq, Structural, Debug)]
pub struct Entry {
    pub data: PerftData,
    pub verification: u32,
}

/// A fixed-associativity bucket of four entries.
#[derive(Clone, Copy, Debug)]
pub struct Bucket(pub [Entry; 4]);

/// The slot an insertion replaces: the first entry whose stored depth is the
/// bucket's minimum, so the shallowest cached result is the one evicted.
pub open spec fn victim_index(b: Bucket) -> int {
    if b.0[0].data.depth <= b.0[1].data.depth && b.0[0].data.depth <= b.0[2].data.depth
        && b.0[0].data.depth <= b.0[3].data.depth {
        0int
    } else if b.0[1].data.depth <= b.0[2].data.depth && b.0[1].data.depth <= b.0[3].data.depth {
        1int
    } else if b.0[2].data.depth <= b.0[3].data.depth {
        2int
    } else {
        3int
    }
}

/// The first entry matching a verification tag, or 4 if none does.
pub open spec fn find_index(b: Bucket, verification: u32) -> int {
    if b.0[0].verification == verification {
        0int
    } else if b.0[1].verification == verification {
        1int
    } else if b.0[2].verification == verification {
        2int
    } else if b.0[3].verification == verification {
        3int
    } else {
        4int
    }
}

impl Bucket {
    /// A bucket of empty entries.
    pub fn empty() -> (r: Bucket)
        ensures
            forall|i: int| 0 <= i < 4 ==> #[trigger] r.0[i] == (Entry {
                data: PerftData { depth: 0, nodes: 0 },
                verification: 0,
            }),
    {
        Bucket(
            [Entry { data: PerftData { depth: 0, nodes: 0 }, verification: 0 };4],
        )
    }

    /// Store a value, evicting the entry with the lowest stored depth (the
    /// first such entry when several share it).
    pub fn insert(&mut self, verification: u32, data: PerftData)
        ensures
            final(self).0@ == old(self).0@.update(
                victim_index(*old(self)),
                Entry { data, verification },
            ),
    {
        let mut idx_lowest_depth: usize = 0;
        let mut idx: usize = 1;
        while idx < 4
            invariant
                1 <= idx <= 4,
                idx_lowest_depth < idx,
                forall|k: int| 0 <= k < idx ==> self.0[idx_lowest_depth as int].data.depth
                    <= #[trigger] self.0[k].data.depth,
                forall|k: int| 0 <= k < idx_lowest_depth ==> self.0[
                    idx_lowest_depth as int
                ].data.depth < #[trigger] self.0[k].data.depth,
            decreases 4 - idx,
        {
            if self.0[idx].data.depth() < self.0[idx_lowest_depth].data.depth() {
                idx_lowest_depth = idx;
            }
            idx = idx + 1;
        }
        proof {
            assert(idx_lowest_depth == victim_index(*self));
        }
        self.0[idx_lowest_depth] = Entry { data, verification };
        proof {
            assert(final(self).0@ =~= old(self).0@.update(
                victim_index(*old(self)),
                Entry { data, verification },
            ));
        }
    }

    /// The value stored under a verification tag, if any entry carries it.
    pub fn get(&self, verification: u32) -> (r: Option<PerftData>)
        ensures
            find_index(*self, verification) < 4 ==> r == Some(
                self.0[find_index(*self, verification)].data,
            ),
            find_index(*self, verification) == 4 ==> r is None,
    {
        let mut idx: usize = 0;
        while idx < 4
            invariant
                idx <= 4,
                forall|i: int| 0 <= i < idx ==> #[trigger] self.0[i].verification != verification,
            decreases 4 - idx,
        {
            if self.0[idx].verification == verification {
                return Some(self.0[idx].data);
            }
            idx = idx + 1;
        }
        None
    }
}

/// The fixed-capacity cache: a vector of buckets indexed by the hash's high
/// bits.
pub struct TranspositionTable {
    pub entries: Vec<Bucket>,
}

impl TranspositionTable {
    /// An empty table: nothing is ever cached and every probe misses.
    pub fn empty() -> (r: Self)
        ensures
            r.entries@.len() == 0,
    {
        Self { entries: Vec::new() }
    }

    /// A table whose capacity is the byte budget divided by the bucket size,
    /// every bucket starting out empty; it never grows afterwards.
    pub fn new(bytes: usize) -> (r: Self)
        ensures
            r.entries@.len() == bytes / 96,
            forall|k: int, i: int|
                0 <= k < r.entries@.len() && 0 <= i < 4 ==> #[trigger] r.entries@[k].0[i] == (Entry {
                    data: PerftData { depth: 0, nodes: 0 },
                    verification: 0,
                }),
    {
        let total_buckets: usize = bytes / BUCKET_BYTES;
        let mut entries: Vec<Bucket> = Vec::new();
        let mut i: usize = 0;
        while i < total_buckets
            invariant
                i <= total_buckets,
                entries@.len() == i,
                forall|k: int, j: int|
                    0 <= k < i && 0 <= j < 4 ==> #[trigger] entries@[k].0[j] == (Entry {
                        data: PerftData { depth: 0, nodes: 0 },
                        verification: 0,
                    }),
            decreases total_buckets - i,
        {
            entries.push(Bucket::empty());
            i = i + 1;
        }
        Self { entries }
    }

    /// The bucket index of a hash: its high 32 bits, modulo the capacity.
    pub fn calculate_index(&self, hash: ZobristHash) -> (r: usize)
        requires
            self.entries@.len() > 0,
        ensures
            r == (hash >> 32) as int % self.entries@.len() as int,
            r < self.entries@.len(),
    {
        let key: u64 = (hash & 0xffff_ffff_0000_0000u64) >> 32;
        proof {
            assert((hash & 0xffff_ffff_0000_0000u64) >> 32 == hash >> 32) by (bit_vector);
        }
        let total: u64 = self.entries.len() as u64;
        ((key % total) as usize)
    }

    /// The verification tag of a hash: its low 32 bits.
    pub fn calculate_verification(&self, hash: ZobristHash) -> (r: u32)
        ensures
            r == hash as u32,
    {
        proof {
            assert((hash & 0x0000_0000_ffff_ffffu64) as u32 == hash as u32) by (bit_vector);
        }
        (hash & 0x0000_0000_ffff_ffffu64) as u32
    }

    /// Cache a value under a hash: it lands in the hash's bucket, evicting
    /// the shallowest entry. On an empty table this does nothing.
    pub fn insert(&mut self, hash: ZobristHash, data: PerftData)
        ensures
            old(self).entries@.len() == 0 ==> *final(self) == *old(self),
            old(self).entries@.len() > 0 ==> final(self).entries@.len()
                == old(self).entries@.len() && final(self).entries@[(hash >> 32) as int % old(
                self,
            ).entries@.len() as int].0@ == old(self).entries@[(hash >> 32) as int % old(
                self,
            ).entries@.len() as int].0@.update(
                victim_index(
                    old(self).entries@[(hash >> 32) as int % old(self).entries@.len() as int],
                ),
                Entry { data, verification: hash as u32 },
            ) && (forall|k: int|
                0 <= k < old(self).entries@.len() && k != (hash >> 32) as int % old(
                    self,
                ).entries@.len() as int ==> #[trigger] final(self).entries@[k] == old(
                    self,
                ).entries@[k]),
    {
        if self.entries.len() == 0 {
            return ;
        }
        let index: usize = self.calculate_index(hash);
        let verification: u32 = self.calculate_verification(hash);
        let mut bucket: Bucket = self.entries[index];
        bucket.insert(verification, data);
        self.entries[index] = bucket;
    }

    /// Look a hash up: the value of the first entry in the hash's bucket
    /// whose tag matches, or a miss. On an empty table every probe misses.
    pub fn get(&self, hash: ZobristHash) -> (r: Option<PerftData>)
        ensures
            self.entries@.len() == 0 ==> r is None,
            self.entries@.len() > 0 ==> {
                let b = self.entries@[(hash >> 32) as int % self.entries@.len() as int];
                &&& (find_index(b, hash as u32) < 4 ==> r == Some(
                    b.0[find_index(b, hash as u32)].data,
                ))
                &&& (find_index(b, hash as u32) == 4 ==> r is None)
            },
    {
        if self.entries.len() == 0 {
            return None;
        }
        let index: usize = self.calculate_index(hash);
        let verification: u32 = self.calculate_verification(hash);
        self.entries[index].get(verification)
    }
}

} // verus!
