//! Zobrist hashing: a table of independent random 64-bit keys, one per
//! (color, piece, square) triple, per side to move, per castle-rights mask,
//! and per en-passant file (with one more for "no target").

use vstd::prelude::*;

verus! {

pub type ZobristHash = u64;

/// The random keys a position hash is built from. Filled once with random
/// values and never changed; every contract about hashes is relative to the
/// table the board carries.
#[derive(Clone, Copy)]
pub struct HashTable {
    /// One key per (color, piece, square): index `color*384 + piece*64 + square`.
    pub pieces: [u64; 768],
    /// One key per side to move.
    pub colors: [u64; 2],
    /// One key per castle-rights bitmask.
    pub castles: [u64; 16],
    /// One key per en-passant file, and at index 8 the key for "no target".
    pub en_passant: [u64; 9],
}

/// Relies on rand::random for u64: a sampled 64-bit value. Nothing is
/// promised of it; every hash contract holds whatever value comes back.
#[verifier::external_body]
fn random_u64() -> u64 {
    rand::random::<u64>()
}

impl HashTable {
    /// A table of freshly drawn random keys.
    pub fn new() -> (r: HashTable)
    {
        let mut pieces: [u64; 768] = [0u64; 768];
        let mut colors: [u64; 2] = [0u64; 2];
        let mut castles: [u64; 16] = [0u64; 16];
        let mut en_passant: [u64; 9] = [0u64; 9];
        let mut i: usize = 0;
        while i < 768
            invariant
                i <= 768,
            decreases 768 - i,
        {
            pieces[i] = random_u64();
            i = i + 1;
        }
        let mut i: usize = 0;
        while i < 2
            invariant
                i <= 2,
            decreases 2 - i,
        {
            colors[i] = random_u64();
            i = i + 1;
        }
        let mut i: usize = 0;
        while i < 16
            invariant
                i <= 16,
            decreases 16 - i,
        {
            castles[i] = random_u64();
            i = i + 1;
        }
        let mut i: usize = 0;
        while i < 9
            invariant
                i <= 9,
            decreases 9 - i,
        {
            en_passant[i] = random_u64();
            i = i + 1;
        }
        HashTable { pieces, colors, castles, en_passant }
    }

    /// The key of a piece of a color on a square.
    pub fn piece(&self, piece: usize, color: usize, square: usize) -> (r: ZobristHash)
        requires
            piece < 6,
            color < 2,
            square < 64,
        ensures
            r == self.pieces[color * 384 + piece * 64 + square],
    {
        self.pieces[color * 384 + piece * 64 + square]
    }

    /// The key of a side to move.
    pub fn color(&self, color: usize) -> (r: ZobristHash)
        requires
            color < 2,
        ensures
            r == self.colors[color as int],
    {
        self.colors[color]
    }

    /// The key of a castle-rights bitmask.
    pub fn castle(&self, castle: crate::castle::CastleRights) -> (r: ZobristHash)
        requires
            castle.0 < 16,
        ensures
            r == self.castles[castle.0 as int],
    {
        self.castles[castle.0 as usize]
    }

    /// The key of an en-passant state: by target file, or the "none" key.
    pub fn en_passant(&self, en_passant: Option<usize>) -> (r: ZobristHash)
        requires
            match en_passant {
                Some(s) => s < 64,
                None => true,
            },
        ensures
            r == self.en_passant[ep_file(en_passant)],
    {
        match en_passant {
            Some(s) => self.en_passant[s % 8],
            None => self.en_passant[8],
        }
    }
}

/// The en-passant table index of a state: the target's file, or 8 for none.
pub open spec fn ep_file(ep: Option<usize>) -> int {
    match ep {
        Some(s) => s as int % 8,
        None => 8int,
    }
}

} // verus!
