//! One square's magic entry: the perfect-hash parameters that map a blocker
//! subset to its slot in the shared attack table.

use vstd::prelude::*;
use crate::bitboard::Bitboard;
use crate::square::Square;

verus! {

/// Per-square magic parameters: the relevant-occupancy mask, the hash shift,
/// the slot range base, and the multiplicative constant.
#[derive(Clone, Copy, Debug)]
pub struct Magic {
    pub mask: Bitboard,
    pub shift: u8,
    pub offset: u64,
    pub nr: u64,
}

/// The attack-table slot of an occupancy under a magic entry: the relevant
/// blockers multiplied by the magic constant (wrapping), shifted down, plus
/// the square's base offset.
pub open spec fn magic_index(m: Magic, occupancy: u64) -> int {
    (vstd::wrapping::u64_specs::wrapping_mul(occupancy & m.mask, m.nr) >> m.shift as u64) as int
        + m.offset as int
}

impl Magic {
    /// An entry that maps everything to slot 0; replaced during table setup.
    pub fn empty() -> (r: Magic)
        ensures
            r.mask == 0 && r.shift == 0 && r.offset == 0 && r.nr == 0,
    {
        Magic { mask: 0, shift: 0, offset: 0, nr: 0 }
    }

    /// The attack-table slot of an occupancy: hash the relevant blockers and
    /// add the square's base offset.
    pub fn index(&self, occupancy: Bitboard) -> (r: usize)
        requires
            self.shift < 64,
            magic_index(*self, occupancy) <= usize::MAX,
        ensures
            r == magic_index(*self, occupancy),
    {
        let blocker: u64 = occupancy & self.mask;
        let hashed: u64 = blocker.wrapping_mul(self.nr) >> (self.shift as u64);
        (hashed as usize) + (self.offset as usize)
    }
}

} // verus!
