//! Bitboards: 64-bit sets of squares, with the bit lemmas the rest of the
//! crate reasons with.

use vstd::prelude::*;
use crate::square::Square;

verus! {

/// A bitboard encodes a subset of the 64 squares: bit `i` is square `i`.
pub type Bitboard = u64;

/// Does bitboard `bb` contain square `i`?
pub open spec fn bit(bb: u64, i: u64) -> bool {
    (bb >> i) & 1u64 == 1u64
}

/// The bitboard holding exactly square `i`.
pub open spec fn sq_bb(i: u64) -> u64 {
    1u64 << i
}

/// The bitboard of file `f` (squares whose index is `f` modulo 8).
pub open spec fn file_bb(f: u64) -> u64 {
    0x0101010101010101u64 << f
}

/// The bitboard of rank `r` (squares `8r` to `8r + 7`).
pub open spec fn rank_bb(r: u64) -> u64 {
    0xffu64 << vstd::prelude::mul(8u64, r)
}

/// Bitwise operators act pointwise on the square sets.
pub proof fn lemma_bit_ops(a: u64, b: u64, i: u64)
    by (bit_vector)
    requires
        i < 64,
    ensures
        bit(a | b, i) == (bit(a, i) || bit(b, i)),
        bit(a & b, i) == (bit(a, i) && bit(b, i)),
        bit(a ^ b, i) == (bit(a, i) != bit(b, i)),
        bit(!a, i) == !bit(a, i),
        !bit(0u64, i),
{
}

/// The pointwise reading of the bitwise operators, in quantified form.
pub proof fn lemma_bit_auto()
    ensures
        forall|a: u64, b: u64, i: u64|
            i < 64 ==> #[trigger] bit(a | b, i) == (bit(a, i) || bit(b, i)),
        forall|a: u64, b: u64, i: u64|
            i < 64 ==> #[trigger] bit(a & b, i) == (bit(a, i) && bit(b, i)),
        forall|a: u64, b: u64, i: u64|
            i < 64 ==> #[trigger] bit(a ^ b, i) == (bit(a, i) != bit(b, i)),
        forall|a: u64, i: u64| i < 64 ==> #[trigger] bit(!a, i) == !bit(a, i),
        forall|i: u64| i < 64 ==> !bit(0u64, i),
        forall|i: u64, j: u64| i < 64 && j < 64 ==> #[trigger] bit(sq_bb(i), j) == (i == j),
{
    assert forall|a: u64, b: u64, i: u64|
        i < 64 implies #[trigger] bit(a | b, i) == (bit(a, i) || bit(b, i)) by {
        lemma_bit_ops(a, b, i);
    }
    assert forall|a: u64, b: u64, i: u64|
        i < 64 implies #[trigger] bit(a & b, i) == (bit(a, i) && bit(b, i)) by {
        lemma_bit_ops(a, b, i);
    }
    assert forall|a: u64, b: u64, i: u64|
        i < 64 implies #[trigger] bit(a ^ b, i) == (bit(a, i) != bit(b, i)) by {
        lemma_bit_ops(a, b, i);
    }
    assert forall|a: u64, i: u64| i < 64 implies #[trigger] bit(!a, i) == !bit(a, i) by {
        lemma_bit_ops(a, 0, i);
    }
    assert forall|i: u64| i < 64 implies !bit(0u64, i) by {
        lemma_bit_ops(0, 0, i);
    }
    assert forall|i: u64, j: u64| i < 64 && j < 64 implies #[trigger] bit(sq_bb(i), j) == (i
        == j) by {
        lemma_sq_bb_bit(i, j);
    }
}

/// The single-square bitboard holds its square and nothing else.
pub proof fn lemma_sq_bb_bit(i: u64, j: u64)
    by (bit_vector)
    requires
        i < 64,
        j < 64,
    ensures
        bit(sq_bb(i), j) == (i == j),
        sq_bb(i) != 0u64,
{
}

/// Which squares lie on a file or rank bitboard.
pub proof fn lemma_line_bits(f: u64, i: u64)
    by (bit_vector)
    requires
        f < 8,
        i < 64,
    ensures
        bit(file_bb(f), i) == (i % 8 == f),
        bit(rank_bb(f), i) == (i / 8 == f),
{
}

/// Clearing the lowest set bit: with `t` the count of trailing zeros,
/// `x & (x - 1)` is `x` with bit `t` cleared.
proof fn lemma_clear_lsb(x: u64, t: u64)
    by (bit_vector)
    requires
        t < 64,
        x << vstd::prelude::sub(64u64, t) == 0,
        (x >> t) & 1u64 == 1u64,
    ensures
        x & vstd::prelude::sub(x, 1) == x & !sq_bb(t),
        x & vstd::prelude::sub(x, 1) < x,
{
}

/// Least-significant-bit extraction on a bitboard.
pub trait BitboardLSB {
    /// The word of bits the operations act on.
    spec fn bits(&self) -> u64;

    /// The lowest square of the set, which is also removed from it.
    fn pop_lsb(&mut self) -> (r: Square)
        requires
            old(self).bits() != 0u64,
        ensures
            r < 64,
            bit(old(self).bits(), r as u64),
            forall|j: u64| j < r ==> !bit(old(self).bits(), j),
            r == vstd::std_specs::bits::u64_trailing_zeros(old(self).bits()),
            final(self).bits() == old(self).bits() & !sq_bb(r as u64),
            final(self).bits() < old(self).bits(),
    ;

    /// The lowest square of the set.
    fn lsb(&self) -> (r: Square)
        requires
            self.bits() != 0u64,
        ensures
            r < 64,
            bit(self.bits(), r as u64),
            forall|j: u64| j < r ==> !bit(self.bits(), j),
            r == vstd::std_specs::bits::u64_trailing_zeros(self.bits()),
    ;
}

impl BitboardLSB for Bitboard {
    open spec fn bits(&self) -> u64 {
        *self
    }

    fn pop_lsb(&mut self) -> (r: Square)
    {
        let lsb: Square = self.lsb();
        proof {
            broadcast use vstd::std_specs::bits::axiom_u64_trailing_zeros;

            assert(bit(*self, lsb as u64));
            lemma_clear_lsb(*self, lsb as u64);
        }
        *self = *self & (*self - 1);
        lsb
    }

    fn lsb(&self) -> (r: Square)
    {
        proof {
            broadcast use vstd::std_specs::bits::axiom_u64_trailing_zeros;

        }
        let r: u32 = self.trailing_zeros();
        proof {
            let t = vstd::std_specs::bits::u64_trailing_zeros(*self);
            assert(t < 64);
            assert((*self >> t as u64) & 1u64 == 1u64);
            assert forall|j: u64| j < r implies !bit(*self, j) by {
                assert((*self >> j) & 1u64 == 0u64);
            }
        }
        r as Square
    }
}

/// Membership test for a square in a bitboard.
pub trait BitboardOccupied {
    /// The word of bits the test reads.
    spec fn bits(&self) -> u64;

    /// Does the set contain `square`?
    fn occupied(&self, square: Square) -> (r: bool)
        requires
            square < 64,
        ensures
            r == bit(self.bits(), square as u64),
    ;
}

impl BitboardOccupied for Bitboard {
    open spec fn bits(&self) -> u64 {
        *self
    }

    fn occupied(&self, square: Square) -> (r: bool)
    {
        proof {
            lemma_sq_bb_bit(square as u64, square as u64);
            lemma_bit_ops(*self, sq_bb(square as u64), square as u64);
            assert forall|j: u64|
                j < 64 && j != square as u64 implies !#[trigger] bit(
                *self & sq_bb(square as u64),
                j,
            ) by {
                lemma_sq_bb_bit(square as u64, j);
                lemma_bit_ops(*self, sq_bb(square as u64), j);
            }
            lemma_nonzero_has_bit(*self & sq_bb(square as u64));
        }
        *self & (1u64 << (square as u64)) > 0
    }
}

/// A nonzero word has a set bit below 64; a zero word has none.
pub proof fn lemma_nonzero_has_bit(x: u64)
    ensures
        x != 0u64 ==> exists|i: u64| i < 64 && bit(x, i),
        x == 0u64 ==> forall|i: u64| i < 64 ==> !bit(x, i),
{
    if x != 0 {
        broadcast use vstd::std_specs::bits::axiom_u64_trailing_zeros;

        let t = vstd::std_specs::bits::u64_trailing_zeros(x);
        assert(t < 64 && bit(x, t as u64));
    } else {
        assert forall|i: u64| i < 64 implies !bit(0u64, i) by {
            lemma_bit_ops(0, 0, i);
        }
    }
}

/// Clearing the lowest set bit of a nonzero word shrinks it; the cleared bit
/// is the word's trailing-zero count.
pub proof fn lemma_clear_lowest(x: u64)
    requires
        x != 0,
    ensures
        ({
            let t = vstd::std_specs::bits::u64_trailing_zeros(x) as u64;
            &&& t < 64
            &&& bit(x, t)
            &&& x & !sq_bb(t) < x
        }),
{
    broadcast use vstd::std_specs::bits::axiom_u64_trailing_zeros;

    let t = vstd::std_specs::bits::u64_trailing_zeros(x) as u64;
    lemma_clear_lsb(x, t);
}

/// Rendering a bitboard as text, one rank per line from the top down.
pub trait BitboardString {
    /// The word of bits rendered.
    spec fn bits(&self) -> u64;

    /// The board as zeros and ones, ranks from the top down.
    fn bitboard_string(&self) -> (r: String)
        ensures
            r@.len() > 0,
    ;
}

impl BitboardString for Bitboard {
    open spec fn bits(&self) -> u64 {
        *self
    }

    fn bitboard_string(&self) -> (r: String)
    {
        proof {
            reveal_strlit("1 ");
            reveal_strlit("0 ");
            reveal_strlit("\n");
        }
        let mut string: String = String::new();
        let mut rank: usize = 8;
        while rank > 0
            invariant
                rank <= 8,
                string@.len() >= 17 * (8 - rank),
            decreases rank,
        {
            rank = rank - 1;
            let mut file: usize = 0;
            while file < 8
                invariant
                    file <= 8,
                    rank < 8,
                    string@.len() >= 17 * (7 - rank) + 2 * file,
                decreases 8 - file,
            {
                proof {
                    reveal_strlit("1 ");
                    reveal_strlit("0 ");
                }
                let square: Square = rank * 8 + file;
                if self.occupied(square) {
                    string.append("1 ");
                } else {
                    string.append("0 ");
                }
                file = file + 1;
            }
            proof {
                reveal_strlit("\n");
            }
            string.append("\n");
        }
        string
    }
}

/// Two words with the same bits below 64 are equal.
pub proof fn lemma_bit_ext(a: u64, b: u64)
    requires
        forall|i: u64| i < 64 ==> bit(a, i) == bit(b, i),
    ensures
        a == b,
{
    lemma_bit_auto();
    if a != b {
        assert(a ^ b != 0u64) by (bit_vector)
            requires
                a != b,
        ;
        lemma_nonzero_has_bit(a ^ b);
        let i = choose|i: u64| i < 64 && bit(a ^ b, i);
        assert(bit(a, i) != bit(b, i));
    }
}

/// Helpers for building the bitboards of single squares, files and ranks.
pub struct BitboardUtils;

impl BitboardUtils {
    pub const EMPTY: Bitboard = 0;

    /// The bitboard holding exactly `square`.
    pub fn square(square: Square) -> (r: Bitboard)
        requires
            square < 64,
        ensures
            r == sq_bb(square as u64),
    {
        1u64 << (square as u64)
    }

    /// The bitboard of file `f`.
    pub fn file(f: usize) -> (r: Bitboard)
        requires
            f < 8,
        ensures
            r == file_bb(f as u64),
    {
        0x0101010101010101u64 << (f as u64)
    }

    /// The bitboard of rank `r`.
    pub fn rank(r: usize) -> (b: Bitboard)
        requires
            r < 8,
        ensures
            b == rank_bb(r as u64),
    {
        proof {
            assert(vstd::prelude::mul(8u64, r as u64) == 8 * r) by (bit_vector)
                requires
                    r < 8usize,
            ;
        }
        0xffu64 << ((8 * r) as u64)
    }
}

} // verus!
