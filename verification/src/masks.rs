//! Ray casting: the brute-force reference the magic tables are proved
//! against, the relevant-occupancy masks, and the carry-rippler subset
//! enumeration.

use vstd::prelude::*;
use crate::bitboard::Bitboard;
use crate::bitboard::BitboardOccupied;
use crate::bitboard::bit;
use crate::bitboard::file_bb;
use crate::bitboard::lemma_bit_auto;
use crate::bitboard::lemma_line_bits;
use crate::bitboard::rank_bb;
use crate::bitboard::sq_bb;
use crate::direction::Direction;
use crate::direction::dir_at_edge;
use crate::direction::dir_dist;
use crate::direction::dir_step;
use crate::direction::lemma_dir_step;
use crate::movegen::MoveGen;
use crate::square::Square;

verus! {

pub type BlockerTable = Vec<Bitboard>;

pub type AttackTable = Vec<Bitboard>;

/// The squares a ray from `s` reaches: step by step away from `s`, stopping
/// at, and including, the first occupied square or the board edge.
pub open spec fn ray_spec(occ: u64, s: int, d: Direction) -> u64
    decreases dir_dist(s, d),
    when 0 <= s < 64
    via ray_spec_decreases
{
    if dir_at_edge(s, d) {
        0u64
    } else {
        let nxt = dir_step(s, d);
        if bit(occ, nxt as u64) {
            sq_bb(nxt as u64)
        } else {
            sq_bb(nxt as u64) | ray_spec(occ, nxt, d)
        }
    }
}

#[via_fn]
proof fn ray_spec_decreases(occ: u64, s: int, d: Direction) {
    if 0 <= s < 64 && !dir_at_edge(s, d) {
        lemma_dir_step(s, d);
    }
}

/// Every square a ray reaches lies strictly onward of its origin, on the
/// origin's line: same file for vertical rays, same rank for horizontal ones,
/// rank and file both moving for diagonals.
pub proof fn lemma_ray_monotone(occ: u64, s: int, d: Direction)
    requires
        0 <= s < 64,
    ensures
        forall|q: u64|
            q < 64 && #[trigger] bit(ray_spec(occ, s, d), q) ==> (match d {
                Direction::North => q as int / 8 > s / 8 && q as int % 8 == s % 8,
                Direction::South => q as int / 8 < s / 8 && q as int % 8 == s % 8,
                Direction::East => q as int / 8 == s / 8 && q as int % 8 > s % 8,
                Direction::West => q as int / 8 == s / 8 && q as int % 8 < s % 8,
                Direction::NorthEast => q as int / 8 > s / 8 && q as int % 8 > s % 8,
                Direction::NorthWest => q as int / 8 > s / 8 && q as int % 8 < s % 8,
                Direction::SouthEast => q as int / 8 < s / 8 && q as int % 8 > s % 8,
                Direction::SouthWest => q as int / 8 < s / 8 && q as int % 8 < s % 8,
            }),
    decreases dir_dist(s, d),
{
    lemma_bit_auto();
    if !dir_at_edge(s, d) {
        lemma_dir_step(s, d);
        let nxt = dir_step(s, d);
        lemma_ray_monotone(occ, nxt, d);
        assert forall|q: u64| q < 64 && #[trigger] bit(ray_spec(occ, s, d), q) implies (match d {
            Direction::North => q as int / 8 > s / 8 && q as int % 8 == s % 8,
            Direction::South => q as int / 8 < s / 8 && q as int % 8 == s % 8,
            Direction::East => q as int / 8 == s / 8 && q as int % 8 > s % 8,
            Direction::West => q as int / 8 == s / 8 && q as int % 8 < s % 8,
            Direction::NorthEast => q as int / 8 > s / 8 && q as int % 8 > s % 8,
            Direction::NorthWest => q as int / 8 > s / 8 && q as int % 8 < s % 8,
            Direction::SouthEast => q as int / 8 < s / 8 && q as int % 8 > s % 8,
            Direction::SouthWest => q as int / 8 < s / 8 && q as int % 8 < s % 8,
        }) by {
            if q as int == nxt {
            } else {
                assert(bit(ray_spec(occ, nxt, d), q));
            }
        }
    } else {
        assert forall|q: u64| q < 64 implies !bit(ray_spec(occ, s, d), q) by {}
    }
}

/// The frame of edge squares relevant from `s`: the first and last files
/// excluding `s`'s own file line, and the first and last ranks excluding
/// `s`'s own rank line.
pub open spec fn edges_spec(s: int) -> u64 {
    (!file_bb((s % 8) as u64) & file_bb(0)) | (!file_bb((s % 8) as u64) & file_bb(7)) | (!rank_bb(
        (s / 8) as u64,
    ) & rank_bb(0)) | (!rank_bb((s / 8) as u64) & rank_bb(7))
}

/// The relevant-occupancy mask of a rook on `s`: its rank and file, without
/// the edges and without `s` itself.
pub open spec fn rook_mask_spec(s: int) -> u64 {
    (rank_bb((s / 8) as u64) | file_bb((s % 8) as u64)) & !edges_spec(s) & !sq_bb(s as u64)
}

/// The four diagonal rays of `s` over an empty board.
pub open spec fn bishop_rays_empty(s: int) -> u64 {
    ray_spec(0, s, Direction::NorthEast) | ray_spec(0, s, Direction::NorthWest) | ray_spec(
        0,
        s,
        Direction::SouthEast,
    ) | ray_spec(0, s, Direction::SouthWest)
}

/// The relevant-occupancy mask of a bishop on `s`: its diagonals, without the
/// edges and without `s` itself.
pub open spec fn bishop_mask_spec(s: int) -> u64 {
    bishop_rays_empty(s) & !edges_spec(s) & !sq_bb(s as u64)
}

/// The true attack set of a rook on `s` under an occupancy: the four
/// straight rays, each stopped at, and including, the first occupied square.
pub open spec fn rook_attacks_spec(occ: u64, s: int) -> u64 {
    ray_spec(occ, s, Direction::North) | ray_spec(occ, s, Direction::South) | ray_spec(
        occ,
        s,
        Direction::East,
    ) | ray_spec(occ, s, Direction::West)
}

/// The true attack set of a bishop on `s` under an occupancy.
pub open spec fn bishop_attacks_spec(occ: u64, s: int) -> u64 {
    ray_spec(occ, s, Direction::NorthEast) | ray_spec(occ, s, Direction::NorthWest) | ray_spec(
        occ,
        s,
        Direction::SouthEast,
    ) | ray_spec(occ, s, Direction::SouthWest)
}

impl MoveGen {
    /// The relevant-occupancy mask of a rook on `square`.
    pub fn rook_mask(square: Square) -> (r: Bitboard)
        requires
            square < 64,
        ensures
            r == rook_mask_spec(square as int),
    {
        let edges: u64 = Self::edges(square);
        let file: usize = square % 8;
        let rank: usize = square / 8;
        let mask: u64 = crate::bitboard::BitboardUtils::rank(rank) | crate::bitboard::BitboardUtils::file(file);
        mask & !edges & !(1u64 << (square as u64))
    }

    /// The relevant-occupancy mask of a bishop on `square`.
    pub fn bishop_mask(square: Square) -> (r: Bitboard)
        requires
            square < 64,
        ensures
            r == bishop_mask_spec(square as int),
    {
        let edges: u64 = Self::edges(square);
        let mask: u64 = Self::ray(0, square, Direction::NorthEast) | Self::ray(
            0,
            square,
            Direction::NorthWest,
        ) | Self::ray(0, square, Direction::SouthEast) | Self::ray(0, square, Direction::SouthWest);
        mask & !edges & !(1u64 << (square as u64))
    }

    /// The brute-force rook attack sets for every blocker subset in
    /// `blockers`, in the same order.
    pub fn rook_attacks(square: Square, blockers: &BlockerTable) -> (r: AttackTable)
        requires
            square < 64,
        ensures
            r@.len() == blockers@.len(),
            forall|j: int|
                0 <= j < r@.len() ==> #[trigger] r@[j] == rook_attacks_spec(
                    blockers@[j],
                    square as int,
                ),
    {
        let mut attacks: AttackTable = Vec::new();
        let mut i: usize = 0;
        while i < blockers.len()
            invariant
                i <= blockers@.len(),
                attacks@.len() == i,
                square < 64,
                forall|j: int|
                    0 <= j < i ==> #[trigger] attacks@[j] == rook_attacks_spec(
                        blockers@[j],
                        square as int,
                    ),
            decreases blockers@.len() - i,
        {
            let b: u64 = blockers[i];
            let attack: u64 = Self::ray(b, square, Direction::North) | Self::ray(
                b,
                square,
                Direction::South,
            ) | Self::ray(b, square, Direction::East) | Self::ray(b, square, Direction::West);
            attacks.push(attack);
            i = i + 1;
        }
        attacks
    }

    /// The brute-force bishop attack sets for every blocker subset in
    /// `blockers`, in the same order.
    pub fn bishop_attacks(square: Square, blockers: &BlockerTable) -> (r: AttackTable)
        requires
            square < 64,
        ensures
            r@.len() == blockers@.len(),
            forall|j: int|
                0 <= j < r@.len() ==> #[trigger] r@[j] == bishop_attacks_spec(
                    blockers@[j],
                    square as int,
                ),
    {
        let mut attacks: AttackTable = Vec::new();
        let mut i: usize = 0;
        while i < blockers.len()
            invariant
                i <= blockers@.len(),
                attacks@.len() == i,
                square < 64,
                forall|j: int|
                    0 <= j < i ==> #[trigger] attacks@[j] == bishop_attacks_spec(
                        blockers@[j],
                        square as int,
                    ),
            decreases blockers@.len() - i,
        {
            let b: u64 = blockers[i];
            let attack: u64 = Self::ray(b, square, Direction::NorthEast) | Self::ray(
                b,
                square,
                Direction::NorthWest,
            ) | Self::ray(b, square, Direction::SouthEast) | Self::ray(
                b,
                square,
                Direction::SouthWest,
            );
            attacks.push(attack);
            i = i + 1;
        }
        attacks
    }

    /// Every subset of `mask`, visited exactly once via the carry-rippler
    /// identity `next = (subset - mask) & mask`, in increasing order starting
    /// from the empty subset.
    pub fn blockers(mask: Bitboard) -> (r: BlockerTable)
        ensures
            r@.len() >= 1,
            forall|j: int| 0 <= j < r@.len() ==> #[trigger] r@[j] & mask == r@[j],
            forall|x: u64| x & mask == x ==> r@.contains(x),
            forall|j: int, k: int| 0 <= j < k < r@.len() ==> r@[j] < r@[k],
    {
        let mut blockers: BlockerTable = Vec::new();
        let mut bitboard: u64 = 0;
        let mut done: bool = false;
        proof {
            lemma_and_zero(mask);
        }
        while !done
            invariant
                bitboard & mask == bitboard,
                forall|j: int| 0 <= j < blockers@.len() ==> #[trigger] blockers@[j] & mask
                    == blockers@[j],
                forall|j: int, k: int| 0 <= j < k < blockers@.len() ==> blockers@[j] < blockers@[k],
                !done ==> forall|j: int| 0 <= j < blockers@.len() ==> #[trigger] blockers@[j]
                    < bitboard,
                !done ==> forall|x: u64| x & mask == x && x < bitboard ==> blockers@.contains(x),
                done ==> forall|x: u64| x & mask == x ==> blockers@.contains(x),
                done ==> blockers@.len() >= 1,
            decreases mask - bitboard, (if done {
                0int
            } else {
                1int
            }),
        {
            let ghost prev = blockers@;
            blockers.push(bitboard);
            proof {
                assert(blockers@[blockers@.len() - 1] == bitboard);
            }
            let nxt: u64 = bitboard.wrapping_sub(mask) & mask;
            proof {
                lemma_wrapping_sub_is_sub(bitboard, mask);
                lemma_carry_rippler_step(bitboard, mask);
                assert forall|x: u64| x & mask == x && (x <= bitboard || (bitboard != mask && x
                    < vstd::prelude::sub(bitboard, mask) & mask)) implies blockers@.contains(x) by {
                    if x < bitboard {
                        assert(prev.contains(x));
                        let i = choose|i: int| 0 <= i < prev.len() && prev[i] == x;
                        assert(blockers@[i] == x);
                    } else if x == bitboard {
                    } else {
                        lemma_carry_rippler_tight(bitboard, x, mask);
                    }
                }
            }
            if nxt == 0 {
                done = true;
                proof {
                    assert(bitboard == mask);
                    assert forall|x: u64| x & mask == x implies blockers@.contains(x) by {
                        lemma_subset_le(x, mask);
                    }
                }
            } else {
                proof {
                    lemma_subset_le(nxt, mask);
                }
                bitboard = nxt;
            }
        }
        blockers
    }

    /// The frame of edge squares relevant from `square`.
    pub fn edges(square: Square) -> (r: Bitboard)
        requires
            square < 64,
        ensures
            r == edges_spec(square as int),
    {
        let file: usize = square % 8;
        let rank: usize = square / 8;
        let bitboard_file: u64 = crate::bitboard::BitboardUtils::file(file);
        let bitboard_rank: u64 = crate::bitboard::BitboardUtils::rank(rank);
        (!bitboard_file & crate::bitboard::BitboardUtils::file(0)) | (!bitboard_file
            & crate::bitboard::BitboardUtils::file(7)) | (!bitboard_rank
            & crate::bitboard::BitboardUtils::rank(0)) | (!bitboard_rank
            & crate::bitboard::BitboardUtils::rank(7))
    }

    /// Walk one ray from `square`, stopping at, and including, the first
    /// occupied square or the edge.
    pub fn ray(bitboard: Bitboard, square: Square, direction: Direction) -> (r: Bitboard)
        requires
            square < 64,
        ensures
            r == ray_spec(bitboard, square as int, direction),
    {
        let mut ray: u64 = 0;
        let mut cur: Square = square;
        proof {
            lemma_or_zero(ray_spec(bitboard, square as int, direction));
        }
        while !direction.at_edge(cur)
            invariant
                cur < 64,
                square < 64,
                ray | ray_spec(bitboard, cur as int, direction) == ray_spec(
                    bitboard,
                    square as int,
                    direction,
                ),
                dir_at_edge(cur as int, direction) ==> ray == ray_spec(
                    bitboard,
                    square as int,
                    direction,
                ),
            decreases dir_dist(cur as int, direction),
        {
            proof {
                lemma_dir_step(cur as int, direction);
            }
            let nxt: Square = direction.step(cur);
            let step_bb: u64 = 1u64 << (nxt as u64);
            proof {
                lemma_or_shuffle(ray, step_bb, ray_spec(bitboard, nxt as int, direction));
                lemma_or_zero(ray | step_bb);
            }
            ray = ray | step_bb;
            if bitboard.occupied(nxt) {
                proof {
                    lemma_or_zero(ray);
                }
                return ray;
            }
            cur = nxt;
        }
        proof {
            lemma_or_zero(ray);
        }
        ray
    }
}

/// Does `m` hold every square of the ray from `s` except possibly the final
/// edge square?
pub open spec fn ray_interior_in(m: u64, s: int, d: Direction) -> bool
    decreases dir_dist(s, d),
    when 0 <= s < 64
    via ray_interior_in_decreases
{
    if dir_at_edge(s, d) {
        true
    } else {
        let nxt = dir_step(s, d);
        (dir_at_edge(nxt, d) || bit(m, nxt as u64)) && ray_interior_in(m, nxt, d)
    }
}

#[via_fn]
proof fn ray_interior_in_decreases(m: u64, s: int, d: Direction) {
    if 0 <= s < 64 && !dir_at_edge(s, d) {
        lemma_dir_step(s, d);
    }
}

/// Masking the occupancy down to a mask that keeps the ray's interior does
/// not change the ray: a blocker on the final edge square never matters.
pub proof fn lemma_ray_mask_indep(occ: u64, m: u64, s: int, d: Direction)
    requires
        0 <= s < 64,
        ray_interior_in(m, s, d),
    ensures
        ray_spec(occ & m, s, d) == ray_spec(occ, s, d),
    decreases dir_dist(s, d),
{
    lemma_bit_auto();
    if !dir_at_edge(s, d) {
        lemma_dir_step(s, d);
        let nxt = dir_step(s, d);
        lemma_or_zero(sq_bb(nxt as u64));
        if dir_at_edge(nxt, d) {
            assert(ray_spec(occ & m, nxt, d) == 0u64);
            assert(ray_spec(occ, nxt, d) == 0u64);
            assert(ray_spec(occ & m, s, d) == sq_bb(nxt as u64));
            assert(ray_spec(occ, s, d) == sq_bb(nxt as u64));
        } else {
            assert(bit(m, nxt as u64));
            assert(bit(occ & m, nxt as u64) == bit(occ, nxt as u64));
            if !bit(occ, nxt as u64) {
                lemma_ray_mask_indep(occ, m, nxt, d);
            }
        }
    }
}

/// The rook mask keeps the interior of each straight ray from its square:
/// `cur` stands on `s`'s line, on the side the direction walks.
proof fn lemma_rook_ray_interior(s: int, cur: int, d: Direction)
    requires
        0 <= s < 64,
        0 <= cur < 64,
        match d {
            Direction::North => cur % 8 == s % 8 && cur / 8 >= s / 8,
            Direction::South => cur % 8 == s % 8 && cur / 8 <= s / 8,
            Direction::East => cur / 8 == s / 8 && cur % 8 >= s % 8,
            Direction::West => cur / 8 == s / 8 && cur % 8 <= s % 8,
            _ => false,
        },
    ensures
        ray_interior_in(rook_mask_spec(s), cur, d),
    decreases dir_dist(cur, d),
{
    lemma_bit_auto();
    if !dir_at_edge(cur, d) {
        lemma_dir_step(cur, d);
        let nxt = dir_step(cur, d);
        lemma_rook_ray_interior(s, nxt, d);
        if !dir_at_edge(nxt, d) {
            lemma_line_bits((s % 8) as u64, nxt as u64);
            lemma_line_bits((s / 8) as u64, nxt as u64);
            lemma_line_bits(0, nxt as u64);
            lemma_line_bits(7, nxt as u64);
            assert(bit(rook_mask_spec(s), nxt as u64));
        }
    }
}

/// The bishop mask keeps the interior of each diagonal ray from its square:
/// `cur` is on the ray of `s` (its empty-board ray is a subset of `s`'s), on
/// the side the direction walks.
proof fn lemma_bishop_ray_interior(s: int, cur: int, d: Direction)
    requires
        0 <= s < 64,
        0 <= cur < 64,
        forall|q: u64| q < 64 && #[trigger] bit(ray_spec(0, cur, d), q) ==> bit(
            bishop_rays_empty(s),
            q,
        ),
        match d {
            Direction::NorthEast => cur % 8 >= s % 8 && cur / 8 >= s / 8,
            Direction::NorthWest => cur % 8 <= s % 8 && cur / 8 >= s / 8,
            Direction::SouthEast => cur % 8 >= s % 8 && cur / 8 <= s / 8,
            Direction::SouthWest => cur % 8 <= s % 8 && cur / 8 <= s / 8,
            _ => false,
        },
    ensures
        ray_interior_in(bishop_mask_spec(s), cur, d),
    decreases dir_dist(cur, d),
{
    lemma_bit_auto();
    if !dir_at_edge(cur, d) {
        lemma_dir_step(cur, d);
        let nxt = dir_step(cur, d);
        assert(bit(ray_spec(0, cur, d), nxt as u64));
        assert forall|q: u64| q < 64 && #[trigger] bit(ray_spec(0, nxt, d), q) implies bit(
            bishop_rays_empty(s),
            q,
        ) by {
            assert(bit(ray_spec(0, cur, d), q));
        }
        lemma_bishop_ray_interior(s, nxt, d);
        if !dir_at_edge(nxt, d) {
            lemma_line_bits((s % 8) as u64, nxt as u64);
            lemma_line_bits((s / 8) as u64, nxt as u64);
            lemma_line_bits(0, nxt as u64);
            lemma_line_bits(7, nxt as u64);
            assert(bit(bishop_rays_empty(s), nxt as u64));
            assert(bit(bishop_mask_spec(s), nxt as u64));
        }
    }
}

/// A rook's true attacks depend only on the blockers inside its
/// relevant-occupancy mask.
pub proof fn lemma_rook_mask_indep(occ: u64, s: int)
    requires
        0 <= s < 64,
    ensures
        rook_attacks_spec(occ & rook_mask_spec(s), s) == rook_attacks_spec(occ, s),
{
    lemma_rook_ray_interior(s, s, Direction::North);
    lemma_rook_ray_interior(s, s, Direction::South);
    lemma_rook_ray_interior(s, s, Direction::East);
    lemma_rook_ray_interior(s, s, Direction::West);
    lemma_ray_mask_indep(occ, rook_mask_spec(s), s, Direction::North);
    lemma_ray_mask_indep(occ, rook_mask_spec(s), s, Direction::South);
    lemma_ray_mask_indep(occ, rook_mask_spec(s), s, Direction::East);
    lemma_ray_mask_indep(occ, rook_mask_spec(s), s, Direction::West);
}

/// A bishop's true attacks depend only on the blockers inside its
/// relevant-occupancy mask.
pub proof fn lemma_bishop_mask_indep(occ: u64, s: int)
    requires
        0 <= s < 64,
    ensures
        bishop_attacks_spec(occ & bishop_mask_spec(s), s) == bishop_attacks_spec(occ, s),
{
    lemma_bit_auto();
    assert forall|d: Direction|
        d == Direction::NorthEast || d == Direction::NorthWest || d == Direction::SouthEast || d
            == Direction::SouthWest implies ray_interior_in(bishop_mask_spec(s), s, d) by {
        assert forall|q: u64| q < 64 && #[trigger] bit(ray_spec(0, s, d), q) implies bit(
            bishop_rays_empty(s),
            q,
        ) by {}
        lemma_bishop_ray_interior(s, s, d);
    }
    lemma_ray_mask_indep(occ, bishop_mask_spec(s), s, Direction::NorthEast);
    lemma_ray_mask_indep(occ, bishop_mask_spec(s), s, Direction::NorthWest);
    lemma_ray_mask_indep(occ, bishop_mask_spec(s), s, Direction::SouthEast);
    lemma_ray_mask_indep(occ, bishop_mask_spec(s), s, Direction::SouthWest);
}

/// `a | (b | c)` regrouped as `(a | b) | c`.
proof fn lemma_or_shuffle(a: u64, b: u64, c: u64)
    by (bit_vector)
    ensures
        a | (b | c) == (a | b) | c,
        a | b == b | a,
{
}

/// Zero is the identity of union.
proof fn lemma_or_zero(a: u64)
    by (bit_vector)
    ensures
        a | 0u64 == a,
        0u64 | a == a,
{
}

/// Zero intersected with anything is zero.
proof fn lemma_and_zero(a: u64)
    by (bit_vector)
    ensures
        0u64 & a == 0u64,
        a & 0u64 == 0u64,
{
}

/// A subset of `mask`, as a word, is at most `mask`.
proof fn lemma_subset_le(x: u64, m: u64)
    by (bit_vector)
    requires
        x & m == x,
    ensures
        x <= m,
{
}

/// Subtracting with wraparound is the built-in truncating subtraction.
proof fn lemma_wrapping_sub_is_sub(x: u64, y: u64)
    ensures
        vstd::wrapping::u64_specs::wrapping_sub(x, y) == vstd::prelude::sub(x, y),
{
    assert(vstd::wrapping::u64_specs::wrapping_sub(x, y) == vstd::prelude::sub(x, y))
        by (bit_vector);
}

/// One carry-rippler step: from a proper subset of `mask` it yields a larger
/// subset; from `mask` itself it yields zero.
proof fn lemma_carry_rippler_step(b: u64, m: u64)
    by (bit_vector)
    requires
        b & m == b,
    ensures
        (vstd::prelude::sub(b, m) & m) & m == vstd::prelude::sub(b, m) & m,
        b != m ==> vstd::prelude::sub(b, m) & m > b,
        b == m ==> vstd::prelude::sub(b, m) & m == 0,
        b <= m,
{
}

/// No subset of `mask` falls strictly between a subset and its carry-rippler
/// successor.
proof fn lemma_carry_rippler_tight(b: u64, c: u64, m: u64)
    by (bit_vector)
    requires
        b & m == b,
        c & m == c,
        c > b,
    ensures
        vstd::prelude::sub(b, m) & m <= c,
{
}

} // verus!
