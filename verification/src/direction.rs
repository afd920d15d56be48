//! The eight ray directions over the rank-major square indexing.

use vstd::prelude::*;
use crate::square::Square;

verus! {

#[derive(Clone, Copy, PartialEq, Eq, Structural, Debug)]
pub enum Direction {
    North,
    South,
    East,
    West,
    NorthEast,
    NorthWest,
    SouthEast,
    SouthWest,
}

/// Is the square on the board edge that stops rays in this direction?
pub open spec fn dir_at_edge(s: int, d: Direction) -> bool {
    match d {
        Direction::North => s / 8 == 7,
        Direction::South => s / 8 == 0,
        Direction::East => s % 8 == 7,
        Direction::West => s % 8 == 0,
        Direction::NorthEast => s / 8 == 7 || s % 8 == 7,
        Direction::NorthWest => s / 8 == 7 || s % 8 == 0,
        Direction::SouthEast => s / 8 == 0 || s % 8 == 7,
        Direction::SouthWest => s / 8 == 0 || s % 8 == 0,
    }
}

/// The next square one step away in the direction.
pub open spec fn dir_step(s: int, d: Direction) -> int {
    match d {
        Direction::North => s + 8,
        Direction::South => s - 8,
        Direction::East => s + 1,
        Direction::West => s - 1,
        Direction::NorthEast => s + 9,
        Direction::NorthWest => s + 7,
        Direction::SouthEast => s - 7,
        Direction::SouthWest => s - 9,
    }
}

/// How many steps the direction can take from `s` before the edge.
pub open spec fn dir_dist(s: int, d: Direction) -> nat {
    if !(0 <= s < 64) {
        0nat
    } else {
        let up = (7 - s / 8) as nat;
        let down = (s / 8) as nat;
        let right = (7 - s % 8) as nat;
        let left = (s % 8) as nat;
        match d {
            Direction::North => up,
            Direction::South => down,
            Direction::East => right,
            Direction::West => left,
            Direction::NorthEast => if up < right {
                up
            } else {
                right
            },
            Direction::NorthWest => if up < left {
                up
            } else {
                left
            },
            Direction::SouthEast => if down < right {
                down
            } else {
                right
            },
            Direction::SouthWest => if down < left {
                down
            } else {
                left
            },
        }
    }
}

/// Stepping off a non-edge square stays on the board, moves rank and file by
/// one step each as the direction says, and shrinks the distance to the edge.
pub proof fn lemma_dir_step(s: int, d: Direction)
    requires
        0 <= s < 64,
        !dir_at_edge(s, d),
    ensures
        0 <= dir_step(s, d) < 64,
        dir_dist(dir_step(s, d), d) < dir_dist(s, d),
        match d {
            Direction::North => dir_step(s, d) / 8 == s / 8 + 1 && dir_step(s, d) % 8 == s % 8,
            Direction::South => dir_step(s, d) / 8 == s / 8 - 1 && dir_step(s, d) % 8 == s % 8,
            Direction::East => dir_step(s, d) / 8 == s / 8 && dir_step(s, d) % 8 == s % 8 + 1,
            Direction::West => dir_step(s, d) / 8 == s / 8 && dir_step(s, d) % 8 == s % 8 - 1,
            Direction::NorthEast => dir_step(s, d) / 8 == s / 8 + 1 && dir_step(s, d) % 8 == s % 8
                + 1,
            Direction::NorthWest => dir_step(s, d) / 8 == s / 8 + 1 && dir_step(s, d) % 8 == s % 8
                - 1,
            Direction::SouthEast => dir_step(s, d) / 8 == s / 8 - 1 && dir_step(s, d) % 8 == s % 8
                + 1,
            Direction::SouthWest => dir_step(s, d) / 8 == s / 8 - 1 && dir_step(s, d) % 8 == s % 8
                - 1,
        },
{
    let q = s / 8;
    let r = s % 8;
    assert(s == 8 * q + r) by (nonlinear_arith)
        requires
            q == s / 8 && r == s % 8,
    ;
    let n = dir_step(s, d);
    let nq = match d {
        Direction::North => q + 1,
        Direction::South => q - 1,
        Direction::East => q,
        Direction::West => q,
        Direction::NorthEast => q + 1,
        Direction::NorthWest => q + 1,
        Direction::SouthEast => q - 1,
        Direction::SouthWest => q - 1,
    };
    let nr = match d {
        Direction::North => r,
        Direction::South => r,
        Direction::East => r + 1,
        Direction::West => r - 1,
        Direction::NorthEast => r + 1,
        Direction::NorthWest => r - 1,
        Direction::SouthEast => r + 1,
        Direction::SouthWest => r - 1,
    };
    assert(n == 8 * nq + nr);
    assert(0 <= nr < 8 && 0 <= nq < 8);
    assert(n / 8 == nq && n % 8 == nr) by (nonlinear_arith)
        requires
            n == 8 * nq + nr,
            0 <= nr < 8,
            0 <= nq < 8,
    ;
}

impl Direction {
    /// Is `square` on the edge that stops this direction?
    pub fn at_edge(&self, square: Square) -> (r: bool)
        requires
            square < 64,
        ensures
            r == dir_at_edge(square as int, *self),
    {
        let file: usize = square % 8;
        let rank: usize = square / 8;
        match self {
            Direction::North => rank == 7,
            Direction::South => rank == 0,
            Direction::East => file == 7,
            Direction::West => file == 0,
            Direction::NorthEast => rank == 7 || file == 7,
            Direction::NorthWest => rank == 7 || file == 0,
            Direction::SouthEast => rank == 0 || file == 7,
            Direction::SouthWest => rank == 0 || file == 0,
        }
    }

    /// One step from `square` in this direction.
    pub fn step(&self, square: Square) -> (r: Square)
        requires
            square < 64,
            !dir_at_edge(square as int, *self),
        ensures
            r == dir_step(square as int, *self),
            r < 64,
    {
        proof {
            lemma_dir_step(square as int, *self);
        }
        match self {
            Direction::North => square + 8,
            Direction::South => square - 8,
            Direction::East => square + 1,
            Direction::West => square - 1,
            Direction::NorthEast => square + 9,
            Direction::NorthWest => square + 7,
            Direction::SouthEast => square - 7,
            Direction::SouthWest => square - 9,
        }
    }
}

} // verus!
