use chess::direction::Direction;
use chess::movegen::MoveGen;

/// A brute-force rook attack set: four straight rays, each stopped at and
/// including the first occupied square.
fn rook_reference(occ: u64, sq: usize) -> u64 {
    MoveGen::ray(occ, sq, Direction::North)
        | MoveGen::ray(occ, sq, Direction::South)
        | MoveGen::ray(occ, sq, Direction::East)
        | MoveGen::ray(occ, sq, Direction::West)
}

fn bishop_reference(occ: u64, sq: usize) -> u64 {
    MoveGen::ray(occ, sq, Direction::NorthEast)
        | MoveGen::ray(occ, sq, Direction::NorthWest)
        | MoveGen::ray(occ, sq, Direction::SouthEast)
        | MoveGen::ray(occ, sq, Direction::SouthWest)
}

#[test]
fn magic_lookup_matches_ray_cast() {
    let mg = MoveGen::new().unwrap();
    // a deterministic sample of occupancies per square
    let mut seed: u64 = 0x9e37_79b9_7f4a_7c15;
    for sq in 0..64usize {
        let mut occs = vec![0u64, u64::MAX, 1u64 << sq, 0x5555_5555_5555_5555];
        for _ in 0..64 {
            seed = seed.wrapping_mul(6364136223846793005).wrapping_add(1442695040888963407);
            occs.push(seed);
        }
        for occ in occs {
            assert_eq!(
                mg.rook_attack_lookup(sq, occ),
                rook_reference(occ, sq),
                "rook lookup diverged",
            );
            assert_eq!(
                mg.bishop_attack_lookup(sq, occ),
                bishop_reference(occ, sq),
                "bishop lookup diverged",
            );
        }
    }
}

#[test]
fn bishop_lookup_exhaustive_on_relevant_blockers() {
    let mg = MoveGen::new().unwrap();
    // every subset of the relevant-occupancy mask, for every square
    for sq in 0..64usize {
        let mask = MoveGen::bishop_mask(sq);
        let blockers = MoveGen::blockers(mask);
        for b in blockers {
            assert_eq!(mg.bishop_attack_lookup(sq, b), bishop_reference(b, sq));
        }
    }
}

#[test]
fn masks_exclude_edges_and_self() {
    for sq in 0..64usize {
        let rm = MoveGen::rook_mask(sq);
        let bm = MoveGen::bishop_mask(sq);
        assert_eq!(rm & (1u64 << sq), 0);
        assert_eq!(bm & (1u64 << sq), 0);
        // corners never belong to a relevant-occupancy mask
        for corner in [0usize, 7, 56, 63] {
            assert_eq!(rm & (1u64 << corner), 0);
            assert_eq!(bm & (1u64 << corner), 0);
        }
    }
}

#[test]
fn blockers_enumerate_every_subset() {
    let mask: u64 = 0b1010_0110;
    let subsets = MoveGen::blockers(mask);
    assert_eq!(subsets.len(), 16);
    assert_eq!(subsets[0], 0);
    assert_eq!(*subsets.last().unwrap(), mask);
    for w in subsets.windows(2) {
        assert!(w[0] < w[1]);
        assert_eq!(w[0] & mask, w[0]);
    }
}
