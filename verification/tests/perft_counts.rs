use chess::transposition::Bucket;
use chess::transposition::PerftData;
use chess::transposition::TranspositionTable;
use chess::Chess;

fn perft(chess: &mut Chess, depth: u8) -> usize {
    let mut tt = TranspositionTable::empty();
    chess.perft_driver(depth, &mut tt, false)
}

#[test]
fn perft_shallow() {
    let mut chess = Chess::new().unwrap();
    assert_eq!(perft(&mut chess, 1), 20);
    assert_eq!(perft(&mut chess, 2), 400);
    assert_eq!(perft(&mut chess, 3), 8_902);
}

#[test]
fn perft_depth_four() {
    let mut chess = Chess::new().unwrap();
    assert_eq!(perft(&mut chess, 4), 197_281);
}

#[test]
fn perft_with_and_without_table() {
    let mut chess = Chess::new().unwrap();
    let plain = perft(&mut chess, 3);
    let mut tt = TranspositionTable::new(1 << 20);
    let cached = chess.perft_driver(3, &mut tt, true);
    assert_eq!(plain, cached);
    // the second run answers from the warm table and must agree too
    let warm = chess.perft_driver(3, &mut tt, true);
    assert_eq!(plain, warm);
    assert_eq!(plain, 8_902);
}

#[test]
fn perft_same_over_chunked_roots() {
    // the root move list split into chunks, each walked by its own copy of
    // the game, sums to the single-walk total, whatever the chunk size
    let mut chess = Chess::new().unwrap();
    let depth: u8 = 3;
    let total = perft(&mut chess, depth);
    for chunk_size in [1usize, 3, 7, 20] {
        let list = chess.generate_moves();
        let chunks = list.chunks(chunk_size);
        let mut sum: usize = 0;
        for chunk in chunks {
            let mut worker = chess.clone();
            let mut tt = TranspositionTable::empty();
            for m in chunk {
                if worker.play_move(m) {
                    sum += worker.perft_driver(depth - 1, &mut tt, false);
                    worker.undo_move();
                }
            }
        }
        assert_eq!(sum, total);
    }
}

#[test]
fn tables_build_from_shipped_constants() {
    // the magic-table construction from the shipped constants must succeed:
    // a collision would mean the constants are wrong
    assert!(chess::movegen::MoveGen::new().is_some());
    assert!(Chess::new().is_some());
}

#[test]
fn eviction_replaces_the_shallowest_entry() {
    let mut bucket = Bucket::empty();
    bucket.insert(11, PerftData::new(5, 50));
    bucket.insert(12, PerftData::new(1, 10));
    bucket.insert(13, PerftData::new(0, 1));
    bucket.insert(14, PerftData::new(0, 2));
    // depths are now 5, 1, 0, 0: a depth-4 value evicts a depth-0 entry,
    // never the deeper ones
    bucket.insert(15, PerftData::new(4, 40));
    assert_eq!(bucket.get(11).unwrap().nodes(), 50);
    assert_eq!(bucket.get(12).unwrap().nodes(), 10);
    assert!(bucket.get(13).is_none());
    assert!(bucket.get(14).is_none());
    assert_eq!(bucket.get(15).unwrap().nodes(), 40);
}

#[test]
fn transposition_table_stores_and_verifies() {
    let mut tt = TranspositionTable::new(4096);
    assert!(tt.get(0x1234_5678_9abc_def0).is_none());
    tt.insert(0x1234_5678_9abc_def0, PerftData::new(3, 999));
    let hit = tt.get(0x1234_5678_9abc_def0).unwrap();
    assert_eq!(hit.depth, 3);
    assert_eq!(hit.nodes(), 999);
    // same bucket index, different verification tag: a strict miss, never a
    // false hit on the stored value
    let other = (0x1234_5678_u64 << 32) | 0x0000_0001;
    assert!(tt.get(other).is_none());
    // an empty table never hits
    let empty = TranspositionTable::empty();
    assert!(empty.get(42).is_none());
}
