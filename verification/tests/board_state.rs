use chess::Chess;
use chess::bitboard::BitboardLSB;
use chess::bitboard::BitboardOccupied;
use chess::bitboard::BitboardString;
use chess::board::check_incrementals;
use chess::error::Error;
use chess::fen::from_fen;
use chess::piece_move::Move;
use chess::square::SquareUtils;

const START: &str = "rnbqkbnr/pppppppp/8/8/8/8/PPPPPPPP/RNBQKBNR w KQkq - 0 1";

#[test]
fn move_encoding_roundtrip() {
    // a castling king move from e1 to g1
    let data: u64 = 5 | (4 << 3) | (6 << 9) | (6 << 15) | (6 << 18) | (1 << 23);
    let m = Move::new(data);
    assert_eq!(m.piece(), 5);
    assert_eq!(m.from(), 4);
    assert_eq!(m.to(), 6);
    assert_eq!(m.captured(), 6);
    assert_eq!(m.promoted(), 6);
    assert!(!m.en_passant());
    assert!(!m.two_step());
    assert!(m.castling());

    // a pawn capture promoting to a queen
    let data2: u64 = 0 | (52 << 3) | (61 << 9) | (3 << 15) | (4 << 18);
    let m2 = Move::new(data2);
    assert_eq!(m2.piece(), 0);
    assert_eq!(m2.from(), 52);
    assert_eq!(m2.to(), 61);
    assert_eq!(m2.captured(), 3);
    assert_eq!(m2.promoted(), 4);
    assert!(!m2.castling());
}

#[test]
fn bitboard_primitives() {
    let mut bb: u64 = 0b1010_1000;
    assert_eq!(bb.lsb(), 3);
    assert_eq!(bb.pop_lsb(), 3);
    assert_eq!(bb, 0b1010_0000);
    assert_eq!(bb.pop_lsb(), 5);
    assert_eq!(bb.pop_lsb(), 7);
    assert_eq!(bb, 0);
    assert!(0x10u64.occupied(4));
    assert!(!0x10u64.occupied(5));
}

#[test]
fn square_names() {
    assert_eq!(SquareUtils::to_string(0), "a1");
    assert_eq!(SquareUtils::to_string(28), "e4");
    assert_eq!(SquareUtils::to_string(63), "h8");
    assert_eq!(SquareUtils::parse("e4"), 28);
    assert_eq!(SquareUtils::parse("a1"), 0);
    assert_eq!(SquareUtils::from_location(4, 3), 28);
    assert_eq!(SquareUtils::location(28), (4, 3));
}

#[test]
fn fen_accepts_start_position() {
    let board = from_fen(START).unwrap();
    assert_eq!(board.color, 0);
    assert_eq!(board.castle_rights.0, 0b1111);
    assert_eq!(board.halfmove_clock, 0);
    assert_eq!(board.fullmove_number, 1);
    assert_eq!(board.piece_list[4], 5);
    assert_eq!(board.piece_list[60], 5);
    assert_eq!(board.occupancy, 0xffff_0000_0000_ffff);
    assert_eq!(board.fen_string(), START);
}

#[test]
fn fen_counters() {
    let board = from_fen("rnbqkbnr/pppppppp/8/8/8/8/PPPPPPPP/RNBQKBNR w KQkq - 13 42").unwrap();
    assert_eq!(board.halfmove_clock, 13);
    assert_eq!(board.fullmove_number, 42);
    // out-of-range counters fall back to the defaults
    let board2 = from_fen("rnbqkbnr/pppppppp/8/8/8/8/PPPPPPPP/RNBQKBNR w KQkq - 999 1").unwrap();
    assert_eq!(board2.halfmove_clock, 0);
}

#[test]
fn fen_rejects_bad_input() {
    assert!(matches!(from_fen(""), Err(Error::InvalidPosition)));
    assert!(matches!(from_fen("x w - -"), Err(Error::InvalidPiece('x'))));
    assert!(matches!(
        from_fen("rnbqkbnr/pppppppp/8/8/8/8/PPPPPPPP/RNBQKBNR z KQkq - 0 1"),
        Err(Error::InvalidColor('z'))
    ));
    assert!(matches!(
        from_fen("rnbqkbnr/pppppppp/8/8/8/8/PPPPPPPP/RNBQKBNR w KQkx - 0 1"),
        Err(Error::InvalidCastleRight('x'))
    ));
    // a right whose rook is missing
    assert!(matches!(
        from_fen("rnbqkbn1/pppppppp/8/8/8/8/PPPPPPPP/RNBQKBNR w KQk - 0 1"),
        Err(Error::InvalidPosition)
    ));
    // an en-passant target nothing could have produced
    assert!(matches!(
        from_fen("rnbqkbnr/pppppppp/8/8/8/8/PPPPPPPP/RNBQKBNR w KQkq e6 0 1"),
        Err(Error::InvalidPosition)
    ));
    // a missing king
    assert!(matches!(from_fen("8/8/8/8/8/8/8/K7 w - -"), Err(Error::InvalidPosition)));
    // a pawn on a back rank
    assert!(matches!(from_fen("P7/8/8/8/k6K/8/8/8 w - -"), Err(Error::InvalidPosition)));
}

#[test]
fn make_unmake_restores_everything() {
    let mut chess = Chess::new().unwrap();
    let before_fen = chess.board.fen_string();
    let before_hash = chess.board.hash;
    let list = chess.generate_moves();
    assert_eq!(list.len(), 20);
    for m in list.iter() {
        let legal = chess.play_move(m);
        assert!(legal);
        assert!(check_incrementals(&chess.board));
        chess.undo_move();
        assert!(check_incrementals(&chess.board));
        assert_eq!(chess.board.fen_string(), before_fen);
        assert_eq!(chess.board.hash, before_hash);
    }
}

#[test]
fn illegal_move_is_rolled_back() {
    // the white bishop is pinned against its king by a black rook: every
    // bishop move off the file is illegal, and the position must come back
    // untouched
    let fen = "4r1k1/8/8/8/8/8/4B3/4K3 w - - 0 1";
    let mut chess = Chess::from_fen(fen).unwrap();
    let before_fen = chess.board.fen_string();
    let before_hash = chess.board.hash;
    let list = chess.generate_moves();
    let mut saw_illegal = false;
    for m in list.iter() {
        let legal = chess.play_move(m);
        if legal {
            chess.undo_move();
        } else {
            saw_illegal = true;
        }
        assert!(check_incrementals(&chess.board));
        assert_eq!(chess.board.fen_string(), before_fen);
        assert_eq!(chess.board.hash, before_hash);
    }
    assert!(saw_illegal);
}

#[test]
fn hash_stays_fresh_through_a_game() {
    let mut chess = Chess::new().unwrap();
    // a short opening: e2e4, e7e5, g1f3, b8c6
    let moves = [(12usize, 28usize), (52, 36), (6, 21), (57, 42)];
    for (from, to) in moves {
        let list = chess.generate_moves();
        let mut played = false;
        for m in list.iter() {
            if m.from() == from && m.to() == to {
                assert!(chess.play_move(m));
                played = true;
                break;
            }
        }
        assert!(played);
        assert!(check_incrementals(&chess.board));
    }
    chess.undo_move();
    chess.undo_move();
    assert!(check_incrementals(&chess.board));
}

#[test]
fn board_string_renders() {
    let chess = Chess::new().unwrap();
    let s = chess.board.board_string();
    assert!(s.contains('R'));
    assert!(s.contains('k'));
    let bb = chess.board.occupancy.bitboard_string();
    assert!(bb.len() > 0);
}
