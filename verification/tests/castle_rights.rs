use chess::castle::CastleRight;
use chess::castle::CastleRights;

#[test]
fn bit_or_assign() {
    let mut castle_rights = CastleRights::default();

    castle_rights.insert(CastleRight::WhiteKing);
    assert_eq!(castle_rights, CastleRights(0b0001));

    castle_rights.insert(CastleRight::WhiteQueen);
    assert_eq!(castle_rights, CastleRights(0b0011));

    castle_rights.insert(CastleRight::BlackKing);
    assert_eq!(castle_rights, CastleRights(0b0111));

    castle_rights.insert(CastleRight::BlackQueen);
    assert_eq!(castle_rights, CastleRights(0b1111));
}

#[test]
fn from_char() {
    assert_eq!(CastleRight::from('K'), CastleRight::WhiteKing);
    assert_eq!(CastleRight::from('Q'), CastleRight::WhiteQueen);
    assert_eq!(CastleRight::from('k'), CastleRight::BlackKing);
    assert_eq!(CastleRight::from('q'), CastleRight::BlackQueen);
}

#[test]
fn display() {
    assert_eq!(CastleRight::WhiteKing.to_string(), "K");
    assert_eq!(CastleRight::WhiteQueen.to_string(), "Q");
    assert_eq!(CastleRight::BlackKing.to_string(), "k");
    assert_eq!(CastleRight::BlackQueen.to_string(), "q");
}

#[test]
fn rights_string() {
    assert_eq!(CastleRights(0b1111).to_string(), "KQkq");
    assert_eq!(CastleRights(0b0101).to_string(), "Kk");
    assert_eq!(CastleRights(0).to_string(), "");
}

#[test]
fn square_rights() {
    assert_eq!(CastleRights::square(7), CastleRights(0b0001));
    assert_eq!(CastleRights::square(0), CastleRights(0b0010));
    assert_eq!(CastleRights::square(4), CastleRights(0b0011));
    assert_eq!(CastleRights::square(63), CastleRights(0b0100));
    assert_eq!(CastleRights::square(56), CastleRights(0b1000));
    assert_eq!(CastleRights::square(60), CastleRights(0b1100));
    assert_eq!(CastleRights::square(27), CastleRights(0));
}

#[test]
fn blockers_and_squares() {
    assert_eq!(CastleRight::WhiteKing.blocker(), (1u64 << 5) | (1u64 << 6));
    assert_eq!(CastleRight::WhiteQueen.blocker(), (1u64 << 1) | (1u64 << 2) | (1u64 << 3));
    assert_eq!(CastleRight::WhiteKing.neighbor(), 5);
    assert_eq!(CastleRight::WhiteKing.square(), 6);
    assert_eq!(CastleRight::BlackQueen.square(), 58);
    let all = CastleRight::iter();
    assert_eq!(all.len(), 4);
    assert_eq!(all[0], CastleRight::WhiteKing);
    assert_eq!(all[3], CastleRight::BlackQueen);
}
