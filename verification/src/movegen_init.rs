//! Building the move generator's tables: the step tables from their shift
//! formulas, and the magic attack tables by enumerating every blocker subset
//! of every square and writing its ray-cast attack set into the hashed slot.
//! A slot collision means the shipped magic constants are wrong: construction
//! reports failure instead of finishing with a bad table.

use vstd::prelude::*;
use crate::bitboard::Bitboard;
use crate::bitboard::BitboardUtils;
use crate::magic::Magic;
use crate::magic::magic_index;
use crate::masks::bishop_attacks_spec;
use crate::masks::bishop_mask_spec;
use crate::masks::rook_attacks_spec;
use crate::masks::rook_mask_spec;
use crate::movegen::BISHOP_TABLE_SIZE;
use crate::movegen::MoveGen;
use crate::movegen::ROOK_TABLE_SIZE;
use crate::movegen::king_steps;
use crate::movegen::knight_steps;
use crate::movegen::magic_ok;
use crate::movegen::pawn_attacks_b;
use crate::movegen::pawn_attacks_w;
use crate::piece::Piece;

verus! {

/// A magic entry is fully built: every subset's slot is inside the table,
/// marked written, and holds the brute-force attack set.
spec fn magic_built(m: Magic, table: Seq<u64>, written: Seq<bool>, s: int, is_rook: bool) -> bool {
    &&& m.shift < 64
    &&& m.mask == if is_rook {
        rook_mask_spec(s)
    } else {
        bishop_mask_spec(s)
    }
    &&& forall|b: u64|
        b & m.mask == b ==> 0 <= #[trigger] magic_index(m, b) < table.len() && written[magic_index(
            m,
            b,
        )] && table[magic_index(m, b)] == if is_rook {
            rook_attacks_spec(b, s)
        } else {
            bishop_attacks_spec(b, s)
        }
}

impl MoveGen {
    /// An empty generator with all tables zeroed; the init functions fill it.
    pub fn empty() -> (r: MoveGen)
        ensures
            r.rooks@.len() == 0,
            r.bishops@.len() == 0,
    {
        MoveGen {
            king: [0u64; 64],
            rooks: Vec::new(),
            bishops: Vec::new(),
            rook_magics: [Magic { mask: 0, shift: 0, offset: 0, nr: 0 };64],
            bishop_magics: [Magic { mask: 0, shift: 0, offset: 0, nr: 0 };64],
            knight: [0u64; 64],
            pawns: [0u64; 128],
        }
    }

    /// Fill the king step table from its shift formula.
    pub fn init_king(&mut self)
        ensures
            forall|s: u64| s < 64 ==> #[trigger] final(self).king[s as int] == king_steps(s),
            final(self).knight == old(self).knight,
            final(self).pawns == old(self).pawns,
            final(self).rooks == old(self).rooks,
            final(self).bishops == old(self).bishops,
            final(self).rook_magics == old(self).rook_magics,
            final(self).bishop_magics == old(self).bishop_magics,
    {
        let mut square: usize = 0;
        while square < 64
            invariant
                square <= 64,
                forall|s: u64| s < square ==> #[trigger] self.king[s as int] == king_steps(s),
                self.knight == old(self).knight,
                self.pawns == old(self).pawns,
                self.rooks == old(self).rooks,
                self.bishops == old(self).bishops,
                self.rook_magics == old(self).rook_magics,
                self.bishop_magics == old(self).bishop_magics,
            decreases 64 - square,
        {
            let b: u64 = 1u64 << (square as u64);
            let fa: u64 = BitboardUtils::file(0);
            let fh: u64 = BitboardUtils::file(7);
            let r1: u64 = BitboardUtils::rank(0);
            let r8: u64 = BitboardUtils::rank(7);
            let moves: u64 = ((b & !fa & !r8) << 7) | ((b & !r8) << 8) | ((b & !r8 & !fh) << 9) | (
            (b & !fh) << 1) | ((b & !r1 & !fh) >> 7) | ((b & !r1) >> 8) | ((b & !r1 & !fa) >> 9) | (
            (b & !fa) >> 1);
            self.king[square] = moves;
            proof {
                assert(self.king[square as int] == king_steps(square as u64));
            }
            square = square + 1;
        }
    }

    /// Fill the knight step table from its shift formula.
    pub fn init_knight(&mut self)
        ensures
            forall|s: u64| s < 64 ==> #[trigger] final(self).knight[s as int] == knight_steps(s),
            final(self).king == old(self).king,
            final(self).pawns == old(self).pawns,
            final(self).rooks == old(self).rooks,
            final(self).bishops == old(self).bishops,
            final(self).rook_magics == old(self).rook_magics,
            final(self).bishop_magics == old(self).bishop_magics,
    {
        let mut square: usize = 0;
        while square < 64
            invariant
                square <= 64,
                forall|s: u64| s < square ==> #[trigger] self.knight[s as int] == knight_steps(s),
                self.king == old(self).king,
                self.pawns == old(self).pawns,
                self.rooks == old(self).rooks,
                self.bishops == old(self).bishops,
                self.rook_magics == old(self).rook_magics,
                self.bishop_magics == old(self).bishop_magics,
            decreases 64 - square,
        {
            let b: u64 = 1u64 << (square as u64);
            let fa: u64 = BitboardUtils::file(0);
            let fb: u64 = BitboardUtils::file(1);
            let fg: u64 = BitboardUtils::file(6);
            let fh: u64 = BitboardUtils::file(7);
            let r1: u64 = BitboardUtils::rank(0);
            let r2: u64 = BitboardUtils::rank(1);
            let r7: u64 = BitboardUtils::rank(6);
            let r8: u64 = BitboardUtils::rank(7);
            let moves: u64 = ((b & !r8 & !r7 & !fa) << 15) | ((b & !r8 & !r7 & !fh) << 17) | ((b
                & !r8 & !fa & !fb) << 6) | ((b & !r8 & !fg & !fh) << 10) | ((b & !r1 & !r2 & !fa)
                >> 17) | ((b & !r1 & !r2 & !fh) >> 15) | ((b & !r1 & !fa & !fb) >> 10) | ((b & !r1
                & !fg & !fh) >> 6);
            self.knight[square] = moves;
            proof {
                assert(self.knight[square as int] == knight_steps(square as u64));
            }
            square = square + 1;
        }
    }

    /// Fill both colors' pawn capture tables from their shift formulas.
    pub fn init_pawn(&mut self)
        ensures
            forall|s: u64| s < 64 ==> #[trigger] final(self).pawns[s as int] == pawn_attacks_w(s),
            forall|s: u64| s < 64 ==> #[trigger] final(self).pawns[64 + s as int] == pawn_attacks_b(
                s,
            ),
            final(self).king == old(self).king,
            final(self).knight == old(self).knight,
            final(self).rooks == old(self).rooks,
            final(self).bishops == old(self).bishops,
            final(self).rook_magics == old(self).rook_magics,
            final(self).bishop_magics == old(self).bishop_magics,
    {
        let mut square: usize = 0;
        while square < 64
            invariant
                square <= 64,
                forall|s: u64| s < square ==> #[trigger] self.pawns[s as int] == pawn_attacks_w(s),
                forall|s: u64| s < square ==> #[trigger] self.pawns[64 + s as int]
                    == pawn_attacks_b(s),
                self.king == old(self).king,
                self.knight == old(self).knight,
                self.rooks == old(self).rooks,
                self.bishops == old(self).bishops,
                self.rook_magics == old(self).rook_magics,
                self.bishop_magics == old(self).bishop_magics,
            decreases 64 - square,
        {
            let b: u64 = 1u64 << (square as u64);
            let fa: u64 = BitboardUtils::file(0);
            let fh: u64 = BitboardUtils::file(7);
            let white: u64 = ((b & !fa) << 7) | ((b & !fh) << 9);
            let black: u64 = ((b & !fh) >> 7) | ((b & !fa) >> 9);
            self.pawns[square] = white;
            self.pawns[64 + square] = black;
            proof {
                assert(self.pawns[square as int] == pawn_attacks_w(square as u64));
                assert(self.pawns[64 + square as int] == pawn_attacks_b(square as u64));
            }
            square = square + 1;
        }
    }

    /// Build one piece's magic tables from the shipped constants. Every
    /// blocker subset of every square gets its ray-cast attack set written at
    /// its hashed slot; a slot already taken, or a slot out of range, means
    /// the constants do not perfectly hash that square's subsets, and the
    /// build reports failure.
    pub fn init_magic(&mut self, piece: Piece) -> (ok: bool)
        requires
            piece == 2 || piece == 3,
        ensures
            final(self).king == old(self).king,
            final(self).knight == old(self).knight,
            final(self).pawns == old(self).pawns,
            piece == 3 ==> final(self).bishops == old(self).bishops && final(self).bishop_magics
                == old(self).bishop_magics,
            piece == 2 ==> final(self).rooks == old(self).rooks && final(self).rook_magics == old(
                self,
            ).rook_magics,
            ok && piece == 3 ==> final(self).rooks@.len() == ROOK_TABLE_SIZE && (forall|s: int|
                0 <= s < 64 ==> magic_ok(
                    #[trigger] final(self).rook_magics[s],
                    final(self).rooks@,
                    s,
                    true,
                )),
            ok && piece == 2 ==> final(self).bishops@.len() == BISHOP_TABLE_SIZE && (forall|s: int|
                0 <= s < 64 ==> magic_ok(
                    #[trigger] final(self).bishop_magics[s],
                    final(self).bishops@,
                    s,
                    false,
                )),
    {
        let is_rook: bool = piece == 3;
        let table_size: usize = if is_rook {
            ROOK_TABLE_SIZE
        } else {
            BISHOP_TABLE_SIZE
        };
        let mut table: Vec<u64> = vec![0u64; table_size];
        let mut written: Vec<bool> = vec![false; table_size];
        let mut magics: [Magic; 64] = [Magic { mask: 0, shift: 0, offset: 0, nr: 0 };64];
        let mut offset: u64 = 0;
        let mut square: usize = 0;
        while square < 64
            invariant
                square <= 64,
                table@.len() == table_size,
                written@.len() == table_size,
                table_size == if is_rook {
                    102400int
                } else {
                    5248int
                },
                offset <= 0xffff_ffffu64,
                forall|q: int|
                    0 <= q < square ==> magic_built(
                        #[trigger] magics[q],
                        table@,
                        written@,
                        q,
                        is_rook,
                    ),
            decreases 64 - square,
        {
            let mask: u64 = if is_rook {
                MoveGen::rook_mask(square)
            } else {
                MoveGen::bishop_mask(square)
            };
            let mut bits: u64 = 0;
            let mut bi: usize = 0;
            while bi < 64
                invariant
                    bits <= bi,
                    bi <= 64,
                decreases 64 - bi,
            {
                if (mask >> (bi as u64)) & 1u64 == 1u64 {
                    bits = bits + 1;
                }
                bi = bi + 1;
            }
            let shift: u8 = if bits == 0 || bits > 63 {
                63
            } else {
                (64 - bits) as u8
            };
            let blockers: Vec<u64> = MoveGen::blockers(mask);
            let attacks: Vec<u64> = if is_rook {
                MoveGen::rook_attacks(square, &blockers)
            } else {
                MoveGen::bishop_attacks(square, &blockers)
            };
            let nr: u64 = if is_rook {
                rook_magic_nr(square)
            } else {
                bishop_magic_nr(square)
            };
            if offset >= table_size as u64 {
                return false;
            }
            let magic: Magic = Magic { mask, shift, offset, nr };
            let ghost mask_spec = if is_rook {
                rook_mask_spec(square as int)
            } else {
                bishop_mask_spec(square as int)
            };
            let mut i: usize = 0;
            while i < blockers.len()
                invariant
                    i <= blockers@.len(),
                    square < 64,
                    magic.mask == mask,
                    mask == mask_spec,
                    mask_spec == if is_rook {
                        rook_mask_spec(square as int)
                    } else {
                        bishop_mask_spec(square as int)
                    },
                    magic.shift == shift,
                    shift < 64,
                    magic.offset == offset,
                    offset < table_size,
                    magic.nr == nr,
                    table@.len() == table_size,
                    written@.len() == table_size,
                    table_size == if is_rook {
                        102400int
                    } else {
                        5248int
                    },
                    attacks@.len() == blockers@.len(),
                    forall|j: int| 0 <= j < blockers@.len() ==> #[trigger] blockers@[j] & mask
                        == blockers@[j],
                    forall|j: int|
                        0 <= j < blockers@.len() ==> #[trigger] attacks@[j] == if is_rook {
                            rook_attacks_spec(blockers@[j], square as int)
                        } else {
                            bishop_attacks_spec(blockers@[j], square as int)
                        },
                    forall|j: int|
                        0 <= j < i ==> 0 <= #[trigger] magic_index(magic, blockers@[j])
                            < table@.len() && written@[magic_index(magic, blockers@[j])]
                            && table@[magic_index(magic, blockers@[j])] == attacks@[j],
                    forall|q: int|
                        0 <= q < square ==> magic_built(
                            #[trigger] magics[q],
                            table@,
                            written@,
                            q,
                            is_rook,
                        ),
                decreases blockers@.len() - i,
            {
                let b: u64 = blockers[i];
                let hashed: u64 = b.wrapping_mul(nr) >> (shift as u64);
                if hashed >= table_size as u64 {
                    return false;
                }
                let idx: usize = (hashed as usize) + (offset as usize);
                if idx >= table_size {
                    return false;
                }
                proof {
                    assert(b & magic.mask == b);
                    assert(magic_index(magic, b) == hashed as int + offset as int);
                }
                if written[idx] {
                    return false;
                }
                let att: u64 = attacks[i];
                let ghost old_table = table@;
                let ghost old_written = written@;
                table[idx] = att;
                written[idx] = true;
                proof {
                    assert forall|q: int| 0 <= q < square implies magic_built(
                        #[trigger] magics[q],
                        table@,
                        written@,
                        q,
                        is_rook,
                    ) by {
                        assert(magic_built(magics[q], old_table, old_written, q, is_rook));
                        assert forall|b2: u64| b2 & magics[q].mask == b2 implies 0 <= #[trigger] magic_index(
                            magics[q],
                            b2,
                        ) < table@.len() && written@[magic_index(magics[q], b2)]
                            && table@[magic_index(magics[q], b2)] == (if is_rook {
                            rook_attacks_spec(b2, q)
                        } else {
                            bishop_attacks_spec(b2, q)
                        }) by {
                            assert(old_written[magic_index(magics[q], b2)]);
                            assert(magic_index(magics[q], b2) != idx as int);
                        }
                    }
                    assert forall|j: int|
                        0 <= j < i + 1 implies 0 <= #[trigger] magic_index(magic, blockers@[j])
                        < table@.len() && written@[magic_index(magic, blockers@[j])]
                        && table@[magic_index(magic, blockers@[j])] == attacks@[j] by {
                        if j < i {
                            assert(old_written[magic_index(magic, blockers@[j])]);
                            assert(magic_index(magic, blockers@[j]) != idx as int);
                        }
                    }
                }
                i = i + 1;
            }
            proof {
                assert forall|b2: u64| b2 & magic.mask == b2 implies 0 <= #[trigger] magic_index(
                    magic,
                    b2,
                ) < table@.len() && written@[magic_index(magic, b2)] && table@[magic_index(
                    magic,
                    b2,
                )] == (if is_rook {
                    rook_attacks_spec(b2, square as int)
                } else {
                    bishop_attacks_spec(b2, square as int)
                }) by {
                    assert(blockers@.contains(b2));
                    let j = choose|j: int| 0 <= j < blockers@.len() && blockers@[j] == b2;
                    assert(magic_index(magic, blockers@[j]) < table@.len());
                }
                assert(magic_built(magic, table@, written@, square as int, is_rook));
            }
            magics[square] = magic;
            if offset > 0xffff_0000u64 || blockers.len() > 0xffffusize {
                return false;
            }
            offset = offset + blockers.len() as u64;
            square = square + 1;
        }
        if is_rook {
            self.rooks = table;
            self.rook_magics = magics;
        } else {
            self.bishops = table;
            self.bishop_magics = magics;
        }
        proof {
            assert forall|s: int| 0 <= s < 64 implies magic_ok(
                #[trigger] magics[s],
                table@,
                s,
                is_rook,
            ) by {
                assert(magic_built(magics[s], table@, written@, s, is_rook));
            }
        }
        true
    }

    /// Build the whole generator: step tables, then both magic tables from
    /// the shipped constants. `None` reports a construction collision, which
    /// can only mean the constants are wrong.
    pub fn new() -> (r: Option<MoveGen>)
        ensures
            (r matches Some(mg) ==> mg.inv()),
    {
        let mut mg: MoveGen = MoveGen::empty();
        mg.init_king();
        mg.init_knight();
        mg.init_pawn();
        if !mg.init_magic(3) {
            return None;
        }
        if !mg.init_magic(2) {
            return None;
        }
        Some(mg)
    }
}

/// The shipped rook magic constant of a square.
fn rook_magic_nr(square: usize) -> u64
    requires
        square < 64,
{
    let nrs0: [u64; 32] = [
        0x008000108a204000,
        0x0140012000441000,
        0x0c80100080200508,
        0x0180080006100080,
        0x0080040058008042,
        0x80801400800a0001,
        0x0400021021018824,
        0x04800080006a4100,
        0x098080008c29c002,
        0xf011004000810020,
        0x0401001900402000,
        0x010200102200401a,
        0x0000800400080080,
        0x03c0801200040180,
        0x8004000430680326,
        0x3108800080004900,
        0x00004d0021008001,
        0x1120004000403000,
        0xa00a020020809042,
        0x0010008008011380,
        0x0201010004114800,
        0x0001010008028400,
        0x0210e40003288a10,
        0x0027460001048344,
        0x0d45400480002890,
        0x0001400080200081,
        0x0000200100410010,
        0x0008080080801000,
        0x5008240080080082,
        0x00820c0080800200,
        0x00290001000200b4,
        0x2100008200010044,
    ];
    let nrs1: [u64; 32] = [
        0x8a40400090800021,
        0x0004402000401000,
        0x0102c30011002000,
        0x4002300080800800,
        0x0ac0041101000800,
        0x8040800400802201,
        0x40341d1804001006,
        0x3410800040800900,
        0x0680102000404000,
        0x0010062008c04008,
        0x5280410020030010,
        0x042100100061000a,
        0x0022780011010004,
        0x0012220004008080,
        0x4220020310040008,
        0x80001415c0820001,
        0x8008800100214100,
        0x1001004000708100,
        0x02b9032000154500,
        0x9008001000840880,
        0x240d080084008080,
        0x0080800201040080,
        0x0602281022810400,
        0x0240008441040200,
        0x0001450080061021,
        0x0010210040820032,
        0x8003002002401813,
        0x0100a92004100101,
        0x000200a104100802,
        0x60410018060c0041,
        0x0044420083301804,
        0x104a0100428400e6,
    ];
    if square < 32 {
        nrs0[square]
    } else {
        nrs1[square - 32]
    }
}

/// The shipped bishop magic constant of a square.
fn bishop_magic_nr(square: usize) -> u64
    requires
        square < 64,
{
    let nrs0: [u64; 32] = [
        0x0842084131140100,
        0x000810268ea10009,
        0x004808010a200084,
        0x4208218620880004,
        0x0044050402204020,
        0x2009041242881000,
        0x0011880808041091,
        0x0d12004242082010,
        0x0000258428020401,
        0x0000100401144201,
        0x0082300400425001,
        0x0208040c12800016,
        0x14042e0210000000,
        0x0022008220200404,
        0x0814348410021000,
        0x0004005404052810,
        0x2219084022040420,
        0x8022022004040480,
        0x00a0442202040060,
        0x0304000802542001,
        0x4093800c00a00029,
        0x0880200e10042000,
        0x0203080584104602,
        0x0000600202050409,
        0x0148048108208880,
        0x098a1e0020040401,
        0x2004500403050200,
        0x0001180204004010,
        0x0241010102304000,
        0xc001010080300800,
        0x000802000080a463,
        0x0221202002020100,
    ];
    let nrs1: [u64; 32] = [
        0x1252202268b00e02,
        0x01485804000a2410,
        0x0804202802100080,
        0x0081860080480280,
        0x098c080a00102008,
        0x00a014050000a080,
        0x80442400860400c0,
        0x005aa40080a24a00,
        0x800e842022404800,
        0x4290622804042000,
        0x0001104128001000,
        0x0414060164020200,
        0x4021400102121100,
        0x0214901040400a00,
        0x8ea02421a2000080,
        0xc4100102002c2190,
        0x0065010832400080,
        0x0802028404064000,
        0x0000908158081000,
        0x0142080484040004,
        0x00650010e2020002,
        0x0088200410008000,
        0x002c850408020910,
        0x0204010404008118,
        0x40820041c4100802,
        0x0014850108822000,
        0x47000200c0441040,
        0x8202201802050400,
        0x00c002c070020201,
        0x8008a01060110100,
        0x0000a212020a0c00,
        0x0188105009405081,
    ];
    if square < 32 {
        nrs0[square]
    } else {
        nrs1[square - 32]
    }
}

} // verus!
