use yukari::game::{Colour, Move, Piece, Square};
use yukari::tt::{pack_data, tt_probe, tt_store, unpack_data, TtData, TtFlags};
use yukari::{allocate_tt, TtEntry, Zobrist};

fn mv(from: u8, dest: u8, capture: bool, promote: u8) -> Move {
    Move { from: Square::new(from), dest: Square::new(dest), capture, promote }
}

#[test]
fn allocate_tt_sizes() {
    // One megabyte is 2^20 bytes: 2^16 sixteen-byte slots.
    let tt = allocate_tt(1);
    assert_eq!(tt.len(), 65536);
    assert!(tt.iter().all(|e| e.key == 0 && e.data == 0));
    let tt = allocate_tt(2);
    assert_eq!(tt.len(), 131072);
    // Three megabytes is not a power of two: the size rounds down.
    let tt = allocate_tt(3);
    assert_eq!(tt.len(), 131072);
}

#[test]
fn pack_unpack_round_trip() {
    let records = [
        TtData { flags: TtFlags::Exact, depth: 0, score: 0, m: None },
        TtData { flags: TtFlags::Lower, depth: 5, score: -123, m: Some(mv(10, 20, true, 0)) },
        TtData { flags: TtFlags::Upper, depth: 250, score: 32767, m: Some(mv(63, 0, false, 5)) },
        TtData { flags: TtFlags::Exact, depth: 1, score: -32768, m: Some(mv(0, 63, true, 1)) },
    ];
    for d in records {
        assert_eq!(unpack_data(pack_data(d)), d);
    }
}

#[test]
fn tt_store_then_probe_returns_move() {
    let mut tt = vec![TtEntry { key: 0, data: 0 }; 4];
    let m = mv(12, 28, false, 0);
    let d = TtData { flags: TtFlags::Exact, depth: 7, score: 44, m: Some(m) };
    tt_store(&mut tt, 0xdead_beef, d);
    assert_eq!(tt_probe(&tt, 0xdead_beef), Some(m));
}

#[test]
fn tt_probe_rejects_other_hash_and_empty_slot() {
    let mut tt = vec![TtEntry { key: 0, data: 0 }; 4];
    // An untouched slot never validates, even for hash 0.
    assert_eq!(tt_probe(&tt, 0), None);
    assert_eq!(tt_probe(&tt, 3), None);
    let d = TtData { flags: TtFlags::Lower, depth: 1, score: 1, m: Some(mv(1, 2, false, 0)) };
    tt_store(&mut tt, 7, d);
    // A different hash mapping to the same slot fails the XOR check.
    assert_eq!(tt_probe(&tt, 11), None);
}

#[test]
fn tt_probe_rejects_torn_slot() {
    let mut tt = vec![TtEntry { key: 0, data: 0 }; 4];
    let d = TtData { flags: TtFlags::Exact, depth: 3, score: 9, m: Some(mv(4, 5, true, 0)) };
    tt_store(&mut tt, 6, d);
    assert_eq!(tt_probe(&tt, 6), Some(mv(4, 5, true, 0)));
    // Simulate a torn pair: one word of the slot changes alone.
    tt[6 & 3].data ^= 0x10;
    assert_eq!(tt_probe(&tt, 6), None);
}

#[test]
fn tt_last_writer_wins() {
    let mut tt = vec![TtEntry { key: 0, data: 0 }; 2];
    let first = TtData { flags: TtFlags::Exact, depth: 1, score: 0, m: Some(mv(1, 2, false, 0)) };
    let second = TtData { flags: TtFlags::Exact, depth: 9, score: 0, m: Some(mv(3, 4, false, 0)) };
    // Hashes 5 and 7 share slot 1; the later store overwrites.
    tt_store(&mut tt, 5, first);
    tt_store(&mut tt, 7, second);
    assert_eq!(tt_probe(&tt, 5), None);
    assert_eq!(tt_probe(&tt, 7), Some(mv(3, 4, false, 0)));
}

#[test]
fn zobrist_xor_is_involutive() {
    let z = Zobrist::new();
    let start: u64 = 0x1234_5678;
    let mut h = start;
    z.add_piece(Colour::White, Piece::Knight, Square::new(18), &mut h);
    assert_ne!(h, start);
    z.remove_piece(Colour::White, Piece::Knight, Square::new(18), &mut h);
    assert_eq!(h, start);
    z.toggle_side(&mut h);
    z.toggle_side(&mut h);
    assert_eq!(h, start);
}

#[test]
fn zobrist_move_piece_composes() {
    let z = Zobrist::new();
    let mut h1: u64 = 0;
    z.move_piece(Colour::Black, Piece::Rook, Square::new(0), Square::new(7), &mut h1);
    let mut h2: u64 = 0;
    z.remove_piece(Colour::Black, Piece::Rook, Square::new(0), &mut h2);
    z.add_piece(Colour::Black, Piece::Rook, Square::new(7), &mut h2);
    assert_eq!(h1, h2);
}

#[test]
fn zobrist_ep_and_castling() {
    let z = Zobrist::new();
    let start: u64 = 99;
    let mut h = start;
    // Squares on the same file carry the same en-passant key.
    z.set_ep(None, Some(Square::new(20)), &mut h);
    z.set_ep(Some(Square::new(4)), None, &mut h);
    assert_eq!(h, start);
    z.add_castling(2, &mut h);
    z.remove_castling(2, &mut h);
    assert_eq!(h, start);
    // The same tables come out for the same fixed seed.
    let z2 = Zobrist::default();
    let mut a: u64 = 0;
    let mut b: u64 = 0;
    z.add_piece(Colour::White, Piece::King, Square::new(33), &mut a);
    z2.add_piece(Colour::White, Piece::King, Square::new(33), &mut b);
    assert_eq!(a, b);
}
