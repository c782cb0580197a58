//! Zobrist hashing keys: one random 64-bit key per (side, piece, square),
//! per en-passant file, per castling right, and one for the side to move.
//! Position hashes are maintained incrementally by XORing keys in and out,
//! so every mutation primitive below is an exact XOR on the hash word.

use vstd::prelude::*;
use rand::Rng;
use rand::SeedableRng;

verus! {

use crate::game::{Colour, Piece, Square};

/// The words rand's standard generator yields for a seed: the first `n`
/// draws of a `StdRng` seeded with `seed`. Within the pinned rand version
/// this is a pure function of the seed alone, which is what lets the key
/// tables be pinned to it.
pub uninterp spec fn key_stream(seed: u64, n: int) -> Seq<u64>;

/// Relies on rand's `StdRng::seed_from_u64` and `Rng::gen`: the generator
/// is seeded deterministically and each draw depends only on the seed and
/// its position, so the result is the named stream.
#[verifier::external_body]
fn gen_keys(seed: u64, n: usize) -> (r: Vec<u64>)
    ensures
        r@ == key_stream(seed, n as int),
        r@.len() == n,
{
    let mut rng = rand::rngs::StdRng::seed_from_u64(seed);
    let mut keys = Vec::with_capacity(n);
    for _ in 0..n {
        keys.push(rng.gen());
    }
    keys
}

/// The Zobrist key tables.
#[derive(Clone)]
pub struct Zobrist {
    piece: Vec<u64>,
    side: u64,
    ep: Vec<u64>,
    castling: Vec<u64>,
}

impl Zobrist {
    /// The tables have their fixed shapes: 2 sides times 6 piece kinds
    /// times 64 squares, 8 en-passant files, 4 castling rights.
    pub open spec fn wf(&self) -> bool {
        self.spec_piece().len() == 768 && self.spec_ep().len() == 8 && self.spec_castling().len()
            == 4
    }

    pub closed spec fn spec_piece(&self) -> Seq<u64> {
        self.piece@
    }

    pub closed spec fn spec_ep(&self) -> Seq<u64> {
        self.ep@
    }

    pub closed spec fn spec_castling(&self) -> Seq<u64> {
        self.castling@
    }

    pub closed spec fn spec_side(&self) -> u64 {
        self.side
    }

    /// The key of a piece of a colour on a square.
    pub open spec fn piece_key(&self, colour: Colour, piece: Piece, square: Square) -> u64 {
        self.spec_piece()[colour.spec_index() * 384 + piece.spec_index() * 64
            + square.spec_inner()]
    }

    /// The key of an en-passant square's file.
    pub open spec fn ep_key(&self, square: Square) -> u64 {
        self.spec_ep()[square.spec_file()]
    }

    /// The key of a castling right.
    pub open spec fn castling_key(&self, kind: int) -> u64 {
        self.spec_castling()[kind]
    }

    /// Builds the tables from the fixed seed 1, drawing the 768 piece
    /// keys, the side key, the 8 en-passant keys and the 4 castling keys
    /// from the generator in that order; every call returns the same
    /// tables.
    pub fn new() -> (r: Self)
        ensures
            r.wf(),
            r.spec_piece() == key_stream(1, 781).subrange(0, 768),
            r.spec_side() == key_stream(1, 781)[768],
            r.spec_ep() == key_stream(1, 781).subrange(769, 777),
            r.spec_castling() == key_stream(1, 781).subrange(777, 781),
    {
        let keys = gen_keys(1, 781);

        let mut piece: Vec<u64> = Vec::new();
        let mut i: usize = 0;
        while i < 768
            invariant
                i <= 768,
                keys@ == key_stream(1, 781),
                keys@.len() == 781,
                piece@ == keys@.subrange(0, i as int),
            decreases 768 - i,
        {
            proof {
                assert(keys@.subrange(0, i + 1) =~= keys@.subrange(0, i as int).push(
                    keys@[i as int],
                ));
            }
            piece.push(keys[i]);
            i += 1;
        }

        let side = keys[768];

        let mut ep: Vec<u64> = Vec::new();
        let mut j: usize = 0;
        while j < 8
            invariant
                j <= 8,
                keys@ == key_stream(1, 781),
                keys@.len() == 781,
                ep@ == keys@.subrange(769, 769 + j),
            decreases 8 - j,
        {
            proof {
                assert(keys@.subrange(769, 769 + j + 1) =~= keys@.subrange(769, 769 + j).push(
                    keys@[769 + j],
                ));
            }
            ep.push(keys[769 + j]);
            j += 1;
        }

        let mut castling: Vec<u64> = Vec::new();
        let mut k: usize = 0;
        while k < 4
            invariant
                k <= 4,
                keys@ == key_stream(1, 781),
                keys@.len() == 781,
                castling@ == keys@.subrange(777, 777 + k),
            decreases 4 - k,
        {
            proof {
                assert(keys@.subrange(777, 777 + k + 1) =~= keys@.subrange(777, 777 + k).push(
                    keys@[777 + k],
                ));
            }
            castling.push(keys[777 + k]);
            k += 1;
        }

        Zobrist { piece, side, ep, castling }
    }

    /// XORs a piece's key into the hash.
    pub fn add_piece(&self, colour: Colour, piece: Piece, square: Square, hash: &mut u64)
        requires
            self.wf(),
            square.wf(),
        ensures
            *final(hash) == *old(hash) ^ self.piece_key(colour, piece, square),
    {
        let idx = colour.index() * 384 + piece.index() * 64 + square.into_inner() as usize;
        *hash = *hash ^ self.piece[idx];
    }

    /// XORs a piece's key out of the hash; XOR is its own inverse, so this
    /// is the same operation as adding it.
    pub fn remove_piece(&self, colour: Colour, piece: Piece, square: Square, hash: &mut u64)
        requires
            self.wf(),
            square.wf(),
        ensures
            *final(hash) == *old(hash) ^ self.piece_key(colour, piece, square),
    {
        let idx = colour.index() * 384 + piece.index() * 64 + square.into_inner() as usize;
        *hash = *hash ^ self.piece[idx];
    }

    /// Moves a piece: its key at the origin goes out and its key at the
    /// destination comes in.
    pub fn move_piece(
        &self,
        colour: Colour,
        piece: Piece,
        from_square: Square,
        to_square: Square,
        hash: &mut u64,
    )
        requires
            self.wf(),
            from_square.wf(),
            to_square.wf(),
        ensures
            *final(hash) == *old(hash) ^ self.piece_key(colour, piece, from_square)
                ^ self.piece_key(colour, piece, to_square),
    {
        let from_idx = colour.index() * 384 + piece.index() * 64 + from_square.into_inner()
            as usize;
        let to_idx = colour.index() * 384 + piece.index() * 64 + to_square.into_inner() as usize;
        *hash = *hash ^ self.piece[from_idx] ^ self.piece[to_idx];
    }

    /// Changes the en-passant square: the old square's file key goes out,
    /// the new square's file key comes in.
    pub fn set_ep(&self, old_sq: Option<Square>, new_sq: Option<Square>, hash: &mut u64)
        requires
            self.wf(),
        ensures
            *final(hash) == (match (old_sq, new_sq) {
                (None, None) => *old(hash),
                (Some(o), None) => *old(hash) ^ self.ep_key(o),
                (None, Some(n)) => *old(hash) ^ self.ep_key(n),
                (Some(o), Some(n)) => *old(hash) ^ self.ep_key(o) ^ self.ep_key(n),
            }),
    {
        if let Some(ep) = old_sq {
            *hash = *hash ^ self.ep[ep.file() as usize];
        }
        if let Some(ep) = new_sq {
            *hash = *hash ^ self.ep[ep.file() as usize];
        }
    }

    /// XORs a castling right's key into the hash.
    pub fn add_castling(&self, kind: usize, hash: &mut u64)
        requires
            self.wf(),
            kind < 4,
        ensures
            *final(hash) == *old(hash) ^ self.castling_key(kind as int),
    {
        *hash = *hash ^ self.castling[kind];
    }

    /// XORs a castling right's key out of the hash.
    pub fn remove_castling(&self, kind: usize, hash: &mut u64)
        requires
            self.wf(),
            kind < 4,
        ensures
            *final(hash) == *old(hash) ^ self.castling_key(kind as int),
    {
        *hash = *hash ^ self.castling[kind];
    }

    /// XORs the side-to-move key.
    pub fn toggle_side(&self, hash: &mut u64)
        requires
            self.wf(),
        ensures
            *final(hash) == *old(hash) ^ self.spec_side(),
    {
        *hash = *hash ^ self.side;
    }
}

impl Default for Zobrist {
    fn default() -> (r: Self)
        ensures
            r.wf(),
            r.spec_piece() == key_stream(1, 781).subrange(0, 768),
            r.spec_side() == key_stream(1, 781)[768],
            r.spec_ep() == key_stream(1, 781).subrange(769, 777),
            r.spec_castling() == key_stream(1, 781).subrange(777, 781),
    {
        Self::new()
    }
}

} // verus!
