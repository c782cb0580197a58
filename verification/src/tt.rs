//! The transposition table: a shared cache of best-move hints keyed by
//! position hash. A slot is a pair of 64-bit words `{key, data}`, where
//! `data` packs `{move, score, node type, depth}` into one word and `key`
//! stores the position hash XORed with `data`; a reader trusts a slot only
//! if the XOR check matches, so a torn pair reads as absent. A store always
//! overwrites the indexed slot: last writer wins, no aging.

use vstd::prelude::*;

verus! {

use vstd::arithmetic::div_mod::{
    lemma_div_by_multiple, lemma_fundamental_div_mod_converse,
};
use vstd::arithmetic::power2::{lemma_pow2_adds, lemma_pow2_pos, lemma_pow2_unfold, pow2};
use vstd::bits::lemma_u64_low_bits_mask_is_mod;
use vstd::bits::low_bits_mask;
use crate::game::Move;

/// The kind of bound a stored score represents.
#[derive(Clone, Copy, PartialEq, Eq, Structural, Debug)]
pub enum TtFlags {
    Exact,
    Upper,
    Lower,
}

/// One table slot: two independently written words. `key` is the position
/// hash XORed with `data`, which lets a reader validate the pair.
#[derive(Clone, Copy, PartialEq, Eq, Structural, Debug, Default)]
pub struct TtEntry {
    pub key: u64,
    pub data: u64,
}

/// The record packed into a slot's `data` word.
#[derive(Clone, Copy, PartialEq, Eq, Structural, Debug)]
pub struct TtData {
    pub flags: TtFlags,
    pub depth: u8,
    pub score: i16,
    pub m: Option<Move>,
}

impl TtData {
    pub open spec fn wf(self) -> bool {
        match self.m {
            Some(m) => m.wf(),
            None => true,
        }
    }
}

/// Numeric code of a node type: the high byte of the data word.
pub open spec fn flags_code(f: TtFlags) -> int {
    match f {
        TtFlags::Exact => 0,
        TtFlags::Upper => 1,
        TtFlags::Lower => 2,
    }
}

/// The 17 low bits encoding an optional move: a presence bit above origin
/// (6 bits), destination (6 bits), capture flag (1 bit) and promotion
/// (3 bits).
pub open spec fn move_bits(m: Option<Move>) -> int {
    match m {
        None => 0,
        Some(m) => 0x10000 + m.from.spec_inner() + m.dest.spec_inner() * 0x40 + (
            if m.capture {
                0x1000int
            } else {
                0
            }
        ) + m.promote * 0x2000,
    }
}

/// The 16-bit two's-complement image of a score.
pub open spec fn score_bits(s: i16) -> int {
    if s < 0 {
        s + 0x10000
    } else {
        s as int
    }
}

/// The data word of a record: flags in the high byte, then depth, then the
/// score image, then the move bits.
pub open spec fn pack_spec(d: TtData) -> int {
    flags_code(d.flags) * 0x100_0000_0000_0000 + d.depth * 0x1_0000_0000_0000 + score_bits(
        d.score,
    ) * 0x1_0000_0000 + move_bits(d.m)
}

/// The record a data word decodes to.
pub open spec fn unpack_spec(x: int) -> TtData {
    let mb = x % 0x1_0000_0000;
    let sb = (x / 0x1_0000_0000) % 0x1_0000;
    let db = (x / 0x1_0000_0000_0000) % 0x100;
    let fb = (x / 0x100_0000_0000_0000) % 0x100;
    TtData {
        flags: if fb == 1 {
            TtFlags::Upper
        } else if fb == 2 {
            TtFlags::Lower
        } else {
            TtFlags::Exact
        },
        depth: db as u8,
        score: if sb >= 0x8000 {
            (sb - 0x1_0000) as i16
        } else {
            sb as i16
        },
        m: if 0x10000 <= mb < 0x20000 {
            Some(
                Move {
                    from: crate::game::Square::spec_from_inner((mb % 0x40) as u8),
                    dest: crate::game::Square::spec_from_inner(((mb / 0x40) % 0x40) as u8),
                    capture: (mb / 0x1000) % 2 == 1,
                    promote: ((mb / 0x2000) % 8) as u8,
                },
            )
        } else {
            None
        },
    }
}

/// Packing a well-formed record and unpacking the word gives the record
/// back; with the XOR key check this is what makes a stored hint
/// recoverable.
pub proof fn lemma_pack_unpack(d: TtData)
    requires
        d.wf(),
    ensures
        0 <= pack_spec(d) < 0x1_0000_0000_0000_0000,
        unpack_spec(pack_spec(d)) == d,
{
    let mb = move_bits(d.m);
    let sb = score_bits(d.score);
    let db = d.depth as int;
    let fb = flags_code(d.flags);
    let x = pack_spec(d);
    match d.m {
        None => {
            assert(0 <= mb < 0x20000);
        },
        Some(m) => {
            assert(m.from.spec_inner() < 64 && m.dest.spec_inner() < 64 && m.promote <= 5);
            assert(0 <= m.dest.spec_inner() * 0x40 <= 63 * 0x40) by (nonlinear_arith)
                requires m.dest.spec_inner() < 64;
            assert(0 <= m.promote * 0x2000 <= 5 * 0x2000) by (nonlinear_arith)
                requires m.promote <= 5;
            assert(0x10000 <= mb < 0x20000);
        },
    }
    assert(0 <= sb < 0x1_0000);
    assert(0 <= db < 0x100);
    assert(0 <= fb < 3);
    let hi = fb * 0x100_0000 + db * 0x1_0000 + sb;
    assert(x == hi * 0x1_0000_0000 + mb);
    lemma_fundamental_div_mod_converse(x, 0x1_0000_0000, hi, mb);
    assert(x % 0x1_0000_0000 == mb && x / 0x1_0000_0000 == hi);
    let hi2 = fb * 0x100 + db;
    assert(hi == hi2 * 0x1_0000 + sb);
    lemma_fundamental_div_mod_converse(hi, 0x1_0000, hi2, sb);
    lemma_fundamental_div_mod_converse(hi2, 0x100, fb, db);
    assert(x / 0x1_0000_0000_0000 == (x / 0x1_0000_0000) / 0x1_0000) by {
        vstd::arithmetic::div_mod::lemma_div_denominator(x, 0x1_0000_0000, 0x1_0000);
    }
    assert(x / 0x100_0000_0000_0000 == hi2 / 0x100) by {
        vstd::arithmetic::div_mod::lemma_div_denominator(x, 0x1_0000_0000_0000, 0x100);
        vstd::arithmetic::div_mod::lemma_div_denominator(x, 0x1_0000_0000, 0x1_0000);
    }
    assert(fb % 0x100 == fb);
    match d.m {
        None => {
        },
        Some(m) => {
            crate::game::Square::lemma_inner(m.from);
            crate::game::Square::lemma_inner(m.dest);
            let f = m.from.spec_inner() as int;
            let dd = m.dest.spec_inner() as int;
            let cb: int = if m.capture {
                1
            } else {
                0
            };
            let pb = m.promote as int;
            assert(mb == (8 + pb) * 0x2000 + cb * 0x1000 + dd * 0x40 + f);
            lemma_fundamental_div_mod_converse(mb, 0x40, (8 + pb) * 0x80 + cb * 0x40 + dd, f);
            lemma_fundamental_div_mod_converse(
                mb,
                0x1000,
                (8 + pb) * 2 + cb,
                dd * 0x40 + f,
            );
            lemma_fundamental_div_mod_converse(mb, 0x2000, 8 + pb, cb * 0x1000 + dd * 0x40 + f);
            assert((mb / 0x40) % 0x40 == dd) by {
                lemma_fundamental_div_mod_converse(
                    (8 + pb) * 0x80 + cb * 0x40 + dd,
                    0x40,
                    (8 + pb) * 2 + cb,
                    dd,
                );
            }
            assert((mb / 0x1000) % 2 == cb) by {
                lemma_fundamental_div_mod_converse((8 + pb) * 2 + cb, 2, 8 + pb, cb);
            }
            assert((mb / 0x2000) % 8 == pb) by {
                lemma_fundamental_div_mod_converse(8 + pb, 8, 1, pb);
            }
        },
    }
    if d.score < 0 {
        assert(sb - 0x1_0000 == d.score);
    }
    assert(unpack_spec(x) == d);
}

/// Packs a record into its data word.
pub fn pack_data(d: TtData) -> (r: u64)
    requires
        d.wf(),
    ensures
        r as int == pack_spec(d),
{
    proof {
        lemma_pack_unpack(d);
    }
    let flags: u64 = match d.flags {
        TtFlags::Exact => 0,
        TtFlags::Upper => 1,
        TtFlags::Lower => 2,
    };
    let score: u64 = if d.score >= 0 {
        d.score as u64
    } else {
        (d.score as i32 + 0x1_0000) as u64
    };
    let mv: u64 = match d.m {
        None => 0,
        Some(m) => {
            let cap: u64 = if m.capture {
                0x1000
            } else {
                0
            };
            0x10000 + (m.from.into_inner() as u64) + (m.dest.into_inner() as u64) * 0x40 + cap
                + (m.promote as u64) * 0x2000
        },
    };
    flags * 0x100_0000_0000_0000 + (d.depth as u64) * 0x1_0000_0000_0000 + score * 0x1_0000_0000
        + mv
}

/// Unpacks a data word.
pub fn unpack_data(x: u64) -> (r: TtData)
    ensures
        r == unpack_spec(x as int),
{
    let mb = x % 0x1_0000_0000;
    let sb = (x / 0x1_0000_0000) % 0x1_0000;
    let db = (x / 0x1_0000_0000_0000) % 0x100;
    let fb = (x / 0x100_0000_0000_0000) % 0x100;
    let flags = if fb == 1 {
        TtFlags::Upper
    } else if fb == 2 {
        TtFlags::Lower
    } else {
        TtFlags::Exact
    };
    let score: i16 = if sb >= 0x8000 {
        (sb as i32 - 0x1_0000) as i16
    } else {
        sb as i16
    };
    let m: Option<Move> = if 0x10000 <= mb && mb < 0x20000 {
        Some(
            Move {
                from: crate::game::Square::new((mb % 0x40) as u8),
                dest: crate::game::Square::new(((mb / 0x40) % 0x40) as u8),
                capture: (mb / 0x1000) % 2 == 1,
                promote: ((mb / 0x2000) % 8) as u8,
            },
        )
    } else {
        None
    };
    TtData { flags, depth: db as u8, score, m }
}

/// Shape of a live table: a power-of-two number of slots.
pub open spec fn tt_shape(tt: Seq<TtEntry>) -> bool {
    exists|k: nat| k < 60 && tt.len() == pow2(k)
}

/// A live table has at least one slot.
pub proof fn lemma_tt_nonempty(tt: Seq<TtEntry>)
    requires
        tt_shape(tt),
    ensures
        tt.len() >= 1,
{
    let k = choose|k: nat| k < 60 && tt.len() == pow2(k);
    lemma_pow2_pos(k);
}

/// The slot a hash maps to.
pub open spec fn tt_index(tt: Seq<TtEntry>, hash: u64) -> int {
    hash as int % tt.len() as int
}

/// What a probe of `hash` reads: the packed move, if the slot passes the
/// XOR validation, else nothing.
pub open spec fn probe_spec(tt: Seq<TtEntry>, hash: u64) -> Option<Move> {
    let e = tt[tt_index(tt, hash)];
    if e.key ^ e.data == hash {
        unpack_spec(e.data as int).m
    } else {
        None
    }
}

/// The table after a store of `d` for `hash`: the indexed slot is
/// overwritten, every other slot is untouched.
pub open spec fn store_spec(tt: Seq<TtEntry>, hash: u64, d: TtData) -> Seq<TtEntry> {
    let w = pack_spec(d) as u64;
    tt.update(tt_index(tt, hash), TtEntry { key: hash ^ w, data: w })
}

/// TT round trip (law): storing a record for a hash and immediately probing
/// the same hash, with no intervening write to the slot, returns the stored
/// move.
pub proof fn lemma_tt_round_trip(tt: Seq<TtEntry>, hash: u64, d: TtData)
    requires
        tt.len() >= 1,
        d.wf(),
    ensures
        probe_spec(store_spec(tt, hash, d), hash) == d.m,
{
    lemma_pack_unpack(d);
    let w = pack_spec(d) as u64;
    let tt2 = store_spec(tt, hash, d);
    assert(0 <= tt_index(tt, hash) < tt.len()) by {
        vstd::arithmetic::div_mod::lemma_mod_bound(hash as int, tt.len() as int);
    }
    assert(tt2[tt_index(tt2, hash)] == TtEntry { key: hash ^ w, data: w });
    assert((hash ^ w) ^ w == hash) by (bit_vector);
}

/// Allocates a zeroed table: the largest power-of-two number of 16-byte
/// slots whose footprint fits the requested megabyte budget, found by
/// doubling past the budget and halving once. The budget must be at least
/// one megabyte (a zero budget would make an empty, unindexable table) and
/// at most 2047 megabytes, the largest budget whose doubling search still
/// provably fits a 32-bit address space.
pub fn allocate_tt(megabytes: usize) -> (r: Vec<TtEntry>)
    requires
        1 <= megabytes <= 2047,
    ensures
        tt_shape(r@),
        r@.len() >= 1,
        r@.len() * 16 <= megabytes * 0x10_0000,
        r@.len() * 32 > megabytes * 0x10_0000,
        forall|i: int| 0 <= i < r@.len() ==> #[trigger] r@[i] == (TtEntry { key: 0, data: 0 }),
{
    let target_bytes = megabytes * 0x10_0000;
    let mut size: usize = 1;
    let ghost mut e: nat = 0;
    proof {
        assert(pow2(0) == 1) by {
            lemma_pow2_pos(0);
            vstd::arithmetic::power2::lemma2_to64();
        }
    }
    loop
        invariant
            size == pow2(e),
            1 <= size <= 2 * target_bytes,
            target_bytes == megabytes * 0x10_0000,
            1 <= megabytes <= 2047,
        ensures
            size == pow2(e),
            size > target_bytes,
            size <= 2 * target_bytes,
        decreases 2 * target_bytes - size,
    {
        if size > target_bytes {
            break;
        }
        proof {
            lemma_pow2_unfold(e + 1);
            e = e + 1;
        }
        size = size * 2;
    }
    size = size / 2;
    proof {
        assert(e >= 1) by {
            if e == 0 {
                assert(pow2(0) == 1) by {
                    vstd::arithmetic::power2::lemma2_to64();
                }
            }
        }
        lemma_pow2_unfold(e);
        lemma_div_by_multiple(pow2((e - 1) as nat) as int, 2);
        e = (e - 1) as nat;
    }
    // size is now the largest power of two at most the byte budget; since
    // the budget is at least a megabyte, it is at least 2^20 bytes.
    proof {
        assert(pow2(20) == 0x10_0000) by {
            vstd::arithmetic::power2::lemma2_to64();
        }
        assert(2 * pow2(e) > target_bytes);
        if e < 20 {
            lemma_pow2_unfold(e + 1);
            if e + 1 < 20 {
                vstd::arithmetic::power2::lemma_pow2_strictly_increases(e + 1, 20);
            }
            assert(2 * pow2(e) == pow2(e + 1) <= pow2(20));
        }
        assert(e >= 20);
        lemma_pow2_adds((e - 4) as nat, 4);
        assert(pow2(4) == 16) by {
            vstd::arithmetic::power2::lemma2_to64();
        }
        lemma_div_by_multiple(pow2((e - 4) as nat) as int, 16);
        e = (e - 4) as nat;
    }
    size = size / 16;
    let ghost slots = size as nat;
    let mut tt: Vec<TtEntry> = Vec::new();
    let mut i: usize = 0;
    while i < size
        invariant
            i <= size,
            size == pow2(e),
            tt@.len() == i,
            forall|j: int| 0 <= j < i ==> #[trigger] tt@[j] == (TtEntry { key: 0, data: 0 }),
        decreases size - i,
    {
        tt.push(TtEntry { key: 0, data: 0 });
        i += 1;
    }
    proof {
        assert(e < 60) by {
            if e >= 60 {
                vstd::arithmetic::power2::lemma_pow2_strictly_increases(41, e);
                assert(pow2(41) == 0x200_0000_0000) by {
                    vstd::arithmetic::power2::lemma2_to64_rest();
                }
            }
        }
        assert(tt_shape(tt@));
    }
    tt
}

/// Reads the slot a hash maps to and validates it; any mismatch, including
/// a torn pair, reads as absent.
pub fn tt_probe(tt: &Vec<TtEntry>, hash: u64) -> (r: Option<Move>)
    requires
        tt_shape(tt@),
    ensures
        r == probe_spec(tt@, hash),
{
    proof {
        lemma_tt_mask(tt@, hash);
    }
    let idx = (hash & ((tt.len() - 1) as u64)) as usize;
    let e = tt[idx];
    let data = unpack_data(e.data);
    if e.key ^ e.data == hash {
        data.m
    } else {
        None
    }
}

/// Overwrites the slot a hash maps to with the packed record and its XOR
/// key.
pub fn tt_store(tt: &mut Vec<TtEntry>, hash: u64, d: TtData)
    requires
        tt_shape(old(tt)@),
        d.wf(),
    ensures
        final(tt)@ == store_spec(old(tt)@, hash, d),
        final(tt)@.len() == old(tt)@.len(),
        tt_shape(final(tt)@),
{
    proof {
        lemma_tt_mask(old(tt)@, hash);
        lemma_pack_unpack(d);
    }
    let idx = (hash & ((tt.len() - 1) as u64)) as usize;
    let w = pack_data(d);
    tt[idx] = TtEntry { key: hash ^ w, data: w };
}

/// The masked hash is exactly the hash modulo the (power-of-two) slot
/// count, and in particular indexes into the table.
proof fn lemma_tt_mask(tt: Seq<TtEntry>, hash: u64)
    requires
        tt_shape(tt),
    ensures
        (hash & ((tt.len() - 1) as u64)) as int == tt_index(tt, hash),
        0 <= tt_index(tt, hash) < tt.len(),
{
    let k = choose|k: nat| k < 60 && tt.len() == pow2(k);
    lemma_pow2_pos(k);
    assert(low_bits_mask(k) == (pow2(k) - 1) as nat);
    lemma_u64_low_bits_mask_is_mod(hash, k);
    assert(pow2(k) <= pow2(59)) by {
        if k < 59 {
            vstd::arithmetic::power2::lemma_pow2_strictly_increases(k, 59);
        }
    }
    assert(pow2(59) < 0x1_0000_0000_0000_0000) by {
        vstd::arithmetic::power2::lemma2_to64_rest();
        vstd::arithmetic::power2::lemma_pow2_strictly_increases(59, 64);
        vstd::arithmetic::power2::lemma2_to64_rest();
    }
    vstd::arithmetic::div_mod::lemma_mod_bound(hash as int, pow2(k) as int);
}

} // verus!
