//! The correction history: a persistent, per-side table of bias corrections
//! keyed by pawn-structure hash. Each bucket holds a depth-weighted
//! exponential moving average (in 1/256 grain units) of the gap between the
//! static evaluation and the bound the search settled on, and is applied to
//! the raw evaluation at read time.

use vstd::prelude::*;

verus! {

use crate::arith::{clamp_i32, clamp_spec, div_trunc, lemma_tdiv_magnitude, tdiv};
use crate::game::{Colour, EVAL_LIMIT, MATE_VALUE};

/// Bound on every correction bucket, in grain units.
pub const CORRHIST_MAX: i32 = 8192;

/// Number of buckets per side.
pub const CORRHIST_BUCKETS: usize = 16384;

/// The bucket a position falls into: by side, then by pawn hash modulo the
/// bucket count.
pub open spec fn bucket_index(side: Colour, pawn_hash: u64) -> int {
    side.spec_index() * 16384 + (pawn_hash & 16383)
}

/// A bucket after folding in an observed gap `diff` at depth `depth`: a
/// moving average with weight `min(16, depth + 1)` out of 256, clamped.
pub open spec fn corr_update(old_val: int, depth: int, diff: int) -> int {
    let weight = if depth + 1 < 16 { depth + 1 } else { 16 };
    clamp_spec(
        tdiv(old_val * (256 - weight) + diff * 256 * weight, 256),
        -8192,
        8192,
    )
}

/// Law: an update never moves a bucket outside `[-CORRHIST_MAX,
/// CORRHIST_MAX]`, whatever gap was observed.
pub proof fn lemma_corr_update_bounded(old_val: int, depth: int, diff: int)
    ensures
        -8192 <= corr_update(old_val, depth, diff) <= 8192,
{
}

/// A raw evaluation with the bucket's correction applied: the bucket is
/// scaled down by the grain and the sum clamped strictly inside the mate
/// scores.
pub open spec fn corrected_spec(t: Seq<i32>, side: Colour, pawn_hash: u64, raw: int) -> int {
    clamp_spec(
        raw + tdiv(t[bucket_index(side, pawn_hash)] as int, 256),
        -(MATE_VALUE as int) + 1,
        MATE_VALUE as int - 1,
    )
}

/// The correction-history table, both sides' buckets in one vector.
pub struct CorrHist {
    v: Vec<i32>,
}

/// A fresh, zeroed correction history of fixed shape, allocated once by the
/// external driver and threaded into every search instance.
pub fn allocate_correction_history() -> (r: CorrHist)
    ensures
        r.wf(),
        forall|i: int| 0 <= i < 32768 ==> #[trigger] r.table()[i] == 0,
{
    let mut v: Vec<i32> = Vec::new();
    let mut i: usize = 0;
    while i < 32768
        invariant
            i <= 32768,
            v@.len() == i,
            forall|j: int| 0 <= j < i ==> #[trigger] v@[j] == 0,
        decreases 32768 - i,
    {
        v.push(0);
        i += 1;
    }
    CorrHist { v }
}

impl CorrHist {
    /// The buckets, white's first.
    pub closed spec fn table(&self) -> Seq<i32> {
        self.v@
    }

    pub open spec fn wf(&self) -> bool {
        &&& self.table().len() == 32768
        &&& forall|i: int|
            0 <= i < 32768 ==> -8192 <= #[trigger] self.table()[i] <= 8192
    }

    /// Folds an observed evaluation gap into the position's bucket.
    pub fn update(&mut self, side: Colour, pawn_hash: u64, depth: i32, diff: i32)
        requires
            old(self).wf(),
            1 <= depth <= 300,
            -200_000 <= diff <= 200_000,
        ensures
            final(self).wf(),
            final(self).table() == old(self).table().update(
                bucket_index(side, pawn_hash),
                corr_update(
                    old(self).table()[bucket_index(side, pawn_hash)] as int,
                    depth as int,
                    diff as int,
                ) as i32,
            ),
    {
        proof {
            assert(pawn_hash & 16383 < 16384) by (bit_vector);
        }
        let idx = side.index() * 16384 + (pawn_hash & 16383) as usize;
        let old_val = self.v[idx];
        proof {
            assert(-8192 <= self.table()[idx as int] <= 8192);
        }
        let weight: i32 = if depth + 1 < 16 { depth + 1 } else { 16 };
        let scaled = diff * 256;
        proof {
            assert(
                -8192 * 256 <= old_val * (256 - weight) <= 8192 * 256
            ) by (nonlinear_arith)
                requires -8192 <= old_val <= 8192 && 1 <= weight <= 16;
            assert(
                -200_000 * 256 * 16 <= scaled * weight <= 200_000 * 256 * 16
            ) by (nonlinear_arith)
                requires -200_000 * 256 <= scaled <= 200_000 * 256 && 1 <= weight <= 16;
        }
        let mixed = old_val * (256 - weight) + scaled * weight;
        let averaged = div_trunc(mixed, 256);
        let nv = clamp_i32(averaged, -CORRHIST_MAX, CORRHIST_MAX);
        self.v[idx] = nv;
        proof {
            assert(scaled * weight == diff * 256 * weight) by (nonlinear_arith)
                requires scaled == diff * 256;
            assert(final(self).table() =~= old(self).table().update(
                bucket_index(side, pawn_hash),
                corr_update(
                    old(self).table()[bucket_index(side, pawn_hash)] as int,
                    depth as int,
                    diff as int,
                ) as i32,
            ));
        }
    }

    /// A raw evaluation corrected by the position's bucket, clamped strictly
    /// inside the mate scores.
    pub fn apply(&self, side: Colour, pawn_hash: u64, raw: i32) -> (r: i32)
        requires
            self.wf(),
            -EVAL_LIMIT <= raw <= EVAL_LIMIT,
        ensures
            r == corrected_spec(self.table(), side, pawn_hash, raw as int),
            -MATE_VALUE < r < MATE_VALUE,
    {
        proof {
            assert(pawn_hash & 16383 < 16384) by (bit_vector);
        }
        let idx = side.index() * 16384 + (pawn_hash & 16383) as usize;
        let bucket = self.v[idx];
        proof {
            assert(-8192 <= self.table()[idx as int] <= 8192);
            lemma_tdiv_magnitude(bucket as int, 256);
        }
        let adj = div_trunc(bucket, 256);
        clamp_i32(raw + adj, -MATE_VALUE + 1, MATE_VALUE - 1)
    }
}

} // verus!
