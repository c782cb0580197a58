//! The history heuristic: a per-search table scoring quiet moves by past
//! cutoff success, indexed by (origin, destination). Adjustments carry a
//! gravity term that pulls a value back toward zero in proportion to its
//! magnitude, which keeps every entry inside `[-HISTORY_MAX, HISTORY_MAX]`.

use vstd::prelude::*;

verus! {

use vstd::arithmetic::div_mod::{lemma_fundamental_div_mod, lemma_mod_bound};
use crate::arith::tdiv;
use crate::game::Move;

/// Bound on every history value.
pub const HISTORY_MAX: i32 = 16384;

/// Table slot of a move: origin times 64 plus destination.
pub open spec fn hist_index(m: Move) -> int {
    m.from.spec_inner() * 64 + m.dest.spec_inner()
}

/// A history value after rewarding it with bonus `b`.
pub open spec fn bonus_step(h: int, b: int) -> int {
    h + b - tdiv(h * b, HISTORY_MAX as int)
}

/// A history value after penalising it with penalty `p`.
pub open spec fn penalty_step(h: int, p: int) -> int {
    h - p - tdiv(h * p, HISTORY_MAX as int)
}

/// Law: a reward keeps a history value inside its bound, for any bonus in
/// `[0, HISTORY_MAX]`; this is what keeps the table bounded after any
/// sequence of updates.
pub proof fn lemma_bonus_step_bounded(h: int, b: int)
    requires
        -16384 <= h <= 16384,
        0 <= b <= 16384,
    ensures
        -16384 <= bonus_step(h, b) <= 16384,
{
    let k: int = 16384;
    if h >= 0 {
        let t = tdiv(h * b, k);
        lemma_fundamental_div_mod(h * b, k);
        lemma_mod_bound(h * b, k);
        assert(h * b <= h * k) by (nonlinear_arith)
            requires 0 <= h && b <= k;
        assert((k - h) * (k - b) >= 0) by (nonlinear_arith)
            requires h <= k && b <= k;
        assert(k * h + k * b - h * b <= k * k) by (nonlinear_arith)
            requires (k - h) * (k - b) >= 0 && k == 16384;
        assert(k * t <= h * b);
        assert(h * b <= k * t + k - 1);
        assert(k * t <= k * h);
        assert(t <= h);
        assert(k * (h + b - t) <= k * h + k * b - h * b + k - 1);
        assert(k * (h + b - t) <= k * k + k - 1);
        assert(h + b - t <= k);
        assert(h + b - t >= b >= 0);
    } else {
        let u = -h;
        let t = tdiv(h * b, k);
        assert(h * b == -(u * b)) by (nonlinear_arith)
            requires u == -h;
        assert(u * b >= 0) by (nonlinear_arith)
            requires u >= 0 && b >= 0;
        assert(t == -(u * b / k));
        lemma_fundamental_div_mod(u * b, k);
        lemma_mod_bound(u * b, k);
        assert(k * (u * b / k) <= u * b);
        assert(t <= 0);
        assert(h + b - t >= h + b >= -k);
        assert((k - h) * (k - b) >= 0) by (nonlinear_arith)
            requires h <= k && b <= k;
        assert(k * h + k * b - h * b <= k * k) by (nonlinear_arith)
            requires (k - h) * (k - b) >= 0 && k == 16384;
        assert(k * (h + b - t) == k * h + k * b + k * (-t));
        assert(k * (-t) <= u * b);
        assert(k * (h + b - t) <= k * h + k * b + u * b);
        assert(u * b == -(h * b));
        assert(k * (h + b - t) <= k * k);
        assert(h + b - t <= k);
    }
}

/// Law: a penalty keeps a history value inside its bound, for any penalty in
/// `[0, HISTORY_MAX]`.
pub proof fn lemma_penalty_step_bounded(h: int, p: int)
    requires
        -16384 <= h <= 16384,
        0 <= p <= 16384,
    ensures
        -16384 <= penalty_step(h, p) <= 16384,
{
    lemma_bonus_step_bounded(-h, p);
    let k: int = 16384;
    assert((-h) * p == -(h * p)) by (nonlinear_arith);
    assert(tdiv(-(h * p), k) == -tdiv(h * p, k));
    assert(penalty_step(h, p) == -bonus_step(-h, p));
}

/// The history table of one search instance.
pub struct History {
    v: Vec<i16>,
}

impl History {
    /// The table's contents, by slot.
    pub closed spec fn table(&self) -> Seq<i16> {
        self.v@
    }

    pub open spec fn wf(&self) -> bool {
        &&& self.table().len() == 4096
        &&& forall|i: int|
            0 <= i < 4096 ==> -16384 <= #[trigger] self.table()[i] <= 16384
    }

    /// A fresh, zeroed table.
    pub fn new_table() -> (r: History)
        ensures
            r.wf(),
            forall|i: int| 0 <= i < 4096 ==> #[trigger] r.table()[i] == 0,
    {
        let mut v: Vec<i16> = Vec::new();
        let mut i: usize = 0;
        while i < 4096
            invariant
                i <= 4096,
                v@.len() == i,
                forall|j: int| 0 <= j < i ==> #[trigger] v@[j] == 0,
            decreases 4096 - i,
        {
            v.push(0);
            i += 1;
        }
        History { v }
    }

    /// The current score of a move.
    pub fn get(&self, m: Move) -> (r: i16)
        requires
            self.wf(),
            m.wf(),
        ensures
            r == self.table()[hist_index(m)],
    {
        let idx = (m.from.into_inner() as usize) * 64 + (m.dest.into_inner() as usize);
        self.v[idx]
    }

    /// Rewards the move that caused a cutoff.
    pub fn reward(&mut self, m: Move, b: i32)
        requires
            old(self).wf(),
            m.wf(),
            0 <= b <= 16384,
        ensures
            final(self).wf(),
            final(self).table() == old(self).table().update(
                hist_index(m),
                bonus_step(old(self).table()[hist_index(m)] as int, b as int) as i16,
            ),
    {
        let idx = (m.from.into_inner() as usize) * 64 + (m.dest.into_inner() as usize);
        let h = self.v[idx] as i32;
        proof {
            assert(-16384 <= self.table()[hist_index(m)] <= 16384);
            assert(-16384 * 16384 <= h * b <= 16384 * 16384) by (nonlinear_arith)
                requires -16384 <= h <= 16384 && 0 <= b <= 16384;
        }
        let t = crate::arith::div_trunc(h * b, HISTORY_MAX);
        proof {
            lemma_bonus_step_bounded(h as int, b as int);
        }
        let nh = h + b - t;
        self.v[idx] = nh as i16;
    }

    /// Penalises a quiet move that was tried before the cutoff move.
    pub fn penalize(&mut self, m: Move, p: i32)
        requires
            old(self).wf(),
            m.wf(),
            0 <= p <= 16384,
        ensures
            final(self).wf(),
            final(self).table() == old(self).table().update(
                hist_index(m),
                penalty_step(old(self).table()[hist_index(m)] as int, p as int) as i16,
            ),
    {
        let idx = (m.from.into_inner() as usize) * 64 + (m.dest.into_inner() as usize);
        let h = self.v[idx] as i32;
        proof {
            assert(-16384 <= self.table()[hist_index(m)] <= 16384);
            assert(-16384 * 16384 <= h * p <= 16384 * 16384) by (nonlinear_arith)
                requires -16384 <= h <= 16384 && 0 <= p <= 16384;
        }
        let t = crate::arith::div_trunc(h * p, HISTORY_MAX);
        proof {
            lemma_penalty_step_bounded(h as int, p as int);
        }
        let nh = h - p - t;
        self.v[idx] = nh as i16;
    }
}

} // verus!
