//! The search core: a recursive fail-hard negamax/alpha-beta driver with
//! check extension, null-move pruning, reverse futility pruning, late-move
//! reduction, history-driven move ordering, a transposition-table hint,
//! repetition detection and a quiescence search at the leaves.

use vstd::prelude::*;

verus! {

use crate::arith::clamp_spec;
use crate::corrhist::{bucket_index, corr_update, corrected_spec, CorrHist};
use crate::game::{Colour, Evaluator, Game, Move, EVAL_LIMIT, MATE_VALUE};
use crate::history::{bonus_step, hist_index, penalty_step, History};
use crate::pv::{pv_clear, pv_get, pv_len, pv_new, pv_push, pv_seq};
use crate::tt::{
    lemma_tt_nonempty, probe_spec, store_spec, tt_probe, tt_shape, tt_store, TtData, TtEntry,
    TtFlags,
};
use vstd::arithmetic::power2::pow2;

/// Window bound of a root search; every narrower window nests inside it.
pub const SCORE_LIMIT: i32 = 100_000;

/// Deepest ply the search will visit; recursion provably terminates
/// because every recursive call moves one ply closer to it.
pub const MAX_PLY: i32 = 1000;

/// Deepest requested depth; with check extensions the effective depth
/// still fits the transposition table's depth byte.
pub const MAX_DEPTH: i32 = 250;

/// The search's immutable tunables. The two late-move-reduction
/// coefficients are fixed-point values in units of 1/256.
#[derive(Clone, Copy)]
pub struct SearchParams {
    pub rfp_margin_base: i32,
    pub rfp_margin_mul: i32,
    pub lmr_base: i32,
    pub lmr_mul: i32,
    pub hist_bonus_base: i32,
    pub hist_bonus_mul: i32,
    pub hist_pen_base: i32,
    pub hist_pen_mul: i32,
}

impl SearchParams {
    /// Ranges under which the search's arithmetic is proved overflow-free,
    /// and under which history bonuses and penalties are nonnegative at
    /// every depth, which keeps the history table bounded.
    pub open spec fn wf(&self) -> bool {
        &&& 0 <= self.rfp_margin_base <= 100_000
        &&& 0 <= self.rfp_margin_mul <= 100_000
        &&& 0 <= self.lmr_base <= 100_000
        &&& 0 <= self.lmr_mul <= 100_000
        &&& 0 <= self.hist_bonus_base <= self.hist_bonus_mul
        &&& self.hist_bonus_mul <= 100_000
        &&& 0 <= self.hist_pen_base <= self.hist_pen_mul
        &&& self.hist_pen_mul <= 100_000
    }
}

impl Default for SearchParams {
    /// The stated default tunables; `lmr_base` is 1.0 and `lmr_mul` 0.5 in
    /// fixed point.
    fn default() -> (r: Self)
        ensures
            r.wf(),
            r.rfp_margin_base == 0,
            r.rfp_margin_mul == 37,
            r.lmr_base == 256,
            r.lmr_mul == 128,
            r.hist_bonus_base == 250,
            r.hist_bonus_mul == 300,
            r.hist_pen_base == 250,
            r.hist_pen_mul == 300,
    {
        Self {
            rfp_margin_base: 0,
            rfp_margin_mul: 37,
            lmr_base: 256,
            lmr_mul: 128,
            hist_bonus_base: 250,
            hist_bonus_mul: 300,
            hist_pen_base: 250,
            hist_pen_mul: 300,
        }
    }
}

/// How many times `h` occurs in `s`.
pub open spec fn count_occurrences(s: Seq<u64>, h: u64) -> nat
    decreases s.len(),
{
    if s.len() == 0 {
        0
    } else {
        count_occurrences(s.drop_last(), h) + (if s.last() == h {
            1nat
        } else {
            0
        })
    }
}

/// Whether the position hash has already occurred at least three times
/// along the path: occurring exactly twice is not yet a repetition draw,
/// a third occurrence is. The whole keystack is scanned each call; there
/// is no truncation to the last irreversible move.
pub fn is_repetition_draw(keystack: &[u64], hash: u64) -> (r: bool)
    ensures
        r == (count_occurrences(keystack@, hash) >= 3),
{
    let mut count: usize = 0;
    let mut i: usize = 0;
    let n = keystack.len();
    while i < n
        invariant
            i <= n,
            n == keystack@.len(),
            count == count_occurrences(keystack@.take(i as int), hash),
            count <= i,
        decreases n - i,
    {
        proof {
            assert(keystack@.take(i + 1).drop_last() =~= keystack@.take(i as int));
            assert(keystack@.take(i + 1).last() == keystack@[i as int]);
        }
        if keystack[i] == hash {
            count += 1;
        }
        i += 1;
    }
    proof {
        assert(keystack@.take(n as int) =~= keystack@);
    }
    count >= 3
}

/// Floor of the base-two logarithm.
pub open spec fn spec_log2(n: int) -> int
    decreases n,
{
    if n < 2 {
        0
    } else {
        1 + spec_log2(n / 2)
    }
}

/// `spec_log2` really is the floor of the base-two logarithm.
pub proof fn lemma_log2_bounds(n: int)
    requires
        n >= 1,
    ensures
        0 <= spec_log2(n),
        pow2(spec_log2(n) as nat) <= n < pow2((spec_log2(n) + 1) as nat),
    decreases n,
{
    vstd::arithmetic::power2::lemma2_to64();
    if n >= 2 {
        lemma_log2_bounds(n / 2);
        let m = spec_log2(n / 2);
        vstd::arithmetic::power2::lemma_pow2_unfold((m + 1) as nat);
        vstd::arithmetic::power2::lemma_pow2_unfold((m + 2) as nat);
        vstd::arithmetic::div_mod::lemma_fundamental_div_mod(n, 2);
    }
}

/// The natural logarithm in fixed point: 256 times ln of `n`, from the
/// base-two logarithm with linear interpolation between powers of two,
/// scaled by 177/256 (an approximation of ln 2).
pub open spec fn spec_ln_fp(n: int) -> int {
    let m = spec_log2(n);
    ((m * 256 + (n - pow2(m as nat)) * 256 / (pow2(m as nat) as int)) * 177) / 256
}

/// The late-move-reduction amount beyond the first ply, from the two
/// fixed-point tunables and the fixed-point logarithms of depth and move
/// index.
pub open spec fn lmr_extra_spec(depth: int, idx: int, p: SearchParams) -> int {
    (p.lmr_base + p.lmr_mul * ((spec_ln_fp(depth) * spec_ln_fp(idx)) / 65536)) / 256
}

/// Floor of the base-two logarithm, together with the matching power of
/// two.
fn log2_floor(n: u64) -> (r: (u64, u64))
    requires
        n >= 1,
    ensures
        r.0 as int == spec_log2(n as int),
        r.1 as nat == pow2(r.0 as nat),
        r.1 <= n,
        r.0 <= 63,
{
    proof {
        lemma_log2_bounds(n as int);
        vstd::arithmetic::power2::lemma2_to64();
        assert(spec_log2(n as int) <= 63) by {
            if spec_log2(n as int) >= 64 {
                let m = spec_log2(n as int) as nat;
                if m > 64 {
                    vstd::arithmetic::power2::lemma_pow2_strictly_increases(64, m);
                }
                assert(pow2(64) == 0x1_0000_0000_0000_0000) by {
                    vstd::arithmetic::power2::lemma2_to64_rest();
                }
            }
        }
    }
    let mut x = n;
    let mut r: u64 = 0;
    let mut p: u64 = 1;
    while x >= 2
        invariant
            1 <= x <= n,
            spec_log2(n as int) == r + spec_log2(x as int),
            spec_log2(n as int) <= 63,
            0 <= spec_log2(x as int),
            p as nat == pow2(r as nat),
            r <= 63,
        decreases x,
    {
        proof {
            lemma_log2_bounds(x as int);
            lemma_log2_bounds(x as int / 2);
            vstd::arithmetic::power2::lemma_pow2_unfold((r + 1) as nat);
            assert(r <= 62);
            assert(pow2(r as nat) <= pow2(62nat)) by {
                if r < 62 {
                    vstd::arithmetic::power2::lemma_pow2_strictly_increases(r as nat, 62);
                }
            }
            assert(pow2(62) == 0x4000_0000_0000_0000) by {
                vstd::arithmetic::power2::lemma2_to64_rest();
            }
        }
        x = x / 2;
        r = r + 1;
        p = p * 2;
    }
    proof {
        lemma_log2_bounds(n as int);
        assert(pow2(r as nat) <= n as int);
    }
    (r, p)
}

/// The fixed-point natural logarithm, 256 times ln of `n`.
fn ln_fp(n: u64) -> (r: u64)
    requires
        n >= 1,
    ensures
        r as int == spec_ln_fp(n as int),
        r <= 11327,
{
    let (m, p) = log2_floor(n);
    proof {
        lemma_log2_bounds(n as int);
        vstd::arithmetic::power2::lemma_pow2_unfold((m + 1) as nat);
        assert(n - p < p);
        assert(((n - p) as int) * 256 < 256 * (p as int)) by (nonlinear_arith)
            requires ((n - p) as int) < (p as int);
        crate::arith::lemma_div_below((n - p) as int * 256, p as int, 256);
    }
    let frac: u64 = (((n - p) as u128 * 256) / (p as u128)) as u64;
    proof {
        assert(m * 256 + frac <= 16383);
        assert((m * 256 + frac) * 177 <= 16383 * 177) by (nonlinear_arith)
            requires m * 256 + frac <= 16383;
        vstd::arithmetic::div_mod::lemma_div_is_ordered(
            ((m * 256 + frac) * 177) as int,
            16383int * 177,
            256,
        );
    }
    (m * 256 + frac) * 177 / 256
}

/// The late-move-reduction amount beyond the first ply.
fn lmr_extra(depth: i32, idx: usize, params: &SearchParams) -> (r: i32)
    requires
        params.wf(),
        3 <= depth <= 300,
        4 <= idx,
    ensures
        r as int == lmr_extra_spec(depth as int, idx as int, *params),
        0 <= r <= 1_000_000,
{
    let ld = ln_fp(depth as u64);
    let li = ln_fp(idx as u64);
    proof {
        assert(ld * li <= 11327 * 11327) by (nonlinear_arith)
            requires ld <= 11327 && li <= 11327;
        crate::arith::lemma_div_below((ld * li) as int, 65536, 1958);
        assert((params.lmr_mul as u64) * (ld * li / 65536) <= 100_000 * 1958) by (nonlinear_arith)
            requires params.lmr_mul as u64 <= 100_000 && ld * li / 65536 <= 1957;
    }
    let prod = ld * li;
    let t = (params.lmr_mul as u64) * (prod / 65536);
    let total = (params.lmr_base as u64) + t;
    let extra = total / 256;
    proof {
        vstd::arithmetic::div_mod::lemma_div_nonincreasing(total as int, 256);
        vstd::arithmetic::div_mod::lemma_div_pos_is_pos(total as int, 256);
        crate::arith::lemma_div_below(total as int, 256, 1_000_001);
    }
    extra as i32
}

/// The history table after penalising, in order, every quiet move among
/// the first `k` of the ordered moves, each with penalty `p`.
pub open spec fn penalized_table(t: Seq<i16>, moves: Seq<Move>, k: int, p: int) -> Seq<i16>
    decreases k,
{
    if k <= 0 {
        t
    } else {
        let t2 = penalized_table(t, moves, k - 1, p);
        let m = moves[k - 1];
        if m.capture {
            t2
        } else {
            t2.update(hist_index(m), penalty_step(t2[hist_index(m)] as int, p) as i16)
        }
    }
}

/// Ordering rank of a move: the transposition-table hint first, then
/// captures (in unspecified relative order), then quiet moves by
/// descending history score.
pub open spec fn move_key(m: Move, tt_move: Option<Move>, hist: Seq<i16>) -> int {
    if tt_move == Some(m) {
        0
    } else if m.capture {
        0x100_0000
    } else {
        0x200_0000 + 16384 - hist[hist_index(m)]
    }
}

/// The ordering rank of a move, as an executable value.
fn key_of(m: Move, tt_move: &Option<Move>, hist: &History) -> (r: i64)
    requires
        hist.wf(),
        m.wf(),
    ensures
        r as int == move_key(m, *tt_move, hist.table()),
{
    let is_tt = match tt_move {
        Some(t) => *t == m,
        None => false,
    };
    if is_tt {
        0
    } else if m.is_capture() {
        0x100_0000
    } else {
        let h = hist.get(m);
        0x200_0000 + 16384 - (h as i64)
    }
}

/// Orders the generated moves: a permutation of the input, sorted by
/// `move_key`, found by repeatedly extracting a minimal-rank move.
fn order_moves(moves: Vec<Move>, tt_move: &Option<Move>, hist: &History) -> (r: Vec<Move>)
    requires
        hist.wf(),
        forall|i: int| 0 <= i < moves@.len() ==> (#[trigger] moves@[i]).wf(),
    ensures
        r@.len() == moves@.len(),
        r@.to_multiset() == moves@.to_multiset(),
        forall|i: int| 0 <= i < r@.len() ==> moves@.contains(#[trigger] r@[i]),
        forall|i: int| 0 <= i < r@.len() ==> (#[trigger] r@[i]).wf(),
        forall|i: int, j: int|
            0 <= i < j < r@.len() ==> move_key(#[trigger] r@[i], *tt_move, hist.table())
                <= move_key(#[trigger] r@[j], *tt_move, hist.table()),
{
    let ghost orig = moves@;
    let mut rest = moves;
    let mut out: Vec<Move> = Vec::new();
    proof {
        broadcast use vstd::seq_lib::group_to_multiset_ensures;

        assert(out@.to_multiset().add(rest@.to_multiset()) =~= orig.to_multiset());
    }
    while rest.len() > 0
        invariant
            hist.wf(),
            out@.len() + rest@.len() == orig.len(),
            out@.to_multiset().add(rest@.to_multiset()) == orig.to_multiset(),
            forall|i: int| 0 <= i < rest@.len() ==> (#[trigger] rest@[i]).wf(),
            forall|i: int| 0 <= i < out@.len() ==> (#[trigger] out@[i]).wf(),
            forall|i: int| 0 <= i < rest@.len() ==> orig.contains(#[trigger] rest@[i]),
            forall|i: int| 0 <= i < out@.len() ==> orig.contains(#[trigger] out@[i]),
            forall|i: int, j: int|
                0 <= i < j < out@.len() ==> move_key(#[trigger] out@[i], *tt_move, hist.table())
                    <= move_key(#[trigger] out@[j], *tt_move, hist.table()),
            forall|i: int, j: int|
                0 <= i < out@.len() && 0 <= j < rest@.len() ==> move_key(
                    #[trigger] out@[i],
                    *tt_move,
                    hist.table(),
                ) <= move_key(#[trigger] rest@[j], *tt_move, hist.table()),
        decreases rest@.len(),
    {
        proof {
            broadcast use vstd::seq_lib::group_to_multiset_ensures;

            assert(orig.contains(rest@[0]));
        }
        let mut bi: usize = 0;
        let mut bk: i64 = key_of(rest[0], tt_move, hist);
        let mut j: usize = 1;
        while j < rest.len()
            invariant
                hist.wf(),
                forall|i: int| 0 <= i < rest@.len() ==> (#[trigger] rest@[i]).wf(),
                j <= rest@.len(),
                bi < j || (bi == 0 && j >= 1),
                bi < rest@.len(),
                1 <= j,
                bk as int == move_key(rest@[bi as int], *tt_move, hist.table()),
                forall|i: int|
                    0 <= i < j ==> bk as int <= move_key(
                        #[trigger] rest@[i],
                        *tt_move,
                        hist.table(),
                    ),
            decreases rest@.len() - j,
        {
            let kj = key_of(rest[j], tt_move, hist);
            if kj < bk {
                bi = j;
                bk = kj;
            }
            j += 1;
        }
        let picked = rest.remove(bi);
        out.push(picked);
        proof {
            broadcast use vstd::seq_lib::group_to_multiset_ensures;

            assert(out@.to_multiset().add(rest@.to_multiset()) =~= orig.to_multiset());
            assert(forall|i: int|
                0 <= i < rest@.len() ==> orig.contains(#[trigger] rest@[i]) && rest@[i].wf());
        }
    }
    proof {
        broadcast use vstd::seq_lib::group_to_multiset_ensures;

        assert(rest@.to_multiset().len() == 0);
        assert(out@.to_multiset() =~= orig.to_multiset());
    }
    out
}

/// The quiescence search's exact value on a valid position: the corrected
/// static evaluation stands pat against `beta`, and otherwise the captures
/// are folded over in generation order by `quiesce_loop`.
pub open spec fn quiesce_value<G: Game, E: Evaluator<G>>(
    ch: Seq<i32>,
    g: G,
    alpha: int,
    beta: int,
    eval: E,
) -> int
    decreases g.measure(), 1int, 0int,
    when g.inv()
{
    let sp = corrected_spec(ch, g.side_spec(), g.pawn_hash_spec(), eval.score_spec(g.side_spec()));
    if sp >= beta {
        beta
    } else {
        quiesce_loop(
            ch,
            g,
            g.caps_spec(),
            0,
            if alpha >= sp {
                alpha
            } else {
                sp
            },
            beta,
            eval,
        )
    }
}

/// One step of the quiescence fold: capture `i` is skipped when its
/// incrementally updated evaluation cannot beat `alpha`, searched
/// recursively otherwise; a child score at or above `beta` ends the fold
/// at `beta`, a better one raises `alpha`.
pub open spec fn quiesce_loop<G: Game, E: Evaluator<G>>(
    ch: Seq<i32>,
    g: G,
    caps: Seq<Move>,
    i: int,
    alpha: int,
    beta: int,
    eval: E,
) -> int
    decreases g.measure(), 0int, caps.len() - i,
    when g.inv() && caps == g.caps_spec() && 0 <= i <= caps.len()
    via quiesce_loop_decreases::<G, E>
{
    if i >= caps.len() {
        alpha
    } else {
        let m = caps[i];
        let ev2 = eval.update_spec(&g, m);
        if ev2.score_spec(g.side_spec()) <= alpha {
            quiesce_loop(ch, g, caps, i + 1, alpha, beta, eval)
        } else {
            let s = -quiesce_value(ch, g.make_spec(m), -beta, -alpha, ev2);
            if s >= beta {
                beta
            } else if s > alpha {
                quiesce_loop(ch, g, caps, i + 1, s, beta, eval)
            } else {
                quiesce_loop(ch, g, caps, i + 1, alpha, beta, eval)
            }
        }
    }
}

#[via_fn]
proof fn quiesce_loop_decreases<G: Game, E: Evaluator<G>>(
    ch: Seq<i32>,
    g: G,
    caps: Seq<Move>,
    i: int,
    alpha: int,
    beta: int,
    eval: E,
) {
    if i < caps.len() {
        let m = caps[i];
        assert(g.caps_spec().contains(m)) by {
            assert(g.caps_spec()[i] == m);
        }
        g.lemma_make_wf(m);
    }
}

#[verifier::external_type_specification]
#[verifier::external_body]
pub struct ExInstant(std::time::Instant);

/// Relies on std's `Instant::now` for the current time; whether the
/// deadline has passed depends on the clock, so nothing is promised.
#[verifier::external_body]
fn past_deadline(t: &std::time::Instant) -> bool {
    std::time::Instant::now() >= *t
}

/// One search instance: it owns its node counters and its private history
/// table, and holds the shared transposition table and correction history
/// by value for the duration of the search; `into_tables` hands them back
/// to the driver afterwards, which keeps their ownership explicit.
pub struct Search {
    nodes: u64,
    qnodes: u64,
    nullmove_attempts: u64,
    nullmove_success: u64,
    stop_after: Option<std::time::Instant>,
    history: History,
    tt: Vec<TtEntry>,
    corrhist: CorrHist,
    params: SearchParams,
}

impl Search {
    pub closed spec fn spec_nodes(&self) -> u64 {
        self.nodes
    }

    pub closed spec fn spec_qnodes(&self) -> u64 {
        self.qnodes
    }

    pub closed spec fn spec_nullmove_attempts(&self) -> u64 {
        self.nullmove_attempts
    }

    pub closed spec fn spec_nullmove_success(&self) -> u64 {
        self.nullmove_success
    }

    pub closed spec fn spec_stop(&self) -> Option<std::time::Instant> {
        self.stop_after
    }

    pub closed spec fn spec_history(&self) -> History {
        self.history
    }

    pub closed spec fn spec_tt(&self) -> Seq<TtEntry> {
        self.tt@
    }

    pub closed spec fn spec_corrhist(&self) -> CorrHist {
        self.corrhist
    }

    pub closed spec fn spec_params(&self) -> SearchParams {
        self.params
    }

    pub open spec fn wf(&self) -> bool {
        &&& self.spec_history().wf()
        &&& self.spec_corrhist().wf()
        &&& tt_shape(self.spec_tt())
        &&& self.spec_params().wf()
    }

    /// A fresh instance: zero counters, a zero history table, borrowing
    /// nothing—the shared tables come in by value and go back out through
    /// `into_tables`.
    pub fn new(
        stop_after: Option<std::time::Instant>,
        tt: Vec<TtEntry>,
        corrhist: CorrHist,
        params: SearchParams,
    ) -> (r: Search)
        requires
            tt_shape(tt@),
            corrhist.wf(),
            params.wf(),
        ensures
            r.wf(),
            r.spec_nodes() == 0,
            r.spec_qnodes() == 0,
            r.spec_nullmove_attempts() == 0,
            r.spec_nullmove_success() == 0,
            forall|i: int| 0 <= i < 4096 ==> #[trigger] r.spec_history().table()[i] == 0,
            r.spec_stop() == stop_after,
            r.spec_tt() == tt@,
            r.spec_corrhist() == corrhist,
            r.spec_params() == params,
    {
        Search {
            nodes: 0,
            qnodes: 0,
            nullmove_attempts: 0,
            nullmove_success: 0,
            stop_after,
            history: History::new_table(),
            tt,
            corrhist,
            params,
        }
    }

    /// Gives the shared tables back to the driver.
    pub fn into_tables(self) -> (r: (Vec<TtEntry>, CorrHist))
        ensures
            r.0@ == self.spec_tt(),
            r.1 == self.spec_corrhist(),
    {
        (self.tt, self.corrhist)
    }

    /// Nodes visited by the main search.
    pub fn nodes(&self) -> (r: u64)
        ensures
            r == self.spec_nodes(),
    {
        self.nodes
    }

    /// Nodes visited by the quiescence search.
    pub fn qnodes(&self) -> (r: u64)
        ensures
            r == self.spec_qnodes(),
    {
        self.qnodes
    }

    /// Null-move pruning attempts and successes, for diagnostics.
    pub fn nullmove_counts(&self) -> (r: (u64, u64))
        ensures
            r.0 == self.spec_nullmove_attempts(),
            r.1 == self.spec_nullmove_success(),
    {
        (self.nullmove_attempts, self.nullmove_success)
    }

    /// Whether a deadline is set and has passed; with no deadline the
    /// answer is always no.
    fn deadline_passed(&self) -> (r: bool)
        ensures
            self.spec_stop() is None ==> r == false,
    {
        match &self.stop_after {
            None => false,
            Some(t) => past_deadline(t),
        }
    }

    /// Probes the table for the current position's move hint; the stored
    /// score is never used for pruning, only the move.
    pub fn probe_tt(&self, hash: u64) -> (r: Option<Move>)
        requires
            self.wf(),
        ensures
            r == probe_spec(self.spec_tt(), hash),
    {
        tt_probe(&self.tt, hash)
    }

    /// Stores a record for a hash, overwriting the indexed slot.
    pub fn write_tt(&mut self, hash: u64, data: TtData)
        requires
            old(self).wf(),
            data.wf(),
        ensures
            final(self).wf(),
            final(self).spec_tt() == store_spec(old(self).spec_tt(), hash, data),
            final(self).spec_tt().len() == old(self).spec_tt().len(),
            final(self).spec_history() == old(self).spec_history(),
            final(self).spec_corrhist() == old(self).spec_corrhist(),
            final(self).spec_params() == old(self).spec_params(),
            final(self).spec_nodes() == old(self).spec_nodes(),
            final(self).spec_qnodes() == old(self).spec_qnodes(),
            final(self).spec_nullmove_attempts() == old(self).spec_nullmove_attempts(),
            final(self).spec_nullmove_success() == old(self).spec_nullmove_success(),
            final(self).spec_stop() == old(self).spec_stop(),
    {
        tt_store(&mut self.tt, hash, data)
    }

    /// The raw static evaluation corrected by the position's
    /// correction-history bucket, clamped strictly inside the mate scores.
    fn eval_with_corrhist<G: Game>(&self, g: &G, raw: i32) -> (r: i32)
        requires
            self.wf(),
            g.inv(),
            -EVAL_LIMIT <= raw <= EVAL_LIMIT,
        ensures
            r == corrected_spec(
                self.spec_corrhist().table(),
                g.side_spec(),
                g.pawn_hash_spec(),
                raw as int,
            ),
            -MATE_VALUE < r < MATE_VALUE,
    {
        self.corrhist.apply(g.side(), g.hash_pawns(), raw)
    }

    /// Bounded capture-only search establishing a stable leaf evaluation,
    /// fail-hard within `[alpha, beta]`; the result equals
    /// [`quiesce_value`] exactly.
    ///
    /// The corrected static evaluation stands pat: at or above `beta` it is
    /// returned as `beta` with no capture examined; otherwise it raises
    /// `alpha`. Each capture whose incrementally updated evaluation already
    /// fails to beat `alpha` is skipped without recursing; the rest are
    /// searched recursively, and a child score at or above `beta` stops the
    /// loop. Termination: captures strictly decrease the game's capture
    /// measure. No transposition-table use, no repetition check.
    pub fn quiesce<G: Game, E: Evaluator<G>>(
        &mut self,
        g: &G,
        alpha: i32,
        beta: i32,
        eval: &E,
        pv: &mut tinyvec::ArrayVec<[Move; 32]>,
    ) -> (r: i32)
        requires
            old(self).wf(),
            g.inv(),
            eval.wf(),
            -SCORE_LIMIT <= alpha < beta <= SCORE_LIMIT,
        ensures
            final(self).wf(),
            alpha <= r <= beta,
            final(self).spec_tt() == old(self).spec_tt(),
            final(self).spec_corrhist() == old(self).spec_corrhist(),
            final(self).spec_history() == old(self).spec_history(),
            final(self).spec_params() == old(self).spec_params(),
            final(self).spec_stop() == old(self).spec_stop(),
            final(self).spec_nodes() == old(self).spec_nodes(),
            final(self).spec_nullmove_attempts() == old(self).spec_nullmove_attempts(),
            final(self).spec_nullmove_success() == old(self).spec_nullmove_success(),
            ({
                let sp = corrected_spec(
                    old(self).spec_corrhist().table(),
                    g.side_spec(),
                    g.pawn_hash_spec(),
                    eval.score_spec(g.side_spec()),
                );
                &&& (sp >= beta ==> (r == beta && pv_seq(*final(pv)).len() == 0 && final(self).spec_qnodes() == old(self).spec_qnodes()))
                &&& ({
                    let a0 = if alpha as int >= sp {
                        alpha as int
                    } else {
                        sp
                    };
                    &&& (sp < beta ==> r >= a0)
                    &&& ((sp < beta && (forall|j: int|
                        0 <= j < g.caps_spec().len() ==> eval.update_spec(
                            g,
                            #[trigger] g.caps_spec()[j],
                        ).score_spec(g.side_spec()) <= a0)) ==> r == a0)
                    &&& ((sp < beta && old(self).spec_qnodes() + g.caps_spec().len()
                        <= u64::MAX && (forall|j: int|
                        0 <= j < g.caps_spec().len() ==> eval.update_spec(
                            g,
                            #[trigger] g.caps_spec()[j],
                        ).score_spec(g.side_spec()) <= a0)) ==> final(self).spec_qnodes()
                        == old(self).spec_qnodes() + g.caps_spec().len())
                })
            }),
            r == quiesce_value(
                old(self).spec_corrhist().table(),
                *g,
                alpha as int,
                beta as int,
                *eval,
            ),
            pv_seq(*final(pv)).len() > 0 ==> g.caps_spec().contains(pv_seq(*final(pv))[0]),
        decreases g.measure(),
    {
        let raw = eval.get(g.side());
        proof {
            eval.lemma_score_bounded(g.side_spec());
        }
        let eval_int = self.eval_with_corrhist(g, raw);
        let ghost sp = eval_int as int;
        let ghost ch = old(self).spec_corrhist().table();
        let ghost target = quiesce_value(ch, *g, alpha as int, beta as int, *eval);

        pv_clear(pv);

        if eval_int >= beta {
            return beta;
        }
        let mut alpha_v = if alpha >= eval_int {
            alpha
        } else {
            eval_int
        };
        let ghost a0 = alpha_v as int;

        let mut caps: Vec<Move> = Vec::new();
        g.generate_captures(&mut caps);

        let mut i: usize = 0;
        while i < caps.len()
            invariant
                self.wf(),
                g.inv(),
                eval.wf(),
                -SCORE_LIMIT <= alpha < beta <= SCORE_LIMIT,
                caps@ == g.caps_spec(),
                i <= caps@.len(),
                self.spec_tt() == old(self).spec_tt(),
                self.spec_corrhist() == old(self).spec_corrhist(),
                self.spec_history() == old(self).spec_history(),
                self.spec_params() == old(self).spec_params(),
                self.spec_stop() == old(self).spec_stop(),
                self.spec_nodes() == old(self).spec_nodes(),
                self.spec_nullmove_attempts() == old(self).spec_nullmove_attempts(),
                self.spec_nullmove_success() == old(self).spec_nullmove_success(),
                sp == corrected_spec(
                    old(self).spec_corrhist().table(),
                    g.side_spec(),
                    g.pawn_hash_spec(),
                    eval.score_spec(g.side_spec()),
                ),
                sp < beta,
                a0 == (if alpha as int >= sp {
                    alpha as int
                } else {
                    sp
                }),
                a0 <= alpha_v < beta,
                alpha <= alpha_v,
                ch == old(self).spec_corrhist().table(),
                target == quiesce_value(ch, *g, alpha as int, beta as int, *eval),
                quiesce_loop(ch, *g, caps@, i as int, alpha_v as int, beta as int, *eval)
                    == target,
                (forall|j: int|
                    0 <= j < i ==> eval.update_spec(g, #[trigger] caps@[j]).score_spec(
                        g.side_spec(),
                    ) <= a0) ==> (alpha_v as int == a0 && pv_seq(*pv).len() == 0),
                ((old(self).spec_qnodes() + caps@.len() <= u64::MAX) && (forall|j: int|
                    0 <= j < i ==> eval.update_spec(g, #[trigger] caps@[j]).score_spec(
                        g.side_spec(),
                    ) <= a0)) ==> self.spec_qnodes() == old(self).spec_qnodes() + i,
                pv_seq(*pv).len() > 0 ==> g.caps_spec().contains(pv_seq(*pv)[0]),
            decreases caps@.len() - i,
        {
            let m = caps[i];
            let ghost av0 = alpha_v as int;
            proof {
                assert(g.caps_spec().contains(m)) by {
                    assert(g.caps_spec()[i as int] == m);
                }
                g.lemma_make_wf(m);
            }
            self.qnodes = self.qnodes.wrapping_add(1);

            let eval2 = eval.update_eval(g, m);

            // Cheap material-based pruning: skip a capture whose updated
            // evaluation already fails to beat alpha.
            let gate = eval2.get(g.side());
            if !(gate <= alpha_v) {
                let g2 = g.make(m);
                let mut child_pv = pv_new();
                proof {
                    eval2.lemma_score_bounded(g2.side_spec());
                }
                let neg = self.quiesce(&g2, -beta, -alpha_v, &eval2, &mut child_pv);
                let score = -neg;

                if score >= beta {
                    proof {
                        assert(quiesce_loop(ch, *g, caps@, i as int, av0, beta as int, *eval)
                            == beta as int);
                    }
                    return beta;
                }

                if score > alpha_v {
                    alpha_v = score;
                    pv_clear(pv);
                    pv_push(pv, m);
                    let cl = pv_len(&child_pv);
                    let mut j2: usize = 0;
                    while j2 < cl
                        invariant
                            pv_seq(*pv).len() >= 1,
                            pv_seq(*pv).len() <= 32,
                            pv_seq(*pv)[0] == m,
                            g.caps_spec().contains(m),
                            cl == pv_seq(child_pv).len(),
                            j2 <= cl,
                        decreases cl - j2,
                    {
                        if pv_len(pv) < 32 {
                            pv_push(pv, pv_get(&child_pv, j2));
                        }
                        j2 += 1;
                    }
                }
                proof {
                    assert(neg as int == quiesce_value(
                        ch,
                        g.make_spec(m),
                        -(beta as int),
                        -av0,
                        eval.update_spec(g, m),
                    ));
                    assert(quiesce_loop(ch, *g, caps@, i as int, av0, beta as int, *eval)
                        == quiesce_loop(
                        ch,
                        *g,
                        caps@,
                        i as int + 1,
                        alpha_v as int,
                        beta as int,
                        *eval,
                    ));
                }
            } else {
                proof {
                    assert(quiesce_loop(ch, *g, caps@, i as int, av0, beta as int, *eval)
                        == quiesce_loop(
                        ch,
                        *g,
                        caps@,
                        i as int + 1,
                        alpha_v as int,
                        beta as int,
                        *eval,
                    ));
                }
            }
            i += 1;
        }
        proof {
            assert(quiesce_loop(ch, *g, caps@, caps@.len() as int, alpha_v as int, beta as int, *eval)
                == alpha_v as int);
        }
        alpha_v
    }

    /// Folds the gap between a settled bound and the static evaluation
    /// into the position's correction-history bucket.
    fn update_corrhist<G: Game>(&mut self, g: &G, depth: i32, diff: i32)
        requires
            old(self).wf(),
            g.inv(),
            1 <= depth <= 300,
            -200_000 <= diff <= 200_000,
        ensures
            final(self).wf(),
            final(self).spec_corrhist().table() == old(self).spec_corrhist().table().update(
                bucket_index(g.side_spec(), g.pawn_hash_spec()),
                corr_update(
                    old(self).spec_corrhist().table()[bucket_index(
                        g.side_spec(),
                        g.pawn_hash_spec(),
                    )] as int,
                    depth as int,
                    diff as int,
                ) as i32,
            ),
            final(self).spec_tt() == old(self).spec_tt(),
            final(self).spec_history() == old(self).spec_history(),
            final(self).spec_params() == old(self).spec_params(),
            final(self).spec_nodes() == old(self).spec_nodes(),
            final(self).spec_qnodes() == old(self).spec_qnodes(),
            final(self).spec_nullmove_attempts() == old(self).spec_nullmove_attempts(),
            final(self).spec_nullmove_success() == old(self).spec_nullmove_success(),
            final(self).spec_stop() == old(self).spec_stop(),
    {
        let side = g.side();
        let pawn_hash = g.hash_pawns();
        self.corrhist.update(side, pawn_hash, depth, diff)
    }

    /// The history bookkeeping of a fail-high: every quiet move tried
    /// before the cutoff move takes the symmetric penalty, in order, and
    /// the cutoff move itself takes the bonus; no other slot changes.
    fn apply_cutoff_history(&mut self, moves: &Vec<Move>, i: usize, m: Move, bonus: i32, penalty: i32)
        requires
            old(self).wf(),
            i <= moves@.len(),
            m.wf(),
            forall|k: int| 0 <= k < moves@.len() ==> (#[trigger] moves@[k]).wf(),
            0 <= bonus <= 16384,
            0 <= penalty <= 16384,
        ensures
            final(self).wf(),
            final(self).spec_history().table() == ({
                let t = penalized_table(
                    old(self).spec_history().table(),
                    moves@,
                    i as int,
                    penalty as int,
                );
                t.update(hist_index(m), bonus_step(t[hist_index(m)] as int, bonus as int) as i16)
            }),
            final(self).spec_tt() == old(self).spec_tt(),
            final(self).spec_corrhist() == old(self).spec_corrhist(),
            final(self).spec_params() == old(self).spec_params(),
            final(self).spec_stop() == old(self).spec_stop(),
            final(self).spec_nodes() == old(self).spec_nodes(),
            final(self).spec_qnodes() == old(self).spec_qnodes(),
            final(self).spec_nullmove_attempts() == old(self).spec_nullmove_attempts(),
            final(self).spec_nullmove_success() == old(self).spec_nullmove_success(),
    {
        let mut j: usize = 0;
        while j < i
            invariant
                j <= i <= moves@.len(),
                self.wf(),
                m.wf(),
                0 <= bonus <= 16384,
                0 <= penalty <= 16384,
                forall|k: int| 0 <= k < moves@.len() ==> (#[trigger] moves@[k]).wf(),
                self.spec_history().table() == penalized_table(
                    old(self).spec_history().table(),
                    moves@,
                    j as int,
                    penalty as int,
                ),
                self.spec_tt() == old(self).spec_tt(),
                self.spec_corrhist() == old(self).spec_corrhist(),
                self.spec_params() == old(self).spec_params(),
                self.spec_stop() == old(self).spec_stop(),
                self.spec_nodes() == old(self).spec_nodes(),
                self.spec_qnodes() == old(self).spec_qnodes(),
                self.spec_nullmove_attempts() == old(self).spec_nullmove_attempts(),
                self.spec_nullmove_success() == old(self).spec_nullmove_success(),
            decreases i - j,
        {
            let mj = moves[j];
            if !mj.is_capture() {
                self.history.penalize(mj, penalty);
            }
            j += 1;
        }
        self.history.reward(m, bonus);
    }

    /// Fail-hard negamax alpha-beta search.
    ///
    /// The result is inside `[lower_bound, upper_bound]`, except that a
    /// stalemate or repetition returns exactly 0 and a checkmate exactly
    /// `-MATE_VALUE + ply`, whatever the window. With no legal moves the
    /// result is pinned: mate when in check, stalemate otherwise (the
    /// latter provided the corrected static evaluation sits below the
    /// window's top, which keeps null-move pruning out of the way). At a
    /// leaf (depth plus check extension at most zero) the result is
    /// exactly the quiescence value, and with a single legal reply at
    /// depth one it is the fail-hard clamp of that reply's negated
    /// quiescence value. The keystack is returned exactly as it came:
    /// pushes and pops pair up. A nonempty principal variation starts
    /// with a generated move.
    #[verifier::rlimit(60)]
    pub fn search<G: Game, E: Evaluator<G>>(
        &mut self,
        g: &G,
        depth: i32,
        lower_bound: i32,
        upper_bound: i32,
        eval: &E,
        pv: &mut tinyvec::ArrayVec<[Move; 32]>,
        ply: i32,
        keystack: &mut Vec<u64>,
    ) -> (r: i32)
        requires
            old(self).wf(),
            g.inv(),
            eval.wf(),
            -SCORE_LIMIT <= lower_bound,
            lower_bound < upper_bound,
            upper_bound <= SCORE_LIMIT,
            -10_000_000 <= depth <= MAX_DEPTH,
            0 <= ply <= MAX_PLY,
        ensures
            final(self).wf(),
            final(keystack)@ == old(keystack)@,
            final(self).spec_params() == old(self).spec_params(),
            final(self).spec_stop() == old(self).spec_stop(),
            final(self).spec_tt().len() == old(self).spec_tt().len(),
            lower_bound <= r <= upper_bound || r == 0 || r == -MATE_VALUE + ply,
            (g.moves_spec().len() > 0 && count_occurrences(old(keystack)@, g.hash_spec()) < 3)
                ==> lower_bound <= r <= upper_bound,
            (depth >= 1 && ply < MAX_PLY && g.check_spec() && g.moves_spec().len() == 0) ==> (r
                == -MATE_VALUE + ply && pv_seq(*final(pv)).len() == 0),
            (depth >= 1 && ply < MAX_PLY && !g.check_spec() && g.moves_spec().len() == 0
                && corrected_spec(
                old(self).spec_corrhist().table(),
                g.side_spec(),
                g.pawn_hash_spec(),
                eval.score_spec(g.side_spec()),
            ) < upper_bound) ==> (r == 0 && pv_seq(*final(pv)).len() == 0),
            (depth >= 1 && ply < MAX_PLY && g.moves_spec().len() > 0 && (g.check_spec()
                || corrected_spec(
                old(self).spec_corrhist().table(),
                g.side_spec(),
                g.pawn_hash_spec(),
                eval.score_spec(g.side_spec()),
            ) < upper_bound) && count_occurrences(old(keystack)@, g.hash_spec()) >= 3) ==> (r
                == 0 && pv_seq(*final(pv)).len() == 0),
            (ply < MAX_PLY && depth == 1 && !g.check_spec() && corrected_spec(
                old(self).spec_corrhist().table(),
                g.side_spec(),
                g.pawn_hash_spec(),
                eval.score_spec(g.side_spec()),
            ) - (old(self).spec_params().rfp_margin_base
                + old(self).spec_params().rfp_margin_mul) >= upper_bound) ==> (r == upper_bound
                && final(self).spec_nodes() == old(self).spec_nodes()),
            (ply < MAX_PLY && (if g.check_spec() {
                depth + 1
            } else {
                depth as int
            }) <= 0) ==> (r == quiesce_value(
                old(self).spec_corrhist().table(),
                *g,
                lower_bound as int,
                upper_bound as int,
                *eval,
            ) && final(self).spec_tt() == old(self).spec_tt() && final(self).spec_corrhist()
                == old(self).spec_corrhist() && final(self).spec_history() == old(
                self,
            ).spec_history() && final(self).spec_nodes() == old(self).spec_nodes()),
            ({
                let ch = old(self).spec_corrhist().table();
                let sp = corrected_spec(
                    ch,
                    g.side_spec(),
                    g.pawn_hash_spec(),
                    eval.score_spec(g.side_spec()),
                );
                let m0 = g.moves_spec()[0];
                let cv = -quiesce_value(
                    ch,
                    g.make_spec(m0),
                    -(upper_bound as int),
                    -(lower_bound as int),
                    eval.update_spec(g, m0),
                );
                (ply + 1 < MAX_PLY && depth == 1 && !g.check_spec() && !g.make_spec(
                    m0,
                ).check_spec() && g.moves_spec().len() == 1 && count_occurrences(
                    old(keystack)@,
                    g.hash_spec(),
                ) < 3 && sp < upper_bound && old(self).spec_stop() is None) ==> {
                    &&& r as int == clamp_spec(cv, lower_bound as int, upper_bound as int)
                    &&& ((lower_bound < cv && cv < upper_bound) ==> (pv_seq(*final(pv)).len()
                        > 0 && pv_seq(*final(pv))[0] == m0))
                    &&& (!(lower_bound < cv && cv < upper_bound) ==> pv_seq(
                        *final(pv),
                    ).len() == 0)
                }
            }),
            (depth >= 1 && ply < MAX_PLY && g.moves_spec().len() > 0 && count_occurrences(
                old(keystack)@,
                g.hash_spec(),
            ) < 3 && (g.check_spec() || corrected_spec(
                old(self).spec_corrhist().table(),
                g.side_spec(),
                g.pawn_hash_spec(),
                eval.score_spec(g.side_spec()),
            ) < upper_bound) && old(self).spec_stop() is None) ==> (exists|
                tt_mid: Seq<TtEntry>,
                d: TtData,
            |
                {
                    &&& #[trigger] store_spec(tt_mid, g.hash_spec(), d) == final(self).spec_tt()
                    &&& tt_mid.len() == old(self).spec_tt().len()
                    &&& d.wf()
                    &&& (match d.m {
                        Some(m) => g.moves_spec().contains(m),
                        None => false,
                    })
                    &&& d.depth == (if g.check_spec() {
                        depth + 1
                    } else {
                        depth as int
                    }) as u8
                    &&& (d.flags is Lower <==> r == upper_bound)
                    &&& (r < upper_bound ==> ((d.flags is Exact <==> r > lower_bound) && (
                    d.flags is Upper <==> r == lower_bound)))
                    &&& d.score == (r as i16)
                    &&& probe_spec(final(self).spec_tt(), g.hash_spec()) == d.m
                }),
            pv_seq(*final(pv)).len() > 0 ==> (g.moves_spec().contains(pv_seq(*final(pv))[0])
                || g.caps_spec().contains(pv_seq(*final(pv))[0])),
        decreases MAX_PLY - ply,
    {
        if ply >= MAX_PLY {
            pv_clear(pv);
            return lower_bound;
        }

        // Check extension: a node in check searches one ply deeper.
        let in_chk = g.in_check();
        let mut depth_e = depth;
        if in_chk {
            depth_e = depth_e + 1;
        }

        if depth_e <= 0 {
            return self.quiesce(g, lower_bound, upper_bound, eval, pv);
        }

        pv_clear(pv);

        let tt_move = self.probe_tt(g.hash());
        let raw = eval.get(g.side());
        proof {
            eval.lemma_score_bounded(g.side_spec());
        }
        let eval_int = self.eval_with_corrhist(g, raw);

        // Null-move pruning: from an already-good position, pass the turn
        // and search reduced; if the opponent still cannot get below the
        // window's top, fail high at once.
        if !in_chk && depth_e >= 2 && eval_int >= upper_bound {
            keystack.push(g.hash());
            let g_null = g.make_null();
            proof {
                g.lemma_null_wf();
            }
            let mut child_pv = pv_new();
            let neg = self.search(
                &g_null,
                depth_e - 1 - 3,
                -upper_bound,
                -upper_bound + 1,
                eval,
                &mut child_pv,
                ply + 1,
                keystack,
            );
            let score = -neg;
            keystack.pop();
            proof {
                assert(keystack@ =~= old(keystack)@);
            }

            self.nullmove_attempts = self.nullmove_attempts.wrapping_add(1);

            if score >= upper_bound {
                self.nullmove_success = self.nullmove_success.wrapping_add(1);
                return upper_bound;
            }
        }

        // Reverse futility pruning at the horizon.
        proof {
            vstd::arithmetic::mul::lemma_mul_nonnegative(
                self.spec_params().rfp_margin_mul as int,
                depth_e as int,
            );
            assert(self.spec_params().rfp_margin_mul * depth_e <= 100_000 * 251)
                by (nonlinear_arith)
                requires
                    0 <= self.spec_params().rfp_margin_mul <= 100_000,
                    0 <= depth_e <= 251,
            ;
        }
        let rfp_margin = self.params.rfp_margin_base + self.params.rfp_margin_mul * depth_e;
        proof {
            assert(depth_e == 1 ==> self.spec_params().rfp_margin_mul * depth_e == self
                .spec_params().rfp_margin_mul) by (nonlinear_arith);
        }
        if !in_chk && depth_e == 1 && eval_int - rfp_margin >= upper_bound {
            return upper_bound;
        }

        let mut moves_buf: Vec<Move> = Vec::new();
        g.generate(&mut moves_buf);

        // Checkmate or stalemate.
        if moves_buf.len() == 0 {
            pv_clear(pv);
            if in_chk {
                return -MATE_VALUE + ply;
            }
            return 0;
        }

        // Repetition draw.
        if is_repetition_draw(keystack.as_slice(), g.hash()) {
            return 0;
        }

        proof {
            g.lemma_moves_wf();
        }
        let moves = order_moves(moves_buf, &tt_move, &self.history);

        let ghost ch0 = old(self).spec_corrhist().table();
        let ghost m0 = g.moves_spec()[0];
        let ghost cv = -quiesce_value(
            ch0,
            g.make_spec(m0),
            -(upper_bound as int),
            -(lower_bound as int),
            eval.update_spec(g, m0),
        );
        let ghost p8 = ply + 1 < MAX_PLY && depth == 1 && !g.check_spec() && !g.make_spec(
            m0,
        ).check_spec() && g.moves_spec().len() == 1 && count_occurrences(
            old(keystack)@,
            g.hash_spec(),
        ) < 3 && (eval_int as int) < upper_bound && old(self).spec_stop() is None;
        proof {
            if p8 {
                assert(moves@[0] == m0) by {
                    assert(g.moves_spec().contains(moves@[0]));
                    let j = choose|j: int|
                        0 <= j < g.moves_spec().len() && g.moves_spec()[j] == moves@[0];
                }
            }
        }

        let mut best_move: Option<Move> = None;
        let mut best_score: i32 = i32::MIN;
        let mut finding_pv = true;
        let mut lower = lower_bound;
        let mut i: usize = 0;

        while i < moves.len()
            invariant
                self.wf(),
                g.inv(),
                eval.wf(),
                self.spec_params() == old(self).spec_params(),
                self.spec_stop() == old(self).spec_stop(),
                self.spec_tt().len() == old(self).spec_tt().len(),
                -SCORE_LIMIT <= lower_bound,
                upper_bound <= SCORE_LIMIT,
                lower_bound <= lower < upper_bound,
                0 <= ply < MAX_PLY,
                1 <= depth_e <= 251,
                -MATE_VALUE < eval_int < MATE_VALUE,
                moves@.len() >= 1,
                i <= moves@.len(),
                forall|k: int|
                    0 <= k < moves@.len() ==> g.moves_spec().contains(#[trigger] moves@[k])
                        && moves@[k].wf(),
                match best_move {
                    None => i == 0,
                    Some(b) => b.wf() && g.moves_spec().contains(b),
                },
                i == 0 ==> best_score == i32::MIN,
                best_score < upper_bound,
                count_occurrences(old(keystack)@, g.hash_spec()) < 3,
                finding_pv <==> lower == lower_bound,
                i == 0 ==> lower == lower_bound,
                i == 0 ==> pv_seq(*pv).len() == 0,
                (p8 && i == 0) ==> self.spec_corrhist() == old(self).spec_corrhist(),
                ch0 == old(self).spec_corrhist().table(),
                m0 == g.moves_spec()[0],
                eval_int as int == corrected_spec(
                    ch0,
                    g.side_spec(),
                    g.pawn_hash_spec(),
                    eval.score_spec(g.side_spec()),
                ),
                cv == -quiesce_value(
                    ch0,
                    g.make_spec(m0),
                    -(upper_bound as int),
                    -(lower_bound as int),
                    eval.update_spec(g, m0),
                ),
                p8 == (ply + 1 < MAX_PLY && depth == 1 && !g.check_spec() && !g.make_spec(
                    m0,
                ).check_spec() && g.moves_spec().len() == 1 && count_occurrences(
                    old(keystack)@,
                    g.hash_spec(),
                ) < 3 && (eval_int as int) < upper_bound && old(self).spec_stop() is None),
                p8 ==> (moves@.len() == 1 && moves@[0] == m0),
                (p8 && i == 1) ==> (if lower_bound < cv && cv < upper_bound {
                    lower as int == cv && pv_seq(*pv).len() > 0 && pv_seq(*pv)[0] == m0
                } else {
                    lower == lower_bound && pv_seq(*pv).len() == 0 && cv <= lower_bound
                }),
                depth_e == (if g.check_spec() {
                    depth + 1
                } else {
                    depth as int
                }),
                !(ply < MAX_PLY && depth == 1 && !g.check_spec() && corrected_spec(
                    old(self).spec_corrhist().table(),
                    g.side_spec(),
                    g.pawn_hash_spec(),
                    eval.score_spec(g.side_spec()),
                ) - (old(self).spec_params().rfp_margin_base
                    + old(self).spec_params().rfp_margin_mul) >= upper_bound),
                keystack@ == old(keystack)@,
                pv_seq(*pv).len() > 0 ==> g.moves_spec().contains(pv_seq(*pv)[0]),
            decreases moves@.len() - i,
        {
            self.nodes = self.nodes.wrapping_add(1);

            let m = moves[i];
            proof {
                g.lemma_make_wf(m);
            }

            let mut child_pv = pv_new();
            let eval2 = eval.update_eval(g, m);
            let g2 = g.make(m);
            let g2_hash = g2.hash();
            let chk2 = g2.in_check();

            // Push the child hash so deeper nodes can spot repetitions.
            keystack.push(g2_hash);

            let mut reduction: i32 = 1;

            // Late-move reduction: in a null-window node, a late, quiet,
            // non-checking move is first searched shallower.
            if lower == upper_bound - 1 && depth_e >= 3 && i >= 4 && !chk2 && !m.is_capture() {
                reduction = reduction + lmr_extra(depth_e, i, &self.params);
            }

            let mut score: i32 = 0;

            loop
                invariant_except_break
                    1 <= reduction <= 1_000_001,
                invariant
                    self.wf(),
                    g2.inv(),
                    eval2.wf(),
                    self.spec_params() == old(self).spec_params(),
                    self.spec_stop() == old(self).spec_stop(),
                    self.spec_tt().len() == old(self).spec_tt().len(),
                    -SCORE_LIMIT <= lower_bound,
                    upper_bound <= SCORE_LIMIT,
                    lower_bound <= lower < upper_bound,
                    0 <= ply < MAX_PLY,
                    1 <= depth_e <= 251,
                    -SCORE_LIMIT <= score <= SCORE_LIMIT,
                    keystack@ == old(keystack)@.push(g2_hash),
                    (p8 && i == 0) ==> (reduction == 1 && self.spec_corrhist() == old(
                        self,
                    ).spec_corrhist() && m == m0 && g2 == g.make_spec(m0) && !g2.check_spec()
                        && depth_e == 1 && eval2 == eval.update_spec(g, m0) && lower
                        == lower_bound && finding_pv && ply + 1 < MAX_PLY && ch0 == old(
                        self,
                    ).spec_corrhist().table() && cv == -quiesce_value(
                        ch0,
                        g.make_spec(m0),
                        -(upper_bound as int),
                        -(lower_bound as int),
                        eval.update_spec(g, m0),
                    )),
                ensures
                    -SCORE_LIMIT <= score <= SCORE_LIMIT,
                    (p8 && i == 0) ==> (score as int == cv && self.spec_corrhist() == old(
                        self,
                    ).spec_corrhist()),
                decreases reduction,
            {
                if !finding_pv {
                    let neg = self.search(
                        &g2,
                        depth_e - reduction,
                        -lower - 1,
                        -lower,
                        &eval2,
                        &mut child_pv,
                        ply + 1,
                        keystack,
                    );
                    score = -neg;
                }
                if finding_pv || (score > lower && score < upper_bound) {
                    let neg = self.search(
                        &g2,
                        depth_e - reduction,
                        -upper_bound,
                        -lower,
                        &eval2,
                        &mut child_pv,
                        ply + 1,
                        keystack,
                    );
                    score = -neg;
                }

                proof {
                    if p8 && i == 0 {
                        assert(m == m0);
                        assert(g2 == g.make_spec(m0));
                        assert(!g2.check_spec());
                        assert(depth_e == 1);
                        assert(reduction == 1);
                        assert(eval2 == eval.update_spec(g, m0));
                        assert(score as int == cv);
                    }
                }
                if reduction > 1 && score > lower {
                    reduction = 1;
                    continue;
                }
                break;
            }

            keystack.pop();
            proof {
                assert(keystack@ =~= old(keystack)@);
            }

            if score > best_score {
                best_move = Some(m);
                best_score = score;
            }

            if score >= upper_bound {
                // A fail-high: reward the cutoff move, penalise the quiet
                // moves tried before it, store a lower-bound record, and
                // feed the correction history if the move was quiet.
                proof {
                    assert(self.spec_params().hist_bonus_mul * depth_e
                        >= self.spec_params().hist_bonus_mul) by (nonlinear_arith)
                        requires
                            depth_e >= 1,
                            self.spec_params().hist_bonus_mul >= 0,
                    ;
                    assert(self.spec_params().hist_bonus_mul * depth_e <= 100_000 * 251)
                        by (nonlinear_arith)
                        requires
                            0 <= self.spec_params().hist_bonus_mul <= 100_000,
                            0 <= depth_e <= 251,
                    ;
                    assert(self.spec_params().hist_pen_mul * depth_e
                        >= self.spec_params().hist_pen_mul) by (nonlinear_arith)
                        requires
                            depth_e >= 1,
                            self.spec_params().hist_pen_mul >= 0,
                    ;
                    assert(self.spec_params().hist_pen_mul * depth_e <= 100_000 * 251)
                        by (nonlinear_arith)
                        requires
                            0 <= self.spec_params().hist_pen_mul <= 100_000,
                            0 <= depth_e <= 251,
                    ;
                }
                let bonus = crate::arith::clamp_i32(
                    self.params.hist_bonus_mul * depth_e - self.params.hist_bonus_base,
                    -16384,
                    16384,
                );
                let penalty = crate::arith::clamp_i32(
                    self.params.hist_pen_mul * depth_e - self.params.hist_pen_base,
                    -16384,
                    16384,
                );
                self.apply_cutoff_history(&moves, i, m, bonus, penalty);

                let ghost tt_before = self.spec_tt();
                let data = TtData {
                    m: best_move,
                    score: #[verifier::truncate] (upper_bound as i16),
                    flags: TtFlags::Lower,
                    depth: depth_e as u8,
                };
                self.write_tt(g.hash(), data);
                proof {
                    lemma_tt_nonempty(tt_before);
                    crate::tt::lemma_tt_round_trip(tt_before, g.hash_spec(), data);
                }

                if !chk2 && !m.is_capture() && upper_bound >= eval_int {
                    self.update_corrhist(g, depth_e, upper_bound - eval_int);
                }

                return upper_bound;
            }

            // Coarse cooperative cancellation: every 1024th node, compare
            // the clock to the deadline and unwind with the current bound.
            if self.nodes % 1024 == 0 {
                if self.deadline_passed() {
                    return lower;
                }
            }

            if score > lower {
                lower = score;
                pv_clear(pv);
                pv_push(pv, m);
                let cl = pv_len(&child_pv);
                let mut j2: usize = 0;
                while j2 < cl
                    invariant
                        pv_seq(*pv).len() >= 1,
                        pv_seq(*pv).len() <= 32,
                        pv_seq(*pv)[0] == m,
                        g.moves_spec().contains(m),
                        cl == pv_seq(child_pv).len(),
                        j2 <= cl,
                    decreases cl - j2,
                {
                    if pv_len(pv) < 32 {
                        pv_push(pv, pv_get(&child_pv, j2));
                    }
                    j2 += 1;
                }
                finding_pv = false;
            }

            i += 1;
        }

        let bm = best_move.unwrap();

        let ghost tt_before = self.spec_tt();
        let data = TtData {
            m: best_move,
            score: #[verifier::truncate] (lower as i16),
            flags: if finding_pv {
                TtFlags::Upper
            } else {
                TtFlags::Exact
            },
            depth: depth_e as u8,
        };
        self.write_tt(g.hash(), data);
        proof {
            lemma_tt_nonempty(tt_before);
            crate::tt::lemma_tt_round_trip(tt_before, g.hash_spec(), data);
        }

        if !in_chk && !bm.is_capture() && (!finding_pv || lower <= eval_int) {
            self.update_corrhist(g, depth_e, lower - eval_int);
        }

        lower
    }

    /// Searches from the root with the full window, building the
    /// evaluation accumulator for the position first.
    pub fn search_root<G: Game, E: Evaluator<G>>(
        &mut self,
        g: &G,
        depth: i32,
        pv: &mut tinyvec::ArrayVec<[Move; 32]>,
        keystack: &mut Vec<u64>,
    ) -> (r: i32)
        requires
            old(self).wf(),
            g.inv(),
            0 <= depth <= MAX_DEPTH,
        ensures
            final(self).wf(),
            final(keystack)@ == old(keystack)@,
            -SCORE_LIMIT <= r <= SCORE_LIMIT,
            (depth >= 1 && g.check_spec() && g.moves_spec().len() == 0) ==> (r == -MATE_VALUE
                && pv_seq(*final(pv)).len() == 0),
            (depth >= 1 && !g.check_spec() && g.moves_spec().len() == 0) ==> (r == 0 && pv_seq(
                *final(pv),
            ).len() == 0),
            (depth >= 1 && g.moves_spec().len() > 0 && count_occurrences(
                old(keystack)@,
                g.hash_spec(),
            ) >= 3) ==> (r == 0 && pv_seq(*final(pv)).len() == 0),
            (g.moves_spec().len() > 0 && count_occurrences(old(keystack)@, g.hash_spec()) < 3
                && old(self).spec_stop() is None && depth >= 1) ==> (exists|
                tt_mid: Seq<TtEntry>,
                d: TtData,
            |
                {
                    &&& #[trigger] store_spec(tt_mid, g.hash_spec(), d) == final(self).spec_tt()
                    &&& tt_mid.len() == old(self).spec_tt().len()
                    &&& d.wf()
                    &&& (match d.m {
                        Some(m) => g.moves_spec().contains(m),
                        None => false,
                    })
                    &&& d.depth == (if g.check_spec() {
                        depth + 1
                    } else {
                        depth as int
                    }) as u8
                    &&& (d.flags is Lower <==> r == SCORE_LIMIT)
                    &&& d.score == (r as i16)
                    &&& probe_spec(final(self).spec_tt(), g.hash_spec()) == d.m
                }),
            (depth == 0 && !g.check_spec()) ==> r == quiesce_value(
                old(self).spec_corrhist().table(),
                *g,
                -(SCORE_LIMIT as int),
                SCORE_LIMIT as int,
                E::new_spec(g),
            ),
            ({
                let ch = old(self).spec_corrhist().table();
                let m0 = g.moves_spec()[0];
                let cv = -quiesce_value(
                    ch,
                    g.make_spec(m0),
                    -(SCORE_LIMIT as int),
                    SCORE_LIMIT as int,
                    E::new_spec(g).update_spec(g, m0),
                );
                (depth == 1 && !g.check_spec() && !g.make_spec(m0).check_spec()
                    && g.moves_spec().len() == 1 && count_occurrences(
                    old(keystack)@,
                    g.hash_spec(),
                ) < 3 && old(self).spec_stop() is None) ==> {
                    &&& r as int == clamp_spec(cv, -(SCORE_LIMIT as int), SCORE_LIMIT as int)
                    &&& ((-SCORE_LIMIT < cv && cv < SCORE_LIMIT) ==> (pv_seq(
                        *final(pv),
                    ).len() > 0 && pv_seq(*final(pv))[0] == m0))
                    &&& (!(-SCORE_LIMIT < cv && cv < SCORE_LIMIT) ==> pv_seq(
                        *final(pv),
                    ).len() == 0)
                }
            }),
            pv_seq(*final(pv)).len() > 0 ==> (g.moves_spec().contains(pv_seq(*final(pv))[0])
                || g.caps_spec().contains(pv_seq(*final(pv))[0])),
    {
        let eval = E::new_eval(g);
        self.search(g, depth, -SCORE_LIMIT, SCORE_LIMIT, &eval, pv, 0, keystack)
    }
}

} // verus!
