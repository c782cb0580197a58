use yukari::corrhist::allocate_correction_history;
use yukari::game::{Colour, Move, Square};
use yukari::history::History;
use yukari::SearchParams;

fn quiet(from: u8, dest: u8) -> Move {
    Move { from: Square::new(from), dest: Square::new(dest), capture: false, promote: 0 }
}

#[test]
fn history_reward_from_zero() {
    let mut h = History::new_table();
    let m = quiet(3, 11);
    assert_eq!(h.get(m), 0);
    h.reward(m, 100);
    assert_eq!(h.get(m), 100);
}

#[test]
fn history_penalty_cancels_small_reward() {
    let mut h = History::new_table();
    let m = quiet(0, 1);
    h.reward(m, 100);
    // 100 - 100 - 100*100/16384 = 0
    h.penalize(m, 100);
    assert_eq!(h.get(m), 0);
}

#[test]
fn history_saturates_at_bound() {
    let mut h = History::new_table();
    let m = quiet(7, 56);
    for _ in 0..5 {
        h.reward(m, 16384);
        let v = h.get(m);
        assert!(-16384 <= v && v <= 16384);
    }
    assert_eq!(h.get(m), 16384);
    for _ in 0..5 {
        h.penalize(m, 16384);
        let v = h.get(m);
        assert!(-16384 <= v && v <= 16384);
    }
    assert_eq!(h.get(m), -16384);
}

#[test]
fn history_entries_are_independent() {
    let mut h = History::new_table();
    let a = quiet(1, 2);
    let b = quiet(2, 1);
    h.reward(a, 500);
    assert_eq!(h.get(a), 500);
    assert_eq!(h.get(b), 0);
}

#[test]
fn corrhist_moving_average_and_clamp() {
    let mut ch = allocate_correction_history();
    // Weight is min(16, depth+1); a zero bucket folding in diff 1000 at
    // depth 15 moves to (1000*256*16)/256 = 16000, clamped to 8192.
    ch.update(Colour::White, 5, 15, 1000);
    // Applying scales the bucket down by the 256 grain: 8192/256 = 32.
    assert_eq!(ch.apply(Colour::White, 5, 0), 32);
    // The other side's bucket is untouched.
    assert_eq!(ch.apply(Colour::Black, 5, 0), 0);
}

#[test]
fn corrhist_never_leaves_bound() {
    let mut ch = allocate_correction_history();
    for _ in 0..4 {
        ch.update(Colour::Black, 77, 20, 200_000);
    }
    assert_eq!(ch.apply(Colour::Black, 77, 0), 32);
    for _ in 0..4 {
        ch.update(Colour::Black, 77, 1, -200_000);
    }
    assert_eq!(ch.apply(Colour::Black, 77, 0), -32);
}

#[test]
fn corrhist_small_update_exact_value() {
    let mut ch = allocate_correction_history();
    // depth 3: weight 4; (0*252 + 10*256*4)/256 = 40; 40/256 = 0 at read.
    ch.update(Colour::White, 9, 3, 10);
    assert_eq!(ch.apply(Colour::White, 9, 100), 100);
    // A raw evaluation is clamped strictly inside the mate scores.
    assert_eq!(ch.apply(Colour::White, 9, 500_000), 9999);
    assert_eq!(ch.apply(Colour::White, 9, -500_000), -9999);
}

#[test]
fn default_params() {
    let p = SearchParams::default();
    assert_eq!(p.rfp_margin_base, 0);
    assert_eq!(p.rfp_margin_mul, 37);
    assert_eq!(p.lmr_base, 256);
    assert_eq!(p.lmr_mul, 128);
    assert_eq!(p.hist_bonus_base, 250);
    assert_eq!(p.hist_bonus_mul, 300);
    assert_eq!(p.hist_pen_base, 250);
    assert_eq!(p.hist_pen_mul, 300);
}
