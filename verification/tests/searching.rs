use yukari::corrhist::allocate_correction_history;
use yukari::game::{Colour, Move, Square};
use std::rc::Rc;
use yukari::model::{Edge, Node, TableEval, TableGame};
use yukari::{is_repetition_draw, Search, SearchParams, TtEntry};

fn quiet(from: u8, dest: u8) -> Move {
    Move { from: Square::new(from), dest: Square::new(dest), capture: false, promote: 0 }
}

fn capture(from: u8, dest: u8) -> Move {
    Move { from: Square::new(from), dest: Square::new(dest), capture: true, promote: 0 }
}

fn node(hash: u64, check: bool, side: Colour, score: i32, material: u32, edges: Vec<Edge>) -> Node {
    Node { hash, pawn_hash: hash, check, side, score, material, null_to: 0, edges }
}

fn fresh_search() -> Search {
    let tt = vec![TtEntry { key: 0, data: 0 }; 16];
    Search::new(None, tt, allocate_correction_history(), SearchParams::default())
}

fn new_pv() -> tinyvec::ArrayVec<[Move; 32]> {
    tinyvec::ArrayVec::new()
}

#[test]
fn repetition_detector_counts_occurrences() {
    assert!(!is_repetition_draw(&[], 5));
    assert!(!is_repetition_draw(&[5], 5));
    // Exactly two occurrences: not yet a repetition draw.
    assert!(!is_repetition_draw(&[5, 1, 5], 5));
    // A third occurrence makes it one.
    assert!(is_repetition_draw(&[5, 1, 5, 2, 5], 5));
    assert!(is_repetition_draw(&[5, 5, 5, 5], 5));
    assert!(!is_repetition_draw(&[1, 2, 3], 5));
}

#[test]
fn checkmate_scores_minus_mate_plus_ply() {
    // In check with no legal moves: mate, at any depth.
    let g = TableGame { nodes: Rc::new(vec![node(1, true, Colour::White, 0, 0, vec![])]), at: 0 };
    for depth in 1..=4 {
        let mut s = fresh_search();
        let mut pv = new_pv();
        let mut keystack: Vec<u64> = Vec::new();
        let score = s.search_root::<TableGame, TableEval>(&g, depth, &mut pv, &mut keystack);
        assert_eq!(score, -10_000);
        assert!(pv.is_empty());
        assert!(keystack.is_empty());
    }
}

#[test]
fn stalemate_scores_zero() {
    // No legal moves, not in check: stalemate, regardless of depth.
    let g = TableGame { nodes: Rc::new(vec![node(2, false, Colour::Black, 700, 0, vec![])]), at: 0 };
    for depth in 1..=4 {
        let mut s = fresh_search();
        let mut pv = new_pv();
        let mut keystack: Vec<u64> = Vec::new();
        let score = s.search_root::<TableGame, TableEval>(&g, depth, &mut pv, &mut keystack);
        assert_eq!(score, 0);
    }
}

#[test]
fn one_legal_move_at_depth_one() {
    // End to end: one legal quiet move; at depth 1 the search returns it,
    // scored as the negamax of the child's corrected static evaluation.
    let m = quiet(8, 16);
    let g = TableGame {
        nodes: Rc::new(vec![
            node(10, false, Colour::White, 0, 0, vec![Edge { m, to: 1 }]),
            node(11, false, Colour::Black, 50, 0, vec![]),
        ]),
        at: 0,
    };
    let mut s = fresh_search();
    let mut pv = new_pv();
    let mut keystack: Vec<u64> = Vec::new();
    let score = s.search_root::<TableGame, TableEval>(&g, 1, &mut pv, &mut keystack);
    // The child evaluates to 50 for White, -50 for Black to move; the
    // parent negates the child's stand-pat value.
    assert_eq!(score, 50);
    assert_eq!(pv.len(), 1);
    assert_eq!(pv[0], m);
    assert!(keystack.is_empty());
    assert_eq!(s.nodes(), 1);
}

#[test]
fn picks_the_better_of_two_moves() {
    let a = quiet(0, 8);
    let b = quiet(1, 9);
    let g = TableGame {
        nodes: Rc::new(vec![
            node(20, false, Colour::White, 0, 0, vec![
                Edge { m: a, to: 1 },
                Edge { m: b, to: 2 },
            ]),
            node(21, false, Colour::Black, 100, 0, vec![]),
            node(22, false, Colour::Black, -100, 0, vec![]),
        ]),
        at: 0,
    };
    let mut s = fresh_search();
    let mut pv = new_pv();
    let mut keystack: Vec<u64> = Vec::new();
    let score = s.search_root::<TableGame, TableEval>(&g, 1, &mut pv, &mut keystack);
    assert_eq!(score, 100);
    assert_eq!(pv[0], a);
}

#[test]
fn repetition_draw_in_search() {
    let m = quiet(0, 8);
    let g = TableGame {
        nodes: Rc::new(vec![
            node(30, false, Colour::White, 400, 0, vec![Edge { m, to: 1 }]),
            node(31, false, Colour::Black, -400, 0, vec![]),
        ]),
        at: 0,
    };
    let mut s = fresh_search();
    let mut pv = new_pv();
    // The path already saw this hash twice; visiting it again is the third
    // occurrence and scores zero.
    let mut keystack: Vec<u64> = vec![30, 30, 30];
    let score = s.search_root::<TableGame, TableEval>(&g, 1, &mut pv, &mut keystack);
    assert_eq!(score, 0);
    assert_eq!(keystack, vec![30, 30, 30]);
}

#[test]
fn quiescence_skips_losing_capture() {
    // The only capture loses material: its updated evaluation is at or
    // below alpha, so quiesce returns the stand-pat value and never
    // recurses into the capture.
    let c = capture(4, 12);
    let g = TableGame {
        nodes: Rc::new(vec![
            node(40, false, Colour::White, 0, 2, vec![Edge { m: c, to: 1 }]),
            node(41, false, Colour::Black, -500, 1, vec![]),
        ]),
        at: 0,
    };
    let mut s = fresh_search();
    let mut pv = new_pv();
    let eval = TableEval { val: 0 };
    let score = s.quiesce(&g, -100, 100, &eval, &mut pv);
    assert_eq!(score, 0);
    assert!(pv.is_empty());
    // The capture was counted but not searched.
    assert_eq!(s.qnodes(), 1);
}

#[test]
fn quiescence_takes_winning_capture() {
    let c = capture(4, 12);
    let g = TableGame {
        nodes: Rc::new(vec![
            node(50, false, Colour::White, 0, 2, vec![Edge { m: c, to: 1 }]),
            node(51, false, Colour::Black, 300, 1, vec![]),
        ]),
        at: 0,
    };
    let mut s = fresh_search();
    let mut pv = new_pv();
    let eval = TableEval { val: 0 };
    let score = s.quiesce(&g, -1000, 1000, &eval, &mut pv);
    // The capture's child stands pat at -300 for Black: 300 for White.
    assert_eq!(score, 300);
    assert_eq!(pv.len(), 1);
    assert_eq!(pv[0], c);
}

#[test]
fn quiescence_recurses_through_capture_chain() {
    // A capture answered by a recapture: material strictly decreases down
    // the chain, and the recapture refutes the capture.
    let c1 = capture(4, 12);
    let c2 = capture(20, 12);
    let g = TableGame {
        nodes: Rc::new(vec![
            node(55, false, Colour::White, 0, 3, vec![Edge { m: c1, to: 1 }]),
            node(56, false, Colour::Black, 200, 2, vec![Edge { m: c2, to: 2 }]),
            node(57, false, Colour::White, -100, 1, vec![]),
        ]),
        at: 0,
    };
    let mut s = fresh_search();
    let mut pv = new_pv();
    let eval = TableEval { val: 0 };
    let score = s.quiesce(&g, -1000, 1000, &eval, &mut pv);
    // The recapture pulls the exchange back to the stand-pat value.
    assert_eq!(score, 0);
    assert_eq!(s.qnodes(), 2);
}

#[test]
fn stand_pat_fails_high_at_beta() {
    let g = TableGame { nodes: Rc::new(vec![node(60, false, Colour::White, 900, 0, vec![])]), at: 0 };
    let mut s = fresh_search();
    let mut pv = new_pv();
    let eval = TableEval { val: 900 };
    // Stand-pat 900 is at or above beta 100: fail hard with beta.
    let score = s.quiesce(&g, -100, 100, &eval, &mut pv);
    assert_eq!(score, 100);
}

#[test]
fn search_stores_probeable_tt_record() {
    let m = quiet(8, 16);
    let g = TableGame {
        nodes: Rc::new(vec![
            node(70, false, Colour::White, 0, 0, vec![Edge { m, to: 1 }]),
            node(71, false, Colour::Black, 50, 0, vec![]),
        ]),
        at: 0,
    };
    let mut s = fresh_search();
    let mut pv = new_pv();
    let mut keystack: Vec<u64> = Vec::new();
    s.search_root::<TableGame, TableEval>(&g, 1, &mut pv, &mut keystack);
    // The completed node stored its best move under the position's hash.
    assert_eq!(s.probe_tt(70), Some(m));
    assert_eq!(s.probe_tt(71), None);
}

#[test]
fn fail_high_stores_record_under_current_hash() {
    // A narrow window makes the single move fail high; the lower-bound
    // record is stored under the searched position's own hash.
    let m = quiet(8, 16);
    let g = TableGame {
        nodes: Rc::new(vec![
            node(90, false, Colour::White, 0, 0, vec![Edge { m, to: 1 }]),
            node(91, false, Colour::Black, 50, 0, vec![]),
        ]),
        at: 0,
    };
    let mut s = fresh_search();
    let mut pv = new_pv();
    let mut keystack: Vec<u64> = Vec::new();
    let eval = TableEval { val: 0 };
    let score = s.search(&g, 1, -10, 10, &eval, &mut pv, 0, &mut keystack);
    assert_eq!(score, 10);
    assert_eq!(s.probe_tt(90), Some(m));
}

#[test]
fn reverse_futility_prunes_at_the_horizon() {
    // Depth 1, not in check, corrected eval far above the window top:
    // the node fails high before any move is generated or searched.
    let m = quiet(0, 8);
    let g = TableGame {
        nodes: Rc::new(vec![
            node(95, false, Colour::White, 500, 0, vec![Edge { m, to: 1 }]),
            node(96, false, Colour::Black, -500, 0, vec![]),
        ]),
        at: 0,
    };
    let mut s = fresh_search();
    let mut pv = new_pv();
    let mut keystack: Vec<u64> = Vec::new();
    let eval = TableEval { val: 500 };
    let score = s.search(&g, 1, -10, 10, &eval, &mut pv, 0, &mut keystack);
    assert_eq!(score, 10);
    assert_eq!(s.nodes(), 0);
}

#[test]
fn deeper_search_alternates_sides() {
    // Two plies: White's single move leads to a Black position with two
    // replies; Black minimises White's score.
    let m0 = quiet(0, 8);
    let ra = quiet(56, 48);
    let rb = quiet(57, 49);
    let g = TableGame {
        nodes: Rc::new(vec![
            node(80, false, Colour::White, 0, 0, vec![Edge { m: m0, to: 1 }]),
            node(81, false, Colour::Black, 0, 0, vec![
                Edge { m: ra, to: 2 },
                Edge { m: rb, to: 3 },
            ]),
            node(82, false, Colour::White, 250, 0, vec![]),
            node(83, false, Colour::White, -250, 0, vec![]),
        ]),
        at: 0,
    };
    let mut s = fresh_search();
    let mut pv = new_pv();
    let mut keystack: Vec<u64> = Vec::new();
    let score = s.search_root::<TableGame, TableEval>(&g, 2, &mut pv, &mut keystack);
    // Black picks the reply that leaves White at -250.
    assert_eq!(score, -250);
    assert_eq!(pv[0], m0);
    assert!(keystack.is_empty());
    let (tt, ch) = s.into_tables();
    assert_eq!(tt.len(), 16);
    drop(ch);
}
