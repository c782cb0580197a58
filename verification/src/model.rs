//! A small explicit-graph game: the reference implementation of the
//! collaborator interfaces, against which their laws are proved and with
//! which the search is exercised. Positions are nodes, legal moves are
//! labelled edges to other nodes, and a capture must lead to a node of
//! strictly smaller material, which is what the quiescence search's
//! termination rests on. The node table is shared behind a counted
//! pointer, so playing a move hands out a new position over the same
//! table.

use vstd::prelude::*;
use std::rc::Rc;

verus! {

use crate::game::{Colour, Evaluator, Game, Move, EVAL_LIMIT};

/// A labelled transition: playing `m` leads to node `to`.
#[derive(Clone, Copy, PartialEq, Eq, Structural, Debug)]
pub struct Edge {
    pub m: Move,
    pub to: usize,
}

/// One position of the model game.
pub struct Node {
    pub hash: u64,
    pub pawn_hash: u64,
    pub check: bool,
    pub side: Colour,
    /// Static evaluation, from White's point of view.
    pub score: i32,
    /// Capture measure: a capture edge must lead to smaller material.
    pub material: u32,
    /// The node reached by passing the turn.
    pub null_to: usize,
    pub edges: Vec<Edge>,
}

/// A position: the shared node table and the node the game stands at.
pub struct TableGame {
    pub nodes: Rc<Vec<Node>>,
    pub at: usize,
}

/// The moves labelling a sequence of edges, in order.
pub open spec fn edge_moves(s: Seq<Edge>) -> Seq<Move>
    decreases s.len(),
{
    if s.len() == 0 {
        Seq::empty()
    } else {
        edge_moves(s.drop_last()).push(s.last().m)
    }
}

/// The capturing moves labelling a sequence of edges, in order.
pub open spec fn edge_caps(s: Seq<Edge>) -> Seq<Move>
    decreases s.len(),
{
    if s.len() == 0 {
        Seq::empty()
    } else if s.last().m.capture {
        edge_caps(s.drop_last()).push(s.last().m)
    } else {
        edge_caps(s.drop_last())
    }
}

/// `edge_moves` is the pointwise projection of the edge labels.
pub proof fn lemma_edge_moves(s: Seq<Edge>)
    ensures
        edge_moves(s).len() == s.len(),
        forall|i: int| 0 <= i < s.len() ==> edge_moves(s)[i] == (#[trigger] s[i]).m,
    decreases s.len(),
{
    if s.len() > 0 {
        lemma_edge_moves(s.drop_last());
        assert forall|i: int| 0 <= i < s.len() implies edge_moves(s)[i] == (#[trigger] s[i]).m by {
            if i < s.len() - 1 {
                assert(s.drop_last()[i] == s[i]);
                assert(edge_moves(s)[i] == edge_moves(s.drop_last())[i]);
            }
        }
    }
}

/// Everything in `edge_caps` is a capture and labels some edge.
pub proof fn lemma_edge_caps(s: Seq<Edge>)
    ensures
        forall|mm: Move| #[trigger]
            edge_caps(s).contains(mm) ==> mm.capture && (exists|j: int|
                0 <= j < s.len() && (#[trigger] s[j]).m == mm),
    decreases s.len(),
{
    if s.len() > 0 {
        lemma_edge_caps(s.drop_last());
        assert forall|mm: Move| #[trigger] edge_caps(s).contains(mm) implies mm.capture && (
        exists|j: int| 0 <= j < s.len() && (#[trigger] s[j]).m == mm) by {
            if s.last().m.capture && mm == s.last().m {
                assert(s[s.len() - 1].m == mm);
            } else {
                assert(edge_caps(s.drop_last()).contains(mm)) by {
                    let t = edge_caps(s.drop_last());
                    if s.last().m.capture {
                        let i = choose|i: int| 0 <= i < t.push(s.last().m).len() && t.push(
                            s.last().m,
                        )[i] == mm;
                        assert(t[i] == mm);
                    }
                }
                let j = choose|j: int|
                    0 <= j < s.drop_last().len() && (#[trigger] s.drop_last()[j]).m == mm;
                assert(s[j].m == mm);
            }
        }
    }
}

/// Index of the first edge labelled `m`.
pub open spec fn first_match(s: Seq<Edge>, m: Move) -> int
    decreases s.len(),
{
    if s.len() == 0 {
        0
    } else if s[0].m == m {
        0
    } else {
        1 + first_match(s.drop_first(), m)
    }
}

/// If some edge is labelled `m`, `first_match` finds the first one.
pub proof fn lemma_first_match(s: Seq<Edge>, m: Move)
    requires
        exists|j: int| 0 <= j < s.len() && (#[trigger] s[j]).m == m,
    ensures
        0 <= first_match(s, m) < s.len(),
        s[first_match(s, m)].m == m,
        forall|j: int| 0 <= j < first_match(s, m) ==> (#[trigger] s[j]).m != m,
    decreases s.len(),
{
    if s[0].m == m {
    } else {
        let j = choose|j: int| 0 <= j < s.len() && (#[trigger] s[j]).m == m;
        assert(s.drop_first()[j - 1].m == m);
        lemma_first_match(s.drop_first(), m);
        let f = first_match(s.drop_first(), m);
        assert(s[1 + f] == s.drop_first()[f]);
        assert forall|k: int| 0 <= k < 1 + f implies (#[trigger] s[k]).m != m by {
            if k > 0 {
                assert(s.drop_first()[k - 1] == s[k]);
            }
        }
    }
}

/// Validity of one node against the table.
pub open spec fn node_ok(nodes: Seq<Node>, n: Node) -> bool {
    &&& -EVAL_LIMIT <= n.score <= EVAL_LIMIT
    &&& n.null_to < nodes.len()
    &&& forall|j: int|
        0 <= j < n.edges@.len() ==> {
            let e = #[trigger] n.edges@[j];
            &&& e.m.wf()
            &&& e.to < nodes.len()
            &&& (e.m.capture ==> nodes[e.to as int].material < n.material)
        }
}

impl TableGame {
    /// The node the game stands at.
    pub open spec fn cur(&self) -> Node {
        self.nodes@[self.at as int]
    }

    /// A contained move labels some edge of the current node.
    proof fn lemma_edge_exists(&self, m: Move)
        requires
            self.inv(),
            self.moves_spec().contains(m) || self.caps_spec().contains(m),
        ensures
            exists|j: int|
                0 <= j < self.cur().edges@.len() && (#[trigger] self.cur().edges@[j]).m == m,
    {
        let s = self.cur().edges@;
        lemma_edge_moves(s);
        lemma_edge_caps(s);
        if self.moves_spec().contains(m) {
            let j = choose|j: int| 0 <= j < self.moves_spec().len() && self.moves_spec()[j] == m;
            assert(s[j].m == m);
        }
    }
}

impl Game for TableGame {
    open spec fn inv(&self) -> bool {
        &&& self.at < self.nodes@.len()
        &&& forall|i: int|
            0 <= i < self.nodes@.len() ==> node_ok(self.nodes@, #[trigger] self.nodes@[i])
    }

    open spec fn hash_spec(&self) -> u64 {
        self.cur().hash
    }

    open spec fn pawn_hash_spec(&self) -> u64 {
        self.cur().pawn_hash
    }

    open spec fn side_spec(&self) -> Colour {
        self.cur().side
    }

    open spec fn check_spec(&self) -> bool {
        self.cur().check
    }

    open spec fn moves_spec(&self) -> Seq<Move> {
        edge_moves(self.cur().edges@)
    }

    open spec fn caps_spec(&self) -> Seq<Move> {
        edge_caps(self.cur().edges@)
    }

    open spec fn make_spec(&self, m: Move) -> Self {
        let s = self.cur().edges@;
        TableGame { nodes: self.nodes, at: s[first_match(s, m)].to }
    }

    open spec fn null_spec(&self) -> Self {
        TableGame { nodes: self.nodes, at: self.cur().null_to }
    }

    open spec fn measure(&self) -> nat {
        self.cur().material as nat
    }

    fn hash(&self) -> (r: u64) {
        self.nodes[self.at].hash
    }

    fn hash_pawns(&self) -> (r: u64) {
        self.nodes[self.at].pawn_hash
    }

    fn side(&self) -> (r: Colour) {
        self.nodes[self.at].side
    }

    fn in_check(&self) -> (r: bool) {
        self.nodes[self.at].check
    }

    fn generate(&self, out: &mut Vec<Move>) {
        out.clear();
        let edges = &self.nodes[self.at].edges;
        let mut i: usize = 0;
        while i < edges.len()
            invariant
                i <= edges@.len(),
                out@ == edge_moves(edges@.take(i as int)),
            decreases edges@.len() - i,
        {
            proof {
                assert(edges@.take(i + 1).drop_last() =~= edges@.take(i as int));
                assert(edges@.take(i + 1).last() == edges@[i as int]);
            }
            out.push(edges[i].m);
            i += 1;
        }
        proof {
            assert(edges@.take(edges@.len() as int) =~= edges@);
        }
    }

    fn generate_captures(&self, out: &mut Vec<Move>) {
        out.clear();
        let edges = &self.nodes[self.at].edges;
        let mut i: usize = 0;
        while i < edges.len()
            invariant
                i <= edges@.len(),
                out@ == edge_caps(edges@.take(i as int)),
            decreases edges@.len() - i,
        {
            proof {
                assert(edges@.take(i + 1).drop_last() =~= edges@.take(i as int));
                assert(edges@.take(i + 1).last() == edges@[i as int]);
            }
            let e = edges[i];
            if e.m.is_capture() {
                out.push(e.m);
            }
            i += 1;
        }
        proof {
            assert(edges@.take(edges@.len() as int) =~= edges@);
        }
    }

    fn make(&self, m: Move) -> (r: Self) {
        let ghost s = self.cur().edges@;
        proof {
            self.lemma_edge_exists(m);
            lemma_first_match(s, m);
        }
        let ghost fm = first_match(s, m);
        let edges = &self.nodes[self.at].edges;
        let n = edges.len();
        let mut k: usize = 0;
        while edges[k].m != m
            invariant
                0 <= k <= fm,
                fm < edges@.len(),
                n == edges@.len(),
                edges@ == s,
                s[fm].m == m,
                forall|j: int| 0 <= j < fm ==> (#[trigger] s[j]).m != m,
            decreases fm - k,
        {
            proof {
                assert(k != fm);
            }
            k += 1;
        }
        proof {
            assert(k == fm);
        }
        let to = edges[k].to;
        TableGame { nodes: self.nodes.clone(), at: to }
    }

    fn make_null(&self) -> (r: Self) {
        let to = self.nodes[self.at].null_to;
        TableGame { nodes: self.nodes.clone(), at: to }
    }

    proof fn lemma_make_wf(&self, m: Move) {
        let s = self.cur().edges@;
        self.lemma_edge_exists(m);
        lemma_first_match(s, m);
        lemma_edge_caps(s);
        let fm = first_match(s, m);
        assert(node_ok(self.nodes@, self.cur()));
        assert(s[fm].to < self.nodes@.len());
        if self.caps_spec().contains(m) {
            assert(m.capture);
            assert(self.nodes@[s[fm].to as int].material < self.cur().material);
        }
    }

    proof fn lemma_null_wf(&self) {
        assert(node_ok(self.nodes@, self.cur()));
    }

    proof fn lemma_moves_wf(&self) {
        let s = self.cur().edges@;
        lemma_edge_moves(s);
        lemma_edge_caps(s);
        assert(node_ok(self.nodes@, self.cur()));
        assert forall|i: int| 0 <= i < self.moves_spec().len() implies (
        #[trigger] self.moves_spec()[i]).wf() by {
            assert(self.moves_spec()[i] == s[i].m);
        }
        assert forall|i: int| 0 <= i < self.caps_spec().len() implies (
        #[trigger] self.caps_spec()[i]).wf() by {
            let mm = self.caps_spec()[i];
            assert(self.caps_spec().contains(mm));
            let j = choose|j: int| 0 <= j < s.len() && (#[trigger] s[j]).m == mm;
        }
    }
}

/// The model evaluator: each node carries a static score from White's
/// point of view, and updating after a move reads the target node's score.
#[derive(Clone, Copy, PartialEq, Eq, Structural, Debug)]
pub struct TableEval {
    pub val: i32,
}

impl Evaluator<TableGame> for TableEval {
    open spec fn wf(&self) -> bool {
        -EVAL_LIMIT <= self.val <= EVAL_LIMIT
    }

    open spec fn score_spec(&self, side: Colour) -> int {
        match side {
            Colour::White => self.val as int,
            Colour::Black => -(self.val as int),
        }
    }

    open spec fn update_spec(&self, g: &TableGame, m: Move) -> Self {
        let s = g.cur().edges@;
        TableEval { val: g.nodes@[s[first_match(s, m)].to as int].score }
    }

    open spec fn new_spec(g: &TableGame) -> Self {
        TableEval { val: g.cur().score }
    }

    fn new_eval(g: &TableGame) -> (r: Self) {
        proof {
            assert(node_ok(g.nodes@, g.cur()));
        }
        TableEval { val: g.nodes[g.at].score }
    }

    fn update_eval(&self, g: &TableGame, m: Move) -> (r: Self) {
        let ghost s = g.cur().edges@;
        proof {
            g.lemma_edge_exists(m);
            lemma_first_match(s, m);
            assert(node_ok(g.nodes@, g.cur()));
        }
        let ghost fm = first_match(s, m);
        let edges = &g.nodes[g.at].edges;
        let n = edges.len();
        let mut k: usize = 0;
        while edges[k].m != m
            invariant
                0 <= k <= fm,
                fm < edges@.len(),
                n == edges@.len(),
                edges@ == s,
                s[fm].m == m,
                forall|j: int| 0 <= j < fm ==> (#[trigger] s[j]).m != m,
            decreases fm - k,
        {
            proof {
                assert(k != fm);
            }
            k += 1;
        }
        proof {
            assert(k == fm);
            assert(node_ok(g.nodes@, g.nodes@[edges@[k as int].to as int]));
        }
        let to = edges[k].to;
        TableEval { val: g.nodes[to].score }
    }

    fn get(&self, side: Colour) -> (r: i32) {
        match side {
            Colour::White => self.val,
            Colour::Black => -self.val,
        }
    }

    proof fn lemma_score_bounded(&self, side: Colour) {
    }
}

} // verus!
