//! The basic value types of the game (sides, pieces, squares, moves) and the
//! interfaces of the two external collaborators the search relies on: the
//! position/move-generation collaborator and the incremental static
//! evaluator.

use vstd::prelude::*;

verus! {

/// Largest magnitude a raw static evaluation may take; the search's
/// arithmetic is proved overflow-free under this bound.
pub const EVAL_LIMIT: i32 = 1_000_000;

/// The score of a checkmate at the root; a mate found at ply `p` scores
/// `-MATE_VALUE + p` for the side that is mated.
pub const MATE_VALUE: i32 = 10_000;

/// One of the two sides of the game.
#[derive(Clone, Copy, PartialEq, Eq, Structural, Debug)]
pub enum Colour {
    White,
    Black,
}

impl Colour {
    /// Table index of the side: White is 0, Black is 1.
    pub open spec fn spec_index(self) -> int {
        match self {
            Colour::White => 0,
            Colour::Black => 1,
        }
    }

    /// Table index of the side: White is 0, Black is 1.
    pub fn index(self) -> (r: usize)
        ensures
            r == self.spec_index(),
    {
        match self {
            Colour::White => 0,
            Colour::Black => 1,
        }
    }
}

/// A piece kind.
#[derive(Clone, Copy, PartialEq, Eq, Structural, Debug)]
pub enum Piece {
    Pawn,
    Knight,
    Bishop,
    Rook,
    Queen,
    King,
}

impl Piece {
    /// Table index of the piece kind, 0 through 5.
    pub open spec fn spec_index(self) -> int {
        match self {
            Piece::Pawn => 0,
            Piece::Knight => 1,
            Piece::Bishop => 2,
            Piece::Rook => 3,
            Piece::Queen => 4,
            Piece::King => 5,
        }
    }

    /// Table index of the piece kind, 0 through 5.
    pub fn index(self) -> (r: usize)
        ensures
            r == self.spec_index(),
    {
        match self {
            Piece::Pawn => 0,
            Piece::Knight => 1,
            Piece::Bishop => 2,
            Piece::Rook => 3,
            Piece::Queen => 4,
            Piece::King => 5,
        }
    }
}

/// A board square, numbered 0 through 63 with the file in the low three bits.
#[derive(Clone, Copy, PartialEq, Eq, Structural, Debug, Default)]
pub struct Square {
    v: u8,
}

impl Square {
    pub closed spec fn spec_inner(self) -> u8 {
        self.v
    }

    /// The square with the given number, at the spec level.
    pub closed spec fn spec_from_inner(v: u8) -> Square {
        Square { v }
    }

    pub open spec fn wf(self) -> bool {
        self.spec_inner() < 64
    }

    /// A square is exactly its number.
    pub proof fn lemma_inner(s: Square)
        ensures
            Square::spec_from_inner(s.spec_inner()) == s,
    {
    }

    pub fn new(v: u8) -> (r: Square)
        requires
            v < 64,
        ensures
            r.spec_inner() == v,
            r == Square::spec_from_inner(v),
            r.wf(),
    {
        Square { v }
    }

    pub fn into_inner(self) -> (r: u8)
        ensures
            r == self.spec_inner(),
    {
        self.v
    }

    /// The square's file, 0 through 7.
    pub open spec fn spec_file(self) -> int {
        self.spec_inner() as int % 8
    }

    pub fn file(self) -> (r: u8)
        ensures
            r == self.spec_file(),
    {
        self.v % 8
    }
}

/// A move: origin and destination squares, a capture flag, and a promotion
/// piece kind encoded as 0 for none and 1 through 5 otherwise.
#[derive(Clone, Copy, PartialEq, Eq, Structural, Debug, Default)]
pub struct Move {
    pub from: Square,
    pub dest: Square,
    pub capture: bool,
    pub promote: u8,
}

impl Move {
    pub open spec fn wf(self) -> bool {
        self.from.wf() && self.dest.wf() && self.promote <= 5
    }

    pub fn is_capture(&self) -> (r: bool)
        ensures
            r == self.capture,
    {
        self.capture
    }
}

/// The position/move-generation collaborator of the search core.
///
/// A `Game` value is an immutable snapshot of the full game state together
/// with its incrementally maintained hashes; playing a move produces a new
/// owned value. The spec functions give the mathematical view of the
/// position; the executable methods are tied to them exactly, and the proof
/// functions are laws every implementation must establish.
pub trait Game: Sized {
    /// Validity of the position value.
    spec fn inv(&self) -> bool;

    /// Full-position hash.
    spec fn hash_spec(&self) -> u64;

    /// Pawn-structure hash.
    spec fn pawn_hash_spec(&self) -> u64;

    /// The side to move.
    spec fn side_spec(&self) -> Colour;

    /// Whether the side to move is in check.
    spec fn check_spec(&self) -> bool;

    /// All legal moves, in generation order.
    spec fn moves_spec(&self) -> Seq<Move>;

    /// All legal capturing moves, in generation order.
    spec fn caps_spec(&self) -> Seq<Move>;

    /// The position reached by playing `m`.
    spec fn make_spec(&self, m: Move) -> Self;

    /// The position reached by passing the turn.
    spec fn null_spec(&self) -> Self;

    /// A bound on the remaining capture exchanges; captures strictly
    /// decrease it, which is what makes the quiescence search terminate.
    spec fn measure(&self) -> nat;

    fn hash(&self) -> (r: u64)
        requires
            self.inv(),
        ensures
            r == self.hash_spec(),
    ;

    fn hash_pawns(&self) -> (r: u64)
        requires
            self.inv(),
        ensures
            r == self.pawn_hash_spec(),
    ;

    fn side(&self) -> (r: Colour)
        requires
            self.inv(),
        ensures
            r == self.side_spec(),
    ;

    fn in_check(&self) -> (r: bool)
        requires
            self.inv(),
        ensures
            r == self.check_spec(),
    ;

    /// Fills `out` with all legal moves.
    fn generate(&self, out: &mut Vec<Move>)
        requires
            self.inv(),
        ensures
            final(out)@ == self.moves_spec(),
    ;

    /// Fills `out` with all legal capturing moves.
    fn generate_captures(&self, out: &mut Vec<Move>)
        requires
            self.inv(),
        ensures
            final(out)@ == self.caps_spec(),
    ;

    /// Plays a generated move.
    fn make(&self, m: Move) -> (r: Self)
        requires
            self.inv(),
            self.moves_spec().contains(m) || self.caps_spec().contains(m),
        ensures
            r == self.make_spec(m),
    ;

    /// Passes the turn without moving.
    fn make_null(&self) -> (r: Self)
        requires
            self.inv(),
        ensures
            r == self.null_spec(),
    ;

    /// Law: a generated move is well-formed and leads to a valid position,
    /// and playing a capture strictly decreases the capture measure.
    proof fn lemma_make_wf(&self, m: Move)
        requires
            self.inv(),
            self.moves_spec().contains(m) || self.caps_spec().contains(m),
        ensures
            m.wf(),
            self.make_spec(m).inv(),
            self.caps_spec().contains(m) ==> self.make_spec(m).measure() < self.measure(),
    ;

    /// Law: passing the turn preserves validity.
    proof fn lemma_null_wf(&self)
        requires
            self.inv(),
        ensures
            self.null_spec().inv(),
    ;

    /// Law: every generated move is well-formed.
    proof fn lemma_moves_wf(&self)
        requires
            self.inv(),
        ensures
            forall|i: int| 0 <= i < self.moves_spec().len() ==> (#[trigger] self.moves_spec()[i]).wf(),
            forall|i: int| 0 <= i < self.caps_spec().len() ==> (#[trigger] self.caps_spec()[i]).wf(),
    ;
}

/// The incremental static-evaluation collaborator: an accumulator built for
/// a root position and updated move by move, never mutated in place.
pub trait Evaluator<G: Game>: Sized + Clone {
    /// Validity of the accumulator value.
    spec fn wf(&self) -> bool;

    /// The static score from `side`'s point of view.
    spec fn score_spec(&self, side: Colour) -> int;

    /// The accumulator for the position reached by playing `m` on `g`.
    spec fn update_spec(&self, g: &G, m: Move) -> Self;

    /// The accumulator a root position is given.
    spec fn new_spec(g: &G) -> Self;

    /// Builds the accumulator for a root position.
    fn new_eval(g: &G) -> (r: Self)
        requires
            g.inv(),
        ensures
            r == Self::new_spec(g),
            r.wf(),
    ;

    /// The accumulator after playing `m` on `g`; `self` is unchanged.
    fn update_eval(&self, g: &G, m: Move) -> (r: Self)
        requires
            self.wf(),
            g.inv(),
            g.moves_spec().contains(m) || g.caps_spec().contains(m),
        ensures
            r == self.update_spec(g, m),
            r.wf(),
    ;

    /// The raw score from `side`'s point of view.
    fn get(&self, side: Colour) -> (r: i32)
        requires
            self.wf(),
        ensures
            r == self.score_spec(side),
    ;

    /// Law: a well-formed accumulator's score is bounded.
    proof fn lemma_score_bounded(&self, side: Colour)
        requires
            self.wf(),
        ensures
            -EVAL_LIMIT <= self.score_spec(side) <= EVAL_LIMIT,
    ;
}

} // verus!
