//! The principal-variation buffer: a fixed-capacity vector of moves held in
//! tinyvec's `ArrayVec`, as the external driver hands it in. The buffer is
//! opaque to the proofs; `pv_seq` names its contents, and each operation
//! used by the search states its effect on that sequence, as tinyvec's
//! source shows it.

use vstd::prelude::*;

verus! {

use crate::game::Move;

#[verifier::external_type_specification]
#[verifier::external_body]
#[verifier::reject_recursive_types(A)]
pub struct ExArrayVec<A>(tinyvec::ArrayVec<A>);

/// The moves a principal-variation buffer holds, first move first.
pub uninterp spec fn pv_seq(v: tinyvec::ArrayVec<[Move; 32]>) -> Seq<Move>;

/// Relies on tinyvec's `ArrayVec::new`: a fresh buffer is empty.
#[verifier::external_body]
pub fn pv_new() -> (r: tinyvec::ArrayVec<[Move; 32]>)
    ensures
        pv_seq(r) == Seq::<Move>::empty(),
{
    tinyvec::ArrayVec::new()
}

/// Relies on tinyvec's `ArrayVec::set_len(0)`: it empties the buffer.
#[verifier::external_body]
pub fn pv_clear(v: &mut tinyvec::ArrayVec<[Move; 32]>)
    ensures
        pv_seq(*final(v)) == Seq::<Move>::empty(),
{
    v.set_len(0)
}

/// Relies on tinyvec's `ArrayVec::push`: it appends while capacity
/// remains (and panics otherwise, which the precondition rules out).
#[verifier::external_body]
pub fn pv_push(v: &mut tinyvec::ArrayVec<[Move; 32]>, m: Move)
    requires
        pv_seq(*old(v)).len() < 32,
    ensures
        pv_seq(*final(v)) == pv_seq(*old(v)).push(m),
{
    v.push(m)
}

/// Relies on tinyvec's `ArrayVec::len`.
#[verifier::external_body]
pub fn pv_len(v: &tinyvec::ArrayVec<[Move; 32]>) -> (r: usize)
    ensures
        r == pv_seq(*v).len(),
{
    v.len()
}

/// Relies on indexing the slice tinyvec's `ArrayVec` dereferences to.
#[verifier::external_body]
pub fn pv_get(v: &tinyvec::ArrayVec<[Move; 32]>, i: usize) -> (r: Move)
    requires
        i < pv_seq(*v).len(),
    ensures
        r == pv_seq(*v)[i as int],
{
    v[i]
}

} // verus!
