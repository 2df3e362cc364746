//! The bit-packed cell storage. The bits live in `fixedbitset::FixedBitSet`;
//! this module declares that type to the verifier, names its contents as a
//! `Seq<bool>`, and wraps the few methods the engine calls.
use vstd::prelude::*;

use fixedbitset::FixedBitSet;

verus! {

#[verifier::external_type_specification]
#[verifier::external_body]
pub struct ExFixedBitSet(FixedBitSet);

/// The contents of a bit set: one boolean per bit, in index order, with
/// length equal to the capacity the set was created with.
pub uninterp spec fn bits(b: FixedBitSet) -> Seq<bool>;

/// Relies on FixedBitSet::with_capacity: a set of `n` bits, all clear.
#[verifier::external_body]
pub(crate) fn bits_with_capacity(n: usize) -> (r: FixedBitSet)
    ensures
        bits(r) == Seq::new(n as nat, |k: int| false),
{
    FixedBitSet::with_capacity(n)
}

/// Relies on FixedBitSet's Clone impl: an independent copy of the same bits.
#[verifier::external_body]
pub(crate) fn bits_clone(b: &FixedBitSet) -> (r: FixedBitSet)
    ensures
        bits(r) == bits(*b),
{
    b.clone()
}

/// Relies on FixedBitSet::contains: whether bit `i` is set. `contains` is
/// total, but only indices below the capacity are meaningful here.
#[verifier::external_body]
pub(crate) fn bits_get(b: &FixedBitSet, i: usize) -> (r: bool)
    requires
        i < bits(*b).len(),
    ensures
        r == bits(*b)[i as int],
{
    b.contains(i)
}

/// Relies on FixedBitSet::set: writes bit `i`, leaving all others alone.
/// `set` panics at or above the capacity, which the precondition rules out.
#[verifier::external_body]
pub(crate) fn bits_set(b: &mut FixedBitSet, i: usize, v: bool)
    requires
        i < bits(*old(b)).len(),
    ensures
        bits(*final(b)) == bits(*old(b)).update(i as int, v),
{
    b.set(i, v)
}

} // verus!
