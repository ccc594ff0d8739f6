//! The Free-Chunk Index: a sparse set of chunk positions, kept in a
//! `bit_set::BitSet`.  The bit set is opaque to the verifier, so it is held
//! in an opaque struct; what it holds is named by `index_elems`, and each
//! operation the pool performs is wrapped in a function whose contract
//! states, over that name, what the bit-set crate's source shows.

use vstd::prelude::*;

verus! {

/// A set of chunk positions, backed by `bit_set::BitSet`.
#[verifier::external_body]
pub struct FreeChunkIndex {
    bits: bit_set::BitSet,
}

/// The set of positions whose bits are set in `s`.
pub uninterp spec fn index_elems(s: FreeChunkIndex) -> Set<usize>;

impl FreeChunkIndex {
    /// Relies on `BitSet::new`: a fresh bit set has no bit set.
    #[verifier::external_body]
    pub(crate) fn new() -> (s: FreeChunkIndex)
        ensures
            index_elems(s) == Set::<usize>::empty(),
    {
        FreeChunkIndex { bits: bit_set::BitSet::new() }
    }

    /// Relies on `BitSet::insert`: sets the bit at `value` and changes no
    /// other bit, so afterwards the set holds its old members plus `value`.
    #[verifier::external_body]
    pub(crate) fn insert(&mut self, value: usize)
        ensures
            index_elems(*final(self)) == index_elems(*old(self)).insert(value),
    {
        self.bits.insert(value);
    }

    /// Relies on `BitSet::remove`: clears the bit at `value` and changes no
    /// other bit, so afterwards the set holds its old members minus `value`.
    #[verifier::external_body]
    pub(crate) fn remove(&mut self, value: usize)
        ensures
            index_elems(*final(self)) == index_elems(*old(self)).remove(value),
    {
        self.bits.remove(value);
    }

    /// Relies on `BitSet::contains`: reports whether the bit at `value` is
    /// set.
    #[verifier::external_body]
    pub(crate) fn contains(&self, value: usize) -> (r: bool)
        ensures
            r == index_elems(*self).contains(value),
    {
        self.bits.contains(value)
    }

    /// Relies on `BitSet::iter`: the iterator visits exactly the set bits,
    /// so its first element is a member, and there is none exactly when no
    /// bit is set.
    #[verifier::external_body]
    pub(crate) fn first(&self) -> (r: Option<usize>)
        ensures
            r matches Some(i) ==> index_elems(*self).contains(i),
            r is None ==> forall|i: usize| !index_elems(*self).contains(i),
    {
        self.bits.iter().next()
    }
}

} // verus!
