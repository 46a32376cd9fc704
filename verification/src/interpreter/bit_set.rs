//! The set of the fields of a struct that were seen in a record.
use vstd::prelude::*;

verus! {

/// A set of positions below 128, one bit each.
#[derive(Debug, Clone, Copy, PartialEq, Eq, Structural)]
pub struct BitSet {
    pub bits: u128,
}

/// Whether the bit at `idx` is set in `bits`.
pub open spec fn bit_is_set(bits: u128, idx: u128) -> bool {
    (bits >> idx) & 1 == 1
}

impl BitSet {
    /// The number of positions that the set can hold.
    pub const MAX: usize = 128;

    /// Whether `idx` is in the set.
    pub open spec fn has(self, idx: usize) -> bool {
        idx < 128 && bit_is_set(self.bits, idx as u128)
    }

    /// The set with `idx` added. Positions that the set cannot hold are
    /// not added.
    pub open spec fn with(self, idx: usize) -> BitSet {
        if idx < 128 {
            BitSet { bits: self.bits | (1u128 << (idx as u128)) }
        } else {
            self
        }
    }

    /// The empty set.
    pub fn new() -> (res: BitSet)
        ensures
            res.bits == 0,
            forall|idx: usize| !res.has(idx),
    {
        assert forall|idx: u128| idx < 128 implies !bit_is_set(0u128, idx) by {
            assert((0u128 >> idx) & 1 == 0) by (bit_vector)
                requires
                    idx < 128,
            ;
        }
        BitSet { bits: 0 }
    }

    /// Removes every position.
    pub fn clear(&mut self)
        ensures
            *final(self) == (BitSet { bits: 0 }),
    {
        self.bits = 0;
    }

    /// Adds `idx`.
    pub fn insert(&mut self, idx: usize)
        requires
            idx < 128,
        ensures
            *final(self) == old(self).with(idx),
    {
        self.bits = self.bits | (1u128 << (idx as u128));
    }

    /// Whether `idx` is in the set.
    pub fn contains(&self, idx: usize) -> (res: bool)
        ensures
            res == self.has(idx),
    {
        idx < 128 && (self.bits >> (idx as u128)) & 1 == 1
    }
}

/// A position is in a set with one more position exactly if it is that
/// position or was in the set before.
pub proof fn lemma_bit_set_with(set: BitSet, idx: usize, other: usize)
    requires
        idx < 128,
    ensures
        set.with(idx).has(other) == (other == idx || set.has(other)),
{
    if other < 128 {
        let b = set.bits;
        let i = idx as u128;
        let j = other as u128;
        assert((((b | (1u128 << i)) >> j) & 1 == 1) == (j == i || ((b >> j) & 1 == 1)))
            by (bit_vector)
            requires
                i < 128,
                j < 128,
        ;
    }
}

/// No position is in the empty set.
pub proof fn lemma_bit_set_empty(idx: usize)
    ensures
        !(BitSet { bits: 0 }).has(idx),
{
    if idx < 128 {
        let j = idx as u128;
        assert((0u128 >> j) & 1 == 0) by (bit_vector)
            requires
                j < 128,
        ;
    }
}

} // verus!
