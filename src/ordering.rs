//! Sequence numbers and node identifiers.
use vstd::prelude::*;

verus! {

/// Identifier of a replica or client node.
#[derive(Clone, Copy, Debug, PartialEq, Eq, Structural, Hash, PartialOrd, Ord)]
pub struct NodeId(pub u32);

/// A totally ordered sequence number, assigned by the ordering protocol.
#[derive(Clone, Copy, Debug, PartialEq, Eq, Structural, Hash, PartialOrd, Ord)]
pub struct SeqNo(pub u32);

impl SeqNo {
    /// The sequence number as a mathematical integer.
    pub open spec fn spec_value(self) -> nat {
        self.0 as nat
    }

    pub fn new(value: u32) -> (r: SeqNo)
        ensures
            r.spec_value() == value,
    {
        SeqNo(value)
    }

    /// The sequence number before any batch has been applied.
    pub fn zero() -> (r: SeqNo)
        ensures
            r.spec_value() == 0,
    {
        SeqNo(0)
    }

    pub fn value(&self) -> (r: u32)
        ensures
            r == self.spec_value(),
    {
        self.0
    }

    /// Whether `other` comes immediately after `self`.
    pub fn is_followed_by(&self, other: &SeqNo) -> (r: bool)
        ensures
            r == (other.spec_value() == self.spec_value() + 1),
    {
        (other.0 as u64) == (self.0 as u64) + 1
    }

    /// The sequence number after this one, unless this one is the largest.
    pub fn next(&self) -> (r: Option<SeqNo>)
        ensures
            self.0 < u32::MAX ==> r == Some(SeqNo((self.0 + 1) as u32)),
            self.0 == u32::MAX ==> r is None,
    {
        if self.0 < u32::MAX {
            Some(SeqNo(self.0 + 1))
        } else {
            None
        }
    }
}

} // verus!
