//! The divisible-state abstraction: a state exposed as a descriptor plus
//! independently transferable parts, and the messages that carry them between
//! the executor and the state-transfer subsystem.
use vstd::prelude::*;

use crate::ordering::SeqNo;

verus! {

/// A content digest of a state part.
#[derive(Clone, Copy, Debug, PartialEq, Eq, Hash)]
pub struct Digest(pub [u8; 32]);

/// Messages from the state-transfer subsystem to the executor. One
/// installation session is one `StateDescriptor`, any number of `StatePart`
/// deliveries, then `Done`.
pub enum InstallStateMessage<S: DivisibleState> {
    /// The descriptor of the state being installed.
    StateDescriptor(S::StateDescriptor),
    /// Some parts of that state.
    StatePart(Vec<S::StatePart>),
    /// Every part has been delivered.
    Done,
}

/// The payload of a checkpoint report from the executor.
pub enum AppState<S: DivisibleState> {
    StateDescriptor(S::StateDescriptor),
    StatePart(Vec<S::StatePart>),
    Done,
}

/// A checkpoint report, tagged with the sequence number of the last batch
/// applied before the checkpoint was taken.
pub struct AppStateMessage<S: DivisibleState> {
    seq_no: SeqNo,
    state: AppState<S>,
}

impl<S: DivisibleState> AppStateMessage<S> {
    pub closed spec fn spec_seq_no(&self) -> SeqNo {
        self.seq_no
    }

    pub closed spec fn spec_state(&self) -> AppState<S> {
        self.state
    }

    pub fn new(seq_no: SeqNo, state_portion: AppState<S>) -> (r: Self)
        ensures
            r.spec_seq_no() == seq_no,
            r.spec_state() == state_portion,
    {
        AppStateMessage { seq_no, state: state_portion }
    }

    /// The sequence number and the payload.
    pub fn into_state(self) -> (r: (SeqNo, AppState<S>))
        ensures
            r == (self.spec_seq_no(), self.spec_state()),
    {
        (self.seq_no, self.state)
    }

    pub fn sequence_number(&self) -> (r: SeqNo)
        ensures
            r == self.spec_seq_no(),
    {
        self.seq_no
    }
}

/// Why a divisible state refused a request.
#[derive(Debug, Clone, Copy, PartialEq, Eq, Structural)]
pub enum StateError {
    /// A requested part description is not part of this state.
    UnknownPart,
    /// A part's content does not match its description, or does not fit the
    /// current state's lineage.
    PartMismatch,
    /// The state cannot be snapshotted now; retry once it is quiescent.
    NotQuiescent,
}

/// The description of one part: which part it is and a digest of its content.
pub trait PartId: Sized {
    /// Which part of the state this describes; two descriptions of the same
    /// part at different times share it.
    spec fn spec_key(&self) -> int;

    fn content_description(&self) -> (r: Digest);
}

/// A summary of a whole state, made of the descriptions of its parts.
pub trait DivisibleStateDescriptor<P>: Sized + Clone {
    /// The sequence number of the last batch reflected in this descriptor.
    spec fn spec_seq_no(&self) -> SeqNo;

    /// The descriptions of the parts.
    spec fn spec_parts(&self) -> Seq<P>;

    fn sequence_number(&self) -> (r: SeqNo)
        ensures
            r == self.spec_seq_no(),
    ;

    /// All the parts of the state.
    fn parts(&self) -> (r: &Vec<P>)
        ensures
            r@ == self.spec_parts(),
    ;

    /// A copy of this descriptor: same sequence number, same parts.
    fn duplicate(&self) -> (r: Self)
        ensures
            r.spec_seq_no() == self.spec_seq_no(),
            r.spec_parts() == self.spec_parts(),
    ;

    /// The part descriptions of `self` that `other` does not have: the parts
    /// that changed, or are new, going from `other` to `self`.
    fn compare_descriptors(&self, other: &Self) -> (r: Vec<P>)
        ensures
            r@.to_set() == self.spec_parts().to_set().difference(other.spec_parts().to_set()),
    ;
}

/// Whether descriptors `a` and `b` carry the same sequence number and the
/// same part descriptions, in the same order.
pub open spec fn same_descriptor<P, D: DivisibleStateDescriptor<P>>(a: D, b: D) -> bool {
    a.spec_seq_no() == b.spec_seq_no() && a.spec_parts() == b.spec_parts()
}

/// A part of a state, with its content.
pub trait StatePart<P>: Sized {
    /// The description this part claims.
    spec fn spec_description(&self) -> P;

    /// Whether the content matches the claimed description's digest.
    spec fn spec_consistent(&self) -> bool;

    fn descriptor(&self) -> (r: P)
        ensures
            r == self.spec_description(),
    ;
}

/// The descriptions that `parts` claim, in order.
pub open spec fn descriptions<P, T: StatePart<P>>(parts: Seq<T>) -> Seq<P> {
    Seq::new(parts.len(), |i: int| parts[i].spec_description())
}

/// Whether `parts` is a consistent copy of the parts described by `wanted`, in order.
pub open spec fn parts_for<P, T: StatePart<P>>(parts: Seq<T>, wanted: Seq<P>) -> bool {
    &&& parts.len() == wanted.len()
    &&& forall|i: int| 0 <= i < parts.len() ==> (#[trigger] parts[i]).spec_description() == wanted[i] && parts[i].spec_consistent()
}

/// Whether some part in `parts` has the same key as description `d`, so
/// that it supersedes `d`.
pub open spec fn replaced<P: PartId, T: StatePart<P>>(parts: Seq<T>, d: P) -> bool {
    exists|i: int| 0 <= i < parts.len() && (#[trigger] parts[i].spec_description()).spec_key() == d.spec_key()
}

/// Whether going from part set `before` to `after` merged in `parts`: the
/// result holds every incoming description, and of the earlier ones exactly
/// those that no incoming part supersedes.
pub open spec fn merged<P: PartId, T: StatePart<P>>(before: Set<P>, parts: Seq<T>, after: Set<P>) -> bool {
    forall|d: P| #[trigger] after.contains(d) <==> (descriptions(parts).contains(d) || (before.contains(d) && !replaced(parts, d)))
}

/// Whether `local` and `target` describe the same parts, so that
/// `compare_descriptors` is empty both ways.
pub open spec fn same_parts<P>(local: Seq<P>, target: Seq<P>) -> bool {
    local.to_set() == target.to_set()
}

/// A checkpoint round trip: a state whose parts are all earlier versions of
/// parts of descriptor `x` (a fresh state) and that accepts consistent copies
/// of every part of `x` (as `get_parts(x.parts())` returns them) ends with
/// exactly the parts of `x`: `compare_descriptors` is empty both ways.
pub proof fn lemma_checkpoint_installs<P: PartId, D: DivisibleStateDescriptor<P>, T: StatePart<P>>(
    x: D,
    parts: Seq<T>,
    fresh: Set<P>,
    installed: Seq<P>,
)
    requires
        parts_for(parts, x.spec_parts()),
        forall|d: P| #[trigger] fresh.contains(d) ==> exists|e: P| x.spec_parts().contains(e) && e.spec_key() == d.spec_key(),
        merged(fresh, parts, installed.to_set()),
    ensures
        same_parts(installed, x.spec_parts()),
{
    assert(descriptions(parts) =~= x.spec_parts());
    assert forall|d: P| installed.to_set().contains(d) <==> x.spec_parts().to_set().contains(d) by {
        if installed.to_set().contains(d) && !x.spec_parts().contains(d) {
            assert(fresh.contains(d) && !replaced(parts, d));
            let e = choose|e: P| x.spec_parts().contains(e) && e.spec_key() == d.spec_key();
            let i = choose|i: int| 0 <= i < x.spec_parts().len() && x.spec_parts()[i] == e;
            assert(parts[i].spec_description() == e);
        }
    }
    assert(installed.to_set() =~= x.spec_parts().to_set());
}

/// An installation session that delivers the parts of target `x` in two
/// deliveries `first` and `second`, which between them describe every part of
/// `x` and only parts of `x` (one description per key), into a state whose
/// parts are all earlier versions of parts of `x`, leaves exactly the parts
/// of `x`, so `Done` is accepted.
pub proof fn lemma_two_deliveries_complete<P: PartId, T: StatePart<P>>(
    x: Seq<P>,
    first: Seq<T>,
    second: Seq<T>,
    before: Set<P>,
    between: Set<P>,
    after: Set<P>,
)
    requires
        forall|a: P, b: P| #[trigger] x.contains(a) && #[trigger] x.contains(b) && a.spec_key() == b.spec_key() ==> a == b,
        forall|d: P| #[trigger] descriptions(first).contains(d) ==> x.contains(d),
        forall|d: P| #[trigger] descriptions(second).contains(d) ==> x.contains(d),
        forall|d: P| #[trigger] x.contains(d) ==> descriptions(first).contains(d) || descriptions(second).contains(d),
        forall|d: P| #[trigger] before.contains(d) ==> exists|e: P| x.contains(e) && e.spec_key() == d.spec_key(),
        merged(before, first, between),
        merged(between, second, after),
    ensures
        after == x.to_set(),
{
    assert forall|d: P| after.contains(d) <==> x.to_set().contains(d) by {
        if x.contains(d) {
            if !descriptions(second).contains(d) {
                assert(descriptions(first).contains(d));
                assert(between.contains(d));
                if replaced(second, d) {
                    let j = choose|j: int| 0 <= j < second.len() && (#[trigger] second[j].spec_description()).spec_key() == d.spec_key();
                    assert(descriptions(second)[j] == second[j].spec_description());
                    assert(descriptions(second).contains(second[j].spec_description()));
                }
            }
        }
        if after.contains(d) && !descriptions(second).contains(d) {
            assert(between.contains(d) && !replaced(second, d));
            if !descriptions(first).contains(d) {
                assert(before.contains(d) && !replaced(first, d));
                let e = choose|e: P| x.contains(e) && e.spec_key() == d.spec_key();
                if descriptions(first).contains(e) {
                    let i = choose|i: int| 0 <= i < first.len() && descriptions(first)[i] == e;
                    assert(first[i].spec_description() == e);
                } else {
                    assert(descriptions(second).contains(e));
                    let i = choose|i: int| 0 <= i < second.len() && descriptions(second)[i] == e;
                    assert(second[i].spec_description() == e);
                }
            }
        }
    }
    assert(after =~= x.to_set());
}

/// A state that can be checkpointed and installed part by part.
pub trait DivisibleState: Sized + Send {
    type PartDescription: PartId;

    type StateDescriptor: DivisibleStateDescriptor<Self::PartDescription>;

    type StatePart: StatePart<Self::PartDescription>;

    /// The descriptor of the state as it stands.
    spec fn spec_descriptor(&self) -> Self::StateDescriptor;

    /// Whether a delivery of `parts` fits this state's shape and lineage
    /// (for instance, belongs to the same state generation).
    spec fn spec_fits(&self, parts: Seq<Self::StatePart>) -> bool;

    /// The current descriptor; cheap, no digest is recomputed.
    fn get_descriptor(&self) -> (r: &Self::StateDescriptor)
        ensures
            *r == self.spec_descriptor(),
    ;

    /// Merges `parts` into the state. Succeeds exactly when every part's
    /// content matches its description and the delivery fits the state; a
    /// refused delivery leaves the state as it was.
    fn accept_parts(&mut self, parts: Vec<Self::StatePart>) -> (r: Result<(), StateError>)
        ensures
            r is Ok <==> (forall|i: int| 0 <= i < parts@.len() ==> (#[trigger] parts@[i]).spec_consistent()) && old(self).spec_fits(parts@),
            r is Ok ==> merged(
                old(self).spec_descriptor().spec_parts().to_set(),
                parts@,
                final(self).spec_descriptor().spec_parts().to_set(),
            ),
            r matches Err(e) ==> e == StateError::PartMismatch && *final(self) == *old(self),
    ;

    /// Finalises a fresh descriptor reflecting every update applied so far,
    /// tagged with `seq_no`, the last batch applied.
    fn prepare_checkpoint(&mut self, seq_no: SeqNo) -> (r: Result<&Self::StateDescriptor, StateError>)
        ensures
            r matches Ok(d) ==> *d == final(self).spec_descriptor() && d.spec_seq_no() == seq_no,
    ;

    /// The parts with the given descriptions, in the order asked; fails
    /// exactly when one of them is not a part of this state.
    fn get_parts(&self, parts: &[Self::PartDescription]) -> (r: Result<Vec<Self::StatePart>, StateError>)
        ensures
            (forall|i: int| 0 <= i < parts@.len() ==> self.spec_descriptor().spec_parts().contains(#[trigger] parts@[i])) <==> r is Ok,
            r matches Ok(v) ==> parts_for(v@, parts@),
            r matches Err(e) ==> e == StateError::UnknownPart,
    ;
}

} // verus!
