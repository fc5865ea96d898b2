//! A replicated counter: an application whose state is one integer, held as a
//! divisible state with a single part.
use vstd::prelude::*;

use crate::app::{apply_updates, group_fields, reply_to, read_replies, AppError, Update, Application, BatchReplies, UnorderedBatch, UpdateBatch};
use crate::executor::{contiguous_from, lemma_contiguous_batches_apply, run_batches, total_ops, update_step};
use crate::ordering::SeqNo;
use crate::state::{descriptions, replaced, Digest, DivisibleState, DivisibleStateDescriptor, PartId, StateError, StatePart};

verus! {

/// An operation on the counter.
#[derive(Clone, Copy, Debug, PartialEq, Eq, Structural)]
pub enum CounterOp {
    /// Add one, wrapping around at the largest value; replies with the new value.
    Increment,
    /// Reply with the current value.
    Get,
}

/// The counter value after one increment.
pub open spec fn incremented(v: u64) -> u64 {
    if v == u64::MAX {
        0
    } else {
        (v + 1) as u64
    }
}

/// The description of the counter's only part: the value it holds.
#[derive(Clone, Copy, Debug, PartialEq, Eq, Structural)]
pub struct CounterPartId {
    pub value: u64,
}

/// The counter's part, with its content.
#[derive(Clone, Copy, Debug, PartialEq, Eq, Structural)]
pub struct CounterPart {
    pub id: CounterPartId,
    pub value: u64,
}

/// The descriptor of a counter state.
#[derive(Clone, Debug)]
pub struct CounterDescriptor {
    seq_no: SeqNo,
    parts: Vec<CounterPartId>,
}

/// The counter's state: its value and its last finalised descriptor.
pub struct CounterState {
    value: u64,
    descriptor: CounterDescriptor,
}

/// The counter application.
#[derive(Clone, Copy, Debug)]
pub struct CounterApp;

impl PartId for CounterPartId {
    open spec fn spec_key(&self) -> int {
        0
    }

    /// The value's bytes, least significant first, padded with zeros.
    fn content_description(&self) -> (r: Digest) {
        let v = self.value;
        Digest([
            (v & 0xff) as u8, ((v >> 8u64) & 0xff) as u8, ((v >> 16u64) & 0xff) as u8, ((v >> 24u64) & 0xff) as u8,
            ((v >> 32u64) & 0xff) as u8, ((v >> 40u64) & 0xff) as u8, ((v >> 48u64) & 0xff) as u8, ((v >> 56u64) & 0xff) as u8,
            0, 0, 0, 0, 0, 0, 0, 0, 0, 0, 0, 0, 0, 0, 0, 0, 0, 0, 0, 0, 0, 0, 0, 0,
        ])
    }
}

impl StatePart<CounterPartId> for CounterPart {
    open spec fn spec_description(&self) -> CounterPartId {
        self.id
    }

    open spec fn spec_consistent(&self) -> bool {
        self.id.value == self.value
    }

    fn descriptor(&self) -> (r: CounterPartId) {
        self.id
    }
}

impl CounterPart {
    /// The part holding `value`, with its matching description.
    pub fn new(value: u64) -> (r: CounterPart)
        ensures
            r.id.value == value,
            r.value == value,
    {
        CounterPart { id: CounterPartId { value }, value }
    }
}

/// Whether `x` is one of `v`.
fn contains_part(v: &Vec<CounterPartId>, x: &CounterPartId) -> (r: bool)
    ensures
        r == v@.contains(*x),
{
    let mut i: usize = 0;
    while i < v.len()
        invariant
            i <= v@.len(),
            forall|j: int| 0 <= j < i ==> v@[j] != *x,
        decreases v@.len() - i,
    {
        if v[i] == *x {
            return true;
        }
        i = i + 1;
    }
    false
}

impl CounterDescriptor {
    /// The descriptor of a counter holding `value`, as of sequence number `seq_no`.
    pub fn new(seq_no: SeqNo, value: u64) -> (r: CounterDescriptor)
        ensures
            r.spec_seq_no() == seq_no,
            r.spec_parts() == seq![CounterPartId { value }],
    {
        let mut parts: Vec<CounterPartId> = Vec::new();
        parts.push(CounterPartId { value });
        CounterDescriptor { seq_no, parts }
    }
}

impl DivisibleStateDescriptor<CounterPartId> for CounterDescriptor {
    closed spec fn spec_seq_no(&self) -> SeqNo {
        self.seq_no
    }

    closed spec fn spec_parts(&self) -> Seq<CounterPartId> {
        self.parts@
    }

    fn sequence_number(&self) -> (r: SeqNo) {
        self.seq_no
    }

    fn parts(&self) -> (r: &Vec<CounterPartId>) {
        &self.parts
    }

    fn duplicate(&self) -> (r: Self) {
        let mut parts: Vec<CounterPartId> = Vec::new();
        let mut i: usize = 0;
        while i < self.parts.len()
            invariant
                i <= self.parts@.len(),
                parts@ == self.parts@.take(i as int),
            decreases self.parts@.len() - i,
        {
            parts.push(self.parts[i]);
            proof {
                assert(self.parts@.take(i + 1) =~= self.parts@.take(i as int).push(self.parts@[i as int]));
            }
            i = i + 1;
        }
        proof {
            assert(self.parts@.take(self.parts@.len() as int) =~= self.parts@);
        }
        CounterDescriptor { seq_no: self.seq_no, parts }
    }

    fn compare_descriptors(&self, other: &Self) -> (r: Vec<CounterPartId>) {
        let mut changed: Vec<CounterPartId> = Vec::new();
        let ghost theirs = other.parts@.to_set();
        let mut i: usize = 0;
        while i < self.parts.len()
            invariant
                i <= self.parts@.len(),
                theirs == other.parts@.to_set(),
                changed@.to_set() == self.parts@.take(i as int).to_set().difference(theirs),
            decreases self.parts@.len() - i,
        {
            let p = self.parts[i];
            let ghost before = changed@;
            if !contains_part(&other.parts, &p) {
                changed.push(p);
                proof {
                    before.lemma_push_to_set_commute(p);
                }
            }
            proof {
                assert(self.parts@.take(i + 1) =~= self.parts@.take(i as int).push(p));
                self.parts@.take(i as int).lemma_push_to_set_commute(p);
                assert(changed@.to_set() =~= self.parts@.take(i + 1).to_set().difference(theirs));
            }
            i = i + 1;
        }
        proof {
            assert(self.parts@.take(self.parts@.len() as int) =~= self.parts@);
        }
        changed
    }
}

impl CounterState {
    /// The value the counter holds.
    pub closed spec fn spec_value(&self) -> u64 {
        self.value
    }

    /// A counter at zero, with the descriptor of that value at sequence number zero.
    pub fn new() -> (r: CounterState)
        ensures
            r.spec_value() == 0,
            r.spec_descriptor().spec_seq_no().spec_value() == 0,
            r.spec_descriptor().spec_parts() == seq![CounterPartId { value: 0 }],
    {
        CounterState { value: 0, descriptor: CounterDescriptor::new(SeqNo::zero(), 0) }
    }

    pub fn value(&self) -> (r: u64)
        ensures
            r == self.spec_value(),
    {
        self.value
    }
}

impl DivisibleState for CounterState {
    type PartDescription = CounterPartId;

    type StateDescriptor = CounterDescriptor;

    type StatePart = CounterPart;

    closed spec fn spec_descriptor(&self) -> CounterDescriptor {
        self.descriptor
    }

    /// A delivery fits when all its parts carry the same value.
    open spec fn spec_fits(&self, parts: Seq<CounterPart>) -> bool {
        forall|i: int| 0 <= i < parts.len() ==> #[trigger] parts[i] == parts[0]
    }

    fn get_descriptor(&self) -> (r: &CounterDescriptor) {
        &self.descriptor
    }

    /// Every delivered part must be consistent and carry the same value,
    /// which then becomes the counter's value.
    fn accept_parts(&mut self, parts: Vec<CounterPart>) -> (r: Result<(), StateError>) {
        if parts.len() == 0 {
            proof {
                let before = self.descriptor.parts@.to_set();
                assert forall|d: CounterPartId| before.contains(d) <==> (descriptions(parts@).contains(d) || (before.contains(d) && !replaced(parts@, d))) by {
                    assert(descriptions(parts@).len() == 0);
                }
            }
            return Ok(());
        }
        let first = parts[0];
        let mut i: usize = 0;
        while i < parts.len()
            invariant
                i <= parts@.len(),
                parts@.len() > 0,
                first == parts@[0],
                forall|j: int| 0 <= j < i ==> #[trigger] parts@[j] == first,
                forall|j: int| 0 <= j < i ==> (#[trigger] parts@[j]).spec_consistent(),
                *self == *old(self),
            decreases parts@.len() - i,
        {
            let p = parts[i];
            if p.id.value != p.value || p != first {
                return Err(StateError::PartMismatch);
            }
            i = i + 1;
        }
        self.value = first.value;
        let mut ids: Vec<CounterPartId> = Vec::new();
        ids.push(first.id);
        self.descriptor.parts = ids;
        proof {
            let before = old(self).descriptor.parts@.to_set();
            let after = self.descriptor.parts@.to_set();
            assert(self.descriptor.parts@ == seq![first.id]);
            assert(descriptions(parts@)[0] == first.id);
            assert forall|d: CounterPartId| after.contains(d) <==> (descriptions(parts@).contains(d) || (before.contains(d) && !replaced(parts@, d))) by {
                assert(parts@[0].spec_description().spec_key() == d.spec_key());
                if after.contains(d) {
                    assert(self.descriptor.parts@[0] == d);
                }
                if descriptions(parts@).contains(d) {
                    let k = choose|k: int| 0 <= k < parts@.len() && descriptions(parts@)[k] == d;
                    assert(parts@[k] == first);
                    assert(self.descriptor.parts@[0] == d);
                }
            }
        }
        Ok(())
    }

    /// The descriptor now describes the current value, as of `seq_no`.
    fn prepare_checkpoint(&mut self, seq_no: SeqNo) -> (r: Result<&CounterDescriptor, StateError>) {
        let mut ids: Vec<CounterPartId> = Vec::new();
        ids.push(CounterPartId { value: self.value });
        self.descriptor.parts = ids;
        self.descriptor.seq_no = seq_no;
        Ok(&self.descriptor)
    }

    fn get_parts(&self, parts: &[CounterPartId]) -> (r: Result<Vec<CounterPart>, StateError>) {
        let mut out: Vec<CounterPart> = Vec::new();
        let mut i: usize = 0;
        while i < parts.len()
            invariant
                i <= parts@.len(),
                out@.len() == i,
                forall|j: int| 0 <= j < i ==> self.descriptor.parts@.contains(#[trigger] parts@[j]),
                forall|j: int| 0 <= j < i ==> (#[trigger] out@[j]).spec_description() == parts@[j] && out@[j].spec_consistent(),
            decreases parts@.len() - i,
        {
            let d = parts[i];
            if !contains_part(&self.descriptor.parts, &d) {
                return Err(StateError::UnknownPart);
            }
            out.push(CounterPart { id: d, value: d.value });
            i = i + 1;
        }
        Ok(out)
    }
}

impl CounterApp {
    /// An increment adds one, wrapping around, replies with the new value and
    /// keeps the descriptor.
    pub proof fn lemma_increment(self, state: CounterState)
        ensures
            self.spec_update(state, CounterOp::Increment).0.spec_value() == incremented(state.spec_value()),
            self.spec_update(state, CounterOp::Increment).1 == incremented(state.spec_value()),
            self.spec_update(state, CounterOp::Increment).0.spec_descriptor() == state.spec_descriptor(),
    {
    }

    /// `Get` leaves the state alone and replies with the value.
    pub proof fn lemma_get(self, state: CounterState)
        ensures
            self.spec_update(state, CounterOp::Get) == (state, state.spec_value()),
    {
    }

    /// A read-only request replies with the value.
    pub proof fn lemma_read(self, state: CounterState, request: CounterOp)
        ensures
            self.spec_read(state, request) == state.spec_value(),
    {
    }

    /// A batch of `n` increments from value `v`, with no wrap-around, leaves
    /// `v + n` and replies `v + 1, ..., v + n` in order, each routed back to
    /// the origin, session and operation id of its update.
    pub proof fn lemma_increments(self, state: CounterState, us: Seq<Update<CounterOp>>)
        requires
            forall|i: int| 0 <= i < us.len() ==> (#[trigger] us[i]).spec_operation() == CounterOp::Increment,
            state.spec_value() + us.len() <= u64::MAX,
        ensures
            apply_updates(update_step(self), state, us).0.spec_value() == state.spec_value() + us.len(),
            apply_updates(update_step(self), state, us).1.len() == us.len(),
            forall|i: int| 0 <= i < us.len() ==> {
                let r = #[trigger] apply_updates(update_step(self), state, us).1[i];
                &&& r.spec_payload() == state.spec_value() + i + 1
                &&& r.spec_to() == us[i].spec_from()
                &&& r.spec_session_id() == us[i].spec_session_id()
                &&& r.spec_operation_id() == us[i].spec_operation_id()
            },
        decreases us.len(),
    {
        broadcast use group_fields;

        if us.len() > 0 {
            let init = us.drop_last();
            assert forall|i: int| 0 <= i < init.len() implies (#[trigger] init[i]).spec_operation() == CounterOp::Increment by {
                assert(init[i] == us[i]);
            }
            self.lemma_increments(state, init);
            assert(us.last() == us[us.len() - 1]);
            let (mid, rs) = apply_updates(update_step(self), state, init);
            self.lemma_increment(mid);
            assert(us.last().spec_operation() == CounterOp::Increment);
            let step = update_step(self);
            assert(step(mid, us.last().spec_operation()) == self.spec_update(mid, CounterOp::Increment));
            let p = self.spec_update(mid, CounterOp::Increment).1;
            assert(p == mid.spec_value() + 1);
            let all = apply_updates(update_step(self), state, us).1;
            assert(all == rs.push(reply_to(us.last(), p)));
            assert forall|i: int| 0 <= i < us.len() implies {
                let r = #[trigger] all[i];
                &&& r.spec_payload() == state.spec_value() + i + 1
                &&& r.spec_to() == us[i].spec_from()
                &&& r.spec_session_id() == us[i].spec_session_id()
                &&& r.spec_operation_id() == us[i].spec_operation_id()
            } by {
                if i < init.len() {
                    assert(all[i] == rs[i]);
                    assert(init[i] == us[i]);
                    assert(rs[i] == apply_updates(update_step(self), state, init).1[i]);
                } else {
                    assert(i == us.len() - 1);
                    assert(us[i] == us.last());
                    assert(all[i] == reply_to(us.last(), p));
                    assert(mid.spec_value() == state.spec_value() + init.len());
                    assert(reply_to(us.last(), p).spec_payload() == p);
                }
            }
        }
    }
}

impl CounterApp {
    /// A catch-up run of batches of increments, numbered consecutively after
    /// `last` and with no wrap-around, raises the counter by exactly the
    /// number of operations and ends at the last batch's number.
    pub proof fn lemma_catch_up_increments(self, state: CounterState, last: nat, batches: Seq<(SeqNo, Seq<Update<CounterOp>>)>)
        requires
            contiguous_from(last, batches),
            forall|i: int, j: int| 0 <= i < batches.len() && 0 <= j < batches[i].1.len()
                ==> (#[trigger] batches[i].1[j]).spec_operation() == CounterOp::Increment,
            state.spec_value() + total_ops(batches) <= u64::MAX,
        ensures
            run_batches(update_step(self), state, last, batches) matches Some((st, l, _))
                && st.spec_value() == state.spec_value() + total_ops(batches) && l == last + batches.len(),
        decreases batches.len(),
    {
        lemma_contiguous_batches_apply(update_step(self), state, last, batches);
        if batches.len() > 0 {
            let init = batches.drop_last();
            assert forall|i: int| 0 <= i < init.len() implies (#[trigger] init[i]).0.spec_value() == last + 1 + i by {
                assert(init[i] == batches[i]);
            }
            assert forall|i: int, j: int| 0 <= i < init.len() && 0 <= j < init[i].1.len()
                implies (#[trigger] init[i].1[j]).spec_operation() == CounterOp::Increment by {
                assert(init[i] == batches[i]);
            }
            self.lemma_catch_up_increments(state, last, init);
            let b = batches.last();
            assert(b == batches[batches.len() - 1]);
            assert forall|j: int| 0 <= j < b.1.len() implies (#[trigger] b.1[j]).spec_operation() == CounterOp::Increment by {
                assert(batches[batches.len() - 1].1[j] == b.1[j]);
            }
            let (mid, _, _) = run_batches(update_step(self), state, last, init).unwrap();
            self.lemma_increments(mid, b.1);
        }
    }
}

impl Application<CounterState> for CounterApp {
    type Request = CounterOp;

    type Reply = u64;

    closed spec fn spec_read(&self, state: CounterState, request: CounterOp) -> u64 {
        state.value
    }

    closed spec fn spec_update(&self, state: CounterState, request: CounterOp) -> (CounterState, u64) {
        match request {
            CounterOp::Increment => {
                let v = incremented(state.value);
                (CounterState { value: v, descriptor: state.descriptor }, v)
            },
            CounterOp::Get => (state, state.value),
        }
    }

    fn initial_state() -> (r: Result<CounterState, AppError>)
        ensures
            r matches Ok(s) && s.spec_value() == 0,
    {
        Ok(CounterState::new())
    }

    fn unordered_execution(&self, state: &CounterState, request: CounterOp) -> (r: u64) {
        state.value
    }

    /// Every read sees the same value, so each reply carries it.
    fn unordered_batched_execution(&self, state: &CounterState, requests: UnorderedBatch<CounterOp>) -> (r: BatchReplies<u64>) {
        let mut replies = BatchReplies::with_capacity(requests.len());
        let ghost all = requests@;
        let ops = requests.into_inner();
        let mut i: usize = 0;
        while i < ops.len()
            invariant
                i <= ops@.len(),
                ops@ == all,
                replies@ == read_replies(|st: CounterState, q: CounterOp| self.spec_read(st, q), *state, all.take(i as int)),
            decreases ops@.len() - i,
        {
            let u = &ops[i];
            replies.add(u.from(), u.session_id(), u.operation_id(), state.value);
            proof {
                assert(all.take(i + 1) =~= all.take(i as int).push(all[i as int]));
                assert(replies@ =~= read_replies(|st: CounterState, q: CounterOp| self.spec_read(st, q), *state, all.take(i + 1)));
            }
            i = i + 1;
        }
        proof {
            assert(all.take(all.len() as int) =~= all);
        }
        replies
    }

    fn update(&self, state: &mut CounterState, request: CounterOp) -> (r: u64) {
        match request {
            CounterOp::Increment => {
                state.value = if state.value == u64::MAX {
                    0
                } else {
                    state.value + 1
                };
                state.value
            },
            CounterOp::Get => state.value,
        }
    }

    /// One `update` per operation, in batch order.
    fn update_batch(&self, state: &mut CounterState, batch: UpdateBatch<CounterOp>) -> (r: BatchReplies<u64>) {
        let mut replies = BatchReplies::with_capacity(batch.len());
        let ghost all = batch@;
        let ops = batch.into_inner();
        let mut i: usize = 0;
        while i < ops.len()
            invariant
                i <= ops@.len(),
                ops@ == all,
                (*state, replies@) == apply_updates(|st: CounterState, q: CounterOp| self.spec_update(st, q), *old(state), all.take(i as int)),
            decreases ops@.len() - i,
        {
            let u = &ops[i];
            let reply = self.update(state, *u.operation());
            replies.add(u.from(), u.session_id(), u.operation_id(), reply);
            proof {
                assert(all.take(i + 1).drop_last() =~= all.take(i as int));
            }
            i = i + 1;
        }
        proof {
            assert(all.take(all.len() as int) =~= all);
        }
        replies
    }
}

} // verus!
