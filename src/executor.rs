//! The execution engine: applies ordered batches, catch-up runs and state
//! installations to the application state one at a time, in the order they
//! arrive, and decides what each request leads to.
use vstd::prelude::*;

use crate::app::{apply_updates, lemma_apply_updates_len, reversed, read_replies, Application, BatchReplies, UnorderedBatch, Update, UpdateBatch, UpdateReply};
use crate::ordering::{NodeId, SeqNo};
use crate::state::{
    descriptions, merged, same_descriptor, same_parts, AppState, AppStateMessage, DivisibleState, DivisibleStateDescriptor,
    InstallStateMessage, StatePart, StateError,
};

verus! {

/// The point in time a request was queued, kept for latency reporting.
#[verifier::external_type_specification]
#[verifier::external_body]
pub struct ExInstant(std::time::Instant);

/// The requests the engine consumes, in the order they were queued.
pub enum ExecutionRequest<O> {
    /// The state-transfer channel has pending installation messages.
    PollStateChannel,
    /// Apply these batches, which must continue the applied sequence without gaps.
    CatchUp(Vec<UpdateBatch<O>>),
    /// Apply an ordered batch.
    Update((UpdateBatch<O>, std::time::Instant)),
    /// Apply an ordered batch, then report a checkpoint of the state.
    UpdateAndGetAppstate((UpdateBatch<O>, std::time::Instant)),
    /// Answer a batch of read-only requests.
    ExecuteUnordered(UnorderedBatch<O>),
    /// Serve a read of the state to the given node.
    Read(NodeId),
}

impl<O> ExecutionRequest<O> {
    /// The request to poll the state-transfer channel.
    pub fn poll_request() -> (r: Self)
        ensures
            r == ExecutionRequest::<O>::PollStateChannel,
    {
        ExecutionRequest::PollStateChannel
    }

    /// The request to apply a catch-up run.
    pub fn catch_up_request(batches: Vec<UpdateBatch<O>>) -> (r: Self)
        ensures
            r == ExecutionRequest::CatchUp(batches),
    {
        ExecutionRequest::CatchUp(batches)
    }

    /// The request to apply an ordered batch queued at `at`.
    pub fn update_request(batch: UpdateBatch<O>, at: std::time::Instant) -> (r: Self)
        ensures
            r == ExecutionRequest::Update((batch, at)),
    {
        ExecutionRequest::Update((batch, at))
    }

    /// The request to apply an ordered batch queued at `at` and then report a checkpoint.
    pub fn update_and_appstate_request(batch: UpdateBatch<O>, at: std::time::Instant) -> (r: Self)
        ensures
            r == ExecutionRequest::UpdateAndGetAppstate((batch, at)),
    {
        ExecutionRequest::UpdateAndGetAppstate((batch, at))
    }

    /// The request to answer a read-only batch.
    pub fn unordered_request(batch: UnorderedBatch<O>) -> (r: Self)
        ensures
            r == ExecutionRequest::ExecuteUnordered(batch),
    {
        ExecutionRequest::ExecuteUnordered(batch)
    }
}

/// What a request led to, for the surrounding loop to act on.
pub enum Outcome<S: DivisibleState, P> {
    /// The replies to an ordered batch.
    Replies(BatchReplies<P>),
    /// The replies to an ordered batch, and the checkpoint report taken after
    /// it, or why the state could not be checkpointed.
    RepliesAndCheckpoint(BatchReplies<P>, Result<Vec<AppStateMessage<S>>, StateError>),
    /// The replies to every batch of a catch-up run, in order.
    CaughtUp(BatchReplies<P>),
    /// The replies to a read-only batch.
    UnorderedReplies(BatchReplies<P>),
    /// Serve a read of the state to this node.
    Read(NodeId),
    /// Poll the state-transfer channel and hand its messages to `install`.
    PollStateChannel,
    /// An installation is under way: the request waits until it completes.
    Deferred,
}

/// Why the engine rejected a request or an installation message.
#[derive(Debug, Clone, Copy, PartialEq, Eq, Structural)]
pub enum ExecError {
    /// A batch's sequence number does not follow the last one applied.
    SequenceGap { expected: u64, found: SeqNo },
    /// An installation message came outside an installation session.
    NoInstallation,
    /// The state refused the delivered parts.
    PartsRejected(StateError),
    /// At the end of an installation the local state does not match the target.
    DescriptorMismatch,
}

/// Whether the engine executes requests or installs a state. A catch-up run
/// is applied within a single call, so it never shows between requests.
#[derive(Debug, Clone, Copy, PartialEq, Eq, Structural)]
pub enum Phase {
    Normal,
    InstallingState,
}

/// A batch as the engine sees it: its sequence number and its operations.
pub open spec fn batch_view<O>(b: UpdateBatch<O>) -> (SeqNo, Seq<Update<O>>) {
    (b.spec_seq_no(), b@)
}

/// Applies `batches` in order from `state`, where `last` is the sequence
/// number applied last: the final state, the new last sequence number and
/// every reply in order, or `None` if some batch does not follow its
/// predecessor.
pub open spec fn run_batches<S, Q, P>(
    step: spec_fn(S, Q) -> (S, P),
    state: S,
    last: nat,
    batches: Seq<(SeqNo, Seq<Update<Q>>)>,
) -> Option<(S, nat, Seq<UpdateReply<P>>)>
    decreases batches.len(),
{
    if batches.len() == 0 {
        Some((state, last, Seq::empty()))
    } else {
        match run_batches(step, state, last, batches.drop_last()) {
            None => None,
            Some((mid, mid_last, replies)) => {
                if batches.last().0.spec_value() == mid_last + 1 {
                    let (next, more) = apply_updates(step, mid, batches.last().1);
                    Some((next, batches.last().0.spec_value(), replies + more))
                } else {
                    None
                }
            },
        }
    }
}

/// Whether the sequence numbers of `batches` are `last + 1, last + 2, ...`.
pub open spec fn contiguous_from<Q>(last: nat, batches: Seq<(SeqNo, Seq<Update<Q>>)>) -> bool {
    forall|i: int| 0 <= i < batches.len() ==> (#[trigger] batches[i]).0.spec_value() == last + 1 + i
}

/// The number of operations in `batches`.
pub open spec fn total_ops<Q>(batches: Seq<(SeqNo, Seq<Update<Q>>)>) -> nat
    decreases batches.len(),
{
    if batches.len() == 0 {
        0
    } else {
        total_ops(batches.drop_last()) + batches.last().1.len()
    }
}

/// Ordered batches numbered consecutively after `last` all apply, in order:
/// afterwards the last applied sequence number is that of the final batch,
/// and there is one reply per operation, batch after batch in submission order.
pub proof fn lemma_contiguous_batches_apply<S, Q, P>(
    step: spec_fn(S, Q) -> (S, P),
    state: S,
    last: nat,
    batches: Seq<(SeqNo, Seq<Update<Q>>)>,
)
    requires
        contiguous_from(last, batches),
    ensures
        run_batches(step, state, last, batches) matches Some((_, l, rs)) && l == last + batches.len() && rs.len() == total_ops(batches),
    decreases batches.len(),
{
    if batches.len() > 0 {
        let init = batches.drop_last();
        assert forall|i: int| 0 <= i < init.len() implies (#[trigger] init[i]).0.spec_value() == last + 1 + i by {
            assert(init[i] == batches[i]);
        }
        lemma_contiguous_batches_apply(step, state, last, init);
        assert(batches.last() == batches[batches.len() - 1]);
        let (mid, _, _) = run_batches(step, state, last, init).unwrap();
        lemma_apply_updates_len(step, mid, batches.last().1);
    }
}

/// The part descriptions a checkpoint of descriptor `current` reports: those
/// that changed since descriptor `last` was reported, or all of them on the
/// first checkpoint.
pub open spec fn changed_parts<P, D: DivisibleStateDescriptor<P>>(current: D, last: Option<D>) -> Set<P> {
    match last {
        Some(l) => current.spec_parts().to_set().difference(l.spec_parts().to_set()),
        None => current.spec_parts().to_set(),
    }
}

/// The step function of an application's updates.
pub open spec fn update_step<S, A: Application<S>>(app: A) -> spec_fn(S, A::Request) -> (S, A::Reply) {
    |st: S, q: A::Request| app.spec_update(st, q)
}

/// The reply function of an application's read-only operations.
pub open spec fn read_step<S, A: Application<S>>(app: A) -> spec_fn(S, A::Request) -> A::Reply {
    |st: S, q: A::Request| app.spec_read(st, q)
}

/// The execution engine over application `A` and divisible state `S`.
pub struct Executor<S: DivisibleState, A: Application<S>> {
    app: A,
    state: S,
    last_applied: SeqNo,
    phase: Phase,
    target: Option<S::StateDescriptor>,
    last_reported: Option<S::StateDescriptor>,
    deferred: Vec<ExecutionRequest<A::Request>>,
}

impl<S: DivisibleState, A: Application<S>> Executor<S, A> {
    pub closed spec fn spec_app(&self) -> A {
        self.app
    }

    pub closed spec fn spec_state(&self) -> S {
        self.state
    }

    pub closed spec fn spec_last_applied(&self) -> SeqNo {
        self.last_applied
    }

    pub closed spec fn spec_phase(&self) -> Phase {
        self.phase
    }

    /// The descriptor of the state being installed, while a session is open.
    /// After a refused delivery the session is discarded and the engine keeps
    /// installing, waiting for a new descriptor.
    pub closed spec fn spec_target(&self) -> Option<S::StateDescriptor> {
        self.target
    }

    /// The descriptor of the last checkpoint reported, if any.
    pub closed spec fn spec_last_reported(&self) -> Option<S::StateDescriptor> {
        self.last_reported
    }

    /// The requests that arrived during an installation, in arrival order.
    pub closed spec fn spec_deferred(&self) -> Seq<ExecutionRequest<A::Request>> {
        self.deferred@
    }

    /// A fresh engine over `state`, with nothing applied yet.
    pub fn new(app: A, state: S) -> (r: Self)
        ensures
            r.spec_app() == app,
            r.spec_state() == state,
            r.spec_last_applied().spec_value() == 0,
            r.spec_phase() == Phase::Normal,
            r.spec_target() is None,
            r.spec_last_reported() is None,
            r.spec_deferred() == Seq::<ExecutionRequest<A::Request>>::empty(),
    {
        Executor {
            app,
            state,
            last_applied: SeqNo::zero(),
            phase: Phase::Normal,
            target: None,
            last_reported: None,
            deferred: Vec::new(),
        }
    }

    pub fn app(&self) -> (r: &A)
        ensures
            *r == self.spec_app(),
    {
        &self.app
    }

    pub fn state(&self) -> (r: &S)
        ensures
            *r == self.spec_state(),
    {
        &self.state
    }

    pub fn last_applied(&self) -> (r: SeqNo)
        ensures
            r == self.spec_last_applied(),
    {
        self.last_applied
    }

    pub fn phase(&self) -> (r: Phase)
        ensures
            r == self.spec_phase(),
    {
        self.phase
    }

    /// The next request to handle from the deferred queue: once the engine is
    /// back to normal, the requests that waited during an installation are
    /// handed out first, in arrival order, before any new request is taken.
    pub fn next_deferred(&mut self) -> (r: Option<ExecutionRequest<A::Request>>)
        ensures
            old(self).spec_phase() == Phase::Normal && old(self).spec_deferred().len() > 0 ==> {
                &&& r == Some(old(self).spec_deferred()[0])
                &&& final(self).spec_deferred() == old(self).spec_deferred().skip(1)
            },
            !(old(self).spec_phase() == Phase::Normal && old(self).spec_deferred().len() > 0) ==> r is None
                && final(self).spec_deferred() == old(self).spec_deferred(),
            final(self).spec_state() == old(self).spec_state(),
            final(self).spec_app() == old(self).spec_app(),
            final(self).spec_last_applied() == old(self).spec_last_applied(),
            final(self).spec_phase() == old(self).spec_phase(),
            final(self).spec_target() == old(self).spec_target(),
            final(self).spec_last_reported() == old(self).spec_last_reported(),
    {
        if self.phase == Phase::Normal && self.deferred.len() > 0 {
            let r = self.deferred.remove(0);
            proof {
                assert(self.deferred@ =~= old(self).deferred@.skip(1));
            }
            Some(r)
        } else {
            None
        }
    }

    /// Applies an ordered batch, which must follow the last one applied.
    pub fn execute_update(&mut self, batch: UpdateBatch<A::Request>) -> (r: Result<BatchReplies<A::Reply>, ExecError>)
        ensures
            r is Ok <==> batch.spec_seq_no().spec_value() == old(self).spec_last_applied().spec_value() + 1,
            r matches Ok(replies) ==> {
                let (st, rs) = apply_updates(update_step(old(self).spec_app()), old(self).spec_state(), batch@);
                &&& final(self).spec_state() == st
                &&& replies@ == rs
                &&& final(self).spec_last_applied() == batch.spec_seq_no()
            },
            r matches Err(e) ==> e is SequenceGap && *final(self) == *old(self),
            final(self).spec_app() == old(self).spec_app(),
            final(self).spec_phase() == old(self).spec_phase(),
            final(self).spec_target() == old(self).spec_target(),
            final(self).spec_last_reported() == old(self).spec_last_reported(),
            final(self).spec_deferred() == old(self).spec_deferred(),
    {
        let seq = batch.sequence_number();
        if !self.last_applied.is_followed_by(&seq) {
            return Err(ExecError::SequenceGap { expected: self.last_applied.value() as u64 + 1, found: seq });
        }
        let replies = self.app.update_batch(&mut self.state, batch);
        self.last_applied = seq;
        proof {
            assert(update_step(self.app) =~= (|st: S, q: A::Request| self.app.spec_update(st, q)));
        }
        Ok(replies)
    }

    /// Applies a catch-up run: every batch in order, provided their sequence
    /// numbers continue from the last one applied without gaps. Nothing is
    /// applied otherwise.
    pub fn execute_catch_up(&mut self, batches: Vec<UpdateBatch<A::Request>>) -> (r: Result<BatchReplies<A::Reply>, ExecError>)
        ensures
            r is Ok <==> contiguous_from(old(self).spec_last_applied().spec_value(), batches@.map_values(|b: UpdateBatch<A::Request>| batch_view(b))),
            r matches Ok(replies) ==> run_batches(
                update_step(old(self).spec_app()),
                old(self).spec_state(),
                old(self).spec_last_applied().spec_value(),
                batches@.map_values(|b: UpdateBatch<A::Request>| batch_view(b)),
            ) == Some((final(self).spec_state(), final(self).spec_last_applied().spec_value(), replies@)),
            r is Err ==> *final(self) == *old(self),
            final(self).spec_app() == old(self).spec_app(),
            final(self).spec_phase() == old(self).spec_phase(),
            final(self).spec_target() == old(self).spec_target(),
            final(self).spec_last_reported() == old(self).spec_last_reported(),
            final(self).spec_deferred() == old(self).spec_deferred(),
    {
        let ghost views = batches@.map_values(|b: UpdateBatch<A::Request>| batch_view(b));
        let ghost start = self.last_applied.spec_value();
        let mut expected: u64 = self.last_applied.value() as u64 + 1;
        let mut i: usize = 0;
        while i < batches.len()
            invariant
                i <= batches@.len(),
                expected == start + 1 + i,
                expected <= u32::MAX as u64 + 1,
                start == self.last_applied.spec_value(),
                *self == *old(self),
                views == batches@.map_values(|b: UpdateBatch<A::Request>| batch_view(b)),
                forall|j: int| 0 <= j < i ==> (#[trigger] views[j]).0.spec_value() == start + 1 + j,
            decreases batches@.len() - i,
        {
            let seq = batches[i].sequence_number();
            if seq.value() as u64 != expected {
                proof {
                    assert(views[i as int].0.spec_value() != start + 1 + i);
                }
                return Err(ExecError::SequenceGap { expected, found: seq });
            }
            expected = expected + 1;
            i = i + 1;
        }
        proof {
            lemma_contiguous_batches_apply(update_step(self.app), self.state, start, views);
        }
        let ghost state0 = self.state;
        let ghost orig = batches@;
        let total: usize = batches.len();
        let mut rest = reversed(batches);
        let mut all: Vec<UpdateReply<A::Reply>> = Vec::new();
        let mut k: usize = 0;
        while rest.len() > 0
            invariant
                k + rest@.len() == views.len(),
                rest@ == orig.skip(k as int).reverse(),
                orig.len() == views.len(),
                views == orig.map_values(|b: UpdateBatch<A::Request>| batch_view(b)),
                contiguous_from(start, views),
                k <= views.len(),
                views.len() == total,
                self.app == old(self).app,
                self.phase == old(self).phase,
                self.target == old(self).target,
                self.last_reported == old(self).last_reported,
                self.deferred == old(self).deferred,
                state0 == old(self).state,
                start == old(self).last_applied.spec_value(),
                run_batches(update_step(self.app), state0, start, views.take(k as int)) == Some((self.state, self.last_applied.spec_value(), all@)),
            decreases rest@.len(),
        {
            let batch = rest.pop().unwrap();
            let seq = batch.sequence_number();
            let replies = self.app.update_batch(&mut self.state, batch);
            let mut more = replies.into_inner();
            all.append(&mut more);
            self.last_applied = seq;
            proof {
                assert(update_step(self.app) =~= (|st: S, q: A::Request| self.app.spec_update(st, q)));
                assert(views.take(k + 1).drop_last() =~= views.take(k as int));
                assert(orig[k as int] == batch);
                assert(rest@ =~= orig.skip(k + 1).reverse());
            }
            k = k + 1;
        }
        proof {
            assert(views.take(views.len() as int) =~= views);
        }
        Ok(BatchReplies::from(all))
    }

    /// Answers a read-only batch against the current state, one reply per
    /// request, in input order. The engine is not changed.
    pub fn execute_unordered(&self, batch: UnorderedBatch<A::Request>) -> (r: BatchReplies<A::Reply>)
        ensures
            r@ == read_replies(read_step(self.spec_app()), self.spec_state(), batch@),
    {
        let r = self.app.unordered_batched_execution(&self.state, batch);
        proof {
            assert(read_step(self.app) =~= (|st: S, q: A::Request| self.app.spec_read(st, q)));
        }
        r
    }

    /// Whether `r`, with the engine now `new`, is the checkpoint report
    /// taken at sequence number `seq` when `prev` was the last descriptor
    /// reported: the fresh descriptor, tagged with `seq`, then consistent
    /// copies of exactly the parts that changed since `prev` (all of them if
    /// there was none). The fresh descriptor becomes the last reported one.
    pub open spec fn report_post(
        prev: Option<S::StateDescriptor>,
        seq: SeqNo,
        new: Self,
        r: Result<Vec<AppStateMessage<S>>, StateError>,
    ) -> bool {
        let fresh = new.spec_state().spec_descriptor();
        &&& r matches Ok(msgs) ==> {
            &&& msgs@.len() == 2
            &&& msgs@[0].spec_seq_no() == seq
            &&& msgs@[1].spec_seq_no() == seq
            &&& msgs@[0].spec_state() matches AppState::StateDescriptor(d) && same_descriptor(d, fresh)
            &&& fresh.spec_seq_no() == seq
            &&& msgs@[1].spec_state() matches AppState::StatePart(ps) && {
                &&& descriptions(ps@).to_set() == changed_parts(fresh, prev)
                &&& forall|i: int| 0 <= i < ps@.len() ==> (#[trigger] ps@[i]).spec_consistent()
            }
            &&& new.spec_last_reported() matches Some(l) && same_descriptor(l, fresh)
        }
        &&& r is Err ==> new.spec_last_reported() == prev
    }

    /// Takes a checkpoint of the state, as `report_post` describes, at the
    /// last applied sequence number. Fails only when the state cannot be
    /// snapshotted now.
    pub fn checkpoint(&mut self) -> (r: Result<Vec<AppStateMessage<S>>, StateError>)
        ensures
            Self::report_post(old(self).spec_last_reported(), old(self).spec_last_applied(), *final(self), r),
            final(self).spec_app() == old(self).spec_app(),
            final(self).spec_last_applied() == old(self).spec_last_applied(),
            final(self).spec_phase() == old(self).spec_phase(),
            final(self).spec_target() == old(self).spec_target(),
            final(self).spec_deferred() == old(self).spec_deferred(),
    {
        match self.state.prepare_checkpoint(self.last_applied) {
            Err(e) => {
                return Err(e);
            },
            Ok(_) => {},
        }
        let desc = self.state.get_descriptor();
        let ghost all_parts = desc.spec_parts();
        let fetched = match &self.last_reported {
            Some(last) => {
                let diff = desc.compare_descriptors(last);
                proof {
                    assert forall|i: int| 0 <= i < diff@.len() implies all_parts.contains(#[trigger] diff@[i]) by {
                        assert(diff@.to_set().contains(diff@[i]));
                    }
                }
                let fetched = self.state.get_parts(diff.as_slice());
                proof {
                    if fetched is Ok {
                        assert(descriptions(fetched->Ok_0@) =~= diff@);
                    }
                }
                fetched
            },
            None => {
                let wanted = desc.parts();
                let fetched = self.state.get_parts(wanted.as_slice());
                proof {
                    if fetched is Ok {
                        assert(descriptions(fetched->Ok_0@) =~= wanted@);
                    }
                }
                fetched
            },
        };
        let parts = match fetched {
            Ok(v) => v,
            Err(e) => {
                return Err(e);
            },
        };
        let reported = desc.duplicate();
        let kept = desc.duplicate();
        self.last_reported = Some(kept);
        let seq = self.last_applied;
        let mut msgs: Vec<AppStateMessage<S>> = Vec::new();
        msgs.push(AppStateMessage::new(seq, AppState::StateDescriptor(reported)));
        msgs.push(AppStateMessage::new(seq, AppState::StatePart(parts)));
        Ok(msgs)
    }

    /// Applies an ordered batch as `execute_update` does, then takes a
    /// checkpoint as `checkpoint` does, at the batch's sequence number.
    pub fn execute_update_and_checkpoint(&mut self, batch: UpdateBatch<A::Request>) -> (r: Result<
        (BatchReplies<A::Reply>, Result<Vec<AppStateMessage<S>>, StateError>),
        ExecError,
    >)
        ensures
            r is Ok <==> batch.spec_seq_no().spec_value() == old(self).spec_last_applied().spec_value() + 1,
            r matches Ok((replies, report)) ==> {
                &&& replies@ == apply_updates(update_step(old(self).spec_app()), old(self).spec_state(), batch@).1
                &&& final(self).spec_last_applied() == batch.spec_seq_no()
                &&& Self::report_post(old(self).spec_last_reported(), batch.spec_seq_no(), *final(self), report)
            },
            r matches Err(e) ==> e is SequenceGap && *final(self) == *old(self),
            final(self).spec_app() == old(self).spec_app(),
            final(self).spec_phase() == old(self).spec_phase(),
            final(self).spec_target() == old(self).spec_target(),
            final(self).spec_deferred() == old(self).spec_deferred(),
    {
        let replies = match self.execute_update(batch) {
            Ok(replies) => replies,
            Err(e) => {
                return Err(e);
            },
        };
        let report = self.checkpoint();
        Ok((replies, report))
    }

    /// Handles one message of an installation session. A descriptor opens a
    /// session (or restarts one) with that target. Parts are merged into the
    /// state; if the state refuses them it is left as it was and the session
    /// is discarded, so a new descriptor must follow. `Done` closes the
    /// session only if the state now has exactly the target's parts; then the
    /// engine is back to normal and the last applied sequence number becomes
    /// the target's. Until then the engine stays installing.
    pub fn install(&mut self, message: InstallStateMessage<S>) -> (r: Result<(), ExecError>)
        ensures
            final(self).spec_app() == old(self).spec_app(),
            final(self).spec_deferred() == old(self).spec_deferred(),
            final(self).spec_last_reported() == old(self).spec_last_reported(),
            match message {
                InstallStateMessage::StateDescriptor(d) => {
                    &&& r is Ok
                    &&& final(self).spec_phase() == Phase::InstallingState
                    &&& final(self).spec_target() == Some(d)
                    &&& final(self).spec_state() == old(self).spec_state()
                    &&& final(self).spec_last_applied() == old(self).spec_last_applied()
                },
                InstallStateMessage::StatePart(parts) => {
                    &&& old(self).spec_target() is None ==> r == Err::<(), ExecError>(ExecError::NoInstallation) && *final(self) == *old(self)
                    &&& old(self).spec_target() is Some ==> {
                        &&& r is Ok <==> (forall|i: int| 0 <= i < parts@.len() ==> (#[trigger] parts@[i]).spec_consistent())
                            && old(self).spec_state().spec_fits(parts@)
                        &&& r is Ok ==> merged(
                            old(self).spec_state().spec_descriptor().spec_parts().to_set(),
                            parts@,
                            final(self).spec_state().spec_descriptor().spec_parts().to_set(),
                        ) && final(self).spec_target() == old(self).spec_target()
                        &&& r is Err ==> r == Err::<(), ExecError>(ExecError::PartsRejected(StateError::PartMismatch))
                            && final(self).spec_state() == old(self).spec_state() && final(self).spec_target() is None
                    }
                    &&& final(self).spec_phase() == old(self).spec_phase()
                    &&& final(self).spec_last_applied() == old(self).spec_last_applied()
                },
                InstallStateMessage::Done => {
                    &&& old(self).spec_target() is None ==> r == Err::<(), ExecError>(ExecError::NoInstallation) && *final(self) == *old(self)
                    &&& old(self).spec_target() matches Some(t) ==> {
                        &&& r is Ok <==> same_parts(old(self).spec_state().spec_descriptor().spec_parts(), t.spec_parts())
                        &&& r is Ok ==> final(self).spec_target() is None && final(self).spec_phase() == Phase::Normal
                            && final(self).spec_last_applied() == t.spec_seq_no() && final(self).spec_state() == old(self).spec_state()
                        &&& r is Err ==> r == Err::<(), ExecError>(ExecError::DescriptorMismatch) && *final(self) == *old(self)
                    }
                },
            },
    {
        match message {
            InstallStateMessage::StateDescriptor(d) => {
                self.target = Some(d);
                self.phase = Phase::InstallingState;
                Ok(())
            },
            InstallStateMessage::StatePart(parts) => {
                if self.target.is_none() {
                    return Err(ExecError::NoInstallation);
                }
                match self.state.accept_parts(parts) {
                    Ok(()) => Ok(()),
                    Err(e) => {
                        self.target = None;
                        Err(ExecError::PartsRejected(e))
                    },
                }
            },
            InstallStateMessage::Done => {
                let (missing, extra) = match &self.target {
                    None => {
                        return Err(ExecError::NoInstallation);
                    },
                    Some(t) => {
                        let local = self.state.get_descriptor();
                        (t.compare_descriptors(local), local.compare_descriptors(t))
                    },
                };
                let ghost t = self.target.unwrap();
                let ghost local = self.state.spec_descriptor().spec_parts();
                if missing.len() != 0 {
                    proof {
                        assert(missing@.to_set().contains(missing@[0]));
                    }
                    return Err(ExecError::DescriptorMismatch);
                }
                if extra.len() != 0 {
                    proof {
                        assert(extra@.to_set().contains(extra@[0]));
                    }
                    return Err(ExecError::DescriptorMismatch);
                }
                proof {
                    assert forall|x| t.spec_parts().to_set().contains(x) <==> local.to_set().contains(x) by {
                        if t.spec_parts().to_set().contains(x) && !local.to_set().contains(x) {
                            assert(missing@.to_set().contains(x));
                        }
                        if local.to_set().contains(x) && !t.spec_parts().to_set().contains(x) {
                            assert(extra@.to_set().contains(x));
                        }
                    }
                    assert(local.to_set() =~= t.spec_parts().to_set());
                }
                let seq = match &self.target {
                    Some(t) => t.sequence_number(),
                    None => self.last_applied,
                };
                self.target = None;
                self.phase = Phase::Normal;
                self.last_applied = seq;
                Ok(())
            },
        }
    }

    /// Read-only execution does not change the engine, so running the same
    /// read-only batch twice against it gives equal replies both times.
    pub proof fn lemma_unordered_repeatable(self, batch: Seq<Update<A::Request>>, first: Seq<UpdateReply<A::Reply>>, second: Seq<UpdateReply<A::Reply>>)
        requires
            first == read_replies(read_step(self.spec_app()), self.spec_state(), batch),
            second == read_replies(read_step(self.spec_app()), self.spec_state(), batch),
        ensures
            first == second,
    {
    }

    /// Going from `self` to `new` with result `r` is what applying ordered
    /// `batch` does.
    pub open spec fn update_post(self, new: Self, batch: UpdateBatch<A::Request>, r: Result<BatchReplies<A::Reply>, ExecError>) -> bool {
        &&& r is Ok <==> batch.spec_seq_no().spec_value() == self.spec_last_applied().spec_value() + 1
        &&& r matches Ok(replies) ==> {
            let (st, rs) = apply_updates(update_step(self.spec_app()), self.spec_state(), batch@);
            &&& new.spec_state() == st
            &&& replies@ == rs
            &&& new.spec_last_applied() == batch.spec_seq_no()
        }
        &&& r is Err ==> new == self
        &&& new.spec_app() == self.spec_app()
        &&& new.spec_target() == self.spec_target()
        &&& new.spec_last_reported() == self.spec_last_reported()
        &&& new.spec_deferred() == self.spec_deferred()
    }

    /// Going from `self` to `new` with result `r` is what the catch-up run
    /// `batches` does.
    pub open spec fn catch_up_post(self, new: Self, batches: Seq<UpdateBatch<A::Request>>, r: Result<BatchReplies<A::Reply>, ExecError>) -> bool {
        let views = batches.map_values(|b: UpdateBatch<A::Request>| batch_view(b));
        &&& r is Ok <==> contiguous_from(self.spec_last_applied().spec_value(), views)
        &&& r matches Ok(replies) ==> run_batches(
            update_step(self.spec_app()),
            self.spec_state(),
            self.spec_last_applied().spec_value(),
            views,
        ) == Some((new.spec_state(), new.spec_last_applied().spec_value(), replies@))
        &&& r is Err ==> new == self
        &&& new.spec_app() == self.spec_app()
        &&& new.spec_target() == self.spec_target()
        &&& new.spec_last_reported() == self.spec_last_reported()
        &&& new.spec_deferred() == self.spec_deferred()
    }

    /// Handles one request from the queue. `PollStateChannel` is always
    /// passed on, so that an installation can proceed; any other request that
    /// arrives during an installation waits in the deferred queue. Otherwise
    /// ordered batches, catch-up runs and read-only batches are executed as
    /// `execute_update`, `execute_update_and_checkpoint`, `execute_catch_up`
    /// and `execute_unordered` do, and a read is passed on.
    pub fn process(&mut self, request: ExecutionRequest<A::Request>) -> (r: Result<Outcome<S, A::Reply>, ExecError>)
        ensures
            request is PollStateChannel ==> (r matches Ok(Outcome::PollStateChannel)) && *final(self) == *old(self),
            !(request is PollStateChannel) && old(self).spec_phase() == Phase::InstallingState ==> {
                &&& r matches Ok(Outcome::Deferred)
                &&& final(self).spec_deferred() == old(self).spec_deferred().push(request)
                &&& final(self).spec_state() == old(self).spec_state()
                &&& final(self).spec_app() == old(self).spec_app()
                &&& final(self).spec_last_applied() == old(self).spec_last_applied()
                &&& final(self).spec_phase() == old(self).spec_phase()
                &&& final(self).spec_target() == old(self).spec_target()
                &&& final(self).spec_last_reported() == old(self).spec_last_reported()
            },
            old(self).spec_phase() == Phase::Normal ==> match request {
                ExecutionRequest::Update((batch, _)) => match r {
                    Ok(Outcome::Replies(replies)) => old(self).update_post(*final(self), batch, Ok(replies)),
                    Err(e) => old(self).update_post(*final(self), batch, Err(e)),
                    _ => false,
                },
                ExecutionRequest::UpdateAndGetAppstate((batch, _)) => match r {
                    Ok(Outcome::RepliesAndCheckpoint(replies, report)) => {
                        &&& batch.spec_seq_no().spec_value() == old(self).spec_last_applied().spec_value() + 1
                        &&& replies@ == apply_updates(update_step(old(self).spec_app()), old(self).spec_state(), batch@).1
                        &&& final(self).spec_last_applied() == batch.spec_seq_no()
                        &&& Self::report_post(old(self).spec_last_reported(), batch.spec_seq_no(), *final(self), report)
                    },
                    Err(e) => e is SequenceGap && *final(self) == *old(self)
                        && batch.spec_seq_no().spec_value() != old(self).spec_last_applied().spec_value() + 1,
                    _ => false,
                },
                ExecutionRequest::CatchUp(batches) => match r {
                    Ok(Outcome::CaughtUp(replies)) => old(self).catch_up_post(*final(self), batches@, Ok(replies)),
                    Err(e) => old(self).catch_up_post(*final(self), batches@, Err(e)),
                    _ => false,
                },
                ExecutionRequest::ExecuteUnordered(batch) => {
                    &&& r matches Ok(Outcome::UnorderedReplies(replies))
                        && replies@ == read_replies(read_step(old(self).spec_app()), old(self).spec_state(), batch@)
                    &&& *final(self) == *old(self)
                },
                ExecutionRequest::Read(node) => r matches Ok(Outcome::Read(n)) && n == node && *final(self) == *old(self),
                ExecutionRequest::PollStateChannel => true,
            },
    {
        if let ExecutionRequest::PollStateChannel = request {
            return Ok(Outcome::PollStateChannel);
        }
        if self.phase == Phase::InstallingState {
            self.deferred.push(request);
            return Ok(Outcome::Deferred);
        }
        match request {
            ExecutionRequest::PollStateChannel => Ok(Outcome::PollStateChannel),
            ExecutionRequest::Update((batch, _)) => match self.execute_update(batch) {
                Ok(replies) => Ok(Outcome::Replies(replies)),
                Err(e) => Err(e),
            },
            ExecutionRequest::UpdateAndGetAppstate((batch, _)) => match self.execute_update_and_checkpoint(batch) {
                Ok((replies, report)) => Ok(Outcome::RepliesAndCheckpoint(replies, report)),
                Err(e) => Err(e),
            },
            ExecutionRequest::CatchUp(batches) => match self.execute_catch_up(batches) {
                Ok(replies) => Ok(Outcome::CaughtUp(replies)),
                Err(e) => Err(e),
            },
            ExecutionRequest::ExecuteUnordered(batch) => Ok(Outcome::UnorderedReplies(self.execute_unordered(batch))),
            ExecutionRequest::Read(node) => Ok(Outcome::Read(node)),
        }
    }
}

} // verus!
