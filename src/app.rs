//! Client operations, batches and replies, and the contract of a replicated
//! application.
use vstd::prelude::*;

use crate::ordering::{NodeId, SeqNo};

verus! {

/// Why an application could not produce its genesis state.
#[derive(Debug, Clone, Copy, PartialEq, Eq, Structural)]
pub enum AppError {
    /// The application could not be set up; the replica cannot start.
    InitialStateUnavailable,
}

/// A single client operation, to be executed.
#[derive(Clone)]
pub struct Update<O> {
    from: NodeId,
    session_id: SeqNo,
    operation_id: SeqNo,
    operation: O,
}

/// A single reply, routed back to the session and operation it answers.
#[derive(Clone)]
pub struct UpdateReply<P> {
    to: NodeId,
    session_id: SeqNo,
    operation_id: SeqNo,
    payload: P,
}

/// A batch of read-only operations, with no sequence number.
#[derive(Clone)]
pub struct UnorderedBatch<O> {
    inner: Vec<Update<O>>,
}

/// Metadata on how an ordered batch was formed, carried along for measurement.
#[derive(Clone, Copy, Debug, PartialEq, Eq, Structural)]
pub struct BatchMeta {
    pub batch_size: usize,
}

/// An ordered batch of operations, tagged with its sequence number.
#[derive(Clone)]
pub struct UpdateBatch<O> {
    seq_no: SeqNo,
    inner: Vec<Update<O>>,
    meta: Option<BatchMeta>,
}

/// The replies to a batch, in the order the operations were processed.
#[derive(Clone)]
pub struct BatchReplies<P> {
    inner: Vec<UpdateReply<P>>,
}

impl<O> Update<O> {
    pub closed spec fn spec_new(from: NodeId, session_id: SeqNo, operation_id: SeqNo, operation: O) -> Self {
        Update { from, session_id, operation_id, operation }
    }

    pub closed spec fn spec_from(self) -> NodeId {
        self.from
    }

    pub closed spec fn spec_session_id(self) -> SeqNo {
        self.session_id
    }

    pub closed spec fn spec_operation_id(self) -> SeqNo {
        self.operation_id
    }

    pub closed spec fn spec_operation(self) -> O {
        self.operation
    }

    /// An update built from its parts gives those parts back.
    pub broadcast proof fn lemma_fields(from: NodeId, session_id: SeqNo, operation_id: SeqNo, operation: O)
        ensures
            (#[trigger] Update::spec_new(from, session_id, operation_id, operation)).spec_from() == from,
            Update::spec_new(from, session_id, operation_id, operation).spec_session_id() == session_id,
            Update::spec_new(from, session_id, operation_id, operation).spec_operation_id() == operation_id,
            Update::spec_new(from, session_id, operation_id, operation).spec_operation() == operation,
    {
    }

    /// Returns the origin, session, operation id and payload of this operation.
    pub fn into_inner(self) -> (r: (NodeId, SeqNo, SeqNo, O))
        ensures
            r == (self.spec_from(), self.spec_session_id(), self.spec_operation_id(), self.spec_operation()),
    {
        (self.from, self.session_id, self.operation_id, self.operation)
    }

    /// Returns a reference to the operation payload.
    pub fn operation(&self) -> (r: &O)
        ensures
            *r == self.spec_operation(),
    {
        &self.operation
    }

    pub fn from(&self) -> (r: NodeId)
        ensures
            r == self.spec_from(),
    {
        self.from
    }

    pub fn session_id(&self) -> (r: SeqNo)
        ensures
            r == self.spec_session_id(),
    {
        self.session_id
    }

    pub fn operation_id(&self) -> (r: SeqNo)
        ensures
            r == self.spec_operation_id(),
    {
        self.operation_id
    }
}

impl<P> UpdateReply<P> {
    pub closed spec fn spec_new(to: NodeId, session_id: SeqNo, operation_id: SeqNo, payload: P) -> Self {
        UpdateReply { to, session_id, operation_id, payload }
    }

    pub closed spec fn spec_to(self) -> NodeId {
        self.to
    }

    pub closed spec fn spec_session_id(self) -> SeqNo {
        self.session_id
    }

    pub closed spec fn spec_operation_id(self) -> SeqNo {
        self.operation_id
    }

    pub closed spec fn spec_payload(self) -> P {
        self.payload
    }

    /// A reply built from its parts gives those parts back.
    pub broadcast proof fn lemma_fields(to: NodeId, session_id: SeqNo, operation_id: SeqNo, payload: P)
        ensures
            (#[trigger] UpdateReply::spec_new(to, session_id, operation_id, payload)).spec_to() == to,
            UpdateReply::spec_new(to, session_id, operation_id, payload).spec_session_id() == session_id,
            UpdateReply::spec_new(to, session_id, operation_id, payload).spec_operation_id() == operation_id,
            UpdateReply::spec_new(to, session_id, operation_id, payload).spec_payload() == payload,
    {
    }

    pub fn init(to: NodeId, session_id: SeqNo, operation_id: SeqNo, payload: P) -> (r: Self)
        ensures
            r == UpdateReply::spec_new(to, session_id, operation_id, payload),
            r.spec_to() == to,
            r.spec_session_id() == session_id,
            r.spec_operation_id() == operation_id,
            r.spec_payload() == payload,
    {
        UpdateReply { to, session_id, operation_id, payload }
    }

    pub fn to(&self) -> (r: NodeId)
        ensures
            r == self.spec_to(),
    {
        self.to
    }

    pub fn session_id(&self) -> (r: SeqNo)
        ensures
            r == self.spec_session_id(),
    {
        self.session_id
    }

    pub fn operation_id(&self) -> (r: SeqNo)
        ensures
            r == self.spec_operation_id(),
    {
        self.operation_id
    }

    pub fn payload(&self) -> (r: &P)
        ensures
            *r == self.spec_payload(),
    {
        &self.payload
    }

    /// Returns the destination, session, operation id and payload of this reply.
    pub fn into_inner(self) -> (r: (NodeId, SeqNo, SeqNo, P))
        ensures
            r == (self.spec_to(), self.spec_session_id(), self.spec_operation_id(), self.spec_payload()),
    {
        (self.to, self.session_id, self.operation_id, self.payload)
    }
}

impl<O> View for UpdateBatch<O> {
    type V = Seq<Update<O>>;

    closed spec fn view(&self) -> Seq<Update<O>> {
        self.inner@
    }
}

impl<O> UpdateBatch<O> {
    pub closed spec fn spec_seq_no(&self) -> SeqNo {
        self.seq_no
    }

    pub closed spec fn spec_meta(&self) -> Option<BatchMeta> {
        self.meta
    }

    /// Returns a new, empty batch with the given sequence number.
    pub fn new(seq_no: SeqNo) -> (r: Self)
        ensures
            r@ == Seq::<Update<O>>::empty(),
            r.spec_seq_no() == seq_no,
            r.spec_meta() is None,
    {
        UpdateBatch { seq_no, inner: Vec::new(), meta: None }
    }

    /// Like `new`, reserving room for `capacity` operations.
    pub fn new_with_cap(seq_no: SeqNo, capacity: usize) -> (r: Self)
        ensures
            r@ == Seq::<Update<O>>::empty(),
            r.spec_seq_no() == seq_no,
            r.spec_meta() is None,
    {
        UpdateBatch { seq_no, inner: Vec::with_capacity(capacity), meta: None }
    }

    /// Appends an operation at the end of the batch.
    pub fn add(&mut self, from: NodeId, session_id: SeqNo, operation_id: SeqNo, operation: O)
        ensures
            final(self)@ == old(self)@.push(Update::spec_new(from, session_id, operation_id, operation)),
            final(self)@.len() == old(self)@.len() + 1,
            final(self)@.last().spec_from() == from,
            final(self)@.last().spec_session_id() == session_id,
            final(self)@.last().spec_operation_id() == operation_id,
            final(self)@.last().spec_operation() == operation,
            final(self).spec_seq_no() == old(self).spec_seq_no(),
            final(self).spec_meta() == old(self).spec_meta(),
    {
        self.inner.push(Update { from, session_id, operation_id, operation });
    }

    /// Returns the operations, in batch order.
    pub fn into_inner(self) -> (r: Vec<Update<O>>)
        ensures
            r@ == self@,
    {
        self.inner
    }

    pub fn len(&self) -> (r: usize)
        ensures
            r == self@.len(),
    {
        self.inner.len()
    }

    pub fn is_empty(&self) -> (r: bool)
        ensures
            r == (self@.len() == 0),
    {
        self.inner.len() == 0
    }

    /// The sequence number the ordering protocol gave this batch.
    pub fn sequence_number(&self) -> (r: SeqNo)
        ensures
            r == self.spec_seq_no(),
    {
        self.seq_no
    }

    /// Attaches batching metadata, replacing any already there.
    pub fn append_batch_meta(&mut self, batch_meta: BatchMeta)
        ensures
            final(self)@ == old(self)@,
            final(self).spec_seq_no() == old(self).spec_seq_no(),
            final(self).spec_meta() == Some(batch_meta),
    {
        self.meta = Some(batch_meta);
    }

    /// Removes and returns the batching metadata.
    pub fn take_meta(&mut self) -> (r: Option<BatchMeta>)
        ensures
            r == old(self).spec_meta(),
            final(self)@ == old(self)@,
            final(self).spec_seq_no() == old(self).spec_seq_no(),
            final(self).spec_meta() is None,
    {
        let r = self.meta;
        self.meta = None;
        r
    }
}

impl<O> AsRef<[Update<O>]> for UpdateBatch<O> {
    fn as_ref(&self) -> (r: &[Update<O>])
        ensures
            r@ == self@,
    {
        self.inner.as_slice()
    }
}

impl<O> View for UnorderedBatch<O> {
    type V = Seq<Update<O>>;

    closed spec fn view(&self) -> Seq<Update<O>> {
        self.inner@
    }
}

impl<O> Default for UnorderedBatch<O> {
    fn default() -> (r: Self)
        ensures
            r@ == Seq::<Update<O>>::empty(),
    {
        Self::new()
    }
}

impl<O> UnorderedBatch<O> {
    /// Returns a new, empty batch.
    pub fn new() -> (r: Self)
        ensures
            r@ == Seq::<Update<O>>::empty(),
    {
        UnorderedBatch { inner: Vec::new() }
    }

    /// Like `new`, reserving room for `capacity` operations.
    pub fn new_with_cap(capacity: usize) -> (r: Self)
        ensures
            r@ == Seq::<Update<O>>::empty(),
    {
        UnorderedBatch { inner: Vec::with_capacity(capacity) }
    }

    /// Appends an operation at the end of the batch.
    pub fn add(&mut self, from: NodeId, session_id: SeqNo, operation_id: SeqNo, operation: O)
        ensures
            final(self)@ == old(self)@.push(Update::spec_new(from, session_id, operation_id, operation)),
            final(self)@.len() == old(self)@.len() + 1,
            final(self)@.last().spec_from() == from,
            final(self)@.last().spec_session_id() == session_id,
            final(self)@.last().spec_operation_id() == operation_id,
            final(self)@.last().spec_operation() == operation,
    {
        self.inner.push(Update { from, session_id, operation_id, operation });
    }

    /// Returns the operations.
    pub fn into_inner(self) -> (r: Vec<Update<O>>)
        ensures
            r@ == self@,
    {
        self.inner
    }

    pub fn len(&self) -> (r: usize)
        ensures
            r == self@.len(),
    {
        self.inner.len()
    }

    pub fn is_empty(&self) -> (r: bool)
        ensures
            r == (self@.len() == 0),
    {
        self.inner.len() == 0
    }
}

impl<P> View for BatchReplies<P> {
    type V = Seq<UpdateReply<P>>;

    closed spec fn view(&self) -> Seq<UpdateReply<P>> {
        self.inner@
    }
}

impl<P> BatchReplies<P> {
    /// Returns a new, empty collection of replies with room for `n` of them.
    pub fn with_capacity(n: usize) -> (r: Self)
        ensures
            r@ == Seq::<UpdateReply<P>>::empty(),
    {
        BatchReplies { inner: Vec::with_capacity(n) }
    }

    /// Appends the reply built from its parts.
    pub fn add(&mut self, to: NodeId, session_id: SeqNo, operation_id: SeqNo, payload: P)
        ensures
            final(self)@ == old(self)@.push(UpdateReply::spec_new(to, session_id, operation_id, payload)),
            final(self)@.len() == old(self)@.len() + 1,
            final(self)@.last().spec_to() == to,
            final(self)@.last().spec_session_id() == session_id,
            final(self)@.last().spec_operation_id() == operation_id,
            final(self)@.last().spec_payload() == payload,
    {
        self.inner.push(UpdateReply { to, session_id, operation_id, payload });
    }

    /// Appends a reply.
    pub fn push(&mut self, reply: UpdateReply<P>)
        ensures
            final(self)@ == old(self)@.push(reply),
    {
        self.inner.push(reply);
    }

    pub fn inner(&self) -> (r: &Vec<UpdateReply<P>>)
        ensures
            r@ == self@,
    {
        &self.inner
    }

    /// Returns the replies, in order.
    pub fn into_inner(self) -> (r: Vec<UpdateReply<P>>)
        ensures
            r@ == self@,
    {
        self.inner
    }

    pub fn len(&self) -> (r: usize)
        ensures
            r == self@.len(),
    {
        self.inner.len()
    }

    pub fn is_empty(&self) -> (r: bool)
        ensures
            r == (self@.len() == 0),
    {
        self.inner.len() == 0
    }
}

impl<P> core::ops::Deref for BatchReplies<P> {
    type Target = Vec<UpdateReply<P>>;

    fn deref(&self) -> (r: &Vec<UpdateReply<P>>)
        ensures
            r@ == self@,
    {
        &self.inner
    }
}

impl<P> core::ops::DerefMut for BatchReplies<P> {
    fn deref_mut(&mut self) -> (r: &mut Vec<UpdateReply<P>>)
        ensures
            r@ == old(self)@,
            final(self)@ == final(r)@,
    {
        &mut self.inner
    }
}

impl<P> From<Vec<UpdateReply<P>>> for BatchReplies<P> {
    fn from(value: Vec<UpdateReply<P>>) -> (r: Self)
        ensures
            r@ == value@,
    {
        BatchReplies { inner: value }
    }
}

impl<P> vstd::std_specs::convert::FromSpecImpl<Vec<UpdateReply<P>>> for BatchReplies<P> {
    open spec fn obeys_from_spec() -> bool {
        true
    }

    closed spec fn from_spec(v: Vec<UpdateReply<P>>) -> Self {
        BatchReplies { inner: v }
    }
}

/// The reply that answers operation `u` with `payload`.
pub open spec fn reply_to<O, P>(u: Update<O>, payload: P) -> UpdateReply<P> {
    UpdateReply::spec_new(u.spec_from(), u.spec_session_id(), u.spec_operation_id(), payload)
}

/// The accessors of updates and replies built from their parts.
pub broadcast group group_fields {
    Update::lemma_fields,
    UpdateReply::lemma_fields,
}

/// A deterministic application replicated by the engine.
///
/// Its behaviour is given by two spec functions: `spec_read` for read-only
/// operations and `spec_update` for operations that change the state. Every
/// implementation, including any that overrides the batched methods, must meet
/// the contracts below, so a batch always has the same effect as running its
/// operations one by one in batch order.
///
/// An application may be shared by several reader threads; any concurrency
/// control that the state needs belongs to the state, never to the application.
pub trait Application<S>: Sized + Send + Sync {
    type Request;
    type Reply;

    /// The reply to a read-only `request` against `state`.
    spec fn spec_read(&self, state: S, request: Self::Request) -> Self::Reply;

    /// The state after `request`, and the reply to it.
    spec fn spec_update(&self, state: S, request: Self::Request) -> (S, Self::Reply);

    /// Returns the genesis state; an error here aborts the replica's startup.
    fn initial_state() -> (r: Result<S, AppError>);

    /// Answers a read-only request; the state cannot change.
    fn unordered_execution(&self, state: &S, request: Self::Request) -> (r: Self::Reply)
        ensures
            r == self.spec_read(*state, request),
    ;

    /// Answers a batch of read-only requests, one reply per request, in input order.
    fn unordered_batched_execution(&self, state: &S, requests: UnorderedBatch<Self::Request>) -> (r: BatchReplies<Self::Reply>)
        ensures
            r@ == read_replies(|st: S, q: Self::Request| self.spec_read(st, q), *state, requests@),
    ;

    /// Applies a request to the state and returns its reply; the only way the state changes.
    fn update(&self, state: &mut S, request: Self::Request) -> (r: Self::Reply)
        ensures
            (*final(state), r) == self.spec_update(*old(state), request),
    ;

    /// Applies a batch, operation by operation in batch order, threading the
    /// state through; one reply per operation, in batch order.
    fn update_batch(&self, state: &mut S, batch: UpdateBatch<Self::Request>) -> (r: BatchReplies<Self::Reply>)
        ensures
            (*final(state), r@) == apply_updates(|st: S, q: Self::Request| self.spec_update(st, q), *old(state), batch@),
    ;
}

/// The replies to read-only operations `us` against `state`, in order,
/// where `read` answers one request.
pub open spec fn read_replies<S, Q, P>(read: spec_fn(S, Q) -> P, state: S, us: Seq<Update<Q>>) -> Seq<UpdateReply<P>> {
    Seq::new(us.len(), |i: int| reply_to(us[i], read(state, us[i].spec_operation())))
}

/// The state after applying `us` to `state` one by one, and the replies, in
/// order, where `step` applies one request.
pub open spec fn apply_updates<S, Q, P>(step: spec_fn(S, Q) -> (S, P), state: S, us: Seq<Update<Q>>) -> (S, Seq<UpdateReply<P>>)
    decreases us.len(),
{
    if us.len() == 0 {
        (state, Seq::empty())
    } else {
        let (mid, replies) = apply_updates(step, state, us.drop_last());
        let (next, payload) = step(mid, us.last().spec_operation());
        (next, replies.push(reply_to(us.last(), payload)))
    }
}

/// Applying a batch yields one reply per operation.
pub proof fn lemma_apply_updates_len<S, Q, P>(step: spec_fn(S, Q) -> (S, P), state: S, us: Seq<Update<Q>>)
    ensures
        apply_updates(step, state, us).1.len() == us.len(),
    decreases us.len(),
{
    if us.len() > 0 {
        lemma_apply_updates_len(step, state, us.drop_last());
    }
}

/// A batch applied at once has the effect of its first part followed by its
/// second part: the final state of running `a` then `b`, and their replies
/// joined. By induction, a batch of N operations is N single updates in order.
pub proof fn lemma_apply_updates_split<S, Q, P>(step: spec_fn(S, Q) -> (S, P), state: S, a: Seq<Update<Q>>, b: Seq<Update<Q>>)
    ensures
        apply_updates(step, state, a + b) == {
            let (mid, ra) = apply_updates(step, state, a);
            let (last, rb) = apply_updates(step, mid, b);
            (last, ra + rb)
        },
    decreases b.len(),
{
    if b.len() == 0 {
        assert(a + b =~= a);
        assert(apply_updates(step, state, a).1 + Seq::<UpdateReply<P>>::empty() =~= apply_updates(step, state, a).1);
    } else {
        assert((a + b).drop_last() =~= a + b.drop_last());
        lemma_apply_updates_split(step, state, a, b.drop_last());
        let (mid, ra) = apply_updates(step, state, a);
        let (m2, rb) = apply_updates(step, mid, b.drop_last());
        let (n, p) = step(m2, b.last().spec_operation());
        assert((ra + rb).push(reply_to(b.last(), p)) =~= ra + rb.push(reply_to(b.last(), p)));
    }
}

/// Runs `us` as separate single updates, first operation first: the state
/// after them all and the reply of each, in order.
pub open spec fn apply_one_by_one<S, Q, P>(step: spec_fn(S, Q) -> (S, P), state: S, us: Seq<Update<Q>>) -> (S, Seq<UpdateReply<P>>)
    decreases us.len(),
{
    if us.len() == 0 {
        (state, Seq::empty())
    } else {
        let (next, payload) = step(state, us[0].spec_operation());
        let (last, rest) = apply_one_by_one(step, next, us.skip(1));
        (last, seq![reply_to(us[0], payload)] + rest)
    }
}

/// Applying a batch of N operations at once gives the same final state and
/// the same replies, in the same order, as N separate updates in batch order.
pub proof fn lemma_batch_is_sequential<S, Q, P>(step: spec_fn(S, Q) -> (S, P), state: S, us: Seq<Update<Q>>)
    ensures
        apply_updates(step, state, us) == apply_one_by_one(step, state, us),
    decreases us.len(),
{
    if us.len() > 0 {
        let first = us.take(1);
        let rest = us.skip(1);
        assert(us =~= first + rest);
        lemma_apply_updates_split(step, state, first, rest);
        assert(first.drop_last() =~= Seq::<Update<Q>>::empty());
        assert(apply_updates(step, state, first.drop_last()) == (state, Seq::<UpdateReply<P>>::empty()));
        assert(first.last() == us[0]);
        let (next, payload) = step(state, us[0].spec_operation());
        assert(apply_updates(step, state, first).1 =~= seq![reply_to(us[0], payload)]);
        lemma_batch_is_sequential(step, next, rest);
    }
}

/// The sequential fan-out of a read-only batch: one `unordered_execution` per
/// request, in input order. An application without a vectorised read path
/// implements `unordered_batched_execution` by calling this.
pub fn fan_out_unordered<S, A: Application<S>>(app: &A, state: &S, requests: UnorderedBatch<A::Request>) -> (r: BatchReplies<A::Reply>)
    ensures
        r@ == read_replies(|st: S, q: A::Request| app.spec_read(st, q), *state, requests@),
{
    let mut reply_batch = BatchReplies::with_capacity(requests.len());
    let ghost all = requests@;
    let mut rest = reversed(requests.into_inner());
    while rest.len() > 0
        invariant
            rest@.len() <= all.len(),
            rest@ == all.skip(all.len() - rest@.len()).reverse(),
            reply_batch@ == read_replies(|st: S, q: A::Request| app.spec_read(st, q), *state, all.take(all.len() - rest@.len())),
        decreases rest@.len(),
    {
        let ghost done = all.len() - rest@.len();
        let unordered_req = rest.pop().unwrap();
        let (peer_id, sess, opid, req) = unordered_req.into_inner();
        let reply = app.unordered_execution(state, req);
        reply_batch.add(peer_id, sess, opid, reply);
        proof {
            assert(all[done] == unordered_req);
            assert(rest@ =~= all.skip(all.len() - rest@.len()).reverse());
            assert(all.take(done + 1) =~= all.take(done).push(unordered_req));
            assert(reply_batch@ =~= read_replies(|st: S, q: A::Request| app.spec_read(st, q), *state, all.take(done + 1)));
        }
    }
    proof {
        assert(all.take(all.len() as int) =~= all);
    }
    reply_batch
}


/// The sequential fan-out of an ordered batch: one `update` per operation, in
/// batch order, threading the state through. An application without a
/// vectorised update path implements `update_batch` by calling this.
pub fn fan_out_update<S, A: Application<S>>(app: &A, state: &mut S, batch: UpdateBatch<A::Request>) -> (r: BatchReplies<A::Reply>)
    ensures
        (*final(state), r@) == apply_updates(|st: S, q: A::Request| app.spec_update(st, q), *old(state), batch@),
{
    let mut reply_batch = BatchReplies::with_capacity(batch.len());
    let ghost all = batch@;
    let mut rest = reversed(batch.into_inner());
    while rest.len() > 0
        invariant
            rest@.len() <= all.len(),
            rest@ == all.skip(all.len() - rest@.len()).reverse(),
            (*state, reply_batch@) == apply_updates(|st: S, q: A::Request| app.spec_update(st, q), *old(state), all.take(all.len() - rest@.len())),
        decreases rest@.len(),
    {
        let ghost done = all.len() - rest@.len();
        let update = rest.pop().unwrap();
        let (peer_id, sess, opid, req) = update.into_inner();
        let reply = app.update(state, req);
        reply_batch.add(peer_id, sess, opid, reply);
        proof {
            assert(all[done] == update);
            assert(rest@ =~= all.skip(all.len() - rest@.len()).reverse());
            assert(all.take(done + 1).drop_last() =~= all.take(done));
        }
    }
    proof {
        assert(all.take(all.len() as int) =~= all);
    }
    reply_batch
}

/// The elements of `v`, last first.
pub(crate) fn reversed<T>(v: Vec<T>) -> (r: Vec<T>)
    ensures
        r@ == v@.reverse(),
{
    let mut v = v;
    let ghost orig = v@;
    let mut r: Vec<T> = Vec::with_capacity(v.len());
    while v.len() > 0
        invariant
            v@.len() + r@.len() == orig.len(),
            v@ == orig.take(v@.len() as int),
            r@ == orig.skip(v@.len() as int).reverse(),
        decreases v@.len(),
    {
        let x = v.pop().unwrap();
        r.push(x);
        proof {
            assert(r@ =~= orig.skip(v@.len() as int).reverse());
            assert(v@ =~= orig.take(v@.len() as int));
        }
    }
    proof {
        assert(orig.skip(0) =~= orig);
    }
    r
}

} // verus!
