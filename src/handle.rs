//! The producer side: a cloneable handle that queues execution requests on
//! the engine's bounded channel.
use vstd::prelude::*;

use std::sync::mpsc::SyncSender;
use std::time::Instant;

use crate::app::{UnorderedBatch, UpdateBatch};
use crate::executor::ExecutionRequest;

verus! {

/// The send half of a bounded std channel, carried through opaquely.
#[verifier::external_type_specification]
#[verifier::external_body]
#[verifier::reject_recursive_types(T)]
pub struct ExSyncSender<T>(std::sync::mpsc::SyncSender<T>);

/// Why a request could not be queued.
#[derive(Debug, Clone, Copy, PartialEq, Eq, Structural)]
pub enum HandleError {
    /// The engine's end of the channel is gone; the engine has stopped.
    ChannelClosed,
}

/// Relies on `SyncSender::send`: blocks while the channel is full, and fails
/// only when the receiving end has been dropped. Whether the request went
/// through.
#[verifier::external_body]
fn send_request<O>(tx: &SyncSender<ExecutionRequest<O>>, request: ExecutionRequest<O>) -> bool {
    tx.send(request).is_ok()
}

/// Hands `request` to the channel; a refusal means the engine is gone.
fn enqueue<O>(tx: &SyncSender<ExecutionRequest<O>>, request: ExecutionRequest<O>) -> (r: Result<(), HandleError>)
    ensures
        r is Err ==> r == Err::<(), HandleError>(HandleError::ChannelClosed),
{
    if send_request(tx, request) {
        Ok(())
    } else {
        Err(HandleError::ChannelClosed)
    }
}

/// Relies on `Instant::now`: the current time, for latency reporting only.
#[verifier::external_body]
fn enqueue_time() -> Instant {
    Instant::now()
}

/// Relies on `SyncSender::clone`: another sender on the same channel.
#[verifier::external_body]
fn clone_sender<O>(tx: &SyncSender<ExecutionRequest<O>>) -> SyncSender<ExecutionRequest<O>> {
    tx.clone()
}

/// A handle to the execution engine's request queue. Requests sent through
/// one handle arrive in the order they were sent.
#[verifier::reject_recursive_types(RQ)]
pub struct ExecutorHandle<RQ> {
    e_tx: SyncSender<ExecutionRequest<RQ>>,
}

impl<RQ> ExecutorHandle<RQ> {
    /// The sender this handle queues requests on.
    pub closed spec fn spec_sender(&self) -> SyncSender<ExecutionRequest<RQ>> {
        self.e_tx
    }

    pub fn new(tx: SyncSender<ExecutionRequest<RQ>>) -> (r: Self)
        ensures
            r.spec_sender() == tx,
    {
        ExecutorHandle { e_tx: tx }
    }

    /// Tells the engine that the state-transfer channel has messages waiting.
    pub fn poll_state_channel(&self) -> (r: Result<(), HandleError>)
        ensures
            r is Err ==> r == Err::<(), HandleError>(HandleError::ChannelClosed),
    {
        let request = ExecutionRequest::poll_request();
        enqueue(&self.e_tx, request)
    }

    /// Queues a catch-up run of ordered batches.
    pub fn catch_up_to_quorum(&self, requests: Vec<UpdateBatch<RQ>>) -> (r: Result<(), HandleError>)
        ensures
            r is Err ==> r == Err::<(), HandleError>(HandleError::ChannelClosed),
    {
        let request = ExecutionRequest::catch_up_request(requests);
        enqueue(&self.e_tx, request)
    }

    /// Queues an ordered batch for execution, stamped with the time it was queued.
    pub fn queue_update(&self, batch: UpdateBatch<RQ>) -> (r: Result<(), HandleError>)
        ensures
            r is Err ==> r == Err::<(), HandleError>(HandleError::ChannelClosed),
    {
        let now = enqueue_time();
        let request = ExecutionRequest::update_request(batch, now);
        enqueue(&self.e_tx, request)
    }

    /// Queues a batch of read-only requests.
    pub fn queue_update_unordered(&self, requests: UnorderedBatch<RQ>) -> (r: Result<(), HandleError>)
        ensures
            r is Err ==> r == Err::<(), HandleError>(HandleError::ChannelClosed),
    {
        let request = ExecutionRequest::unordered_request(requests);
        enqueue(&self.e_tx, request)
    }

    /// Like `queue_update`, and asks for a checkpoint of the state after the batch.
    pub fn queue_update_and_get_appstate(&self, batch: UpdateBatch<RQ>) -> (r: Result<(), HandleError>)
        ensures
            r is Err ==> r == Err::<(), HandleError>(HandleError::ChannelClosed),
    {
        let now = enqueue_time();
        let request = ExecutionRequest::update_and_appstate_request(batch, now);
        enqueue(&self.e_tx, request)
    }
}

impl<RQ> Clone for ExecutorHandle<RQ> {
    fn clone(&self) -> Self {
        let e_tx = clone_sender(&self.e_tx);
        ExecutorHandle { e_tx }
    }
}

} // verus!
