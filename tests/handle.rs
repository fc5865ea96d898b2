use std::sync::mpsc::sync_channel;

use atlas_execution::app::{UnorderedBatch, UpdateBatch};
use atlas_execution::executor::ExecutionRequest;
use atlas_execution::handle::{ExecutorHandle, HandleError};
use atlas_execution::ordering::{NodeId, SeqNo};

#[test]
fn handle_queues_requests_in_order() {
    let (tx, rx) = sync_channel::<ExecutionRequest<u8>>(8);
    let handle = ExecutorHandle::new(tx);
    let other = handle.clone();
    handle.poll_state_channel().unwrap();
    handle.queue_update(UpdateBatch::new(SeqNo::new(1))).unwrap();
    handle.queue_update_and_get_appstate(UpdateBatch::new(SeqNo::new(2))).unwrap();
    let mut reads = UnorderedBatch::new();
    reads.add(NodeId(1), SeqNo::new(1), SeqNo::new(1), 7u8);
    handle.queue_update_unordered(reads).unwrap();
    other.catch_up_to_quorum(vec![UpdateBatch::new(SeqNo::new(3))]).unwrap();
    assert!(matches!(rx.recv().unwrap(), ExecutionRequest::PollStateChannel));
    match rx.recv().unwrap() {
        ExecutionRequest::Update((b, _)) => assert_eq!(b.sequence_number(), SeqNo::new(1)),
        _ => panic!("expected an update"),
    }
    match rx.recv().unwrap() {
        ExecutionRequest::UpdateAndGetAppstate((b, _)) => assert_eq!(b.sequence_number(), SeqNo::new(2)),
        _ => panic!("expected an update with checkpoint"),
    }
    match rx.recv().unwrap() {
        ExecutionRequest::ExecuteUnordered(b) => assert_eq!(b.len(), 1),
        _ => panic!("expected unordered"),
    }
    match rx.recv().unwrap() {
        ExecutionRequest::CatchUp(v) => assert_eq!(v[0].sequence_number(), SeqNo::new(3)),
        _ => panic!("expected catch-up"),
    }
}

#[test]
fn closed_channel_is_reported() {
    let (tx, rx) = sync_channel::<ExecutionRequest<u8>>(1);
    let handle = ExecutorHandle::new(tx);
    drop(rx);
    assert_eq!(handle.poll_state_channel(), Err(HandleError::ChannelClosed));
    assert_eq!(handle.queue_update(UpdateBatch::new(SeqNo::new(1))), Err(HandleError::ChannelClosed));
}
