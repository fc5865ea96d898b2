use atlas_execution::app::{Application, UnorderedBatch, UpdateBatch};
use atlas_execution::counter::{CounterApp, CounterDescriptor, CounterOp, CounterPart, CounterPartId, CounterState};
use atlas_execution::ordering::{NodeId, SeqNo};
use atlas_execution::state::{DivisibleState, DivisibleStateDescriptor, PartId, StatePart, StateError};

fn increments(seq: u32, n: u32) -> UpdateBatch<CounterOp> {
    let mut batch = UpdateBatch::new(SeqNo::new(seq));
    for i in 1..=n {
        batch.add(NodeId(1), SeqNo::new(1), SeqNo::new(i), CounterOp::Increment);
    }
    batch
}

#[test]
fn three_increments_reply_with_each_new_value() {
    let mut state = CounterApp::initial_state().unwrap();
    assert_eq!(state.value(), 0);
    let replies = CounterApp.update_batch(&mut state, increments(1, 3)).into_inner();
    let payloads: Vec<u64> = replies.iter().map(|r| *r.payload()).collect();
    assert_eq!(payloads, vec![1, 2, 3]);
    let ids: Vec<u32> = replies.iter().map(|r| r.operation_id().value()).collect();
    assert_eq!(ids, vec![1, 2, 3]);
    assert!(replies.iter().all(|r| r.to() == NodeId(1) && r.session_id() == SeqNo::new(1)));
    assert_eq!(state.value(), 3);
}

#[test]
fn batch_equals_single_updates() {
    let mut batched = CounterState::new();
    let mut single = CounterState::new();
    let mut batch = UpdateBatch::new(SeqNo::new(1));
    let ops = [CounterOp::Increment, CounterOp::Get, CounterOp::Increment, CounterOp::Increment];
    for (i, op) in ops.iter().enumerate() {
        batch.add(NodeId(2), SeqNo::new(1), SeqNo::new(i as u32), *op);
    }
    let replies: Vec<u64> = CounterApp.update_batch(&mut batched, batch).into_inner().iter().map(|r| *r.payload()).collect();
    let one_by_one: Vec<u64> = ops.iter().map(|op| CounterApp.update(&mut single, *op)).collect();
    assert_eq!(replies, one_by_one);
    assert_eq!(replies, vec![1, 1, 2, 3]);
    assert_eq!(batched.value(), single.value());
}

#[test]
fn increment_wraps_at_the_largest_value() {
    let mut state = CounterState::new();
    let part = CounterPart::new(u64::MAX);
    state.accept_parts(vec![part]).unwrap();
    assert_eq!(CounterApp.update(&mut state, CounterOp::Increment), 0);
    assert_eq!(state.value(), 0);
}

#[test]
fn unordered_reads_do_not_change_the_state() {
    let mut state = CounterState::new();
    CounterApp.update_batch(&mut state, increments(1, 2));
    let mut reads = UnorderedBatch::new();
    reads.add(NodeId(3), SeqNo::new(2), SeqNo::new(1), CounterOp::Get);
    reads.add(NodeId(4), SeqNo::new(3), SeqNo::new(1), CounterOp::Increment);
    let first: Vec<u64> = CounterApp.unordered_batched_execution(&state, reads.clone()).into_inner().iter().map(|r| *r.payload()).collect();
    let second: Vec<u64> = CounterApp.unordered_batched_execution(&state, reads).into_inner().iter().map(|r| *r.payload()).collect();
    assert_eq!(first, vec![2, 2]);
    assert_eq!(first, second);
    assert_eq!(state.value(), 2);
    assert_eq!(CounterApp.unordered_execution(&state, CounterOp::Get), 2);
}

#[test]
fn checkpoint_parts_install_onto_fresh_state() {
    let mut source = CounterState::new();
    CounterApp.update_batch(&mut source, increments(1, 3));
    let x = source.prepare_checkpoint(SeqNo::new(1)).unwrap().clone();
    assert_eq!(x.sequence_number(), SeqNo::new(1));
    assert_eq!(x.parts(), &vec![CounterPartId { value: 3 }]);
    let parts = source.get_parts(x.parts()).unwrap();
    assert_eq!(parts, vec![CounterPart::new(3)]);
    let mut fresh = CounterState::new();
    assert!(!x.compare_descriptors(fresh.get_descriptor()).is_empty());
    fresh.accept_parts(parts).unwrap();
    assert!(x.compare_descriptors(fresh.get_descriptor()).is_empty());
    assert!(fresh.get_descriptor().compare_descriptors(&x).is_empty());
    assert_eq!(fresh.value(), 3);
}

#[test]
fn unknown_part_is_refused() {
    let state = CounterState::new();
    assert_eq!(state.get_parts(&[CounterPartId { value: 9 }]), Err(StateError::UnknownPart));
    assert_eq!(state.get_parts(&[]), Ok(vec![]));
}

#[test]
fn mismatched_part_is_refused() {
    let mut state = CounterState::new();
    let bad = CounterPart { id: CounterPartId { value: 1 }, value: 2 };
    assert_eq!(state.accept_parts(vec![bad]), Err(StateError::PartMismatch));
    let mixed = vec![CounterPart::new(1), CounterPart::new(2)];
    assert_eq!(state.accept_parts(mixed), Err(StateError::PartMismatch));
    assert_eq!(state.value(), 0);
}

#[test]
fn descriptors_compare_by_part_set() {
    let a = CounterDescriptor::new(SeqNo::new(3), 5);
    let b = CounterDescriptor::new(SeqNo::new(4), 6);
    assert_eq!(a.compare_descriptors(&b), vec![CounterPartId { value: 5 }]);
    assert_eq!(a.compare_descriptors(&a.clone()), vec![]);
    assert_eq!(a.sequence_number(), SeqNo::new(3));
    let copy = a.duplicate();
    assert_eq!(copy.sequence_number(), SeqNo::new(3));
    assert_eq!(copy.parts(), a.parts());
}

#[test]
fn part_digest_holds_the_value_bytes() {
    let d = CounterPartId { value: 0x0102 }.content_description();
    let mut expected = [0u8; 32];
    expected[0] = 2;
    expected[1] = 1;
    assert_eq!(d.0, expected);
    assert_eq!(CounterPart::new(7).descriptor(), CounterPartId { value: 7 });
}
