use std::time::Instant;

use atlas_execution::app::{UnorderedBatch, UpdateBatch};
use atlas_execution::counter::{CounterApp, CounterDescriptor, CounterOp, CounterPart, CounterState};
use atlas_execution::executor::{ExecError, ExecutionRequest, Executor, Outcome, Phase};
use atlas_execution::ordering::{NodeId, SeqNo};
use atlas_execution::state::{AppState, DivisibleState, DivisibleStateDescriptor, InstallStateMessage, StateError};

type Engine = Executor<CounterState, CounterApp>;

fn engine() -> Engine {
    Executor::new(CounterApp, CounterState::new())
}

fn batch(seq: u32, ops: &[CounterOp]) -> UpdateBatch<CounterOp> {
    let mut b = UpdateBatch::new(SeqNo::new(seq));
    for (i, op) in ops.iter().enumerate() {
        b.add(NodeId(1), SeqNo::new(1), SeqNo::new(i as u32 + 1), *op);
    }
    b
}

fn payloads(outcome: Outcome<CounterState, u64>) -> Vec<u64> {
    match outcome {
        Outcome::Replies(r) | Outcome::CaughtUp(r) | Outcome::UnorderedReplies(r) => {
            r.into_inner().iter().map(|x| *x.payload()).collect()
        },
        Outcome::RepliesAndCheckpoint(r, _) => r.into_inner().iter().map(|x| *x.payload()).collect(),
        _ => panic!("no replies"),
    }
}

const INC: CounterOp = CounterOp::Increment;

#[test]
fn first_batch_from_genesis() {
    let mut e = engine();
    let out = e.process(ExecutionRequest::Update((batch(1, &[INC, INC, INC]), Instant::now()))).unwrap();
    assert_eq!(payloads(out), vec![1, 2, 3]);
    assert_eq!(e.state().value(), 3);
    assert_eq!(e.last_applied(), SeqNo::new(1));
    assert_eq!(e.phase(), Phase::Normal);
}

#[test]
fn contiguous_batches_advance_last_applied() {
    let mut e = engine();
    let sizes = [2usize, 0, 3];
    let mut all = Vec::new();
    for (i, n) in sizes.iter().enumerate() {
        let ops = vec![INC; *n];
        let out = e.process(ExecutionRequest::Update((batch(i as u32 + 1, &ops), Instant::now()))).unwrap();
        all.extend(payloads(out));
    }
    assert_eq!(e.last_applied(), SeqNo::new(3));
    assert_eq!(all.len(), 5);
    assert_eq!(all, vec![1, 2, 3, 4, 5]);
}

#[test]
fn gap_or_repeat_is_rejected() {
    let mut e = engine();
    let err = e.execute_update(batch(2, &[INC])).err().unwrap();
    assert_eq!(err, ExecError::SequenceGap { expected: 1, found: SeqNo::new(2) });
    assert_eq!(e.state().value(), 0);
    e.execute_update(batch(1, &[INC])).ok().unwrap();
    assert!(e.execute_update(batch(1, &[INC])).is_err());
    assert_eq!(e.state().value(), 1);
    assert_eq!(e.last_applied(), SeqNo::new(1));
}

#[test]
fn catch_up_applies_every_batch() {
    let mut e = engine();
    for seq in 1..=4 {
        e.execute_update(batch(seq, &[CounterOp::Get])).ok().unwrap();
    }
    assert_eq!(e.last_applied(), SeqNo::new(4));
    let before = e.state().value();
    let run = vec![batch(5, &[INC]), batch(6, &[INC]), batch(7, &[INC])];
    let out = e.process(ExecutionRequest::CatchUp(run)).unwrap();
    assert_eq!(payloads(out), vec![1, 2, 3]);
    assert_eq!(e.last_applied(), SeqNo::new(7));
    assert_eq!(e.state().value(), before + 3);
}

#[test]
fn catch_up_with_a_gap_applies_nothing() {
    let mut e = engine();
    let run = vec![batch(1, &[INC]), batch(3, &[INC])];
    let err = e.execute_catch_up(run).err().unwrap();
    assert_eq!(err, ExecError::SequenceGap { expected: 2, found: SeqNo::new(3) });
    assert_eq!(e.state().value(), 0);
    assert_eq!(e.last_applied(), SeqNo::new(0));
    assert!(e.execute_catch_up(vec![batch(2, &[INC])]).is_err());
    assert!(e.execute_catch_up(vec![]).is_ok());
}

#[test]
fn unordered_and_read_leave_state_alone() {
    let mut e = engine();
    e.execute_update(batch(1, &[INC, INC])).ok().unwrap();
    let mut reads = UnorderedBatch::new();
    reads.add(NodeId(9), SeqNo::new(1), SeqNo::new(1), CounterOp::Get);
    let first = payloads(e.process(ExecutionRequest::ExecuteUnordered(reads.clone())).unwrap());
    let second = payloads(e.process(ExecutionRequest::ExecuteUnordered(reads)).unwrap());
    assert_eq!(first, vec![2]);
    assert_eq!(first, second);
    assert!(matches!(e.process(ExecutionRequest::Read(NodeId(4))), Ok(Outcome::Read(NodeId(4)))));
    assert!(matches!(e.process(ExecutionRequest::PollStateChannel), Ok(Outcome::PollStateChannel)));
    assert_eq!(e.state().value(), 2);
    assert_eq!(e.last_applied(), SeqNo::new(1));
}

#[test]
fn checkpoint_reports_changed_parts() {
    let mut e = engine();
    let out = e.process(ExecutionRequest::UpdateAndGetAppstate((batch(1, &[INC, INC]), Instant::now()))).unwrap();
    let msgs = match out {
        Outcome::RepliesAndCheckpoint(r, report) => {
            assert_eq!(r.len(), 2);
            report.unwrap()
        },
        _ => panic!("expected a checkpoint"),
    };
    assert_eq!(msgs.len(), 2);
    let mut it = msgs.into_iter();
    let (seq, first) = it.next().unwrap().into_state();
    assert_eq!(seq, SeqNo::new(1));
    match first {
        AppState::StateDescriptor(d) => {
            assert_eq!(d.compare_descriptors(&CounterDescriptor::new(SeqNo::new(0), 2)), vec![]);
            assert_eq!(d.sequence_number(), SeqNo::new(1));
        },
        _ => panic!("descriptor first"),
    }
    let second = it.next().unwrap();
    assert_eq!(second.sequence_number(), SeqNo::new(1));
    match second.into_state().1 {
        AppState::StatePart(parts) => assert_eq!(parts, vec![CounterPart::new(2)]),
        _ => panic!("parts second"),
    }
    // Nothing changed since: the next report carries no parts.
    let again = e.checkpoint().unwrap();
    match again.into_iter().nth(1).unwrap().into_state().1 {
        AppState::StatePart(parts) => assert!(parts.is_empty()),
        _ => panic!("parts second"),
    }
}

#[test]
fn installation_session_completes() {
    let mut e = engine();
    let x = CounterDescriptor::new(SeqNo::new(9), 5);
    e.install(InstallStateMessage::StateDescriptor(x.clone())).unwrap();
    assert_eq!(e.phase(), Phase::InstallingState);
    e.install(InstallStateMessage::StatePart(vec![CounterPart::new(5)])).unwrap();
    e.install(InstallStateMessage::StatePart(vec![CounterPart::new(5)])).unwrap();
    e.install(InstallStateMessage::Done).unwrap();
    assert_eq!(e.phase(), Phase::Normal);
    assert_eq!(e.last_applied(), SeqNo::new(9));
    assert!(x.compare_descriptors(e.state().get_descriptor()).is_empty());
    assert_eq!(e.state().value(), 5);
    assert!(e.execute_update(batch(10, &[INC])).is_ok());
    assert_eq!(e.state().value(), 6);
}

#[test]
fn done_before_parts_is_a_mismatch() {
    let mut e = engine();
    e.install(InstallStateMessage::StateDescriptor(CounterDescriptor::new(SeqNo::new(9), 5))).unwrap();
    assert_eq!(e.install(InstallStateMessage::Done), Err(ExecError::DescriptorMismatch));
    assert_eq!(e.phase(), Phase::InstallingState);
    assert_eq!(e.last_applied(), SeqNo::new(0));
}

#[test]
fn requests_wait_during_installation() {
    let mut e = engine();
    e.install(InstallStateMessage::StateDescriptor(CounterDescriptor::new(SeqNo::new(3), 1))).unwrap();
    let out = e.process(ExecutionRequest::Update((batch(1, &[INC]), Instant::now()))).unwrap();
    assert!(matches!(out, Outcome::Deferred));
    assert!(e.next_deferred().is_none());
    assert!(matches!(e.process(ExecutionRequest::Read(NodeId(1))), Ok(Outcome::Deferred)));
    assert_eq!(e.state().value(), 0);
    e.install(InstallStateMessage::StatePart(vec![CounterPart::new(1)])).unwrap();
    e.install(InstallStateMessage::Done).unwrap();
    assert!(matches!(e.next_deferred(), Some(ExecutionRequest::Update(_))));
    assert!(matches!(e.next_deferred(), Some(ExecutionRequest::Read(NodeId(1)))));
    assert!(e.next_deferred().is_none());
}

#[test]
fn install_messages_outside_a_session_are_rejected() {
    let mut e = engine();
    assert_eq!(e.install(InstallStateMessage::StatePart(vec![CounterPart::new(1)])), Err(ExecError::NoInstallation));
    assert_eq!(e.install(InstallStateMessage::Done), Err(ExecError::NoInstallation));
    assert_eq!(e.state().value(), 0);
}

#[test]
fn bad_part_is_rejected_and_session_stays_open() {
    let mut e = engine();
    e.install(InstallStateMessage::StateDescriptor(CounterDescriptor::new(SeqNo::new(2), 4))).unwrap();
    let bad = CounterPart { id: atlas_execution::counter::CounterPartId { value: 4 }, value: 3 };
    assert_eq!(
        e.install(InstallStateMessage::StatePart(vec![bad])),
        Err(ExecError::PartsRejected(StateError::PartMismatch))
    );
    assert_eq!(e.phase(), Phase::InstallingState);
    assert_eq!(e.state().value(), 0);
    // The session is discarded: only a new descriptor starts another.
    assert_eq!(e.install(InstallStateMessage::StatePart(vec![CounterPart::new(4)])), Err(ExecError::NoInstallation));
    assert_eq!(e.install(InstallStateMessage::Done), Err(ExecError::NoInstallation));
    assert!(matches!(e.process(ExecutionRequest::Read(NodeId(2))), Ok(Outcome::Deferred)));
    e.install(InstallStateMessage::StateDescriptor(CounterDescriptor::new(SeqNo::new(2), 4))).unwrap();
    e.install(InstallStateMessage::StatePart(vec![CounterPart::new(4)])).unwrap();
    e.install(InstallStateMessage::Done).unwrap();
    assert_eq!(e.phase(), Phase::Normal);
    assert_eq!(e.state().value(), 4);
}

#[test]
fn request_builders_make_the_named_request() {
    let b = batch(3, &[INC]);
    assert!(matches!(ExecutionRequest::update_and_appstate_request(b, Instant::now()), ExecutionRequest::UpdateAndGetAppstate((ref x, _)) if x.sequence_number() == SeqNo::new(3)));
    assert!(matches!(ExecutionRequest::update_request(batch(4, &[]), Instant::now()), ExecutionRequest::Update(_)));
    assert!(matches!(ExecutionRequest::<CounterOp>::poll_request(), ExecutionRequest::PollStateChannel));
    assert!(matches!(ExecutionRequest::catch_up_request(vec![batch(5, &[])]), ExecutionRequest::CatchUp(ref v) if v.len() == 1));
    assert!(matches!(ExecutionRequest::<CounterOp>::unordered_request(UnorderedBatch::new()), ExecutionRequest::ExecuteUnordered(_)));
}

#[test]
fn engine_exposes_its_parts() {
    let e = engine();
    let _app: &CounterApp = e.app();
    assert_eq!(e.state().get_descriptor().sequence_number(), SeqNo::new(0));
}
