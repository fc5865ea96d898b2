use atlas_execution::app::{BatchReplies, UnorderedBatch, Update, UpdateBatch, UpdateReply};
use atlas_execution::app::BatchMeta;
use atlas_execution::ordering::{NodeId, SeqNo};

#[test]
fn update_batch_keeps_order_and_sequence_number() {
    let mut batch: UpdateBatch<u32> = UpdateBatch::new(SeqNo::new(7));
    assert!(batch.is_empty());
    batch.add(NodeId(1), SeqNo::new(10), SeqNo::new(1), 100);
    batch.add(NodeId(2), SeqNo::new(11), SeqNo::new(2), 200);
    assert_eq!(batch.len(), 2);
    assert!(!batch.is_empty());
    assert_eq!(batch.sequence_number(), SeqNo::new(7));
    assert_eq!(batch.as_ref()[1].from(), NodeId(2));
    let ops = batch.into_inner();
    assert_eq!(ops.len(), 2);
    assert_eq!(ops[0].from(), NodeId(1));
    assert_eq!(ops[0].session_id(), SeqNo::new(10));
    assert_eq!(ops[0].operation_id(), SeqNo::new(1));
    assert_eq!(*ops[0].operation(), 100);
    let (from, sess, op, payload) = ops[1].clone().into_inner();
    assert_eq!((from, sess, op, payload), (NodeId(2), SeqNo::new(11), SeqNo::new(2), 200));
}

#[test]
fn update_batch_meta_is_taken_once() {
    let mut batch: UpdateBatch<u32> = UpdateBatch::new_with_cap(SeqNo::new(1), 4);
    assert_eq!(batch.take_meta(), None);
    batch.append_batch_meta(BatchMeta { batch_size: 3 });
    batch.append_batch_meta(BatchMeta { batch_size: 5 });
    assert_eq!(batch.take_meta(), Some(BatchMeta { batch_size: 5 }));
    assert_eq!(batch.take_meta(), None);
}

#[test]
fn unordered_batch_collects_operations() {
    let mut batch: UnorderedBatch<&str> = UnorderedBatch::new_with_cap(2);
    assert!(batch.is_empty());
    batch.add(NodeId(3), SeqNo::new(1), SeqNo::new(9), "a");
    batch.add(NodeId(4), SeqNo::new(2), SeqNo::new(8), "b");
    assert_eq!(batch.len(), 2);
    let ops: Vec<Update<&str>> = batch.into_inner();
    assert_eq!(*ops[1].operation(), "b");
    let empty: UnorderedBatch<u8> = UnorderedBatch::default();
    assert_eq!(empty.len(), 0);
    assert!(UnorderedBatch::<u8>::new().is_empty());
}

#[test]
fn batch_replies_route_back() {
    let mut replies: BatchReplies<u64> = BatchReplies::with_capacity(2);
    assert!(replies.is_empty());
    replies.add(NodeId(5), SeqNo::new(1), SeqNo::new(2), 42);
    replies.push(UpdateReply::init(NodeId(6), SeqNo::new(3), SeqNo::new(4), 43));
    assert_eq!(replies.len(), 2);
    assert_eq!(replies.inner()[0].to(), NodeId(5));
    assert_eq!(*replies.inner()[1].payload(), 43);
    let all = replies.into_inner();
    assert_eq!(all[1].clone().into_inner(), (NodeId(6), SeqNo::new(3), SeqNo::new(4), 43));
    assert_eq!(all[0].session_id(), SeqNo::new(1));
    assert_eq!(all[0].operation_id(), SeqNo::new(2));
    let mut back: BatchReplies<u64> = BatchReplies::from(all);
    assert_eq!(back.len(), 2);
    assert_eq!(*back[1].payload(), 43);
    back.truncate(1);
    assert_eq!(back.len(), 1);
    assert_eq!(back.inner()[0].to(), NodeId(5));
}

#[test]
fn sequence_numbers_follow_each_other() {
    let a = SeqNo::new(4);
    assert!(a.is_followed_by(&SeqNo::new(5)));
    assert!(!a.is_followed_by(&SeqNo::new(6)));
    assert!(!a.is_followed_by(&SeqNo::new(4)));
    assert_eq!(a.next(), Some(SeqNo::new(5)));
    assert_eq!(SeqNo::new(u32::MAX).next(), None);
    assert!(SeqNo::new(u32::MAX).is_followed_by(&SeqNo::new(u32::MAX)) == false);
    assert_eq!(SeqNo::zero().value(), 0);
}
