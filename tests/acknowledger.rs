use sqs_consumer::ack::{flush_chunk, AckEntry, FlushBatch, MAX_BATCH};
use sqs_consumer::deleter::{AckEvent, AckPhase, BatchDeleter};

fn entry(id: &str, rh: &str) -> AckEntry {
    AckEntry { id: id.to_string(), receipt_handle: rh.to_string() }
}

fn ids(b: &FlushBatch) -> Vec<String> {
    b.entries.iter().map(|e| e.id.clone()).collect()
}

#[test]
fn three_acks_flushed_by_next_tick() {
    let mut d = BatchDeleter::new();
    for id in ["m1", "m2", "m3"] {
        assert!(d.step(AckEvent::Received(entry(id, "rh"))).is_empty());
    }
    assert_eq!(d.pending_len(), 3);
    let batches = d.step(AckEvent::Tick);
    assert_eq!(batches.len(), 1);
    assert_eq!(ids(&batches[0]), vec!["m1", "m2", "m3"]);
    assert!(!batches[0].duplicates_removed);
    assert_eq!(d.pending_len(), 0);
}

#[test]
fn tenth_ack_flushes_at_once_rest_on_tick() {
    let mut d = BatchDeleter::new();
    let mut sent: Vec<FlushBatch> = Vec::new();
    for i in 0..15 {
        let batches = d.step(AckEvent::Received(entry(&format!("m{:02}", i), "rh")));
        if i == 9 {
            assert_eq!(batches.len(), 1);
        } else {
            assert!(batches.is_empty());
        }
        sent.extend(batches);
    }
    assert_eq!(sent.len(), 1);
    assert_eq!(sent[0].entries.len(), 10);
    assert_eq!(ids(&sent[0])[0], "m00");
    assert_eq!(ids(&sent[0])[9], "m09");
    assert_eq!(d.pending_len(), 5);
    let batches = d.step(AckEvent::Tick);
    assert_eq!(batches.len(), 1);
    assert_eq!(ids(&batches[0]), vec!["m10", "m11", "m12", "m13", "m14"]);
    assert_eq!(d.pending_len(), 0);
}

#[test]
fn duplicate_ids_collapse_to_one_entry() {
    let mut d = BatchDeleter::new();
    d.step(AckEvent::Received(entry("m1", "rh-a")));
    d.step(AckEvent::Received(entry("m1", "rh-b")));
    let batches = d.step(AckEvent::Tick);
    assert_eq!(batches.len(), 1);
    assert_eq!(batches[0].entries.len(), 1);
    assert_eq!(batches[0].entries[0].id, "m1");
    assert!(batches[0].duplicates_removed);
}

#[test]
fn flush_of_empty_buffer_sends_nothing() {
    let mut d = BatchDeleter::new();
    assert!(d.flush_once().is_none());
    assert!(d.flush_once().is_none());
    assert!(d.step(AckEvent::Tick).is_empty());
    assert!(d.step(AckEvent::Tick).is_empty());
    assert_eq!(d.pending_len(), 0);
}

#[test]
fn flush_once_takes_at_most_ten() {
    let mut d = BatchDeleter::new();
    // cancel first so that nothing is flushed on arrival of the tenth
    d.step(AckEvent::Cancelled);
    for i in 0..9 {
        d.step(AckEvent::Received(entry(&format!("a{}", i), "rh")));
    }
    assert_eq!(d.pending_len(), 9);
    let b = d.flush_once().unwrap();
    assert_eq!(b.entries.len(), 9);
    assert_eq!(d.pending_len(), 0);
    assert_eq!(MAX_BATCH, 10);
}

#[test]
fn flush_chunk_sorts_by_id() {
    let b = flush_chunk(vec![entry("c", "1"), entry("a", "2"), entry("b", "3"), entry("a", "4")]);
    assert_eq!(ids(&b), vec!["a", "b", "c"]);
    assert!(b.duplicates_removed);
    assert_eq!(b.entries[1].receipt_handle, "3");
}

#[test]
fn flush_chunk_without_duplicates_keeps_all() {
    let b = flush_chunk(vec![entry("z", "1"), entry("y", "2")]);
    assert_eq!(ids(&b), vec!["y", "z"]);
    assert!(!b.duplicates_removed);
}

#[test]
fn shutdown_drains_channel_then_flushes_all() {
    let mut d = BatchDeleter::new();
    for i in 0..4 {
        d.step(AckEvent::Received(entry(&format!("p{}", i), "rh")));
    }
    assert!(d.step(AckEvent::Cancelled).is_empty());
    assert_eq!(d.phase(), AckPhase::Draining);
    // ticks are no longer raced while draining
    assert!(d.step(AckEvent::Tick).is_empty());
    let mut sent = 0;
    for i in 0..8 {
        let batches = d.step(AckEvent::Received(entry(&format!("q{}", i), "rh")));
        for b in &batches {
            sent += b.entries.len();
        }
    }
    assert_eq!(sent, 10);
    assert_eq!(d.pending_len(), 2);
    let batches = d.step(AckEvent::Closed);
    assert_eq!(batches.len(), 1);
    assert_eq!(ids(&batches[0]), vec!["q6", "q7"]);
    assert_eq!(d.phase(), AckPhase::Finished);
    assert_eq!(d.pending_len(), 0);
    assert!(d.step(AckEvent::Received(entry("late", "rh"))).is_empty());
    assert_eq!(d.pending_len(), 0);
}

#[test]
fn closed_while_running_changes_nothing() {
    let mut d = BatchDeleter::new();
    d.step(AckEvent::Received(entry("m1", "rh")));
    assert!(d.step(AckEvent::Closed).is_empty());
    assert_eq!(d.phase(), AckPhase::Running);
    assert_eq!(d.pending_len(), 1);
}

#[test]
fn flush_all_empties_buffer() {
    let mut d = BatchDeleter::new();
    d.step(AckEvent::Cancelled);
    for i in 0..9 {
        d.step(AckEvent::Received(entry(&format!("x{}", i), "rh")));
    }
    let batches = d.flush_all();
    assert_eq!(batches.len(), 1);
    assert_eq!(d.pending_len(), 0);
}
