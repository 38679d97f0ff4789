use raft_sim::log_store::{SimulatedStorage, StorageError};
use raft_sim::types::{ConfState, HardState, LogEntry, Snapshot, NO_LIMIT};

fn entry(index: u64, term: u64) -> LogEntry {
    LogEntry::new(index, term, vec![index as u8, term as u8])
}

fn store_with(last: u64) -> SimulatedStorage {
    let mut s = SimulatedStorage::new();
    s.append((1..=last).map(|i| entry(i, 1 + i / 3)).collect());
    s
}

fn snapshot_at(index: u64, term: u64) -> Snapshot {
    Snapshot { index, term, conf_state: ConfState::new(), data: vec![] }
}

fn indices(v: &[LogEntry]) -> Vec<u64> {
    v.iter().map(|e| e.index).collect()
}

#[test]
fn empty_store_bounds() {
    let s = SimulatedStorage::new();
    assert_eq!(s.first_index(), 1);
    assert_eq!(s.last_index(), 0);
    assert_eq!(s.term(0), 0);
}

#[test]
fn empty_store_empty_range() {
    let s = SimulatedStorage::new();
    let r = s.entries(1, 1, NO_LIMIT).unwrap();
    assert!(r.is_empty());
}

#[test]
fn new_with_conf_is_empty() {
    let s = SimulatedStorage::new_with_conf(raft::Config::default());
    assert_eq!(s.first_index(), 1);
    assert_eq!(s.last_index(), 0);
}

#[test]
fn initial_state_of_new_store() {
    let s = SimulatedStorage::new();
    let st = s.initial_state();
    assert_eq!(st.hard_state, HardState::new());
    assert!(st.conf_state.nodes.is_empty());
    assert!(st.conf_state.learners.is_empty());
}

#[test]
fn hard_state_is_kept() {
    let mut s = SimulatedStorage::new();
    let hs = HardState { term: 4, vote: 2, commit: 7 };
    s.set_hard_state(hs);
    assert_eq!(s.initial_state().hard_state, hs);
}

#[test]
fn append_round_trip() {
    let mut s = store_with(2);
    assert_eq!(s.last_index(), 2);
    s.append(vec![entry(3, 5), entry(4, 5), entry(5, 6)]);
    assert_eq!(s.last_index(), 5);
    let r = s.entries(3, 6, NO_LIMIT).unwrap();
    assert_eq!(indices(&r), vec![3, 4, 5]);
    assert_eq!(r[2].term, 6);
    assert_eq!(r[0].data, vec![3u8, 5u8]);
}

#[test]
fn range_is_exact() {
    let s = store_with(6);
    let r = s.entries(2, 5, NO_LIMIT).unwrap();
    assert_eq!(indices(&r), vec![2, 3, 4]);
    assert_eq!(s.entries(6, 7, NO_LIMIT).unwrap().len(), 1);
    assert!(s.entries(4, 4, NO_LIMIT).unwrap().is_empty());
}

#[test]
fn size_budget_cuts_range() {
    let s = store_with(4);
    let r = s.entries(1, 5, 0).unwrap();
    assert_eq!(indices(&r), vec![1]);
    let r = s.entries(1, 5, 1_000_000).unwrap();
    assert_eq!(indices(&r), vec![1, 2, 3, 4]);
}

#[test]
fn terms_and_boundary() {
    let s = store_with(5);
    assert_eq!(s.term(0), 0);
    assert_eq!(s.term(1), 1);
    assert_eq!(s.term(3), 2);
    assert_eq!(s.term(5), 2);
    assert_eq!(s.term(6), 0);
}

#[test]
fn compaction_boundary() {
    let mut s = store_with(6);
    assert_eq!(s.apply_snapshot(snapshot_at(3, 2)), Ok(()));
    assert_eq!(s.first_index(), 4);
    assert_eq!(s.last_index(), 6);
    assert_eq!(s.term(3), 0);
    assert_eq!(s.term(4), 2);
    for low in 0..=3 {
        assert_eq!(s.entries(low, 5, NO_LIMIT).unwrap_err(), StorageError::Compacted);
    }
    assert_eq!(indices(&s.entries(4, 7, NO_LIMIT).unwrap()), vec![4, 5, 6]);
}

#[test]
fn snapshot_past_the_log() {
    let mut s = store_with(3);
    assert_eq!(s.apply_snapshot(snapshot_at(10, 4)), Ok(()));
    assert_eq!(s.first_index(), 11);
    assert_eq!(s.last_index(), 10);
    assert!(s.entries(11, 11, NO_LIMIT).unwrap().is_empty());
}

#[test]
fn snapshot_twice_is_idempotent() {
    let mut s = store_with(6);
    assert_eq!(s.apply_snapshot(snapshot_at(2, 1)), Ok(()));
    let (first, last) = (s.first_index(), s.last_index());
    assert_eq!(s.apply_snapshot(snapshot_at(2, 1)), Err(StorageError::SnapshotOutOfDate));
    assert_eq!((s.first_index(), s.last_index()), (first, last));
    assert_eq!((first, last), (3, 6));
}

#[test]
fn snapshot_read_back() {
    let mut s = store_with(4);
    s.apply_snapshot(snapshot_at(2, 1)).unwrap();
    let snap = s.snapshot(2);
    assert_eq!((snap.index, snap.term), (2, 1));
    assert_eq!(s.snapshot(0).index, 2);
}
