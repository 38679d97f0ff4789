//! Plain values held by the log store: entries, hard state, configuration and
//! snapshots, each with a mathematical view.
use vstd::prelude::*;

verus! {

/// The largest size budget: `entries` with this budget is never truncated.
pub const NO_LIMIT: u64 = 0xffff_ffff_ffff_ffff;

/// What a log entry is, as a mathematical value.
pub struct EntryModel {
    pub index: u64,
    pub term: u64,
    pub data: Seq<u8>,
}

/// One replicated record: its position in the log, the term in which it was
/// proposed, and an opaque payload.
#[derive(Debug)]
pub struct LogEntry {
    pub index: u64,
    pub term: u64,
    pub data: Vec<u8>,
}

impl View for LogEntry {
    type V = EntryModel;

    open spec fn view(&self) -> EntryModel {
        EntryModel { index: self.index, term: self.term, data: self.data@ }
    }
}

/// The views of a sequence of entries.
pub open spec fn models(v: Seq<LogEntry>) -> Seq<EntryModel> {
    v.map_values(|e: LogEntry| e@)
}

fn copy_vec<T: Copy>(v: &Vec<T>) -> (r: Vec<T>)
    ensures
        r@ == v@,
{
    let mut r: Vec<T> = Vec::new();
    let mut i: usize = 0;
    while i < v.len()
        invariant
            i <= v@.len(),
            r@ == v@.subrange(0, i as int),
        decreases v@.len() - i,
    {
        r.push(v[i]);
        i = i + 1;
    }
    assert(r@ =~= v@);
    r
}

/// A copy of a byte payload.
pub fn copy_bytes(v: &Vec<u8>) -> (r: Vec<u8>)
    ensures
        r@ == v@,
{
    copy_vec(v)
}

/// A copy of a list of node ids.
pub fn copy_ids(v: &Vec<u64>) -> (r: Vec<u64>)
    ensures
        r@ == v@,
{
    copy_vec(v)
}

impl LogEntry {
    pub fn new(index: u64, term: u64, data: Vec<u8>) -> (r: LogEntry)
        ensures
            r@ == (EntryModel { index, term, data: data@ }),
    {
        LogEntry { index, term, data }
    }

    /// A copy with the same view.
    pub fn duplicate(&self) -> (r: LogEntry)
        ensures
            r@ == self@,
    {
        LogEntry { index: self.index, term: self.term, data: copy_bytes(&self.data) }
    }
}

/// Durable per-node consensus metadata.
#[derive(Clone, Copy, Debug, PartialEq, Eq, Structural)]
pub struct HardState {
    pub term: u64,
    pub vote: u64,
    pub commit: u64,
}

impl HardState {
    /// Term 0, no vote, nothing committed.
    pub fn new() -> (r: HardState)
        ensures
            r == (HardState { term: 0, vote: 0, commit: 0 }),
    {
        HardState { term: 0, vote: 0, commit: 0 }
    }
}

/// What a cluster configuration is, as a mathematical value.
pub struct ConfModel {
    pub nodes: Seq<u64>,
    pub learners: Seq<u64>,
}

/// The cluster configuration: voting members and learners, by id.
#[derive(Debug)]
pub struct ConfState {
    pub nodes: Vec<u64>,
    pub learners: Vec<u64>,
}

impl View for ConfState {
    type V = ConfModel;

    open spec fn view(&self) -> ConfModel {
        ConfModel { nodes: self.nodes@, learners: self.learners@ }
    }
}

impl ConfState {
    /// A configuration with no members.
    pub fn new() -> (r: ConfState)
        ensures
            r@.nodes.len() == 0,
            r@.learners.len() == 0,
    {
        ConfState { nodes: Vec::new(), learners: Vec::new() }
    }

    /// A copy with the same view.
    pub fn duplicate(&self) -> (r: ConfState)
        ensures
            r@ == self@,
    {
        ConfState { nodes: copy_ids(&self.nodes), learners: copy_ids(&self.learners) }
    }
}

/// What a snapshot is, as a mathematical value.
pub struct SnapshotModel {
    pub index: u64,
    pub term: u64,
    pub conf_state: ConfModel,
    pub data: Seq<u8>,
}

/// A compacted prefix of the log: everything up to and including `index`,
/// with the configuration active there.
#[derive(Debug)]
pub struct Snapshot {
    pub index: u64,
    pub term: u64,
    pub conf_state: ConfState,
    pub data: Vec<u8>,
}

impl View for Snapshot {
    type V = SnapshotModel;

    open spec fn view(&self) -> SnapshotModel {
        SnapshotModel {
            index: self.index,
            term: self.term,
            conf_state: self.conf_state@,
            data: self.data@,
        }
    }
}

impl Snapshot {
    /// The zero-index snapshot of an empty store.
    pub fn new() -> (r: Snapshot)
        ensures
            r@.index == 0,
            r@.term == 0,
            r@.conf_state.nodes.len() == 0,
            r@.conf_state.learners.len() == 0,
            r@.data.len() == 0,
    {
        Snapshot { index: 0, term: 0, conf_state: ConfState::new(), data: Vec::new() }
    }

    /// A copy with the same view.
    pub fn duplicate(&self) -> (r: Snapshot)
        ensures
            r@ == self@,
    {
        Snapshot {
            index: self.index,
            term: self.term,
            conf_state: self.conf_state.duplicate(),
            data: copy_bytes(&self.data),
        }
    }
}

/// The state a consensus state machine starts from.
#[derive(Debug)]
pub struct RaftState {
    pub hard_state: HardState,
    pub conf_state: ConfState,
}

} // verus!
