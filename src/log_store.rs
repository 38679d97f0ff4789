//! The in-memory log store: hard state, a contiguous run of log entries and
//! the latest snapshot, with the read contract a consensus state machine needs.
use vstd::prelude::*;
use crate::types::{
    models, ConfState, EntryModel, HardState, LogEntry, RaftState, Snapshot, SnapshotModel,
    NO_LIMIT,
};

verus! {

/// Why a storage request could not be served.
#[derive(Clone, Copy, Debug, PartialEq, Eq, Structural)]
pub enum StorageError {
    /// The requested range starts before the retained window.
    Compacted,
    /// The snapshot offered is not newer than the one held.
    SnapshotOutOfDate,
}

/// How many entries of `entries` `raft::util::limit_size` keeps under the
/// byte budget `max`.
pub uninterp spec fn size_limited_len(entries: Seq<EntryModel>, max: u64) -> nat;

/// Relies on raft::util::limit_size: it truncates its vector to a prefix whose
/// encoded size fits `max`, keeping at least one entry, and leaves it whole
/// when `max` is `NO_LIMIT` or it holds at most one entry.
#[verifier::external_body]
fn kept_under_limit(entries: &Vec<LogEntry>, max: u64) -> (r: usize)
    ensures
        r == size_limited_len(models(entries@), max),
        r <= entries@.len(),
        entries@.len() > 0 ==> r >= 1,
        max == NO_LIMIT || entries@.len() <= 1 ==> r == entries@.len(),
{
    let mut raw: Vec<raft::eraftpb::Entry> = entries.iter().map(|e| {
        let mut r = raft::eraftpb::Entry::new();
        r.set_index(e.index);
        r.set_term(e.term);
        r.set_data(e.data.clone());
        r
    }).collect();
    raft::util::limit_size(&mut raw, max);
    raw.len()
}

/// raft's node configuration, carried opaque: the store does not read it.
#[verifier::external_type_specification]
#[verifier::external_body]
pub struct ExConfig(raft::Config);

/// The store behind one simulated node.
pub struct SimulatedStorage {
    state: HardState,
    raft_entries: Vec<LogEntry>,
    snapshot: Snapshot,
}

impl SimulatedStorage {
    /// The hard state held.
    pub closed spec fn hard_state(&self) -> HardState {
        self.state
    }

    /// The retained entries, oldest first.
    pub closed spec fn log(&self) -> Seq<EntryModel> {
        models(self.raft_entries@)
    }

    /// The snapshot held.
    pub closed spec fn snap(&self) -> SnapshotModel {
        self.snapshot@
    }

    /// The retained entries follow the snapshot without a gap, one index
    /// apart, and the index after the last one fits in a `u64`.
    pub open spec fn wf(&self) -> bool {
        &&& self.snap().index + self.log().len() < NO_LIMIT
        &&& forall|i: int|
            0 <= i < self.log().len() ==> #[trigger] self.log()[i].index == self.snap().index + 1 + i
    }

    pub open spec fn first_index_spec(&self) -> int {
        if self.log().len() > 0 {
            self.log()[0].index as int
        } else {
            self.snap().index + 1
        }
    }

    pub open spec fn last_index_spec(&self) -> int {
        if self.log().len() > 0 {
            self.log().last().index as int
        } else {
            self.snap().index as int
        }
    }

    /// The term recorded at `idx`: that of the entry when it is retained,
    /// else 0 (the boundary just before the first entry, or outside the log).
    pub open spec fn term_spec(&self, idx: u64) -> u64 {
        if self.first_index_spec() <= idx <= self.last_index_spec() {
            self.log()[idx - self.first_index_spec()].term
        } else {
            0
        }
    }

    /// The entries with indices in `[low, high)`.
    pub open spec fn range_spec(&self, low: u64, high: u64) -> Seq<EntryModel> {
        self.log().subrange(low - self.first_index_spec(), high - self.first_index_spec())
    }

    /// Under `wf`, the first index follows the snapshot and the last one is
    /// as far beyond it as there are entries.
    proof fn lemma_bounds(&self)
        requires
            self.wf(),
        ensures
            self.first_index_spec() == self.snap().index + 1,
            self.last_index_spec() == self.snap().index + self.log().len(),
            self.log().len() == self.raft_entries@.len(),
            forall|i: int| 0 <= i < self.log().len() ==> #[trigger] self.log()[i] == self.raft_entries@[i]@,
    {
        if self.log().len() > 0 {
            assert(self.log()[0].index == self.snap().index + 1);
            assert(self.log()[self.log().len() - 1].index == self.snap().index + self.log().len());
        }
    }

    /// An empty store: term 0, no entries, a zero-index snapshot.
    pub fn new() -> (r: SimulatedStorage)
        ensures
            r.wf(),
            r.hard_state() == (HardState { term: 0, vote: 0, commit: 0 }),
            r.log().len() == 0,
            r.snap().index == 0,
            r.snap().term == 0,
            r.snap().conf_state.nodes.len() == 0,
            r.snap().conf_state.learners.len() == 0,
            r.snap().data.len() == 0,
    {
        SimulatedStorage { state: HardState::new(), raft_entries: Vec::new(), snapshot: Snapshot::new() }
    }

    /// An empty store for a node configured by `_config`, which leaves the
    /// store as `new` makes it.
    pub fn new_with_conf(_config: raft::Config) -> (r: SimulatedStorage)
        ensures
            r.wf(),
            r.hard_state() == (HardState { term: 0, vote: 0, commit: 0 }),
            r.log().len() == 0,
            r.snap().index == 0,
            r.snap().term == 0,
            r.snap().conf_state.nodes.len() == 0,
            r.snap().conf_state.learners.len() == 0,
            r.snap().data.len() == 0,
    {
        SimulatedStorage::new()
    }

    /// The hard state and the configuration recorded in the snapshot.
    pub fn initial_state(&self) -> (r: RaftState)
        ensures
            r.hard_state == self.hard_state(),
            r.conf_state@ == self.snap().conf_state,
    {
        RaftState { hard_state: self.state, conf_state: self.snapshot.conf_state.duplicate() }
    }

    /// The index of the oldest retained entry, or the one after the snapshot.
    pub fn first_index(&self) -> (r: u64)
        requires
            self.wf(),
        ensures
            r == self.first_index_spec(),
    {
        if self.raft_entries.len() > 0 {
            self.raft_entries[0].index
        } else {
            self.snapshot.index + 1
        }
    }

    /// The index of the newest retained entry, or the snapshot's.
    pub fn last_index(&self) -> (r: u64)
        requires
            self.wf(),
        ensures
            r == self.last_index_spec(),
    {
        let n = self.raft_entries.len();
        if n > 0 {
            self.raft_entries[n - 1].index
        } else {
            self.snapshot.index
        }
    }

    /// The term of the entry at `idx`; 0 just before the first entry and
    /// outside the log.
    pub fn term(&self, idx: u64) -> (r: u64)
        requires
            self.wf(),
        ensures
            r == self.term_spec(idx),
    {
        let first = self.first_index();
        let n = self.raft_entries.len();
        proof {
            self.lemma_bounds();
        }
        if first <= idx && idx - first < n as u64 {
            assert(self.log()[idx - first] == self.raft_entries@[idx - first]@);
            self.raft_entries[(idx - first) as usize].term
        } else {
            0
        }
    }

    /// The entries with indices in `[low, high)`, oldest first, cut to the
    /// prefix whose encoded size fits `max_size` (never below one entry).
    /// A range that starts before the retained window is `Compacted`; one
    /// that ends past the last entry is the caller's error.
    pub fn entries(&self, low: u64, high: u64, max_size: u64) -> (r: Result<
        Vec<LogEntry>,
        StorageError,
    >)
        requires
            self.wf(),
            low < self.first_index_spec() || (low <= high && high <= self.last_index_spec() + 1),
        ensures
            low < self.first_index_spec() <==> r == Err::<Vec<LogEntry>, StorageError>(
                StorageError::Compacted,
            ),
            low >= self.first_index_spec() ==> r is Ok,
            r is Ok ==> models(r->Ok_0@) == self.range_spec(low, high).take(
                size_limited_len(self.range_spec(low, high), max_size) as int,
            ),
            r is Ok && max_size == NO_LIMIT ==> models(r->Ok_0@) == self.range_spec(low, high),
            r is Ok && low < high ==> r->Ok_0@.len() >= 1,
    {
        let first = self.first_index();
        proof {
            self.lemma_bounds();
        }
        if low < first {
            return Err(StorageError::Compacted);
        }
        let n = self.raft_entries.len();
        let mut out: Vec<LogEntry> = Vec::new();
        let mut i: u64 = low;
        while i < high
            invariant
                self.wf(),
                first == self.first_index_spec(),
                n == self.raft_entries@.len(),
                first <= low <= i <= high <= self.last_index_spec() + 1,
                models(out@) == self.log().subrange(low - first, i - first),
            decreases high - i,
        {
            let e = self.raft_entries[(i - first) as usize].duplicate();
            let ghost before = out@;
            out.push(e);
            proof {
                assert(models(out@) =~= models(before).push(e@));
                assert(models(out@) =~= self.log().subrange(low - first, i + 1 - first));
            }
            i = i + 1;
        }
        let ghost whole = models(out@);
        let n = kept_under_limit(&out, max_size);
        out.truncate(n);
        assert(models(out@) =~= whole.take(n as int));
        Ok(out)
    }

    /// The snapshot held, which must be at least as new as `request_index`.
    pub fn snapshot(&self, request_index: u64) -> (r: Snapshot)
        requires
            request_index <= self.snap().index,
        ensures
            r@ == self.snap(),
    {
        self.snapshot.duplicate()
    }

    /// `ents` continue the log from `last_index() + 1`, one index apart,
    /// and the index after them fits in a `u64`.
    pub open spec fn continues_log(&self, ents: Seq<EntryModel>) -> bool {
        &&& self.last_index_spec() + ents.len() < NO_LIMIT
        &&& forall|i: int|
            0 <= i < ents.len() ==> #[trigger] ents[i].index == self.last_index_spec() + 1 + i
    }

    /// `next` is this store with `ents` appended.
    pub open spec fn appended(&self, next: &Self, ents: Seq<EntryModel>) -> bool {
        &&& next.log() == self.log() + ents
        &&& next.snap() == self.snap()
        &&& next.hard_state() == self.hard_state()
    }

    /// `next` is this store after `snap` was offered: a newer snapshot
    /// replaces the one held and drops the entries it covers; an older or
    /// equal one changes nothing.
    pub open spec fn snapshot_installed(&self, next: &Self, snap: SnapshotModel) -> bool {
        &&& next.hard_state() == self.hard_state()
        &&& if snap.index <= self.snap().index {
            next.log() == self.log() && next.snap() == self.snap()
        } else {
            &&& next.snap() == snap
            &&& next.log() == if snap.index < self.last_index_spec() {
                self.log().subrange(snap.index - self.snap().index, self.log().len() as int)
            } else {
                Seq::<EntryModel>::empty()
            }
        }
    }

    /// Appends a run of entries that starts right after the last one.
    pub fn append(&mut self, ents: Vec<LogEntry>)
        requires
            old(self).wf(),
            old(self).continues_log(models(ents@)),
        ensures
            final(self).wf(),
            old(self).appended(final(self), models(ents@)),
    {
        proof {
            self.lemma_bounds();
        }
        let mut ents = ents;
        let ghost added = models(ents@);
        self.raft_entries.append(&mut ents);
        assert(self.log() =~= old(self).log() + added);
        assert forall|i: int| 0 <= i < self.log().len() implies #[trigger] self.log()[i].index
            == self.snap().index + 1 + i by {
            if i >= old(self).log().len() {
                assert(added[i - old(self).log().len()].index == old(self).last_index_spec() + 1 + (
                i - old(self).log().len()));
            }
        }
    }

    /// Installs `snap` when it is newer than the snapshot held, dropping the
    /// entries it covers; an older or equal one is `SnapshotOutOfDate` and
    /// changes nothing.
    pub fn apply_snapshot(&mut self, snap: Snapshot) -> (r: Result<(), StorageError>)
        requires
            old(self).wf(),
            snap@.index < NO_LIMIT,
        ensures
            final(self).wf(),
            old(self).snapshot_installed(final(self), snap@),
            r is Err <==> snap@.index <= old(self).snap().index,
            r is Err ==> r == Err::<(), StorageError>(StorageError::SnapshotOutOfDate)
                && *final(self) == *old(self),
    {
        proof {
            self.lemma_bounds();
        }
        if snap.index <= self.snapshot.index {
            return Err(StorageError::SnapshotOutOfDate);
        }
        let n = self.raft_entries.len();
        let k = snap.index - self.snapshot.index;
        if k < n as u64 {
            let kept = self.raft_entries.split_off(k as usize);
            self.raft_entries = kept;
        } else {
            self.raft_entries = Vec::new();
        }
        self.snapshot = snap;
        assert(self.log() =~= if snap@.index < old(self).last_index_spec() {
            old(self).log().subrange(snap@.index - old(self).snap().index, old(self).log().len() as int)
        } else {
            Seq::<EntryModel>::empty()
        });
        Ok(())
    }

    /// Replaces the hard state.
    pub fn set_hard_state(&mut self, hs: HardState)
        ensures
            final(self).hard_state() == hs,
            final(self).log() == old(self).log(),
            final(self).snap() == old(self).snap(),
    {
        self.state = hs;
    }
}

/// The first index is never more than one past the last, and the boundary
/// index just before the first entry has term 0.
pub proof fn lemma_index_bounds(s: &SimulatedStorage)
    requires
        s.wf(),
    ensures
        s.first_index_spec() - 1 <= s.last_index_spec(),
        s.term_spec((s.first_index_spec() - 1) as u64) == 0,
{
    s.lemma_bounds();
}

/// A valid range `[low, high)` holds exactly `high - low` entries, whose
/// indices run from `low` up by one.
pub proof fn lemma_range_exact(s: &SimulatedStorage, low: u64, high: u64)
    requires
        s.wf(),
        s.first_index_spec() <= low <= high <= s.last_index_spec() + 1,
    ensures
        s.range_spec(low, high).len() == high - low,
        forall|i: int|
            0 <= i < high - low ==> #[trigger] s.range_spec(low, high)[i].index == low + i,
{
    s.lemma_bounds();
    assert forall|i: int| 0 <= i < high - low implies #[trigger] s.range_spec(low, high)[i].index
        == low + i by {
        assert(s.log()[low - s.first_index_spec() + i].index == s.snap().index + 1 + (low
            - s.first_index_spec() + i));
    }
}

/// Appending `m` entries right after the last one moves the last index up by
/// `m`, and reading back the range from the old last index plus one returns
/// exactly what was appended.
pub proof fn lemma_append_round_trip(
    s: &SimulatedStorage,
    t: &SimulatedStorage,
    ents: Seq<EntryModel>,
)
    requires
        s.wf(),
        s.continues_log(ents),
        s.appended(t, ents),
    ensures
        t.wf(),
        t.last_index_spec() == s.last_index_spec() + ents.len(),
        t.range_spec((s.last_index_spec() + 1) as u64, (s.last_index_spec() + 1 + ents.len()) as u64)
            == ents,
{
    s.lemma_bounds();
    assert forall|i: int| 0 <= i < t.log().len() implies #[trigger] t.log()[i].index
        == t.snap().index + 1 + i by {
        if i >= s.log().len() {
            assert(ents[i - s.log().len()].index == s.last_index_spec() + 1 + (i - s.log().len()));
        }
    }
    t.lemma_bounds();
    assert(t.range_spec((s.last_index_spec() + 1) as u64, (s.last_index_spec() + 1 + ents.len()) as u64)
        =~= ents);
}

/// Offering the same snapshot twice: the second offer leaves the first and
/// last index where the first offer put them.
pub proof fn lemma_snapshot_idempotent(
    s0: &SimulatedStorage,
    s1: &SimulatedStorage,
    s2: &SimulatedStorage,
    snap: SnapshotModel,
)
    requires
        s0.wf(),
        s0.snapshot_installed(s1, snap),
        s1.snapshot_installed(s2, snap),
    ensures
        s2.first_index_spec() == s1.first_index_spec(),
        s2.last_index_spec() == s1.last_index_spec(),
{
}

/// Installing a snapshot at `s >= first_index()` moves the first index to
/// `s + 1`, so every range that starts at or below `s` is compacted, and no
/// retained entry has an index at or below `s`.
pub proof fn lemma_compaction_boundary(s0: &SimulatedStorage, s1: &SimulatedStorage, snap: SnapshotModel)
    requires
        s0.wf(),
        snap.index >= s0.first_index_spec(),
        s0.snapshot_installed(s1, snap),
    ensures
        s1.first_index_spec() == snap.index + 1,
        forall|i: int| 0 <= i < s1.log().len() ==> #[trigger] s1.log()[i].index > snap.index,
{
    s0.lemma_bounds();
    if snap.index < s0.last_index_spec() {
        let k = snap.index - s0.snap().index;
        assert forall|i: int| 0 <= i < s1.log().len() implies #[trigger] s1.log()[i].index
            == s1.snap().index + 1 + i by {
            assert(s0.log()[k + i].index == s0.snap().index + 1 + k + i);
        }
        assert(s1.log()[0] == s0.log()[k]);
    }
}

} // verus!
