//! The resource table and its lifecycle gate.
//!
//! The table maps an identity to a resolution decision and is the only
//! process-wide mutable state. Its lifecycle moves linearly through
//! Empty, Discovering, Ready, and never reverts. A query is answered in
//! every state: before and during discovery an identity the table has not
//! recorded yet resolves to "unresolved — use the original", a safe
//! default; once the table is ready the same answer is authoritative.
//! An entry, once recorded, is never overwritten: duplicate claims on one
//! identity keep the first entry and are reported, not applied.

use vstd::prelude::*;
use std::collections::HashMap;

use crate::hashing::smash_hash;
use crate::hashing::smash_hash_spec;

verus! {

broadcast use vstd::std_specs::hash::group_hash_axioms;

/// Where the table stands in its life: created Empty, moved to
/// Discovering when the background scan begins, moved to Ready exactly
/// once, when the scan finishes.
#[derive(Clone, Copy, Debug, PartialEq, Eq, Structural)]
pub enum LifecycleState {
    Empty,
    Discovering,
    Ready,
}

/// The recorded decision for an identity: keep the original archive
/// entry, or substitute the replacement payload at the given index of the
/// discovery scan results.
#[derive(Clone, Copy, Debug, PartialEq, Eq, Structural)]
pub enum ResolutionEntry {
    OriginalOnly,
    Replaced(usize),
}

/// A query's answer: a recorded decision, or "unresolved — use the
/// original", which is a safe default before the table is ready and an
/// authoritative answer afterwards.
#[derive(Clone, Copy, Debug, PartialEq, Eq, Structural)]
pub enum Resolution {
    Unresolved,
    Resolved(ResolutionEntry),
}

/// What a `record` call did.
#[derive(Clone, Copy, Debug, PartialEq, Eq, Structural)]
pub enum RecordOutcome {
    Recorded,
    Duplicate,
    NotDiscovering,
}

/// A lifecycle event for external subscribers; delivery follows the order
/// of the state machine.
#[derive(Clone, Copy, Debug, PartialEq, Eq, Structural)]
pub enum LifecycleEvent {
    FilesystemMounted,
    ModFilesystemReady,
}

/// Recording into a map, first writer wins: an identity already present
/// keeps its entry, a new identity is bound to the offered entry.
pub open spec fn record_map(
    m: Map<u64, ResolutionEntry>,
    identity: u64,
    entry: ResolutionEntry,
) -> Map<u64, ResolutionEntry> {
    if m.contains_key(identity) {
        m
    } else {
        m.insert(identity, entry)
    }
}

/// The identity-to-decision table, guarded by its lifecycle state.
pub struct ResourceTable {
    state: LifecycleState,
    entries: HashMap<u64, ResolutionEntry>,
}

impl ResourceTable {
    /// The current lifecycle state.
    pub closed spec fn lifecycle(self) -> LifecycleState {
        self.state
    }

    /// The recorded decisions, as a map from identity to entry.
    pub closed spec fn resolutions(self) -> Map<u64, ResolutionEntry> {
        self.entries@
    }

    /// What a query answers: the recorded decision when one exists, else
    /// "unresolved".
    pub open spec fn query_spec(self, identity: u64) -> Resolution {
        if self.resolutions().contains_key(identity) {
            Resolution::Resolved(self.resolutions()[identity])
        } else {
            Resolution::Unresolved
        }
    }

    /// A fresh table: Empty, with nothing recorded. Queries are already
    /// safe to issue.
    pub fn new() -> (t: Self)
        ensures
            t.lifecycle() == LifecycleState::Empty,
            t.resolutions() == Map::<u64, ResolutionEntry>::empty(),
    {
        ResourceTable { state: LifecycleState::Empty, entries: HashMap::new() }
    }

    /// The current lifecycle state.
    pub fn lifecycle_state(&self) -> (s: LifecycleState)
        ensures
            s == self.lifecycle(),
    {
        self.state
    }

    /// How many identities have a recorded decision.
    pub fn resolved_count(&self) -> (n: usize)
        ensures
            n == self.resolutions().len(),
    {
        self.entries.len()
    }

    /// Answers a lookup. Defined, and answered immediately, in every
    /// lifecycle state: an identity without a recorded decision is
    /// "unresolved", which callers read as "use the original".
    pub fn query(&self, identity: u64) -> (r: Resolution)
        ensures
            r == self.query_spec(identity),
    {
        match self.entries.get(&identity) {
            Some(e) => Resolution::Resolved(*e),
            None => Resolution::Unresolved,
        }
    }

    /// Moves Empty to Discovering. In any other state it is a defensive
    /// no-op: the table is left untouched and the call reports failure.
    pub fn begin_discovery(&mut self) -> (started: bool)
        ensures
            final(self).resolutions() == old(self).resolutions(),
            old(self).lifecycle() == LifecycleState::Empty ==> started && final(self).lifecycle()
                == LifecycleState::Discovering,
            old(self).lifecycle() != LifecycleState::Empty ==> !started && final(self).lifecycle()
                == old(self).lifecycle(),
    {
        match self.state {
            LifecycleState::Empty => {
                self.state = LifecycleState::Discovering;
                true
            },
            _ => false,
        }
    }

    /// Records a decision for an identity while discovering. The first
    /// writer wins: a duplicate claim leaves the first entry in place and
    /// is reported as such, exactly once, to the caller. Outside the
    /// Discovering state nothing is written.
    pub fn record(&mut self, identity: u64, entry: ResolutionEntry) -> (outcome: RecordOutcome)
        ensures
            final(self).lifecycle() == old(self).lifecycle(),
            old(self).lifecycle() != LifecycleState::Discovering ==> final(self).resolutions()
                == old(self).resolutions() && outcome == RecordOutcome::NotDiscovering,
            old(self).lifecycle() == LifecycleState::Discovering ==> {
                &&& final(self).resolutions() == record_map(
                    old(self).resolutions(),
                    identity,
                    entry,
                )
                &&& (outcome == RecordOutcome::Recorded <==> !old(self).resolutions().contains_key(
                    identity,
                ))
                &&& (outcome == RecordOutcome::Duplicate <==> old(self).resolutions().contains_key(
                    identity,
                ))
            },
    {
        match self.state {
            LifecycleState::Discovering => {
                if self.entries.contains_key(&identity) {
                    RecordOutcome::Duplicate
                } else {
                    self.entries.insert(identity, entry);
                    RecordOutcome::Recorded
                }
            },
            _ => RecordOutcome::NotDiscovering,
        }
    }

    /// Moves Discovering to Ready, exactly once; recorded decisions are
    /// untouched. In any other state it is a defensive no-op, so a double
    /// invocation is harmless.
    pub fn finish_discovery(&mut self) -> (finished: bool)
        ensures
            final(self).resolutions() == old(self).resolutions(),
            old(self).lifecycle() == LifecycleState::Discovering ==> finished
                && final(self).lifecycle() == LifecycleState::Ready,
            old(self).lifecycle() != LifecycleState::Discovering ==> !finished
                && final(self).lifecycle() == old(self).lifecycle(),
    {
        match self.state {
            LifecycleState::Discovering => {
                self.state = LifecycleState::Ready;
                true
            },
            _ => false,
        }
    }
}

impl Default for ResourceTable {
    /// The two-phase placeholder constructed at process attach: an Empty
    /// table, safe to query before anything is initialized.
    fn default() -> (t: Self)
        ensures
            t.lifecycle() == LifecycleState::Empty,
            t.resolutions() == Map::<u64, ResolutionEntry>::empty(),
    {
        ResourceTable::new()
    }
}

/// Law: recording is first-writer-wins. A second claim on the same
/// identity changes nothing, the identity is bound after the first claim,
/// and the entry it is bound to is the first one offered (or whatever was
/// already there).
pub proof fn lemma_record_first_write_wins(
    m: Map<u64, ResolutionEntry>,
    identity: u64,
    e1: ResolutionEntry,
    e2: ResolutionEntry,
)
    ensures
        record_map(record_map(m, identity, e1), identity, e2) == record_map(m, identity, e1),
        record_map(m, identity, e1).contains_key(identity),
        !m.contains_key(identity) ==> record_map(m, identity, e1)[identity] == e1,
        m.contains_key(identity) ==> record_map(m, identity, e1)[identity] == m[identity],
{
}

/// The table contents after recording the first `n` scanned paths, in
/// order, each as a replacement entry referencing its own scan index.
pub open spec fn discover_map(
    m: Map<u64, ResolutionEntry>,
    paths: Seq<String>,
    n: int,
) -> Map<u64, ResolutionEntry>
    decreases n,
{
    if n <= 0 {
        m
    } else {
        record_map(
            discover_map(m, paths, n - 1),
            smash_hash_spec(paths[n - 1]@),
            ResolutionEntry::Replaced((n - 1) as usize),
        )
    }
}

/// How many of the first `n` scanned paths collided with an identity
/// already recorded by the time they were reached.
pub open spec fn discover_collisions(m: Map<u64, ResolutionEntry>, paths: Seq<String>, n: int) -> int
    decreases n,
{
    if n <= 0 {
        0
    } else {
        discover_collisions(m, paths, n - 1) + if discover_map(m, paths, n - 1).contains_key(
            smash_hash_spec(paths[n - 1]@),
        ) {
            1int
        } else {
            0int
        }
    }
}

/// What one discovery pass did.
#[derive(Clone, Copy, Debug, PartialEq, Eq, Structural)]
pub struct DiscoveryReport {
    /// Whether the pass ran; it does not when the table already left the
    /// Empty state, since discovery runs once per process lifetime.
    pub started: bool,
    /// Identities recorded as replacements.
    pub recorded: usize,
    /// Duplicate claims, kept out by first-writer-wins; each is a
    /// warning for the caller to surface.
    pub collisions: usize,
    /// The lifecycle event to emit to subscribers, when the pass
    /// completed.
    pub completion: Option<LifecycleEvent>,
}

/// One discovery pass over the scanned candidate paths, in the order
/// given — the caller fixes that order (lexicographic by path), which
/// makes first-writer-wins deterministic. Each path's identity is
/// computed by normalization and hashing and recorded as a replacement
/// referencing the path's index. The pass begins and finishes the
/// lifecycle around its writes; on a table that already left Empty it
/// does nothing.
pub fn run_discovery(table: &mut ResourceTable, paths: &Vec<String>) -> (report: DiscoveryReport)
    ensures
        old(table).lifecycle() == LifecycleState::Empty ==> {
            &&& final(table).lifecycle() == LifecycleState::Ready
            &&& final(table).resolutions() == discover_map(
                old(table).resolutions(),
                paths@,
                paths@.len() as int,
            )
            &&& report.started
            &&& report.completion == Some(LifecycleEvent::ModFilesystemReady)
            &&& report.collisions == discover_collisions(
                old(table).resolutions(),
                paths@,
                paths@.len() as int,
            )
            &&& report.recorded + report.collisions == paths@.len()
        },
        old(table).lifecycle() != LifecycleState::Empty ==> {
            &&& final(table).lifecycle() == old(table).lifecycle()
            &&& final(table).resolutions() == old(table).resolutions()
            &&& !report.started
            &&& report.completion is None
        },
{
    if !table.begin_discovery() {
        return DiscoveryReport { started: false, recorded: 0, collisions: 0, completion: None };
    }
    let ghost m0 = table.resolutions();
    let mut recorded: usize = 0;
    let mut collisions: usize = 0;
    let mut i: usize = 0;
    while i < paths.len()
        invariant
            i <= paths@.len(),
            table.lifecycle() == LifecycleState::Discovering,
            table.resolutions() == discover_map(m0, paths@, i as int),
            collisions == discover_collisions(m0, paths@, i as int),
            recorded + collisions == i,
        decreases paths@.len() - i,
    {
        let identity = smash_hash(paths[i].as_str());
        let outcome = table.record(identity, ResolutionEntry::Replaced(i));
        match outcome {
            RecordOutcome::Duplicate => {
                collisions = collisions + 1;
            },
            _ => {
                recorded = recorded + 1;
            },
        }
        i += 1;
    }
    table.finish_discovery();
    DiscoveryReport {
        started: true,
        recorded,
        collisions,
        completion: Some(LifecycleEvent::ModFilesystemReady),
    }
}


/// Law: a recorded decision is immutable for the rest of the process.
/// Recording any identity leaves every existing binding exactly as it
/// was, and so does a whole discovery pass of any length.
pub proof fn lemma_recorded_entries_immutable(
    m: Map<u64, ResolutionEntry>,
    paths: Seq<String>,
    n: int,
    identity: u64,
    entry: ResolutionEntry,
    other: u64,
)
    requires
        m.contains_key(other),
    ensures
        record_map(m, identity, entry).contains_key(other),
        record_map(m, identity, entry)[other] == m[other],
        discover_map(m, paths, n).contains_key(other),
        discover_map(m, paths, n)[other] == m[other],
    decreases n,
{
    if n > 0 {
        lemma_recorded_entries_immutable(m, paths, n - 1, identity, entry, other);
    }
}

/// Law: every candidate a discovery pass scanned resolves afterwards.
/// The identity of the `i`-th scanned path is bound in the resulting
/// table, and — unless something was already recorded for it before the
/// pass — it is bound to a replacement entry.
pub proof fn lemma_discovery_resolves_scanned(
    m: Map<u64, ResolutionEntry>,
    paths: Seq<String>,
    n: int,
    i: int,
)
    requires
        0 <= i < n,
    ensures
        discover_map(m, paths, n).contains_key(smash_hash_spec(paths[i]@)),
        !m.contains_key(smash_hash_spec(paths[i]@)) ==> discover_map(m, paths, n)[smash_hash_spec(
            paths[i]@,
        )] is Replaced,
    decreases n,
{
    let identity = smash_hash_spec(paths[i]@);
    if i < n - 1 {
        lemma_discovery_resolves_scanned(m, paths, n - 1, i);
    } else {
        if !m.contains_key(identity) && discover_map(m, paths, n - 1).contains_key(identity) {
            lemma_discovery_binds_replacements(m, paths, n - 1, identity);
        }
    }
}

/// Law: whatever a discovery pass binds beyond what was already there is
/// a replacement entry, never anything else.
pub proof fn lemma_discovery_binds_replacements(
    m: Map<u64, ResolutionEntry>,
    paths: Seq<String>,
    n: int,
    identity: u64,
)
    requires
        discover_map(m, paths, n).contains_key(identity),
        !m.contains_key(identity),
    ensures
        discover_map(m, paths, n)[identity] is Replaced,
    decreases n,
{
    if n > 0 && discover_map(m, paths, n - 1).contains_key(identity) {
        lemma_discovery_binds_replacements(m, paths, n - 1, identity);
    }
}


/// Law: an identity a discovery pass never scanned, and which was not
/// already recorded, stays unbound.
pub proof fn lemma_discovery_binds_only_scanned(
    m: Map<u64, ResolutionEntry>,
    paths: Seq<String>,
    n: int,
    identity: u64,
)
    requires
        !m.contains_key(identity),
        forall|j: int| 0 <= j < n ==> smash_hash_spec(paths[j]@) != identity,
    ensures
        !discover_map(m, paths, n).contains_key(identity),
    decreases n,
{
    if n > 0 {
        lemma_discovery_binds_only_scanned(m, paths, n - 1, identity);
    }
}

/// Law: scan order is precedence. If the `i`-th scanned path is the first
/// to claim its identity, and nothing was recorded for that identity
/// before the pass, the table binds the identity to replacement `i` —
/// whatever came later.
pub proof fn lemma_discovery_order_is_precedence(
    m: Map<u64, ResolutionEntry>,
    paths: Seq<String>,
    n: int,
    i: int,
)
    requires
        0 <= i < n,
        !m.contains_key(smash_hash_spec(paths[i]@)),
        forall|j: int| 0 <= j < i ==> smash_hash_spec(paths[j]@) != smash_hash_spec(paths[i]@),
    ensures
        discover_map(m, paths, n)[smash_hash_spec(paths[i]@)] == ResolutionEntry::Replaced(
            i as usize,
        ),
    decreases n,
{
    let identity = smash_hash_spec(paths[i]@);
    if i < n - 1 {
        lemma_discovery_order_is_precedence(m, paths, n - 1, i);
        lemma_discovery_resolves_scanned(m, paths, n - 1, i);
    } else {
        lemma_discovery_binds_only_scanned(m, paths, n - 1, identity);
    }
}

/// Law: after a discovery pass over a table that started with nothing
/// recorded, every scanned identity is answered with a replacement — the
/// shape a caller sees once the table is ready.
pub proof fn lemma_ready_table_resolves_scanned(
    t0: ResourceTable,
    t1: ResourceTable,
    paths: Seq<String>,
    i: int,
)
    requires
        t0.resolutions() == Map::<u64, ResolutionEntry>::empty(),
        t1.resolutions() == discover_map(t0.resolutions(), paths, paths.len() as int),
        0 <= i < paths.len(),
    ensures
        t1.query_spec(smash_hash_spec(paths[i]@)) matches Resolution::Resolved(e) && e is Replaced,
{
    lemma_discovery_resolves_scanned(t0.resolutions(), paths, paths.len() as int, i);
}

} // verus!
