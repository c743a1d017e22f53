//! Repository metadata bookkeeping.
//!
//! [`InMemoryMetadataStore`] keeps one [`RepoMetadata`] per registered
//! repository path. Its abstract state is a map from path to metadata.
use vstd::prelude::*;

use crate::ipc::{RepoStatus, Timestamp};
use crate::text::{clone_strings, contains_string, names_of};

verus! {

pub type StorageResult<T> = Result<T, StorageError>;

/// Errors surfaced by storage implementations.
#[derive(Debug, Clone, PartialEq, Eq)]
pub enum StorageError {
    NotFound(String),
    Poisoned,
    Backend(String),
}

impl StorageError {
    pub open spec fn spec_message(&self) -> Seq<char> {
        match self {
            StorageError::NotFound(p) => "repository not registered: "@ + p@,
            StorageError::Poisoned => "internal locking error"@,
            StorageError::Backend(m) => "storage backend error: "@ + m@,
        }
    }

    /// The error's human-readable text.
    pub fn message(&self) -> (s: String)
        ensures
            s@ == self.spec_message(),
    {
        match self {
            StorageError::NotFound(p) => {
                let mut s = String::from_str("repository not registered: ");
                s.append(p.as_str());
                s
            },
            StorageError::Poisoned => String::from_str("internal locking error"),
            StorageError::Backend(m) => {
                let mut s = String::from_str("storage backend error: ");
                s.append(m.as_str());
                s
            },
        }
    }
}

/// Metadata tracked for every registered repository.
#[derive(Debug, Clone, PartialEq, Eq)]
pub struct RepoMetadata {
    pub repo_path: String,
    pub registered_at: Timestamp,
    pub last_event: Option<Timestamp>,
    pub status: RepoStatus,
    pub pending_jobs: usize,
    pub dirty_paths: Vec<String>,
    pub generation: u64,
    pub needs_reconciliation: Option<bool>,
    pub last_watcher_token: Option<u64>,
}

/// The abstract value of a [`RepoMetadata`].
pub struct RepoMetadataView {
    pub repo_path: Seq<char>,
    pub registered_at: Timestamp,
    pub last_event: Option<Timestamp>,
    pub status: RepoStatus,
    pub pending_jobs: usize,
    pub dirty_paths: Seq<Seq<char>>,
    pub generation: u64,
    pub needs_reconciliation: Option<bool>,
    pub last_watcher_token: Option<u64>,
}

impl View for RepoMetadata {
    type V = RepoMetadataView;

    open spec fn view(&self) -> RepoMetadataView {
        RepoMetadataView {
            repo_path: self.repo_path@,
            registered_at: self.registered_at,
            last_event: self.last_event,
            status: self.status,
            pending_jobs: self.pending_jobs,
            dirty_paths: names_of(self.dirty_paths@),
            generation: self.generation,
            needs_reconciliation: self.needs_reconciliation,
            last_watcher_token: self.last_watcher_token,
        }
    }
}

/// Metadata of a freshly registered repository.
pub open spec fn fresh_metadata(repo_path: Seq<char>, now: Timestamp) -> RepoMetadataView {
    RepoMetadataView {
        repo_path,
        registered_at: now,
        last_event: None,
        status: RepoStatus::Idle,
        pending_jobs: 0,
        dirty_paths: Seq::empty(),
        generation: 0,
        needs_reconciliation: Some(false),
        last_watcher_token: None,
    }
}

impl RepoMetadata {
    pub fn new(repo_path: String, now: Timestamp) -> (m: RepoMetadata)
        ensures
            m@ == fresh_metadata(repo_path@, now),
    {
        let m = RepoMetadata {
            repo_path,
            registered_at: now,
            last_event: None,
            status: RepoStatus::Idle,
            pending_jobs: 0,
            dirty_paths: Vec::new(),
            generation: 0,
            needs_reconciliation: Some(false),
            last_watcher_token: None,
        };
        assert(m@.dirty_paths =~= Seq::<Seq<char>>::empty());
        m
    }

    /// A copy with the same abstract value.
    pub fn duplicate(&self) -> (m: RepoMetadata)
        ensures
            m@ == self@,
    {
        RepoMetadata {
            repo_path: self.repo_path.clone(),
            registered_at: self.registered_at,
            last_event: self.last_event,
            status: self.status,
            pending_jobs: self.pending_jobs,
            dirty_paths: clone_strings(&self.dirty_paths),
            generation: self.generation,
            needs_reconciliation: self.needs_reconciliation,
            last_watcher_token: self.last_watcher_token,
        }
    }
}

/// `Busy` while jobs are pending, `Idle` otherwise.
pub open spec fn spec_job_status_for(pending: int) -> RepoStatus {
    if pending > 0 {
        RepoStatus::Busy
    } else {
        RepoStatus::Idle
    }
}

pub fn job_status_for(pending: usize) -> (s: RepoStatus)
    ensures
        s == spec_job_status_for(pending as int),
{
    if pending > 0 {
        RepoStatus::Busy
    } else {
        RepoStatus::Idle
    }
}

/// The pending-job count after adding `delta`, saturating at both ends.
pub open spec fn spec_adjust_pending(pending: usize, delta: isize) -> usize {
    let sum = pending + delta;
    if sum < 0 {
        0
    } else if sum > usize::MAX {
        usize::MAX
    } else {
        sum as usize
    }
}

/// Pending jobs and status after `increment_jobs(delta)`.
pub open spec fn spec_with_jobs(m: RepoMetadataView, delta: isize) -> RepoMetadataView {
    let pending = spec_adjust_pending(m.pending_jobs, delta);
    RepoMetadataView { pending_jobs: pending, status: spec_job_status_for(pending as int), ..m }
}

/// `path` appended to the dirty set unless already there.
pub open spec fn spec_mark_dirty(m: RepoMetadataView, path: Seq<char>) -> RepoMetadataView {
    if m.dirty_paths.contains(path) {
        m
    } else {
        RepoMetadataView { dirty_paths: m.dirty_paths.push(path), ..m }
    }
}

/// The generation counter advanced by one, saturating.
pub open spec fn spec_next_generation(g: u64) -> u64 {
    if g == u64::MAX {
        g
    } else {
        (g + 1) as u64
    }
}

/// `r` reports that `path` is not registered.
pub open spec fn is_not_found<T>(r: StorageResult<T>, path: Seq<char>) -> bool {
    match r {
        Err(StorageError::NotFound(p)) => p@ == path,
        _ => false,
    }
}

/// The map holding each entry of `s` under its path.
pub open spec fn to_map(s: Seq<RepoMetadataView>) -> Map<Seq<char>, RepoMetadataView>
    decreases s.len(),
{
    if s.len() == 0 {
        Map::empty()
    } else {
        to_map(s.drop_last()).insert(s.last().repo_path, s.last())
    }
}

pub open spec fn unique_paths(s: Seq<RepoMetadataView>) -> bool {
    forall|i: int, j: int|
        0 <= i < s.len() && 0 <= j < s.len() && i != j ==> #[trigger] s[i].repo_path
            != #[trigger] s[j].repo_path
}

pub proof fn lemma_to_map_dom(s: Seq<RepoMetadataView>, p: Seq<char>)
    ensures
        to_map(s).contains_key(p) <==> exists|i: int| 0 <= i < s.len() && #[trigger] s[i].repo_path == p,
    decreases s.len(),
{
    if s.len() > 0 {
        lemma_to_map_dom(s.drop_last(), p);
        if to_map(s.drop_last()).contains_key(p) {
            let i = choose|i: int| 0 <= i < s.drop_last().len() && #[trigger] s.drop_last()[i].repo_path == p;
            assert(s[i].repo_path == p);
        }
        if exists|i: int| 0 <= i < s.len() && #[trigger] s[i].repo_path == p {
            let i = choose|i: int| 0 <= i < s.len() && #[trigger] s[i].repo_path == p;
            if i < s.len() - 1 {
                assert(s.drop_last()[i].repo_path == p);
            }
        }
    }
}

pub proof fn lemma_to_map_finite(s: Seq<RepoMetadataView>)
    ensures
        to_map(s).dom().finite(),
        unique_paths(s) ==> to_map(s).dom().len() == s.len(),
    decreases s.len(),
{
    if s.len() > 0 {
        lemma_to_map_finite(s.drop_last());
        lemma_to_map_dom(s.drop_last(), s.last().repo_path);
        if unique_paths(s) {
            assert(unique_paths(s.drop_last()));
            if to_map(s.drop_last()).contains_key(s.last().repo_path) {
                let i = choose|i: int|
                    0 <= i < s.drop_last().len() && #[trigger] s.drop_last()[i].repo_path
                        == s.last().repo_path;
                assert(s[i].repo_path == s[s.len() - 1].repo_path);
            }
        }
    }
}

pub proof fn lemma_to_map_index(s: Seq<RepoMetadataView>, i: int)
    requires
        unique_paths(s),
        0 <= i < s.len(),
    ensures
        to_map(s).contains_key(s[i].repo_path),
        to_map(s)[s[i].repo_path] == s[i],
    decreases s.len(),
{
    if i < s.len() - 1 {
        assert(unique_paths(s.drop_last()));
        lemma_to_map_index(s.drop_last(), i);
        assert(s.drop_last()[i] == s[i]);
        assert(s[i].repo_path != s[s.len() - 1].repo_path);
    }
}

pub proof fn lemma_to_map_update(s: Seq<RepoMetadataView>, i: int, x: RepoMetadataView)
    requires
        unique_paths(s),
        0 <= i < s.len(),
        x.repo_path == s[i].repo_path,
    ensures
        unique_paths(s.update(i, x)),
        to_map(s.update(i, x)) =~= to_map(s).insert(x.repo_path, x),
    decreases s.len(),
{
    let t = s.update(i, x);
    assert(unique_paths(t)) by {
        assert forall|a: int, b: int|
            0 <= a < t.len() && 0 <= b < t.len() && a != b implies #[trigger] t[a].repo_path
            != #[trigger] t[b].repo_path by {
            assert(s[a].repo_path != s[b].repo_path);
        }
    }
    if i == s.len() - 1 {
        assert(t.drop_last() =~= s.drop_last());
    } else {
        assert(unique_paths(s.drop_last()));
        lemma_to_map_update(s.drop_last(), i, x);
        assert(t.drop_last() =~= s.drop_last().update(i, x));
        assert(s[i].repo_path != s.last().repo_path);
    }
}

pub proof fn lemma_to_map_push(s: Seq<RepoMetadataView>, x: RepoMetadataView)
    requires
        unique_paths(s),
        !to_map(s).contains_key(x.repo_path),
    ensures
        unique_paths(s.push(x)),
        to_map(s.push(x)) == to_map(s).insert(x.repo_path, x),
{
    let t = s.push(x);
    assert(t.drop_last() =~= s);
    lemma_to_map_dom(s, x.repo_path);
    assert forall|a: int, b: int|
        0 <= a < t.len() && 0 <= b < t.len() && a != b implies #[trigger] t[a].repo_path
        != #[trigger] t[b].repo_path by {
        if a < s.len() && b < s.len() {
            assert(s[a].repo_path != s[b].repo_path);
        } else if a < s.len() {
            assert(s[a].repo_path != x.repo_path);
        } else {
            assert(s[b].repo_path != x.repo_path);
        }
    }
}

pub proof fn lemma_to_map_remove(s: Seq<RepoMetadataView>, i: int)
    requires
        unique_paths(s),
        0 <= i < s.len(),
    ensures
        unique_paths(s.remove(i)),
        to_map(s.remove(i)) =~= to_map(s).remove(s[i].repo_path),
    decreases s.len(),
{
    let t = s.remove(i);
    let p = s[i].repo_path;
    assert(unique_paths(t)) by {
        assert forall|a: int, b: int|
            0 <= a < t.len() && 0 <= b < t.len() && a != b implies #[trigger] t[a].repo_path
            != #[trigger] t[b].repo_path by {
            let a2 = if a < i { a } else { a + 1 };
            let b2 = if b < i { b } else { b + 1 };
            assert(t[a] == s[a2] && t[b] == s[b2]);
            assert(s[a2].repo_path != s[b2].repo_path);
        }
    }
    if i == s.len() - 1 {
        assert(t =~= s.drop_last());
        assert(unique_paths(s.drop_last()));
        lemma_to_map_dom(s.drop_last(), p);
        if to_map(s.drop_last()).contains_key(p) {
            let j = choose|j: int| 0 <= j < s.drop_last().len() && #[trigger] s.drop_last()[j].repo_path == p;
            assert(s[j].repo_path == s[i].repo_path);
        }
    } else {
        assert(unique_paths(s.drop_last()));
        lemma_to_map_remove(s.drop_last(), i);
        assert(t.drop_last() =~= s.drop_last().remove(i));
        assert(t.last() == s.last());
        assert(s.last().repo_path != p);
    }
}

/// Primary abstraction for storing repository metadata.
pub trait MetadataStore {
    /// The metadata of every registered repository, by path.
    spec fn repos(&self) -> Map<Seq<char>, RepoMetadataView>;

    /// The store never fails, as one held in memory. The contracts below
    /// describe such a store; of a store that can fail (one on disk) they
    /// promise nothing.
    spec fn infallible(&self) -> bool;

    /// Registers `repo_path` at time `now`; an already registered path keeps
    /// its metadata.
    fn register_repo(&mut self, repo_path: String, now: Timestamp) -> (r: StorageResult<RepoMetadata>)
        ensures
            final(self).infallible() == old(self).infallible(),
            old(self).infallible() ==> ({
                &&& (old(self).repos().contains_key(repo_path@) ==> {
                    &&& final(self).repos() == old(self).repos()
                    &&& r matches Ok(m) && m@ == old(self).repos()[repo_path@]
                })
                &&& (!old(self).repos().contains_key(repo_path@) ==> {
                    &&& final(self).repos() == old(self).repos().insert(
                        repo_path@,
                        fresh_metadata(repo_path@, now),
                    )
                    &&& r matches Ok(m) && m@ == fresh_metadata(repo_path@, now)
                })
            }),
    ;

    /// Removes `repo_path`, returning its metadata when it was registered.
    fn unregister_repo(&mut self, repo_path: &String) -> (r: StorageResult<Option<RepoMetadata>>)
        ensures
            final(self).infallible() == old(self).infallible(),
            old(self).infallible() ==> ({
                &&& (final(self).repos() == old(self).repos().remove(repo_path@))
                &&& (old(self).repos().contains_key(repo_path@) ==> (r matches Ok(Some(m)) && m@ == old(
                    self,
                ).repos()[repo_path@]))
                &&& (!old(self).repos().contains_key(repo_path@) ==> r matches Ok(None))
            }),
    ;

    fn get_repo(&self, repo_path: &String) -> (r: StorageResult<Option<RepoMetadata>>)
        ensures
            self.infallible() ==> ({
                &&& (self.repos().contains_key(repo_path@) ==> (r matches Ok(Some(m)) && m@
                    == self.repos()[repo_path@]))
                &&& (!self.repos().contains_key(repo_path@) ==> r matches Ok(None))
            }),
    ;

    /// Every registered repository, each exactly once.
    fn list_repos(&self) -> (r: StorageResult<Vec<RepoMetadata>>)
        ensures
            self.infallible() ==> ({
                &&& (r matches Ok(v) && {
                    &&& v@.len() == self.repos().dom().len()
                    &&& unique_paths(v@.map_values(|m: RepoMetadata| m@))
                    &&& forall|i: int|
                        0 <= i < v@.len() ==> self.repos().contains_key(#[trigger] v@[i]@.repo_path)
                            && self.repos()[v@[i]@.repo_path] == v@[i]@
                })
            }),
    ;

    fn update_repo_status(&mut self, repo_path: &String, status: RepoStatus) -> (r: StorageResult<()>)
        ensures
            final(self).infallible() == old(self).infallible(),
            old(self).infallible() ==> ({
                &&& (old(self).repos().contains_key(repo_path@) ==> r is Ok && final(self).repos()
                    == old(self).repos().insert(
                    repo_path@,
                    RepoMetadataView { status, ..old(self).repos()[repo_path@] },
                ))
                &&& (!old(self).repos().contains_key(repo_path@) ==> final(self).repos() == old(
                    self,
                ).repos() && is_not_found(r, repo_path@))
            }),
    ;

    /// Adds `delta` to the pending-job count (saturating) and sets the status
    /// to `Busy` or `Idle` accordingly.
    fn increment_jobs(&mut self, repo_path: &String, delta: isize) -> (r: StorageResult<RepoMetadata>)
        ensures
            final(self).infallible() == old(self).infallible(),
            old(self).infallible() ==> ({
                &&& (old(self).repos().contains_key(repo_path@) ==> {
                    let m = spec_with_jobs(old(self).repos()[repo_path@], delta);
                    &&& final(self).repos() == old(self).repos().insert(repo_path@, m)
                    &&& r matches Ok(x) && x@ == m
                })
                &&& (!old(self).repos().contains_key(repo_path@) ==> final(self).repos() == old(
                    self,
                ).repos() && is_not_found(r, repo_path@))
            }),
    ;

    fn record_event(&mut self, repo_path: &String, when: Timestamp) -> (r: StorageResult<()>)
        ensures
            final(self).infallible() == old(self).infallible(),
            old(self).infallible() ==> ({
                &&& (old(self).repos().contains_key(repo_path@) ==> r is Ok && final(self).repos()
                    == old(self).repos().insert(
                    repo_path@,
                    RepoMetadataView { last_event: Some(when), ..old(self).repos()[repo_path@] },
                ))
                &&& (!old(self).repos().contains_key(repo_path@) ==> final(self).repos() == old(
                    self,
                ).repos() && is_not_found(r, repo_path@))
            }),
    ;

    /// Adds `path` to the dirty set of `repo_path` unless it is already there.
    fn mark_dirty_path(&mut self, repo_path: &String, path: String) -> (r: StorageResult<()>)
        ensures
            final(self).infallible() == old(self).infallible(),
            old(self).infallible() ==> ({
                &&& (old(self).repos().contains_key(repo_path@) ==> r is Ok && final(self).repos()
                    == old(self).repos().insert(
                    repo_path@,
                    spec_mark_dirty(old(self).repos()[repo_path@], path@),
                ))
                &&& (!old(self).repos().contains_key(repo_path@) ==> final(self).repos() == old(
                    self,
                ).repos() && is_not_found(r, repo_path@))
            }),
    ;

    /// Returns the dirty paths of `repo_path` and clears them.
    fn drain_dirty_paths(&mut self, repo_path: &String) -> (r: StorageResult<Vec<String>>)
        ensures
            final(self).infallible() == old(self).infallible(),
            old(self).infallible() ==> ({
                &&& (old(self).repos().contains_key(repo_path@) ==> {
                    &&& final(self).repos() == old(self).repos().insert(
                        repo_path@,
                        RepoMetadataView { dirty_paths: Seq::empty(), ..old(self).repos()[repo_path@] },
                    )
                    &&& r matches Ok(v) && names_of(v@) == old(self).repos()[repo_path@].dirty_paths
                })
                &&& (!old(self).repos().contains_key(repo_path@) ==> final(self).repos() == old(
                    self,
                ).repos() && is_not_found(r, repo_path@))
            }),
    ;

    fn dirty_path_count(&self, repo_path: &String) -> (r: StorageResult<usize>)
        ensures
            self.infallible() ==> ({
                &&& (self.repos().contains_key(repo_path@) ==> (r matches Ok(n) && n
                    == self.repos()[repo_path@].dirty_paths.len()))
                &&& (!self.repos().contains_key(repo_path@) ==> is_not_found(r, repo_path@))
            }),
    ;

    fn current_generation(&self, repo_path: &String) -> (r: StorageResult<u64>)
        ensures
            self.infallible() ==> ({
                &&& (self.repos().contains_key(repo_path@) ==> (r matches Ok(g) && g
                    == self.repos()[repo_path@].generation))
                &&& (!self.repos().contains_key(repo_path@) ==> is_not_found(r, repo_path@))
            }),
    ;

    /// Advances the generation counter (saturating) and returns the new value.
    fn bump_generation(&mut self, repo_path: &String) -> (r: StorageResult<u64>)
        ensures
            final(self).infallible() == old(self).infallible(),
            old(self).infallible() ==> ({
                &&& (old(self).repos().contains_key(repo_path@) ==> {
                    let g = spec_next_generation(old(self).repos()[repo_path@].generation);
                    &&& final(self).repos() == old(self).repos().insert(
                        repo_path@,
                        RepoMetadataView { generation: g, ..old(self).repos()[repo_path@] },
                    )
                    &&& r == Ok::<u64, StorageError>(g)
                })
                &&& (!old(self).repos().contains_key(repo_path@) ==> final(self).repos() == old(
                    self,
                ).repos() && is_not_found(r, repo_path@))
            }),
    ;

    fn set_needs_reconciliation(&mut self, repo_path: &String, needs: bool) -> (r: StorageResult<()>)
        ensures
            final(self).infallible() == old(self).infallible(),
            old(self).infallible() ==> ({
                &&& (old(self).repos().contains_key(repo_path@) ==> r is Ok && final(self).repos()
                    == old(self).repos().insert(
                    repo_path@,
                    RepoMetadataView {
                        needs_reconciliation: Some(needs),
                        ..old(self).repos()[repo_path@]
                    },
                ))
                &&& (!old(self).repos().contains_key(repo_path@) ==> final(self).repos() == old(
                    self,
                ).repos() && is_not_found(r, repo_path@))
            }),
    ;

    fn set_watcher_token(&mut self, repo_path: &String, token: u64) -> (r: StorageResult<()>)
        ensures
            final(self).infallible() == old(self).infallible(),
            old(self).infallible() ==> ({
                &&& (old(self).repos().contains_key(repo_path@) ==> r is Ok && final(self).repos()
                    == old(self).repos().insert(
                    repo_path@,
                    RepoMetadataView { last_watcher_token: Some(token), ..old(self).repos()[repo_path@] },
                ))
                &&& (!old(self).repos().contains_key(repo_path@) ==> final(self).repos() == old(
                    self,
                ).repos() && is_not_found(r, repo_path@))
            }),
    ;
}

/// In-memory `MetadataStore`; registration order is kept.
pub struct InMemoryMetadataStore {
    entries: Vec<RepoMetadata>,
}

impl InMemoryMetadataStore {
    pub closed spec fn entries(&self) -> Seq<RepoMetadataView> {
        self.entries@.map_values(|m: RepoMetadata| m@)
    }

    /// No two entries share a path.
    #[verifier::type_invariant]
    closed spec fn wf(self) -> bool {
        unique_paths(self.entries())
    }

    pub fn new() -> (s: InMemoryMetadataStore)
        ensures
            s.repos() == Map::<Seq<char>, RepoMetadataView>::empty(),
    {
        let s = InMemoryMetadataStore { entries: Vec::new() };
        assert(s.entries() =~= Seq::<RepoMetadataView>::empty());
        s
    }

    /// Position of the entry for `repo_path`, if any.
    fn position(&self, repo_path: &String) -> (r: Option<usize>)
        ensures
            match r {
                Some(i) => i < self.entries@.len() && self.entries@[i as int].repo_path@
                    == repo_path@,
                None => !self.repos().contains_key(repo_path@),
            },
            self.repos().contains_key(repo_path@) <==> r is Some,
    {
        proof {
            use_type_invariant(self);
        }
        let mut i: usize = 0;
        while i < self.entries.len()
            invariant
                i <= self.entries@.len(),
                forall|j: int| 0 <= j < i ==> self.entries@[j].repo_path@ != repo_path@,
            decreases self.entries@.len() - i,
        {
            if self.entries[i].repo_path == *repo_path {
                proof {
                    assert(self.entries()[i as int].repo_path == repo_path@);
                    lemma_to_map_dom(self.entries(), repo_path@);
                }
                return Some(i);
            }
            i = i + 1;
        }
        proof {
            lemma_to_map_dom(self.entries(), repo_path@);
            if self.repos().contains_key(repo_path@) {
                let j = choose|j: int|
                    0 <= j < self.entries().len() && #[trigger] self.entries()[j].repo_path
                        == repo_path@;
                assert(self.entries@[j].repo_path@ == repo_path@);
            }
        }
        None
    }

    /// Stores `m` under its path, replacing what was stored there (as when
    /// loading persisted records).
    pub fn put_repo(&mut self, m: RepoMetadata)
        ensures
            final(self).repos() == old(self).repos().insert(m@.repo_path, m@),
    {
        proof {
            use_type_invariant(&*self);
        }
        match self.position(&m.repo_path) {
            Some(i) => self.replace_entry(i, m),
            None => {
                let ghost before = self.entries();
                let ghost mv = m@;
                let mut entries = Vec::new();
                std::mem::swap(&mut entries, &mut self.entries);
                entries.push(m);
                proof {
                    assert(entries@.map_values(|m: RepoMetadata| m@) =~= before.push(mv));
                    lemma_to_map_push(before, mv);
                }
                self.entries = entries;
            },
        }
    }

    /// Replaces entry `i` by `m`, which has the same path.
    fn replace_entry(&mut self, i: usize, m: RepoMetadata)
        requires
            i < old(self).entries@.len(),
            m@.repo_path == old(self).entries@[i as int]@.repo_path,
        ensures
            final(self).repos() == old(self).repos().insert(m@.repo_path, m@),
    {
        proof {
            use_type_invariant(&*self);
        }
        let ghost before = self.entries();
        let mut entries = Vec::new();
        std::mem::swap(&mut entries, &mut self.entries);
        entries.set(i, m);
        proof {
            assert(entries@.map_values(|m: RepoMetadata| m@) =~= before.update(i as int, m@));
            lemma_to_map_update(before, i as int, m@);
        }
        self.entries = entries;
    }
}

impl MetadataStore for InMemoryMetadataStore {
    closed spec fn repos(&self) -> Map<Seq<char>, RepoMetadataView> {
        to_map(self.entries())
    }

    open spec fn infallible(&self) -> bool {
        true
    }

    fn register_repo(&mut self, repo_path: String, now: Timestamp) -> (r: StorageResult<RepoMetadata>) {
        proof {
            use_type_invariant(&*self);
        }
        match self.position(&repo_path) {
            Some(i) => {
                proof {
                    lemma_to_map_index(self.entries(), i as int);
                }
                Ok(self.entries[i].duplicate())
            },
            None => {
                let m = RepoMetadata::new(repo_path, now);
                let copy = m.duplicate();
                let ghost before = self.entries();
                let mut entries = Vec::new();
                std::mem::swap(&mut entries, &mut self.entries);
                entries.push(m);
                proof {
                    assert(entries@.map_values(|m: RepoMetadata| m@) =~= before.push(copy@));
                    lemma_to_map_push(before, copy@);
                }
                self.entries = entries;
                Ok(copy)
            },
        }
    }

    fn unregister_repo(&mut self, repo_path: &String) -> (r: StorageResult<Option<RepoMetadata>>) {
        proof {
            use_type_invariant(&*self);
        }
        match self.position(repo_path) {
            Some(i) => {
                let ghost before = self.entries();
                proof {
                    lemma_to_map_index(before, i as int);
                    lemma_to_map_remove(before, i as int);
                }
                let mut entries = Vec::new();
                std::mem::swap(&mut entries, &mut self.entries);
                let removed = entries.remove(i);
                proof {
                    assert(entries@.map_values(|m: RepoMetadata| m@) =~= before.remove(i as int));
                }
                self.entries = entries;
                Ok(Some(removed))
            },
            None => {
                proof {
                    assert(self.repos().remove(repo_path@) =~= self.repos());
                }
                Ok(None)
            },
        }
    }

    fn get_repo(&self, repo_path: &String) -> (r: StorageResult<Option<RepoMetadata>>) {
        proof {
            use_type_invariant(self);
        }
        match self.position(repo_path) {
            Some(i) => {
                proof {
                    lemma_to_map_index(self.entries(), i as int);
                }
                Ok(Some(self.entries[i].duplicate()))
            },
            None => Ok(None),
        }
    }

    fn list_repos(&self) -> (r: StorageResult<Vec<RepoMetadata>>) {
        proof {
            use_type_invariant(self);
            lemma_to_map_finite(self.entries());
        }
        let mut out: Vec<RepoMetadata> = Vec::new();
        let mut i: usize = 0;
        while i < self.entries.len()
            invariant
                i <= self.entries@.len(),
                out@.map_values(|m: RepoMetadata| m@) =~= self.entries().take(i as int),
            decreases self.entries@.len() - i,
        {
            let ghost before = out@;
            let d = self.entries[i].duplicate();
            out.push(d);
            proof {
                assert(self.entries().take(i + 1) =~= self.entries().take(i as int).push(
                    self.entries()[i as int],
                ));
                assert(out@.map_values(|m: RepoMetadata| m@) =~= before.map_values(
                    |m: RepoMetadata| m@,
                ).push(d@));
            }
            i = i + 1;
        }
        proof {
            let views = out@.map_values(|m: RepoMetadata| m@);
            assert(views =~= self.entries());
            assert forall|k: int| 0 <= k < out@.len() implies self.repos().contains_key(
                #[trigger] out@[k]@.repo_path,
            ) && self.repos()[out@[k]@.repo_path] == out@[k]@ by {
                assert(views[k] == out@[k]@);
                lemma_to_map_index(self.entries(), k);
            }
        }
        Ok(out)
    }

    fn update_repo_status(&mut self, repo_path: &String, status: RepoStatus) -> (r: StorageResult<()>) {
        proof {
            use_type_invariant(&*self);
        }
        match self.position(repo_path) {
            Some(i) => {
                proof {
                    lemma_to_map_index(self.entries(), i as int);
                }
                let mut m = self.entries[i].duplicate();
                m.status = status;
                self.replace_entry(i, m);
                Ok(())
            },
            None => Err(StorageError::NotFound(repo_path.clone())),
        }
    }

    fn increment_jobs(&mut self, repo_path: &String, delta: isize) -> (r: StorageResult<RepoMetadata>) {
        proof {
            use_type_invariant(&*self);
        }
        match self.position(repo_path) {
            Some(i) => {
                proof {
                    lemma_to_map_index(self.entries(), i as int);
                }
                let mut m = self.entries[i].duplicate();
                m.pending_jobs = adjust_pending(m.pending_jobs, delta);
                m.status = job_status_for(m.pending_jobs);
                let copy = m.duplicate();
                self.replace_entry(i, m);
                Ok(copy)
            },
            None => Err(StorageError::NotFound(repo_path.clone())),
        }
    }

    fn record_event(&mut self, repo_path: &String, when: Timestamp) -> (r: StorageResult<()>) {
        proof {
            use_type_invariant(&*self);
        }
        match self.position(repo_path) {
            Some(i) => {
                proof {
                    lemma_to_map_index(self.entries(), i as int);
                }
                let mut m = self.entries[i].duplicate();
                m.last_event = Some(when);
                self.replace_entry(i, m);
                Ok(())
            },
            None => Err(StorageError::NotFound(repo_path.clone())),
        }
    }

    fn mark_dirty_path(&mut self, repo_path: &String, path: String) -> (r: StorageResult<()>) {
        proof {
            use_type_invariant(&*self);
        }
        match self.position(repo_path) {
            Some(i) => {
                proof {
                    lemma_to_map_index(self.entries(), i as int);
                }
                let mut m = self.entries[i].duplicate();
                if !contains_string(&m.dirty_paths, &path) {
                    let ghost before = m@;
                    m.dirty_paths.push(path);
                    proof {
                        assert(m@.dirty_paths =~= before.dirty_paths.push(path@));
                        assert(m@ == spec_mark_dirty(before, path@));
                    }
                }
                self.replace_entry(i, m);
                Ok(())
            },
            None => Err(StorageError::NotFound(repo_path.clone())),
        }
    }

    fn drain_dirty_paths(&mut self, repo_path: &String) -> (r: StorageResult<Vec<String>>) {
        proof {
            use_type_invariant(&*self);
        }
        match self.position(repo_path) {
            Some(i) => {
                proof {
                    lemma_to_map_index(self.entries(), i as int);
                }
                let mut m = self.entries[i].duplicate();
                let mut drained: Vec<String> = Vec::new();
                std::mem::swap(&mut drained, &mut m.dirty_paths);
                proof {
                    assert(m@.dirty_paths =~= Seq::<Seq<char>>::empty());
                }
                self.replace_entry(i, m);
                Ok(drained)
            },
            None => Err(StorageError::NotFound(repo_path.clone())),
        }
    }

    fn dirty_path_count(&self, repo_path: &String) -> (r: StorageResult<usize>) {
        proof {
            use_type_invariant(self);
        }
        match self.position(repo_path) {
            Some(i) => {
                proof {
                    lemma_to_map_index(self.entries(), i as int);
                }
                Ok(self.entries[i].dirty_paths.len())
            },
            None => Err(StorageError::NotFound(repo_path.clone())),
        }
    }

    fn current_generation(&self, repo_path: &String) -> (r: StorageResult<u64>) {
        proof {
            use_type_invariant(self);
        }
        match self.position(repo_path) {
            Some(i) => {
                proof {
                    lemma_to_map_index(self.entries(), i as int);
                }
                Ok(self.entries[i].generation)
            },
            None => Err(StorageError::NotFound(repo_path.clone())),
        }
    }

    fn bump_generation(&mut self, repo_path: &String) -> (r: StorageResult<u64>) {
        proof {
            use_type_invariant(&*self);
        }
        match self.position(repo_path) {
            Some(i) => {
                proof {
                    lemma_to_map_index(self.entries(), i as int);
                }
                let mut m = self.entries[i].duplicate();
                m.generation = m.generation.saturating_add(1);
                let g = m.generation;
                self.replace_entry(i, m);
                Ok(g)
            },
            None => Err(StorageError::NotFound(repo_path.clone())),
        }
    }

    fn set_needs_reconciliation(&mut self, repo_path: &String, needs: bool) -> (r: StorageResult<()>) {
        proof {
            use_type_invariant(&*self);
        }
        match self.position(repo_path) {
            Some(i) => {
                proof {
                    lemma_to_map_index(self.entries(), i as int);
                }
                let mut m = self.entries[i].duplicate();
                m.needs_reconciliation = Some(needs);
                self.replace_entry(i, m);
                Ok(())
            },
            None => Err(StorageError::NotFound(repo_path.clone())),
        }
    }

    fn set_watcher_token(&mut self, repo_path: &String, token: u64) -> (r: StorageResult<()>) {
        proof {
            use_type_invariant(&*self);
        }
        match self.position(repo_path) {
            Some(i) => {
                proof {
                    lemma_to_map_index(self.entries(), i as int);
                }
                let mut m = self.entries[i].duplicate();
                m.last_watcher_token = Some(token);
                self.replace_entry(i, m);
                Ok(())
            },
            None => Err(StorageError::NotFound(repo_path.clone())),
        }
    }
}

/// `pending + delta`, saturating at zero and at `usize::MAX`.
pub fn adjust_pending(pending: usize, delta: isize) -> (r: usize)
    ensures
        r == spec_adjust_pending(pending, delta),
{
    if delta >= 0 {
        pending.saturating_add(delta as usize)
    } else {
        let magnitude = (0i128 - (delta as i128)) as usize;
        pending.saturating_sub(magnitude)
    }
}

/// The key a repository's record is stored under: the UTF-8 bytes of its
/// path.
pub fn repo_key(repo_path: &String) -> (k: Vec<u8>)
    ensures
        k@ == vstd::utf8::encode_utf8(repo_path@),
{
    vstd::slice::slice_to_vec(repo_path.as_str().as_bytes())
}

/// A time as stored: whole seconds since the Unix epoch.
pub fn encode_time(time: Timestamp) -> (secs: u64)
    ensures
        secs == time.secs,
{
    time.secs
}

/// A stored time back: `secs` after the Unix epoch.
pub fn decode_time(secs: u64) -> (t: Timestamp)
    ensures
        t == (Timestamp { secs, nanos: 0 }),
{
    Timestamp { secs, nanos: 0 }
}

/// A failure of the persistent store, with its text.
pub fn map_sled_err(message: String) -> (e: StorageError)
    ensures
        e == StorageError::Backend(message),
{
    StorageError::Backend(message)
}

/// Where persisted artifacts live under one data directory: the metadata
/// database in `sled`, the log database in `logs`.
#[derive(Debug, Clone)]
pub struct StorageContext {
    metadata_path: String,
    log_path: String,
}

impl StorageContext {
    pub closed spec fn spec_metadata_path(&self) -> Seq<char> {
        self.metadata_path@
    }

    pub closed spec fn spec_log_path(&self) -> Seq<char> {
        self.log_path@
    }

    /// The layout under `data_root`; the caller creates the directories.
    pub fn new(data_root: &String) -> (c: StorageContext)
        ensures
            c.spec_metadata_path() == crate::pathname::spec_join_child(data_root@, "sled"@),
            c.spec_log_path() == crate::pathname::spec_join_child(data_root@, "logs"@),
    {
        StorageContext {
            metadata_path: crate::pathname::join_child(data_root, "sled"),
            log_path: crate::pathname::join_child(data_root, "logs"),
        }
    }

    pub fn metadata_path(&self) -> (p: &String)
        ensures
            p@ == self.spec_metadata_path(),
    {
        &self.metadata_path
    }

    pub fn log_path(&self) -> (p: &String)
        ensures
            p@ == self.spec_log_path(),
    {
        &self.log_path
    }
}

/// Marking a path dirty twice is marking it once: the path is then among the
/// dirty paths, and dirty paths never repeat.
pub proof fn lemma_mark_dirty_dedupes(m: RepoMetadataView, path: Seq<char>)
    ensures
        spec_mark_dirty(spec_mark_dirty(m, path), path) == spec_mark_dirty(m, path),
        spec_mark_dirty(m, path).dirty_paths.contains(path),
        m.dirty_paths.no_duplicates() ==> spec_mark_dirty(m, path).dirty_paths.no_duplicates(),
{
    let after = spec_mark_dirty(m, path);
    if !m.dirty_paths.contains(path) {
        assert(after.dirty_paths[after.dirty_paths.len() - 1] == path);
    }
    assert(after.dirty_paths.contains(path));
}

/// Pending-job counts saturate at zero (and at the top), and a repository
/// is `Busy` exactly while jobs are pending.
pub proof fn lemma_job_bookkeeping(m: RepoMetadataView, delta: isize)
    ensures
        spec_with_jobs(m, delta).pending_jobs == if m.pending_jobs + delta < 0 {
            0
        } else if m.pending_jobs + delta > usize::MAX {
            usize::MAX as int
        } else {
            m.pending_jobs + delta
        },
        (spec_with_jobs(m, delta).status == RepoStatus::Busy) <==> spec_with_jobs(m, delta).pending_jobs
            > 0,
        spec_with_jobs(m, delta).status != RepoStatus::Unknown,
{
}

/// Each generation bump moves the counter forward by one, until it stops
/// at the largest value.
pub proof fn lemma_generation_advances(g: u64)
    ensures
        g < u64::MAX ==> spec_next_generation(g) == g + 1,
        spec_next_generation(g) >= g,
{
}

} // verus!
