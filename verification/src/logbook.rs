//! Per-repository ring buffers of daemon log messages.
use vstd::prelude::*;

use crate::ipc::{LogEntry, LogEntryView, Timestamp};
use crate::keyed::{keyed_map, keys_unique, lemma_keyed_dom, lemma_keyed_index, lemma_keyed_push, lemma_keyed_update};

verus! {

broadcast use vstd::string::group_string_axioms;

/// A log message kept in memory.
#[derive(Debug, Clone)]
pub struct LogEntryRecord {
    pub timestamp: Timestamp,
    pub message: String,
}

pub struct LogRecordView {
    pub timestamp: Timestamp,
    pub message: Seq<char>,
}

impl View for LogEntryRecord {
    type V = LogRecordView;

    open spec fn view(&self) -> LogRecordView {
        LogRecordView { timestamp: self.timestamp, message: self.message@ }
    }
}

struct RepoLog {
    repo_path: String,
    records: Vec<LogEntryRecord>,
}

impl RepoLog {
    spec fn pair(self) -> (Seq<char>, Seq<LogRecordView>) {
        (self.repo_path@, self.records@.map_values(|r: LogEntryRecord| r@))
    }
}

/// Keeps the newest `capacity` messages of each repository.
pub struct LogBook {
    repos: Vec<RepoLog>,
    capacity: usize,
}

/// `rec` appended to `buf`, dropping the oldest message beyond `capacity`.
pub open spec fn spec_append(buf: Seq<LogRecordView>, rec: LogRecordView, capacity: usize) -> Seq<
    LogRecordView,
> {
    let grown = buf.push(rec);
    if grown.len() > capacity {
        grown.drop_first()
    } else {
        grown
    }
}

/// The newest `limit` messages of `buf`, oldest first.
pub open spec fn spec_recent(buf: Seq<LogRecordView>, limit: usize) -> Seq<LogRecordView> {
    let n = if limit < buf.len() {
        limit as int
    } else {
        buf.len() as int
    };
    buf.subrange(buf.len() - n, buf.len() as int)
}

/// The log entries of `repo_path` for the messages `recs`.
pub open spec fn entries_for(repo_path: Seq<char>, recs: Seq<LogRecordView>) -> Seq<LogEntryView> {
    recs.map_values(
        |r: LogRecordView|
            LogEntryView { repo_path, message: r.message, timestamp: r.timestamp },
    )
}

impl LogBook {
    spec fn pairs(&self) -> Seq<(Seq<char>, Seq<LogRecordView>)> {
        self.repos@.map_values(|r: RepoLog| r.pair())
    }

    #[verifier::type_invariant]
    spec fn wf(self) -> bool {
        keys_unique(self.pairs())
    }

    /// The buffered messages of each repository that has logged anything.
    pub closed spec fn logs(&self) -> Map<Seq<char>, Seq<LogRecordView>> {
        keyed_map(self.pairs())
    }

    pub closed spec fn spec_capacity(&self) -> usize {
        self.capacity
    }

    pub fn new(capacity: usize) -> (b: LogBook)
        ensures
            b.logs() == Map::<Seq<char>, Seq<LogRecordView>>::empty(),
            b.spec_capacity() == capacity,
    {
        let b = LogBook { repos: Vec::new(), capacity };
        assert(b.pairs() =~= Seq::<(Seq<char>, Seq<LogRecordView>)>::empty());
        b
    }

    fn position(&self, repo_path: &String) -> (r: Option<usize>)
        ensures
            match r {
                Some(i) => i < self.repos@.len() && self.repos@[i as int].repo_path@ == repo_path@,
                None => !self.logs().contains_key(repo_path@),
            },
    {
        proof {
            use_type_invariant(self);
        }
        let mut i: usize = 0;
        while i < self.repos.len()
            invariant
                i <= self.repos@.len(),
                forall|j: int| 0 <= j < i ==> self.repos@[j].repo_path@ != repo_path@,
            decreases self.repos@.len() - i,
        {
            if self.repos[i].repo_path == *repo_path {
                return Some(i);
            }
            i = i + 1;
        }
        proof {
            lemma_keyed_dom(self.pairs(), repo_path@);
            if self.logs().contains_key(repo_path@) {
                let j = choose|j: int| 0 <= j < self.pairs().len() && #[trigger] self.pairs()[j].0 == repo_path@;
                assert(self.repos@[j].repo_path@ == repo_path@);
            }
        }
        None
    }

    /// Appends `message` for `repo_path` at time `now` and returns the entry.
    pub fn record(&mut self, repo_path: &String, message: String, now: Timestamp) -> (e: LogEntry)
        ensures
            final(self).spec_capacity() == old(self).spec_capacity(),
            final(self).logs() == old(self).logs().insert(
                repo_path@,
                spec_append(
                    if old(self).logs().contains_key(repo_path@) {
                        old(self).logs()[repo_path@]
                    } else {
                        Seq::empty()
                    },
                    LogRecordView { timestamp: now, message: message@ },
                    old(self).spec_capacity(),
                ),
            ),
            e@ == (LogEntryView { repo_path: repo_path@, message: message@, timestamp: now }),
    {
        proof {
            use_type_invariant(&*self);
        }
        let entry = LogEntry { repo_path: repo_path.clone(), message: message.clone(), timestamp: now };
        let rec = LogEntryRecord { timestamp: now, message };
        let ghost before = self.pairs();
        let cap = self.capacity;
        let mut repos: Vec<RepoLog> = Vec::new();
        std::mem::swap(&mut repos, &mut self.repos);
        match position_in(&repos, repo_path) {
            Some(i) => {
                proof {
                    lemma_keyed_index(before, i as int);
                }
                let mut log = repos.remove(i);
                let ghost old_buf = log.pair().1;
                log.records.push(rec);
                if log.records.len() > cap {
                    log.records.remove(0);
                }
                proof {
                    assert(log.pair().1 =~= spec_append(old_buf, rec@, cap));
                }
                repos.insert(i, log);
                proof {
                    assert(repos@.map_values(|r: RepoLog| r.pair()) =~= before.update(
                        i as int,
                        (before[i as int].0, log.pair().1),
                    ));
                    lemma_keyed_update(before, i as int, log.pair().1);
                }
            },
            None => {
                let mut records: Vec<LogEntryRecord> = Vec::new();
                records.push(rec);
                if records.len() > cap {
                    records.remove(0);
                }
                let log = RepoLog { repo_path: repo_path.clone(), records };
                proof {
                    assert(log.pair().1 =~= spec_append(Seq::empty(), rec@, cap));
                }
                repos.push(log);
                proof {
                    assert(repos@.map_values(|r: RepoLog| r.pair()) =~= before.push(log.pair()));
                    lemma_keyed_push(before, log.pair().0, log.pair().1);
                }
            },
        }
        self.repos = repos;
        entry
    }

    /// The newest `limit` entries of `repo_path`, oldest first; `None` when
    /// nothing was ever logged for it.
    pub fn recent(&self, repo_path: &String, limit: usize) -> (r: Option<Vec<LogEntry>>)
        ensures
            self.logs().contains_key(repo_path@) ==> (r matches Some(v) && v@.map_values(
                |e: LogEntry| e@,
            ) == entries_for(repo_path@, spec_recent(self.logs()[repo_path@], limit))),
            !self.logs().contains_key(repo_path@) ==> r is None,
    {
        proof {
            use_type_invariant(self);
        }
        match self.position(repo_path) {
            None => None,
            Some(i) => {
                proof {
                    lemma_keyed_index(self.pairs(), i as int);
                }
                let records = &self.repos[i].records;
                let len = records.len();
                let n = if limit < len {
                    limit
                } else {
                    len
                };
                let start = len - n;
                let ghost want = entries_for(
                    repo_path@,
                    spec_recent(self.logs()[repo_path@], limit),
                );
                let mut out: Vec<LogEntry> = Vec::new();
                let mut k: usize = start;
                while k < len
                    invariant
                        start <= k <= len,
                        len == records@.len(),
                        start == len - n,
                        n <= len,
                        n == (if limit < len { limit } else { len }),
                        records@.map_values(|r: LogEntryRecord| r@) == self.logs()[repo_path@],
                        want.len() == n,
                        want == entries_for(
                            repo_path@,
                            spec_recent(self.logs()[repo_path@], limit),
                        ),
                        out@.map_values(|e: LogEntry| e@) =~= want.take(k - start),
                    decreases len - k,
                {
                    let ghost before = out@;
                    let e = LogEntry {
                        repo_path: repo_path.clone(),
                        message: records[k].message.clone(),
                        timestamp: records[k].timestamp,
                    };
                    out.push(e);
                    proof {
                        let recent = spec_recent(self.logs()[repo_path@], limit);
                        assert(recent[k - start] == records@[k as int]@);
                        assert(want[k - start] == e@);
                        assert(want.take(k + 1 - start) =~= want.take(k - start).push(want[k - start]));
                        assert(out@.map_values(|e: LogEntry| e@) =~= before.map_values(
                            |e: LogEntry| e@,
                        ).push(e@));
                    }
                    k = k + 1;
                }
                proof {
                    assert(want.take(len - start) =~= want);
                }
                Some(out)
            },
        }
    }
}

/// Position of the log of `repo_path` in `repos`.
fn position_in(repos: &Vec<RepoLog>, repo_path: &String) -> (r: Option<usize>)
    requires
        keys_unique(repos@.map_values(|r: RepoLog| r.pair())),
    ensures
        match r {
            Some(i) => i < repos@.len() && repos@[i as int].repo_path@ == repo_path@,
            None => !keyed_map(repos@.map_values(|r: RepoLog| r.pair())).contains_key(
                repo_path@,
            ),
        },
{
    let mut i: usize = 0;
    while i < repos.len()
        invariant
            i <= repos@.len(),
            forall|j: int| 0 <= j < i ==> repos@[j].repo_path@ != repo_path@,
        decreases repos@.len() - i,
    {
        if repos[i].repo_path == *repo_path {
            return Some(i);
        }
        i = i + 1;
    }
    proof {
        let pairs = repos@.map_values(|r: RepoLog| r.pair());
        lemma_keyed_dom(pairs, repo_path@);
        if keyed_map(pairs).contains_key(repo_path@) {
            let j = choose|j: int| 0 <= j < pairs.len() && #[trigger] pairs[j].0 == repo_path@;
            assert(repos@[j].repo_path@ == repo_path@);
        }
    }
    None
}

/// A log message as persisted, keyed by [`log_key`].
#[derive(Debug, Clone)]
pub struct PersistedLogEntry {
    pub repo_path: String,
    pub message: String,
    pub timestamp: Timestamp,
}

impl PersistedLogEntry {
    pub fn from_entry(repo_path: &String, entry: &LogEntryRecord) -> (p: PersistedLogEntry)
        ensures
            p.repo_path@ == repo_path@,
            p.message@ == entry.message@,
            p.timestamp == entry.timestamp,
    {
        PersistedLogEntry {
            repo_path: repo_path.clone(),
            message: entry.message.clone(),
            timestamp: entry.timestamp,
        }
    }
}

/// The UTF-8 bytes of `repo_path`, a NUL, then the time in nanoseconds as 16
/// big-endian bytes; keys of one repository sort by time.
pub open spec fn spec_log_key(repo_path: Seq<char>, timestamp: Timestamp) -> Seq<u8> {
    vstd::utf8::encode_utf8(repo_path) + seq![0u8] + vstd::bytes::spec_u128_to_le_bytes(
        timestamp.spec_as_nanos() as u128,
    ).reverse()
}

pub fn log_key(repo_path: &String, timestamp: Timestamp) -> (k: Vec<u8>)
    ensures
        k@ == spec_log_key(repo_path@, timestamp),
{
    let mut key = vstd::slice::slice_to_vec(repo_path.as_str().as_bytes());
    key.push(0u8);
    let le = vstd::bytes::u128_to_le_bytes(timestamp.as_nanos());
    let ghost prefix = key@;
    proof {
        vstd::bytes::lemma_auto_spec_u128_to_from_le_bytes();
    }
    let mut i: usize = 16;
    while i > 0
        invariant
            i <= 16,
            le@.len() == 16,
            key@ =~= prefix + le@.reverse().take(16 - i),
        decreases i,
    {
        i = i - 1;
        let ghost before = key@;
        key.push(le[i]);
        proof {
            assert(le@.reverse().take(16 - i) =~= le@.reverse().take(16 - i - 1).push(le@[i as int]));
        }
    }
    proof {
        assert(le@.reverse().take(16) =~= le@.reverse());
    }
    key
}

/// Appending to a buffer that holds at most `capacity` messages keeps it so,
/// and the newest message is the one just logged.
pub proof fn lemma_log_ring(buf: Seq<LogRecordView>, rec: LogRecordView, capacity: usize)
    requires
        buf.len() <= capacity,
    ensures
        spec_append(buf, rec, capacity).len() <= capacity,
        capacity > 0 ==> spec_append(buf, rec, capacity).last() == rec,
        capacity > 0 ==> spec_recent(spec_append(buf, rec, capacity), 1) == seq![rec],
        capacity > 0 && buf.len() < capacity ==> spec_append(buf, rec, capacity) == buf.push(rec),
{
    let out = spec_append(buf, rec, capacity);
    if capacity > 0 {
        assert(out.last() == rec);
        assert(spec_recent(out, 1) =~= seq![rec]);
    }
}

/// `recent` gives the newest `limit` messages (all of them when fewer),
/// oldest first.
pub proof fn lemma_recent_is_newest(buf: Seq<LogRecordView>, limit: usize)
    ensures
        spec_recent(buf, limit).len() == if limit < buf.len() {
            limit as int
        } else {
            buf.len() as int
        },
        forall|i: int|
            0 <= i < spec_recent(buf, limit).len() ==> #[trigger] spec_recent(buf, limit)[i]
                == buf[buf.len() - spec_recent(buf, limit).len() + i],
{
}

/// Persisted entries of a repository are read back at most this many at a
/// time.
pub const MAX_PERSISTED_READ: usize = 10_000;

/// How many persisted entries a request for `limit` reads.
pub fn persisted_read_limit(limit: usize) -> (n: usize)
    ensures
        n == if limit < MAX_PERSISTED_READ {
            limit
        } else {
            MAX_PERSISTED_READ
        },
{
    if limit < MAX_PERSISTED_READ {
        limit
    } else {
        MAX_PERSISTED_READ
    }
}

/// The key prefix of a repository's persisted entries: its path's UTF-8
/// bytes and a NUL.
pub fn log_prefix(repo_path: &String) -> (k: Vec<u8>)
    ensures
        k@ == vstd::utf8::encode_utf8(repo_path@) + seq![0u8],
{
    let mut key = vstd::slice::slice_to_vec(repo_path.as_str().as_bytes());
    key.push(0u8);
    key
}

} // verus!
