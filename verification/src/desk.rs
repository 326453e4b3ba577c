//! The desk: scheduled shell jobs, a polling watcher of the desk directory,
//! and desk notes.
use vstd::prelude::*;
use crate::text::{chars_of, owned, seq_contains, str_contains, str_eq, string_from_chars};

verus! {

// ───────────────────────── scheduled jobs ─────────────────────────

/// A job run every `interval_secs` seconds.
#[derive(Debug)]
pub struct CronJob {
    pub id: String,
    pub name: String,
    pub interval_secs: u64,
    pub action: String,
    pub command: String,
    pub enabled: bool,
    pub last_run: String,
    pub next_run: String,
}

impl Clone for CronJob {
    fn clone(&self) -> (r: Self)
        ensures
            r == *self,
    {
        CronJob {
            id: self.id.clone(),
            name: self.name.clone(),
            interval_secs: self.interval_secs,
            action: self.action.clone(),
            command: self.command.clone(),
            enabled: self.enabled,
            last_run: self.last_run.clone(),
            next_run: self.next_run.clone(),
        }
    }
}

impl CronJob {
    /// An enabled shell job that has not run yet.
    pub fn new(id: &str, name: &str, interval_secs: u64, command: &str) -> (r: Self)
        ensures
            r.id@ == id@,
            r.name@ == name@,
            r.interval_secs == interval_secs,
            r.action@ == "shell"@,
            r.command@ == command@,
            r.enabled,
            r.last_run@ == Seq::<char>::empty(),
            r.next_run@ == Seq::<char>::empty(),
    {
        CronJob {
            id: owned(id),
            name: owned(name),
            interval_secs,
            action: owned("shell"),
            command: owned(command),
            enabled: true,
            last_run: String::new(),
            next_run: String::new(),
        }
    }
}

/// The job list.
pub struct CronScheduler {
    jobs: Vec<CronJob>,
}

/// The jobs whose id is not `id`.
pub open spec fn other_jobs(id: Seq<char>) -> spec_fn(CronJob) -> bool {
    |j: CronJob| j.id@ != id
}

impl CronScheduler {
    /// The jobs, in the order they were added.
    pub closed spec fn jobs(&self) -> Seq<CronJob> {
        self.jobs@
    }

    /// An empty job list.
    pub fn new() -> (r: Self)
        ensures
            r.jobs() == Seq::<CronJob>::empty(),
    {
        CronScheduler { jobs: Vec::new() }
    }

    /// Adds a job at the end.
    pub fn add(&mut self, job: CronJob)
        ensures
            final(self).jobs() == old(self).jobs().push(job),
    {
        self.jobs.push(job);
    }

    /// Removes every job with id `id`.
    pub fn remove(&mut self, id: &str)
        ensures
            final(self).jobs() == old(self).jobs().filter(other_jobs(id@)),
    {
        let mut kept: Vec<CronJob> = Vec::new();
        let ghost all = self.jobs@;
        let n = self.jobs.len();
        let mut i: usize = 0;
        while i < n
            invariant
                n == self.jobs@.len(),
                all == self.jobs@,
                i <= n,
                kept@ == all.take(i as int).filter(other_jobs(id@)),
            decreases n - i,
        {
            proof {
                assert(all.take(i + 1).drop_last() =~= all.take(i as int));
                reveal_with_fuel(Seq::<_>::filter, 1);
            }
            if !str_eq(self.jobs[i].id.as_str(), id) {
                kept.push(self.jobs[i].clone());
            }
            i = i + 1;
        }
        assert(all.take(n as int) =~= all);
        self.jobs = kept;
    }

    /// The jobs.
    pub fn list(&self) -> (r: Vec<CronJob>)
        ensures
            r@ == self.jobs(),
    {
        let mut out: Vec<CronJob> = Vec::new();
        let n = self.jobs.len();
        let mut i: usize = 0;
        while i < n
            invariant
                n == self.jobs@.len(),
                i <= n,
                out@ == self.jobs@.take(i as int),
            decreases n - i,
        {
            out.push(self.jobs[i].clone());
            assert(self.jobs@.take(i + 1) =~= self.jobs@.take(i as int).push(self.jobs@[i as int]));
            i = i + 1;
        }
        assert(self.jobs@.take(n as int) =~= self.jobs@);
        out
    }
}

/// The last run of each job id, in seconds since the epoch.
pub type RunTimes = Seq<(Seq<char>, u64)>;

/// The last run of job `id` (0 when it never ran).
pub open spec fn last_run_of(runs: RunTimes, id: Seq<char>) -> u64 {
    if exists|k: int| 0 <= k < runs.len() && (#[trigger] runs[k]).0 == id {
        runs[choose|k: int| 0 <= k < runs.len() && (#[trigger] runs[k]).0 == id].1
    } else {
        0
    }
}

/// The test that a job is due at `now`: it is enabled and at least its
/// interval has passed since its last run.
pub open spec fn due_at(runs: RunTimes, now: u64) -> spec_fn(CronJob) -> bool {
    |j: CronJob| j.enabled && now - last_run_of(runs, j.id@) >= j.interval_secs
}

/// No job id is recorded twice.
pub open spec fn run_ids_distinct(runs: RunTimes) -> bool {
    forall|a: int, b: int| 0 <= a < runs.len() && 0 <= b < runs.len() && a != b ==> (#[trigger] runs[a]).0 != (#[trigger] runs[b]).0
}

/// The record of when each job last ran, kept by the scheduling loop.
pub struct CronClock {
    runs: Vec<(String, u64)>,
}

/// The views of recorded run times.
pub open spec fn runs_view(v: Seq<(String, u64)>) -> RunTimes {
    v.map_values(|r: (String, u64)| (r.0@, r.1))
}

impl CronClock {
    /// The recorded run times.
    pub closed spec fn runs(&self) -> RunTimes {
        runs_view(self.runs@)
    }

    /// Well-formedness: each job id is recorded at most once.
    pub closed spec fn wf(&self) -> bool {
        run_ids_distinct(runs_view(self.runs@))
    }

    /// No enabled job of `jobs` has a run recorded later than `now`.
    pub open spec fn not_after(&self, jobs: Seq<CronJob>, now: u64) -> bool {
        forall|i: int| 0 <= i < jobs.len() && (#[trigger] jobs[i]).enabled ==> last_run_of(self.runs(), jobs[i].id@) <= now
    }

    /// A clock with no runs recorded.
    pub fn new() -> (r: Self)
        ensures
            r.wf(),
            r.runs() == Seq::<(Seq<char>, u64)>::empty(),
    {
        let r = CronClock { runs: Vec::new() };
        assert(r.runs() =~= Seq::<(Seq<char>, u64)>::empty());
        r
    }

    /// Whether no enabled job of `jobs` last ran later than `now` (the clock
    /// did not go back for any job that is checked).
    pub fn can_tick(&self, jobs: &Vec<CronJob>, now: u64) -> (r: bool)
        requires
            self.wf(),
        ensures
            r == self.not_after(jobs@, now),
    {
        let n = jobs.len();
        let mut i: usize = 0;
        while i < n
            invariant
                n == jobs@.len(),
                i <= n,
                self.wf(),
                forall|k: int| 0 <= k < i && (#[trigger] jobs@[k]).enabled ==> last_run_of(self.runs(), jobs@[k].id@) <= now,
            decreases n - i,
        {
            if jobs[i].enabled {
                let last = match self.find(jobs[i].id.as_str()) {
                    Some(k) => self.runs[k].1,
                    None => 0,
                };
                if last > now {
                    assert(!(last_run_of(self.runs(), jobs@[i as int].id@) <= now));
                    return false;
                }
            }
            i = i + 1;
        }
        true
    }

    fn find(&self, id: &str) -> (r: Option<usize>)
        requires
            self.wf(),
        ensures
            match r {
                Some(k) => k < self.runs@.len() && self.runs()[k as int].0 == id@ && last_run_of(self.runs(), id@) == self.runs()[k as int].1,
                None => !(exists|k: int| 0 <= k < self.runs().len() && (#[trigger] self.runs()[k]).0 == id@) && last_run_of(self.runs(), id@) == 0,
            },
    {
        let n = self.runs.len();
        let mut i: usize = 0;
        while i < n
            invariant
                n == self.runs@.len(),
                i <= n,
                forall|k: int| 0 <= k < i ==> (#[trigger] self.runs()[k]).0 != id@,
                run_ids_distinct(self.runs()),
            decreases n - i,
        {
            if str_eq(self.runs[i].0.as_str(), id) {
                proof {
                    let c = choose|k: int| 0 <= k < self.runs().len() && (#[trigger] self.runs()[k]).0 == id@;
                    assert(self.runs()[i as int].0 == id@);
                    assert(c == i);
                }
                return Some(i);
            }
            i = i + 1;
        }
        None
    }

    /// The jobs due at `now`, in list order; each of them is recorded as run
    /// at `now`.
    pub fn due(&mut self, jobs: &Vec<CronJob>, now: u64) -> (r: Vec<CronJob>)
        requires
            old(self).wf(),
            old(self).not_after(jobs@, now),
        ensures
            final(self).wf(),
            r@ == jobs@.filter(due_at(old(self).runs(), now)),
            forall|id: Seq<char>| #[trigger] last_run_of(final(self).runs(), id) == if r@.map_values(|j: CronJob| j.id@).contains(id) {
                now
            } else {
                last_run_of(old(self).runs(), id)
            },
    {
        let ghost runs0 = self.runs();
        let mut out: Vec<CronJob> = Vec::new();
        let n = jobs.len();
        let mut i: usize = 0;
        while i < n
            invariant
                n == jobs@.len(),
                i <= n,
                self.wf(),
                self.runs() == runs0,
                self.not_after(jobs@, now),
                out@ == jobs@.take(i as int).filter(due_at(runs0, now)),
            decreases n - i,
        {
            let j = &jobs[i];
            let last = match self.find(j.id.as_str()) {
                Some(k) => self.runs[k].1,
                None => 0,
            };
            proof {
                assert(jobs@.take(i + 1).drop_last() =~= jobs@.take(i as int));
                reveal_with_fuel(Seq::<_>::filter, 1);
                assert(jobs@[i as int] == *j);
                assert(j.enabled ==> last <= now);
            }
            if j.enabled && now - last >= j.interval_secs {
                out.push(j.clone());
            }
            i = i + 1;
        }
        assert(jobs@.take(n as int) =~= jobs@);
        // record the runs
        let ghost picked = out@.map_values(|j: CronJob| j.id@);
        let on = out.len();
        let mut k: usize = 0;
        while k < on
            invariant
                on == out@.len(),
                picked == out@.map_values(|j: CronJob| j.id@),
                k <= on,
                self.wf(),
                forall|id: Seq<char>| #[trigger] last_run_of(self.runs(), id) == if picked.take(k as int).contains(id) {
                    now
                } else {
                    last_run_of(runs0, id)
                },
            decreases on - k,
        {
            let id = &out[k].id;
            let ghost before = self.runs();
            match self.find(id.as_str()) {
                Some(x) => {
                    let name = self.runs[x].0.clone();
                    self.runs.set(x, (name, now));
                    proof {
                        assert(self.runs() =~= before.update(x as int, (id@, now)));
                        self.lemma_after_set(before, x as int, id@, now);
                    }
                },
                None => {
                    self.runs.push((id.clone(), now));
                    proof {
                        assert(self.runs() =~= before.push((id@, now)));
                        self.lemma_after_push(before, id@, now);
                    }
                },
            }
            proof {
                assert(picked.take(k + 1) =~= picked.take(k as int).push(id@));
                assert forall|other: Seq<char>| #[trigger] last_run_of(self.runs(), other) == if picked.take(k + 1).contains(other) {
                    now
                } else {
                    last_run_of(runs0, other)
                } by {
                    if other != id@ {
                        if picked.take(k + 1).contains(other) {
                            let w = choose|w: int| 0 <= w < picked.take(k + 1).len() && #[trigger] picked.take(k + 1)[w] == other;
                            assert(picked.take(k as int)[w] == other);
                        }
                        if picked.take(k as int).contains(other) {
                            let w = choose|w: int| 0 <= w < picked.take(k as int).len() && #[trigger] picked.take(k as int)[w] == other;
                            assert(picked.take(k + 1)[w] == other);
                        }
                    } else {
                        assert(picked.take(k + 1)[k as int] == id@);
                    }
                }
            }
            k = k + 1;
        }
        assert(picked.take(on as int) =~= picked);
        out
    }

    proof fn lemma_after_set(&self, before: RunTimes, x: int, id: Seq<char>, now: u64)
        requires
            run_ids_distinct(before),
            0 <= x < before.len(),
            before[x].0 == id,
            self.runs() == before.update(x, (id, now)),
        ensures
            self.wf(),
            last_run_of(self.runs(), id) == now,
            forall|other: Seq<char>| other != id ==> #[trigger] last_run_of(self.runs(), other) == last_run_of(before, other),
    {
        let after = self.runs();
        assert forall|a: int, b: int| 0 <= a < after.len() && 0 <= b < after.len() && a != b implies (#[trigger] after[a]).0 != (#[trigger] after[b]).0 by {
            assert(after[a].0 == before[a].0);
            assert(after[b].0 == before[b].0);
        }
        let c = choose|k: int| 0 <= k < after.len() && (#[trigger] after[k]).0 == id;
        assert(after[x].0 == id);
        assert(c == x);
        assert forall|other: Seq<char>| other != id implies #[trigger] last_run_of(self.runs(), other) == last_run_of(before, other) by {
            if exists|k: int| 0 <= k < before.len() && (#[trigger] before[k]).0 == other {
                let cb = choose|k: int| 0 <= k < before.len() && (#[trigger] before[k]).0 == other;
                assert(after[cb].0 == other);
                let ca = choose|k: int| 0 <= k < after.len() && (#[trigger] after[k]).0 == other;
                assert(before[ca].0 == other);
                assert(ca == cb);
            } else {
                if exists|k: int| 0 <= k < after.len() && (#[trigger] after[k]).0 == other {
                    let ca = choose|k: int| 0 <= k < after.len() && (#[trigger] after[k]).0 == other;
                    assert(before[ca].0 == other);
                }
            }
        }
    }

    proof fn lemma_after_push(&self, before: RunTimes, id: Seq<char>, now: u64)
        requires
            run_ids_distinct(before),
            !(exists|k: int| 0 <= k < before.len() && (#[trigger] before[k]).0 == id),
            self.runs() == before.push((id, now)),
        ensures
            self.wf(),
            last_run_of(self.runs(), id) == now,
            forall|other: Seq<char>| other != id ==> #[trigger] last_run_of(self.runs(), other) == last_run_of(before, other),
    {
        let after = self.runs();
        assert forall|a: int, b: int| 0 <= a < after.len() && 0 <= b < after.len() && a != b implies (#[trigger] after[a]).0 != (#[trigger] after[b]).0 by {
            if a < before.len() {
                assert(after[a] == before[a]);
            }
            if b < before.len() {
                assert(after[b] == before[b]);
            }
        }
        let c = choose|k: int| 0 <= k < after.len() && (#[trigger] after[k]).0 == id;
        assert(after[before.len() as int].0 == id);
        if c < before.len() {
            assert(before[c].0 == id);
        }
        assert forall|other: Seq<char>| other != id implies #[trigger] last_run_of(self.runs(), other) == last_run_of(before, other) by {
            if exists|k: int| 0 <= k < before.len() && (#[trigger] before[k]).0 == other {
                let cb = choose|k: int| 0 <= k < before.len() && (#[trigger] before[k]).0 == other;
                assert(after[cb].0 == other);
                let ca = choose|k: int| 0 <= k < after.len() && (#[trigger] after[k]).0 == other;
                assert(ca < before.len());
                assert(before[ca].0 == other);
                assert(ca == cb);
            } else {
                if exists|k: int| 0 <= k < after.len() && (#[trigger] after[k]).0 == other {
                    let ca = choose|k: int| 0 <= k < after.len() && (#[trigger] after[k]).0 == other;
                    assert(ca < before.len());
                    assert(before[ca].0 == other);
                }
            }
        }
    }
}


/// `new` is `old` with the jobs whose id is `id` taken out: position `k` of
/// `new` holds the job at position `f[k]` of `old`, the positions increase,
/// and they are exactly the positions of the jobs with another id.
pub open spec fn kept_positions(old: Seq<CronJob>, new: Seq<CronJob>, id: Seq<char>, f: Seq<int>) -> bool {
    &&& f.len() == new.len()
    &&& forall|k: int| 0 <= k < f.len() ==> 0 <= #[trigger] f[k] < old.len() && new[k] == old[f[k]] && old[f[k]].id@ != id
    &&& forall|k: int, l: int| 0 <= k < l < f.len() ==> #[trigger] f[k] < #[trigger] f[l]
    &&& forall|i: int| 0 <= i < old.len() && (#[trigger] old[i]).id@ != id ==> exists|k: int| 0 <= k < f.len() && #[trigger] f[k] == i
}

proof fn lemma_removal_positions(old: Seq<CronJob>, id: Seq<char>) -> (f: Seq<int>)
    ensures
        kept_positions(old, old.filter(other_jobs(id)), id, f),
    decreases old.len(),
{
    let new = old.filter(other_jobs(id));
    if old.len() == 0 {
        assert(new =~= Seq::<CronJob>::empty());
        Seq::<int>::empty()
    } else {
        let d = old.drop_last();
        let x = old.last();
        let g = lemma_removal_positions(d, id);
        let nd = d.filter(other_jobs(id));
        reveal_with_fuel(Seq::<_>::filter, 1);
        assert(old.drop_last() =~= d);
        if x.id@ != id {
            assert(new == nd.push(x));
            let f = g.push(d.len() as int);
            assert forall|k: int| 0 <= k < f.len() implies 0 <= #[trigger] f[k] < old.len() && new[k] == old[f[k]] && old[f[k]].id@ != id by {
                if k < g.len() {
                    assert(f[k] == g[k]);
                    assert(old[g[k]] == d[g[k]]);
                } else {
                    assert(old[d.len() as int] == x);
                }
            }
            assert forall|k: int, l: int| 0 <= k < l < f.len() implies #[trigger] f[k] < #[trigger] f[l] by {
                if l < g.len() {
                    assert(f[k] == g[k] && f[l] == g[l]);
                } else {
                    assert(f[k] == g[k]);
                }
            }
            assert forall|i: int| 0 <= i < old.len() && (#[trigger] old[i]).id@ != id implies exists|k: int| 0 <= k < f.len() && #[trigger] f[k] == i by {
                if i < d.len() {
                    assert(d[i] == old[i]);
                    let k = choose|k: int| 0 <= k < g.len() && #[trigger] g[k] == i;
                    assert(f[k] == g[k]);
                } else {
                    assert(f[g.len() as int] == i);
                }
            }
            f
        } else {
            assert(new == nd);
            assert forall|k: int| 0 <= k < g.len() implies 0 <= #[trigger] g[k] < old.len() && new[k] == old[g[k]] && old[g[k]].id@ != id by {
                assert(old[g[k]] == d[g[k]]);
            }
            assert forall|i: int| 0 <= i < old.len() && (#[trigger] old[i]).id@ != id implies exists|k: int| 0 <= k < g.len() && #[trigger] g[k] == i by {
                assert(i < d.len());
                assert(d[i] == old[i]);
            }
            g
        }
    }
}

/// Removing the jobs of id `id` (what `remove` leaves, `new`, from `old`)
/// takes out exactly the jobs with that id: every job with another id stays,
/// in its order, and no job with that id is left.
pub proof fn law_remove_takes_out_exactly_that_id(old: Seq<CronJob>, new: Seq<CronJob>, id: Seq<char>)
    requires
        new == old.filter(other_jobs(id)),
    ensures
        exists|f: Seq<int>| #[trigger] kept_positions(old, new, id, f),
        forall|k: int| 0 <= k < new.len() ==> (#[trigger] new[k]).id@ != id,
        forall|i: int| 0 <= i < old.len() && (#[trigger] old[i]).id@ != id ==> new.contains(old[i]),
{
    let f = lemma_removal_positions(old, id);
    assert forall|k: int| 0 <= k < new.len() implies (#[trigger] new[k]).id@ != id by {
        assert(0 <= f[k] < old.len());
    }
    assert forall|i: int| 0 <= i < old.len() && (#[trigger] old[i]).id@ != id implies new.contains(old[i]) by {
        let k = choose|k: int| 0 <= k < f.len() && #[trigger] f[k] == i;
        assert(new[k] == old[i]);
    }
}

/// A job recorded as run at `t` is not due again until its interval has
/// passed.
pub proof fn law_not_due_before_interval(runs: RunTimes, job: CronJob, t: u64, later: u64)
    requires
        last_run_of(runs, job.id@) == t,
        t <= later,
        later - t < job.interval_secs,
    ensures
        !due_at(runs, later)(job),
{
}

/// Disabled jobs are never due.
pub proof fn law_disabled_jobs_never_due(jobs: Seq<CronJob>, runs: RunTimes, now: u64)
    ensures
        forall|i: int| 0 <= i < jobs.filter(due_at(runs, now)).len() ==> (#[trigger] jobs.filter(due_at(runs, now))[i]).enabled,
{
    assert forall|i: int| 0 <= i < jobs.filter(due_at(runs, now)).len() implies (#[trigger] jobs.filter(due_at(runs, now))[i]).enabled by {
        jobs.lemma_filter_pred(due_at(runs, now), i);
    }
}

// ───────────────────────── the desk watcher ─────────────────────────

/// What happened to a file of the watched directory.
#[derive(Debug, Clone, Copy, PartialEq, Eq, Structural)]
pub enum WatchKind {
    Created,
    Modified,
    Deleted,
}

impl WatchKind {
    /// The name of the change: `created`, `modified` or `deleted`.
    pub fn name(&self) -> (r: String)
        ensures
            *self == WatchKind::Created ==> r@ == "created"@,
            *self == WatchKind::Modified ==> r@ == "modified"@,
            *self == WatchKind::Deleted ==> r@ == "deleted"@,
    {
        match self {
            WatchKind::Created => owned("created"),
            WatchKind::Modified => owned("modified"),
            WatchKind::Deleted => owned("deleted"),
        }
    }
}

/// One entry of a directory listing: its full path, its path relative to the
/// watched directory, and its modification time in nanoseconds (absent when
/// it could not be read).
#[derive(Debug)]
pub struct ListedFile {
    pub path: String,
    pub rel: String,
    pub modified: Option<u128>,
}

/// A change noticed by the watcher: the relative path and the kind.
#[derive(Debug)]
pub struct WatchChange {
    pub path: String,
    pub kind: WatchKind,
}

/// A change with its time stamp, as reported to listeners.
#[derive(Debug)]
pub struct FileEvent {
    pub path: String,
    pub kind: String,
    pub timestamp: String,
}

impl FileEvent {
    /// The event of a change, stamped `timestamp`.
    pub fn from_change(change: &WatchChange, timestamp: String) -> (r: Self)
        ensures
            r.path == change.path,
            change.kind == WatchKind::Created ==> r.kind@ == "created"@,
            change.kind == WatchKind::Modified ==> r.kind@ == "modified"@,
            change.kind == WatchKind::Deleted ==> r.kind@ == "deleted"@,
            r.timestamp == timestamp,
    {
        FileEvent { path: change.path.clone(), kind: change.kind.name(), timestamp }
    }
}

/// A known file: path, relative path, modification time.
pub type Known = (Seq<char>, Seq<char>, u128);

/// Position of the known file `path`, if any.
pub open spec fn known_index(known: Seq<Known>, path: Seq<char>) -> Option<int> {
    if exists|k: int| 0 <= k < known.len() && (#[trigger] known[k]).0 == path {
        Some(choose|k: int| 0 <= k < known.len() && (#[trigger] known[k]).0 == path)
    } else {
        None
    }
}

/// No path is known twice.
pub open spec fn known_distinct(known: Seq<Known>) -> bool {
    forall|a: int, b: int| 0 <= a < known.len() && 0 <= b < known.len() && a != b ==> (#[trigger] known[a]).0 != (#[trigger] known[b]).0
}

/// A listed entry's view: path, relative path, modification time.
pub type Listed = (Seq<char>, Seq<char>, Option<u128>);

/// The views of listed entries.
pub open spec fn listed_view(v: Seq<ListedFile>) -> Seq<Listed> {
    v.map_values(|f: ListedFile| (f.path@, f.rel@, f.modified))
}

/// One listed entry compared with what is known: a new file is created, a
/// file with another modification time is modified; an entry whose time could
/// not be read changes nothing.
pub open spec fn scan_entry(known: Seq<Known>, e: Listed) -> (Seq<Known>, Seq<(Seq<char>, WatchKind)>) {
    match e.2 {
        None => (known, Seq::empty()),
        Some(m) => match known_index(known, e.0) {
            None => (known.push((e.0, e.1, m)), seq![(e.1, WatchKind::Created)]),
            Some(k) => if known[k].2 != m {
                (known.update(k, (e.0, e.1, m)), seq![(e.1, WatchKind::Modified)])
            } else {
                (known, Seq::empty())
            },
        },
    }
}

/// The listed entries compared in order.
pub open spec fn scan_entries(known: Seq<Known>, es: Seq<Listed>) -> (Seq<Known>, Seq<(Seq<char>, WatchKind)>)
    decreases es.len(),
{
    if es.len() == 0 {
        (known, Seq::empty())
    } else {
        let (k1, ev1) = scan_entries(known, es.drop_last());
        let (k2, ev2) = scan_entry(k1, es.last());
        (k2, ev1 + ev2)
    }
}

/// The test that a known file is still listed.
pub open spec fn still_listed(es: Seq<Listed>) -> spec_fn(Known) -> bool {
    |k: Known| exists|i: int| 0 <= i < es.len() && (#[trigger] es[i]).0 == k.0
}

/// The test that a known file is no longer listed.
pub open spec fn gone(es: Seq<Listed>) -> spec_fn(Known) -> bool {
    |k: Known| !(exists|i: int| 0 <= i < es.len() && (#[trigger] es[i]).0 == k.0)
}

/// A full scan: entries compared in order, then every known file no longer
/// listed is deleted (in the order they were known).
pub open spec fn scan_spec(known: Seq<Known>, es: Seq<Listed>) -> (Seq<Known>, Seq<(Seq<char>, WatchKind)>) {
    let (k1, ev1) = scan_entries(known, es);
    (
        k1.filter(still_listed(es)),
        ev1 + k1.filter(gone(es)).map_values(|k: Known| (k.1, WatchKind::Deleted)),
    )
}

/// The views of changes.
pub open spec fn changes_view(v: Seq<WatchChange>) -> Seq<(Seq<char>, WatchKind)> {
    v.map_values(|c: WatchChange| (c.path@, c.kind))
}

/// What the desk watcher knows of the watched directory between scans.
pub struct WatchState {
    known: Vec<(String, String, u128)>,
}

/// The views of known files.
pub open spec fn known_view(v: Seq<(String, String, u128)>) -> Seq<Known> {
    v.map_values(|k: (String, String, u128)| (k.0@, k.1@, k.2))
}

impl WatchState {
    /// The known files.
    pub closed spec fn known(&self) -> Seq<Known> {
        known_view(self.known@)
    }

    /// Well-formedness: no path is known twice.
    pub closed spec fn wf(&self) -> bool {
        known_distinct(known_view(self.known@))
    }

    /// A watcher that knows no file yet.
    pub fn new() -> (r: Self)
        ensures
            r.wf(),
            r.known() == Seq::<Known>::empty(),
    {
        let r = WatchState { known: Vec::new() };
        assert(r.known() =~= Seq::<Known>::empty());
        r
    }

    fn find(&self, path: &str) -> (r: Option<usize>)
        requires
            self.wf(),
        ensures
            match r {
                Some(k) => k < self.known@.len() && known_index(self.known(), path@) == Some(k as int),
                None => known_index(self.known(), path@) is None,
            },
    {
        let n = self.known.len();
        let mut i: usize = 0;
        while i < n
            invariant
                n == self.known@.len(),
                i <= n,
                known_distinct(self.known()),
                forall|k: int| 0 <= k < i ==> (#[trigger] self.known()[k]).0 != path@,
            decreases n - i,
        {
            if str_eq(self.known[i].0.as_str(), path) {
                proof {
                    let c = choose|k: int| 0 <= k < self.known().len() && (#[trigger] self.known()[k]).0 == path@;
                    assert(self.known()[i as int].0 == path@);
                    assert(c == i);
                }
                return Some(i);
            }
            i = i + 1;
        }
        None
    }

    /// Compares one listing of the directory with what is known, and returns
    /// the changes (created, modified, then deleted files).
    pub fn scan(&mut self, listing: &Vec<ListedFile>) -> (r: Vec<WatchChange>)
        requires
            old(self).wf(),
        ensures
            final(self).wf(),
            (final(self).known(), changes_view(r@)) == scan_spec(old(self).known(), listed_view(listing@)),
    {
        let ghost es = listed_view(listing@);
        let mut changes: Vec<WatchChange> = Vec::new();
        let n = listing.len();
        let mut i: usize = 0;
        while i < n
            invariant
                n == listing@.len(),
                es == listed_view(listing@),
                i <= n,
                self.wf(),
                (self.known(), changes_view(changes@)) == scan_entries(old(self).known(), es.take(i as int)),
            decreases n - i,
        {
            let e = &listing[i];
            let ghost before = self.known();
            let ghost ch_before = changes@;
            proof {
                assert(es.take(i + 1).drop_last() =~= es.take(i as int));
                assert(es.take(i + 1).last() == es[i as int]);
            }
            match e.modified {
                None => {
                    assert(changes_view(changes@) =~= changes_view(ch_before) + Seq::<(Seq<char>, WatchKind)>::empty());
                },
                Some(m) => {
                    match self.find(e.path.as_str()) {
                        None => {
                            self.known.push((e.path.clone(), e.rel.clone(), m));
                            changes.push(WatchChange { path: e.rel.clone(), kind: WatchKind::Created });
                            proof {
                                let after = self.known();
                                assert(after =~= before.push((e.path@, e.rel@, m)));
                                assert(changes_view(changes@) =~= changes_view(ch_before) + seq![(e.rel@, WatchKind::Created)]);
                                assert forall|a: int, b: int| 0 <= a < after.len() && 0 <= b < after.len() && a != b implies (#[trigger] after[a]).0 != (#[trigger] after[b]).0 by {
                                    if a < before.len() { assert(after[a] == before[a]); }
                                    if b < before.len() { assert(after[b] == before[b]); }
                                }
                            }
                        },
                        Some(k) => {
                            if self.known[k].2 != m {
                                self.known.set(k, (e.path.clone(), e.rel.clone(), m));
                                changes.push(WatchChange { path: e.rel.clone(), kind: WatchKind::Modified });
                                proof {
                                    let after = self.known();
                                    assert(after =~= before.update(k as int, (e.path@, e.rel@, m)));
                                    assert(changes_view(changes@) =~= changes_view(ch_before) + seq![(e.rel@, WatchKind::Modified)]);
                                    assert forall|a: int, b: int| 0 <= a < after.len() && 0 <= b < after.len() && a != b implies (#[trigger] after[a]).0 != (#[trigger] after[b]).0 by {
                                        assert(after[a].0 == before[a].0);
                                        assert(after[b].0 == before[b].0);
                                    }
                                }
                            } else {
                                assert(changes_view(changes@) =~= changes_view(ch_before) + Seq::<(Seq<char>, WatchKind)>::empty());
                            }
                        },
                    }
                },
            }
            i = i + 1;
        }
        assert(es.take(n as int) =~= es);
        // files no longer listed are deleted
        let ghost k1 = self.known();
        let ghost ch1 = changes@;
        let mut kept: Vec<(String, String, u128)> = Vec::new();
        let kn = self.known.len();
        let mut j: usize = 0;
        while j < kn
            invariant
                kn == self.known@.len(),
                k1 == self.known(),
                es == listed_view(listing@),
                n == listing@.len(),
                known_distinct(k1),
                j <= kn,
                known_view(kept@) == k1.take(j as int).filter(still_listed(es)),
                changes@.len() >= ch1.len(),
                changes_view(changes@) == changes_view(ch1) + k1.take(j as int).filter(gone(es)).map_values(|k: Known| (k.1, WatchKind::Deleted)),
            decreases kn - j,
        {
            let entry = &self.known[j];
            let mut present = false;
            let mut q: usize = 0;
            while q < n
                invariant
                    n == listing@.len(),
                    es == listed_view(listing@),
                    q <= n,
                    present == exists|x: int| 0 <= x < q && (#[trigger] es[x]).0 == entry.0@,
                decreases n - q,
            {
                if !present && str_eq(listing[q].path.as_str(), entry.0.as_str()) {
                    present = true;
                    assert(es[q as int].0 == entry.0@);
                }
                proof {
                    if !present {
                        assert(!(exists|x: int| 0 <= x < q + 1 && (#[trigger] es[x]).0 == entry.0@)) by {
                            if exists|x: int| 0 <= x < q + 1 && (#[trigger] es[x]).0 == entry.0@ {
                                let x = choose|x: int| 0 <= x < q + 1 && (#[trigger] es[x]).0 == entry.0@;
                                if x < q {
                                } else {
                                    assert(es[q as int].0 == listing@[q as int].path@);
                                }
                            }
                        }
                    }
                }
                q = q + 1;
            }
            let ghost kv = k1[j as int];
            proof {
                assert(k1.take(j + 1).drop_last() =~= k1.take(j as int));
                reveal_with_fuel(Seq::<_>::filter, 1);
                assert(kv == (entry.0@, entry.1@, entry.2));
                assert(present == still_listed(es)(kv));
                assert(present == !gone(es)(kv));
            }
            if present {
                kept.push((entry.0.clone(), entry.1.clone(), entry.2));
                proof {
                    assert(known_view(kept@) =~= k1.take(j as int).filter(still_listed(es)).push(kv));
                }
            } else {
                let ghost cb = changes@;
                changes.push(WatchChange { path: entry.1.clone(), kind: WatchKind::Deleted });
                proof {
                    assert(changes_view(changes@) =~= changes_view(cb).push((kv.1, WatchKind::Deleted)));
                    assert(k1.take(j + 1).filter(gone(es)) == k1.take(j as int).filter(gone(es)).push(kv));
                    assert(k1.take(j + 1).filter(gone(es)).map_values(|k: Known| (k.1, WatchKind::Deleted)) =~= k1.take(j as int).filter(gone(es)).map_values(|k: Known| (k.1, WatchKind::Deleted)).push((kv.1, WatchKind::Deleted)));
                }
            }
            j = j + 1;
        }
        assert(k1.take(kn as int) =~= k1);
        proof {
            let kv = known_view(kept@);
            let f = k1.filter(still_listed(es));
            assert forall|a: int, b: int| 0 <= a < kv.len() && 0 <= b < kv.len() && a != b implies (#[trigger] kv[a]).0 != (#[trigger] kv[b]).0 by {
                lemma_filter_distinct(k1, still_listed(es));
            }
        }
        self.known = kept;
        changes
    }
}

/// Filtering keeps paths distinct.
proof fn lemma_filter_distinct(k: Seq<Known>, p: spec_fn(Known) -> bool)
    requires
        known_distinct(k),
    ensures
        known_distinct(k.filter(p)),
    decreases k.len(),
{
    reveal_with_fuel(Seq::<_>::filter, 1);
    if k.len() > 0 {
        lemma_filter_distinct(k.drop_last(), p);
        let f0 = k.drop_last().filter(p);
        if p(k.last()) {
            let f = f0.push(k.last());
            assert forall|a: int, b: int| 0 <= a < f.len() && 0 <= b < f.len() && a != b implies (#[trigger] f[a]).0 != (#[trigger] f[b]).0 by {
                if a == f0.len() || b == f0.len() {
                    let other = if a == f0.len() { b } else { a };
                    k.drop_last().lemma_filter_contains_rev(p, f0[other]);
                    assert(f0.contains(f0[other]));
                    let w = choose|w: int| 0 <= w < k.drop_last().len() && k.drop_last()[w] == f0[other];
                    assert(k[w] == k.drop_last()[w]);
                }
            }
        }
    }
}

// ───────────────────────── desk notes ─────────────────────────

/// A note on the desk.
#[derive(Debug)]
pub struct DeskNote {
    pub path: String,
    pub title: String,
    pub content: String,
    pub created: String,
}

/// An ASCII letter.
pub open spec fn is_ascii_letter(c: char) -> bool {
    ('a' <= c && c <= 'z') || ('A' <= c && c <= 'Z')
}

/// A name that starts with a Windows drive prefix (an ASCII letter and `:`),
/// which on Windows turns the name into a path on that drive.
pub open spec fn drive_prefixed(f: Seq<char>) -> bool {
    f.len() >= 2 && is_ascii_letter(f[0]) && f[1] == ':'
}

/// A note file name is refused when it contains `..`, `/` or `\`, and on
/// Windows also when it starts with a drive prefix: what is left is a plain
/// file name inside the desk directory.
pub open spec fn note_name_refused(f: Seq<char>, windows: bool) -> bool {
    seq_contains(f, ".."@) || seq_contains(f, "/"@) || seq_contains(f, "\\"@) || (windows && drive_prefixed(f))
}

/// Checks the file name of a note to be written on the desk; `windows` says
/// whether paths are read the Windows way.
pub fn check_note_name(f: &str, windows: bool) -> (r: Result<(), String>)
    ensures
        note_name_refused(f@, windows) ==> (r matches Err(e) && e@ == "Invalid filename"@),
        !note_name_refused(f@, windows) ==> r is Ok,
{
    if str_contains(f, "..") || str_contains(f, "/") || str_contains(f, "\\") {
        return Err(owned("Invalid filename"));
    }
    if windows {
        let cs = chars_of(f);
        if cs.len() >= 2 {
            let c = cs[0];
            if (('a' <= c && c <= 'z') || ('A' <= c && c <= 'Z')) && cs[1] == ':' {
                return Err(owned("Invalid filename"));
            }
        }
    }
    Ok(())
}

/// An accepted note name has no path separator and no `..`, and on Windows
/// no drive prefix, so the note stays in the desk directory.
pub proof fn law_accepted_note_names_stay_on_desk(f: Seq<char>, windows: bool)
    requires
        !note_name_refused(f, windows),
    ensures
        forall|i: int| 0 <= i < f.len() ==> f[i] != '/' && f[i] != '\\',
        !seq_contains(f, ".."@),
        windows ==> !drive_prefixed(f),
{
    reveal_strlit("/");
    reveal_strlit("\\");
    assert forall|i: int| 0 <= i < f.len() implies f[i] != '/' && f[i] != '\\' by {
        if f[i] == '/' {
            assert(f.subrange(i, i + 1) =~= "/"@);
        }
        if f[i] == '\\' {
            assert(f.subrange(i, i + 1) =~= "\\"@);
        }
    }
}

} // verus!
