//! The ledger: the jobs that were started at the service and are not yet
//! resolved, at most one per job id, in the order in which they were added.
use crate::error::ArchiveError;
use crate::seqs::{lemma_filter_members, lemma_filter_push, lemma_filter_take_next};
use vstd::prelude::*;
use vstd::string::StrSliceExecFns;
use vstd::string::StringExecFns;

verus! {

/// How long, in seconds, a job stays in the ledger before it is given up.
pub const TWENTY_FOUR_HOURS: i64 = 86400;

/// What a job at the service produces.
#[derive(Debug, Clone, Copy, PartialEq, Eq, Structural)]
pub enum JobType {
    Inventory,
    Retrieval,
}

/// A job that was started at the service.
#[derive(Debug)]
pub struct InitiatedJob {
    pub location: String,
    pub job_id: String,
    pub vault: String,
    pub timestamp: i64,
    pub job_type: JobType,
}

impl Clone for InitiatedJob {
    fn clone(&self) -> (r: Self)
        ensures
            r == *self,
    {
        InitiatedJob {
            location: self.location.clone(),
            job_id: self.job_id.clone(),
            vault: self.vault.clone(),
            timestamp: self.timestamp,
            job_type: self.job_type,
        }
    }
}

/// The number of characters of `s` before its first `/`; all of them where
/// `s` has none.
pub open spec fn segment_len(s: Seq<char>) -> nat
    decreases s.len(),
{
    if s.len() == 0 || s[0] == '/' {
        0
    } else {
        1 + segment_len(s.skip(1))
    }
}

/// The `n`-th of the pieces into which the `/` characters cut `s`, counted
/// from 0; `None` where `s` has no more than `n` pieces.
pub open spec fn segment(s: Seq<char>, n: nat) -> Option<Seq<char>>
    decreases n,
{
    let first = segment_len(s);
    if n == 0 {
        Some(s.take(first as int))
    } else if first >= s.len() {
        None
    } else {
        segment(s.skip(first as int + 1), (n - 1) as nat)
    }
}

/// The vault that a job's resource path names: its piece number 3, as in
/// `/account/vaults/NAME/jobs/ID`.
pub open spec fn vault_of_location(location: Seq<char>) -> Option<Seq<char>> {
    segment(location, 3)
}

/// A piece ends where the first `/` stands, or where the text ends.
proof fn lemma_segment_len(s: Seq<char>, m: int)
    requires
        0 <= m <= s.len(),
        forall|k: int| 0 <= k < m ==> s[k] != '/',
        m == s.len() || s[m] == '/',
    ensures
        segment_len(s) == m,
    decreases m,
{
    if m > 0 {
        lemma_segment_len(s.skip(1), m - 1);
    }
}

/// The vault named by the resource path of a job.
///
/// Fails with `MalformedLocation` exactly when the path has fewer than four
/// pieces between its `/` characters.
pub fn vault_from_location(location: &str) -> (r: Result<String, ArchiveError>)
    ensures
        match r {
            Ok(vault) => vault_of_location(location@) == Some(vault@),
            Err(e) => e == ArchiveError::MalformedLocation && vault_of_location(location@) is None,
        },
{
    let len = location.unicode_len();
    let mut start: usize = 0;
    let mut seen: usize = 0;
    proof {
        assert(location@.skip(0) =~= location@);
    }
    loop
        invariant
            len == location@.len(),
            start <= len,
            seen <= 3,
            segment(location@, 3) == segment(location@.skip(start as int), (3 - seen) as nat),
        decreases 3 - seen,
    {
        let mut end: usize = start;
        while end < len && location.get_char(end) != '/'
            invariant
                len == location@.len(),
                start <= end <= len,
                forall|k: int| start <= k < end ==> location@[k] != '/',
            decreases len - end,
        {
            end = end + 1;
        }
        proof {
            let rest = location@.skip(start as int);
            lemma_segment_len(rest, end - start);
            assert(rest.take(end - start) =~= location@.subrange(start as int, end as int));
            if end < len {
                assert(rest.skip(end - start + 1) =~= location@.skip(end + 1));
            }
        }
        if seen == 3 {
            return Ok(String::from_str(location.substring_char(start, end)));
        }
        if end == len {
            return Err(ArchiveError::MalformedLocation);
        }
        start = end + 1;
        seen = seen + 1;
    }
}

/// Whether no two jobs of `jobs` have the same id.
pub open spec fn unique_ids(jobs: Seq<InitiatedJob>) -> bool {
    forall|i: int, j: int|
        0 <= i < j < jobs.len() ==> (#[trigger] jobs[i]).job_id@ != (#[trigger] jobs[j]).job_id@
}

/// Whether `jobs` holds a job with the id `id`.
pub open spec fn holds_job(jobs: Seq<InitiatedJob>, id: Seq<char>) -> bool {
    exists|i: int| 0 <= i < jobs.len() && (#[trigger] jobs[i]).job_id@ == id
}

/// The test that passes every job but those with the id `id`.
pub open spec fn other_than(id: Seq<char>) -> spec_fn(InitiatedJob) -> bool {
    |job: InitiatedJob| job.job_id@ != id
}

/// Whether a job started at `timestamp` is younger than `ttl` at `now`.
pub open spec fn is_live(timestamp: int, now: int, ttl: int) -> bool {
    now - timestamp < ttl
}

/// The test that passes the jobs that are younger than `ttl` at `now`.
pub open spec fn live_at(now: int, ttl: int) -> spec_fn(InitiatedJob) -> bool {
    |job: InitiatedJob| is_live(job.timestamp as int, now, ttl)
}

/// `jobs` without the job of the id `id`.
pub open spec fn without_job(jobs: Seq<InitiatedJob>, id: Seq<char>) -> Seq<InitiatedJob> {
    jobs.filter(other_than(id))
}

/// `jobs` with `job` added at the end, in place of any job of the same id.
pub open spec fn with_job(jobs: Seq<InitiatedJob>, job: InitiatedJob) -> Seq<InitiatedJob> {
    without_job(jobs, job.job_id@).push(job)
}

/// `jobs` without the jobs that have reached the age `ttl` at `now`.
pub open spec fn pruned(jobs: Seq<InitiatedJob>, now: int, ttl: int) -> Seq<InitiatedJob> {
    jobs.filter(live_at(now, ttl))
}

/// The ledger that results from adding the jobs of `jobs` one by one.
pub open spec fn ledger_of(jobs: Seq<InitiatedJob>) -> Seq<InitiatedJob>
    decreases jobs.len(),
{
    if jobs.len() == 0 {
        jobs
    } else {
        with_job(ledger_of(jobs.drop_last()), jobs.last())
    }
}

/// Leaving jobs out of a ledger keeps the ids of the others distinct.
pub proof fn lemma_filter_keeps_unique(jobs: Seq<InitiatedJob>, keep: spec_fn(InitiatedJob) -> bool)
    requires
        unique_ids(jobs),
    ensures
        unique_ids(jobs.filter(keep)),
    decreases jobs.len(),
{
    reveal(Seq::filter);
    if jobs.len() > 0 {
        let front = jobs.drop_last();
        let kept = front.filter(keep);
        assert(unique_ids(front)) by {
            assert forall|i: int, j: int| 0 <= i < j < front.len() implies (#[trigger] front[i]).job_id@
                != (#[trigger] front[j]).job_id@ by {
                assert(front[i] == jobs[i] && front[j] == jobs[j]);
            }
        }
        lemma_filter_keeps_unique(front, keep);
        lemma_filter_members(front, keep);
        if keep(jobs.last()) {
            let all = jobs.filter(keep);
            assert(all == kept.push(jobs.last()));
            assert forall|i: int, j: int| 0 <= i < j < all.len() implies (#[trigger] all[i]).job_id@
                != (#[trigger] all[j]).job_id@ by {
                if j == kept.len() {
                    assert(front.contains(kept[i]));
                    let k = choose|k: int| 0 <= k < front.len() && front[k] == kept[i];
                    assert(jobs[k] == kept[i]);
                    assert(jobs[jobs.len() - 1] == all[j]);
                } else {
                    assert(all[i] == kept[i] && all[j] == kept[j]);
                }
            }
        }
    }
}

/// A job is in what is left after a removal exactly when it was there
/// before and has another id.
pub proof fn lemma_without_job(jobs: Seq<InitiatedJob>, id: Seq<char>)
    ensures
        !holds_job(without_job(jobs, id), id),
        forall|other: Seq<char>|
            other != id ==> (holds_job(without_job(jobs, id), other) <==> holds_job(jobs, other)),
        unique_ids(jobs) ==> unique_ids(without_job(jobs, id)),
{
    let rest = without_job(jobs, id);
    lemma_filter_members(jobs, other_than(id));
    if unique_ids(jobs) {
        lemma_filter_keeps_unique(jobs, other_than(id));
    }
    assert forall|other: Seq<char>| other != id implies (holds_job(rest, other) <==> holds_job(
        jobs,
        other,
    )) by {
        if holds_job(rest, other) {
            let i = choose|i: int| 0 <= i < rest.len() && (#[trigger] rest[i]).job_id@ == other;
            assert(jobs.contains(rest[i]));
            let k = choose|k: int| 0 <= k < jobs.len() && jobs[k] == rest[i];
            assert(jobs[k].job_id@ == other);
        }
        if holds_job(jobs, other) {
            let i = choose|i: int| 0 <= i < jobs.len() && (#[trigger] jobs[i]).job_id@ == other;
            assert(other_than(id)(jobs[i]));
            assert(rest.contains(jobs[i]));
            let k = choose|k: int| 0 <= k < rest.len() && rest[k] == jobs[i];
            assert(rest[k].job_id@ == other);
        }
    }
}

/// Removing a job that the ledger does not hold changes nothing.
pub proof fn lemma_remove_absent_job(jobs: Seq<InitiatedJob>, id: Seq<char>)
    requires
        !holds_job(jobs, id),
    ensures
        without_job(jobs, id) == jobs,
    decreases jobs.len(),
{
    reveal(Seq::filter);
    if jobs.len() > 0 {
        let front = jobs.drop_last();
        assert(!holds_job(front, id)) by {
            if holds_job(front, id) {
                let i = choose|i: int| 0 <= i < front.len() && (#[trigger] front[i]).job_id@ == id;
                assert(jobs[i].job_id@ == id);
            }
        }
        lemma_remove_absent_job(front, id);
        assert(jobs[jobs.len() - 1].job_id@ != id);
        assert(front.push(jobs.last()) =~= jobs);
    } else {
        assert(without_job(jobs, id) =~= jobs);
    }
}

/// Adding a job keeps the ids distinct and leaves the ledger holding it.
pub proof fn lemma_with_job(jobs: Seq<InitiatedJob>, job: InitiatedJob)
    requires
        unique_ids(jobs),
    ensures
        unique_ids(with_job(jobs, job)),
        with_job(jobs, job).last() == job,
        holds_job(with_job(jobs, job), job.job_id@),
{
    let rest = without_job(jobs, job.job_id@);
    let all = with_job(jobs, job);
    lemma_without_job(jobs, job.job_id@);
    assert(all[all.len() - 1] == job);
    assert forall|i: int, j: int| 0 <= i < j < all.len() implies (#[trigger] all[i]).job_id@ != (
    #[trigger] all[j]).job_id@ by {
        if j == rest.len() {
            assert(rest[i] == all[i]);
        } else {
            assert(rest[i] == all[i] && rest[j] == all[j]);
        }
    }
}

/// A job that was just added outlives a pruning at which it is younger than
/// the time to live: it is still the last job of the ledger.
pub proof fn lemma_insert_then_prune_keeps(
    jobs: Seq<InitiatedJob>,
    job: InitiatedJob,
    now: int,
    ttl: int,
)
    requires
        now - job.timestamp < ttl,
    ensures
        pruned(with_job(jobs, job), now, ttl).len() > 0,
        pruned(with_job(jobs, job), now, ttl).last() == job,
        holds_job(pruned(with_job(jobs, job), now, ttl), job.job_id@),
{
    let rest = without_job(jobs, job.job_id@);
    lemma_filter_push(rest, job, live_at(now, ttl));
    let left = pruned(with_job(jobs, job), now, ttl);
    assert(left == rest.filter(live_at(now, ttl)).push(job));
    assert(left[left.len() - 1] == job);
}

/// A job that was just added is gone after a pruning at which it has
/// reached the time to live: the ledger then holds no job of its id.
pub proof fn lemma_insert_then_prune_removes(
    jobs: Seq<InitiatedJob>,
    job: InitiatedJob,
    now: int,
    ttl: int,
)
    requires
        now - job.timestamp >= ttl,
    ensures
        !holds_job(pruned(with_job(jobs, job), now, ttl), job.job_id@),
        pruned(with_job(jobs, job), now, ttl) == pruned(without_job(jobs, job.job_id@), now, ttl),
{
    let rest = without_job(jobs, job.job_id@);
    lemma_filter_push(rest, job, live_at(now, ttl));
    lemma_without_job(jobs, job.job_id@);
    let left = pruned(rest, now, ttl);
    lemma_filter_members(rest, live_at(now, ttl));
    if holds_job(left, job.job_id@) {
        let i = choose|i: int| 0 <= i < left.len() && (#[trigger] left[i]).job_id@ == job.job_id@;
        assert(rest.contains(left[i]));
        let k = choose|k: int| 0 <= k < rest.len() && rest[k] == left[i];
        assert(rest[k].job_id@ == job.job_id@);
    }
}

/// A job survives a pruning exactly when it is younger than the time to
/// live, and pruning keeps the ids distinct.
pub proof fn lemma_pruned(jobs: Seq<InitiatedJob>, now: int, ttl: int)
    ensures
        forall|i: int|
            0 <= i < pruned(jobs, now, ttl).len() ==> is_live(
                (#[trigger] pruned(jobs, now, ttl)[i]).timestamp as int,
                now,
                ttl,
            ) && jobs.contains(pruned(jobs, now, ttl)[i]),
        forall|i: int|
            0 <= i < jobs.len() && is_live(jobs[i].timestamp as int, now, ttl) ==> pruned(
                jobs,
                now,
                ttl,
            ).contains(#[trigger] jobs[i]),
        unique_ids(jobs) ==> unique_ids(pruned(jobs, now, ttl)),
{
    lemma_filter_members(jobs, live_at(now, ttl));
    if unique_ids(jobs) {
        lemma_filter_keeps_unique(jobs, live_at(now, ttl));
    }
}

/// Building a ledger from jobs of distinct ids keeps them all, in order.
pub proof fn lemma_ledger_of_unique(jobs: Seq<InitiatedJob>)
    requires
        unique_ids(jobs),
    ensures
        ledger_of(jobs) == jobs,
    decreases jobs.len(),
{
    if jobs.len() > 0 {
        let front = jobs.drop_last();
        assert(unique_ids(front)) by {
            assert forall|i: int, j: int| 0 <= i < j < front.len() implies (#[trigger] front[i]).job_id@
                != (#[trigger] front[j]).job_id@ by {
                assert(front[i] == jobs[i] && front[j] == jobs[j]);
            }
        }
        lemma_ledger_of_unique(front);
        assert(!holds_job(front, jobs.last().job_id@)) by {
            if holds_job(front, jobs.last().job_id@) {
                let i = choose|i: int|
                    0 <= i < front.len() && (#[trigger] front[i]).job_id@ == jobs.last().job_id@;
                assert(jobs[i].job_id@ == jobs[jobs.len() - 1].job_id@);
            }
        }
        lemma_remove_absent_job(front, jobs.last().job_id@);
        assert(front.push(jobs.last()) =~= jobs);
    }
}

/// Whatever the jobs, the ledger built from them has distinct ids.
pub proof fn lemma_ledger_of_is_unique(jobs: Seq<InitiatedJob>)
    ensures
        unique_ids(ledger_of(jobs)),
    decreases jobs.len(),
{
    if jobs.len() > 0 {
        lemma_ledger_of_is_unique(jobs.drop_last());
        lemma_with_job(ledger_of(jobs.drop_last()), jobs.last());
    }
}

/// The jobs of `jobs` whose id is not `id`, in their order.
fn jobs_other_than(jobs: &Vec<InitiatedJob>, id: &str) -> (r: Vec<InitiatedJob>)
    ensures
        r@ == without_job(jobs@, id@),
{
    let ghost keep = other_than(id@);
    let unwanted = String::from_str(id);
    let mut kept: Vec<InitiatedJob> = Vec::new();
    let mut i: usize = 0;
    proof {
        assert(jobs@.take(0) =~= Seq::<InitiatedJob>::empty());
        reveal(Seq::filter);
    }
    while i < jobs.len()
        invariant
            i <= jobs.len(),
            unwanted@ == id@,
            keep == other_than(id@),
            kept@ == jobs@.take(i as int).filter(keep),
        decreases jobs.len() - i,
    {
        proof {
            lemma_filter_take_next(jobs@, i as int, keep);
        }
        if jobs[i].job_id != unwanted {
            kept.push(jobs[i].clone());
        }
        i = i + 1;
    }
    proof {
        assert(jobs@.take(jobs@.len() as int) =~= jobs@);
    }
    kept
}

/// The jobs of `jobs` that are younger than `ttl` at `now`, in their order.
fn jobs_live_at(jobs: &Vec<InitiatedJob>, now: i64, ttl: i64) -> (r: Vec<InitiatedJob>)
    ensures
        r@ == pruned(jobs@, now as int, ttl as int),
{
    let ghost keep = live_at(now as int, ttl as int);
    let mut kept: Vec<InitiatedJob> = Vec::new();
    let mut i: usize = 0;
    proof {
        assert(jobs@.take(0) =~= Seq::<InitiatedJob>::empty());
        reveal(Seq::filter);
    }
    while i < jobs.len()
        invariant
            i <= jobs.len(),
            keep == live_at(now as int, ttl as int),
            kept@ == jobs@.take(i as int).filter(keep),
        decreases jobs.len() - i,
    {
        proof {
            lemma_filter_take_next(jobs@, i as int, keep);
        }
        if (now as i128) - (jobs[i].timestamp as i128) < (ttl as i128) {
            kept.push(jobs[i].clone());
        }
        i = i + 1;
    }
    proof {
        assert(jobs@.take(jobs@.len() as int) =~= jobs@);
    }
    kept
}

/// The set of unresolved jobs, keyed by job id and kept in the order in
/// which the jobs were added.
#[derive(Debug)]
pub struct JobLedger {
    jobs: Vec<InitiatedJob>,
}

impl View for JobLedger {
    type V = Seq<InitiatedJob>;

    closed spec fn view(&self) -> Seq<InitiatedJob> {
        self.jobs@
    }
}

impl JobLedger {
    #[verifier::type_invariant]
    spec fn well_formed(&self) -> bool {
        unique_ids(self.jobs@)
    }

    /// A ledger without jobs.
    pub fn new() -> (r: JobLedger)
        ensures
            r@ == Seq::<InitiatedJob>::empty(),
    {
        JobLedger { jobs: Vec::new() }
    }

    /// The ledger that results from adding `jobs` one by one: where two of
    /// them have the same id, the later one stays.
    pub fn from_jobs(jobs: Vec<InitiatedJob>) -> (r: JobLedger)
        ensures
            r@ == ledger_of(jobs@),
            unique_ids(r@),
            unique_ids(jobs@) ==> r@ == jobs@,
    {
        let mut ledger = JobLedger::new();
        let mut i: usize = 0;
        proof {
            assert(jobs@.take(0) =~= Seq::<InitiatedJob>::empty());
        }
        while i < jobs.len()
            invariant
                i <= jobs.len(),
                ledger@ == ledger_of(jobs@.take(i as int)),
            decreases jobs.len() - i,
        {
            proof {
                assert(jobs@.take(i + 1).drop_last() =~= jobs@.take(i as int));
            }
            ledger.insert(jobs[i].clone());
            i = i + 1;
        }
        proof {
            assert(jobs@.take(jobs@.len() as int) =~= jobs@);
            lemma_ledger_of_is_unique(jobs@);
            if unique_ids(jobs@) {
                lemma_ledger_of_unique(jobs@);
            }
        }
        ledger
    }

    /// The ledger that a ledger file stands for, where `parsed` is what the
    /// file holds, or `None` where the file cannot be parsed.
    ///
    /// A file that cannot be parsed stands for an empty ledger. The failure
    /// comes back beside the ledger, as a warning: it is never an error.
    pub fn load(parsed: Option<Vec<InitiatedJob>>) -> (r: (JobLedger, Option<ArchiveError>))
        ensures
            match parsed {
                Some(jobs) => r.0@ == ledger_of(jobs@) && r.1 is None,
                None => r.0@ == Seq::<InitiatedJob>::empty() && r.1 == Some(
                    ArchiveError::LedgerCorrupt,
                ),
            },
            unique_ids(r.0@),
    {
        match parsed {
            Some(jobs) => (JobLedger::from_jobs(jobs), None),
            None => (JobLedger::new(), Some(ArchiveError::LedgerCorrupt)),
        }
    }

    /// The jobs of the ledger, oldest entry first. No two have the same id.
    pub fn list(&self) -> (r: &Vec<InitiatedJob>)
        ensures
            r@ == self@,
            unique_ids(r@),
    {
        proof {
            use_type_invariant(self);
        }
        &self.jobs
    }

    /// Whether the ledger holds a job with the id `job_id`.
    pub fn contains(&self, job_id: &str) -> (r: bool)
        ensures
            r == holds_job(self@, job_id@),
    {
        let wanted = String::from_str(job_id);
        let mut i: usize = 0;
        while i < self.jobs.len()
            invariant
                i <= self.jobs.len(),
                wanted@ == job_id@,
                forall|j: int| 0 <= j < i ==> (#[trigger] self.jobs@[j]).job_id@ != job_id@,
            decreases self.jobs.len() - i,
        {
            if self.jobs[i].job_id == wanted {
                return true;
            }
            i = i + 1;
        }
        false
    }

    /// Adds `job` at the end, in place of any job of the same id.
    pub fn insert(&mut self, job: InitiatedJob)
        ensures
            final(self)@ == with_job(old(self)@, job),
    {
        proof {
            use_type_invariant(&*self);
            lemma_with_job(self.jobs@, job);
        }
        let mut kept = jobs_other_than(&self.jobs, job.job_id.as_str());
        kept.push(job);
        self.jobs = kept;
    }

    /// Takes the job with the id `job_id` out. Where the ledger holds no
    /// such job, nothing changes.
    pub fn remove(&mut self, job_id: &str)
        ensures
            final(self)@ == without_job(old(self)@, job_id@),
            !holds_job(old(self)@, job_id@) ==> final(self)@ == old(self)@,
    {
        proof {
            use_type_invariant(&*self);
            lemma_without_job(self.jobs@, job_id@);
            if !holds_job(self.jobs@, job_id@) {
                lemma_remove_absent_job(self.jobs@, job_id@);
            }
        }
        let kept = jobs_other_than(&self.jobs, job_id);
        self.jobs = kept;
    }

    /// Takes out the jobs that have reached the age `ttl` at `now`: a job
    /// stays exactly when `now` less its timestamp is under `ttl`.
    pub fn prune(&mut self, now: i64, ttl: i64)
        ensures
            final(self)@ == pruned(old(self)@, now as int, ttl as int),
    {
        proof {
            use_type_invariant(&*self);
            lemma_pruned(self.jobs@, now as int, ttl as int);
        }
        let kept = jobs_live_at(&self.jobs, now, ttl);
        self.jobs = kept;
    }

    /// Enters a job that the service has just started, with the vault that
    /// its resource path names.
    ///
    /// Fails with `MalformedLocation`, and leaves the ledger as it was,
    /// exactly when the path names no vault.
    pub fn record(
        &mut self,
        location: String,
        job_id: String,
        job_type: JobType,
        timestamp: i64,
    ) -> (r: Result<(), ArchiveError>)
        ensures
            match r {
                Ok(()) => {
                    &&& vault_of_location(location@) is Some
                    &&& final(self)@.len() > 0
                    &&& final(self)@ == with_job(old(self)@, final(self)@.last())
                    &&& final(self)@.last().location == location
                    &&& final(self)@.last().job_id == job_id
                    &&& final(self)@.last().vault@ == vault_of_location(location@)->Some_0
                    &&& final(self)@.last().timestamp == timestamp
                    &&& final(self)@.last().job_type == job_type
                },
                Err(e) => {
                    &&& e == ArchiveError::MalformedLocation
                    &&& vault_of_location(location@) is None
                    &&& final(self)@ == old(self)@
                },
            },
    {
        match vault_from_location(location.as_str()) {
            Ok(vault) => {
                let job = InitiatedJob { location, job_id, vault, timestamp, job_type };
                self.insert(job);
                Ok(())
            },
            Err(e) => Err(e),
        }
    }
}

} // verus!
