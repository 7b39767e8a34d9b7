//! The table of conversion jobs: numbered as they are created, looked up by id, and moved
//! through their states as their commands run.
use vstd::prelude::*;
use crate::text::{concat, decimal, decimal_seq, lemma_decimal_injective, parse_decimal};
use std::collections::HashMap;

verus! {

broadcast use vstd::std_specs::hash::group_hash_axioms;

/// The state of a job.
#[derive(Clone, Copy, PartialEq, Eq, Structural, Debug)]
pub enum JobStatus {
    Pending,
    Running,
    Completed,
    Failed,
}

/// A conversion job and what its command printed.
#[derive(Debug)]
pub struct Job {
    pub id: String,
    pub status: JobStatus,
    pub output: String,
    pub exit_code: Option<i32>,
    pub created_at: u64,
}

/// A copy of a job.
pub fn copy_job(j: &Job) -> (r: Job)
    ensures
        r == *j,
{
    Job { id: j.id.clone(), status: j.status, output: j.output.clone(), exit_code: j.exit_code, created_at: j.created_at }
}

/// The last job of `jobs` whose id is `id`, if any.
pub open spec fn job_lookup(jobs: Seq<Job>, id: Seq<char>) -> Option<Job>
    decreases jobs.len(),
{
    if jobs.len() == 0 {
        None
    } else if jobs.last().id@ == id {
        Some(jobs.last())
    } else {
        job_lookup(jobs.drop_last(), id)
    }
}

/// The position of the last job of `jobs` whose id is `id`, if any.
pub open spec fn job_position(jobs: Seq<Job>, id: Seq<char>) -> Option<int>
    decreases jobs.len(),
{
    if jobs.len() == 0 {
        None
    } else if jobs.last().id@ == id {
        Some(jobs.len() - 1)
    } else {
        job_position(jobs.drop_last(), id)
    }
}

/// How a finished step leaves a job: its new status, its exit code when one is set,
/// and its new output.
#[derive(Debug)]
pub struct JobOutcome {
    pub status: JobStatus,
    pub exit_code: Option<i32>,
    pub output: String,
}

/// A job with an outcome applied; the exit code stays when the outcome sets none.
pub open spec fn with_outcome(j: Job, o: JobOutcome) -> Job {
    Job {
        status: o.status,
        exit_code: if o.exit_code is Some { o.exit_code } else { j.exit_code },
        output: o.output,
        ..j
    }
}

/// The jobs of the server, numbered 1, 2, 3, ... in the order they are created, and kept in a
/// hash map by number.
#[derive(Debug)]
pub struct JobStore {
    jobs: HashMap<u64, Job>,
    next_id: u64,
}

impl JobStore {
    /// The jobs, in the order they were created: job `k + 1` at position `k`.
    pub closed spec fn jobs(&self) -> Seq<Job> {
        Seq::new(self.count(), |i: int| self.jobs@[(i + 1) as u64])
    }

    /// How many jobs have been created.
    closed spec fn count(&self) -> nat {
        if self.next_id >= 1 { (self.next_id - 1) as nat } else { 0 }
    }

    /// The number the next job gets.
    pub closed spec fn next_number(&self) -> nat {
        self.next_id as nat
    }

    /// The store's invariant: the map holds exactly the numbers `1` to `next_number() - 1`,
    /// and job number `n` has id `n` in decimal.
    pub closed spec fn wf(&self) -> bool {
        &&& self.next_id >= 1
        &&& forall|n: u64| #[trigger] self.jobs@.contains_key(n) <==> 1 <= n < self.next_id
        &&& forall|n: u64| #[trigger] self.jobs@.contains_key(n) ==> self.jobs@[n].id@ == decimal_seq(n as nat)
    }

    /// An empty store; the first job gets id `1`.
    pub fn new() -> (s: Self)
        ensures
            s.wf(),
            s.jobs() == Seq::<Job>::empty(),
            s.next_number() == 1,
    {
        let s = JobStore { jobs: HashMap::new(), next_id: 1 };
        assert(s.jobs() =~= Seq::<Job>::empty());
        s
    }

    /// The number the next job gets.
    pub fn next_id(&self) -> (n: u64)
        ensures
            n == self.next_number(),
    {
        self.next_id
    }

    /// Records a new pending job created at `created_at` (seconds since the epoch) and
    /// returns its id, the decimal form of the next number.
    pub fn create(&mut self, created_at: u64) -> (id: String)
        requires
            old(self).wf(),
            old(self).next_number() < u64::MAX,
        ensures
            final(self).wf(),
            id@ == decimal_seq(old(self).next_number()),
            final(self).next_number() == old(self).next_number() + 1,
            final(self).jobs().len() == old(self).jobs().len() + 1,
            final(self).jobs().drop_last() == old(self).jobs(),
            final(self).jobs().last().id@ == id@,
            final(self).jobs().last().status == JobStatus::Pending,
            final(self).jobs().last().output@ == Seq::<char>::empty(),
            final(self).jobs().last().exit_code is None,
            final(self).jobs().last().created_at == created_at,
    {
        let n = self.next_id;
        let id = decimal(n);
        let job = Job { id: id.clone(), status: JobStatus::Pending, output: String::new(), exit_code: None, created_at };
        let ghost before = self.jobs();
        self.jobs.insert(n, job);
        self.next_id = n + 1;
        assert(self.jobs().drop_last() =~= before);
        assert(self.jobs().last() == self.jobs@[n]);
        id
    }

    /// The number of the job with id `id`, if there is one.
    fn position(&self, id: &str) -> (r: Option<u64>)
        requires
            self.wf(),
        ensures
            match r {
                Some(n) => 1 <= n < self.next_id && job_position(self.jobs(), id@) == Some(n - 1),
                None => job_position(self.jobs(), id@) is None,
            },
    {
        proof { self.lemma_job_ids(); }
        match parse_decimal(id) {
            Some(n) => {
                if 1 <= n && n < self.next_id {
                    proof {
                        assert(self.jobs()[n - 1].id@ == id@);
                        assert forall|j: int| n - 1 < j < self.jobs().len() implies #[trigger] self.jobs()[j].id@ != id@ by {
                            if self.jobs()[j].id@ == id@ {
                                lemma_decimal_injective((j + 1) as nat, n as nat);
                            }
                        }
                        lemma_position_unique(self.jobs(), id@, n - 1);
                    }
                    Some(n)
                } else {
                    proof {
                        assert forall|j: int| 0 <= j < self.jobs().len() implies #[trigger] self.jobs()[j].id@ != id@ by {
                            if self.jobs()[j].id@ == id@ {
                                lemma_decimal_injective((j + 1) as nat, n as nat);
                            }
                        }
                        lemma_position_absent(self.jobs(), id@);
                    }
                    None
                }
            },
            None => {
                proof {
                    assert forall|j: int| 0 <= j < self.jobs().len() implies #[trigger] self.jobs()[j].id@ != id@ by {
                        let n = (j + 1) as u64;
                        assert(decimal_seq(n as nat) != id@);
                    }
                    lemma_position_absent(self.jobs(), id@);
                }
                None
            },
        }
    }

    /// Job number `n`, copied.
    fn job_at(&self, n: u64) -> (j: Job)
        requires
            self.wf(),
            1 <= n < self.next_id,
        ensures
            j == self.jobs()[n - 1],
    {
        assert(self.jobs@.contains_key(n));
        match self.jobs.get(&n) {
            Some(j) => copy_job(j),
            None => {
                assert(false);
                copy_job(&Job { id: String::new(), status: JobStatus::Pending, output: String::new(), exit_code: None, created_at: 0 })
            },
        }
    }

    /// Each job's id is its number in decimal, and the number after the last is the next.
    proof fn lemma_job_ids(&self)
        requires
            self.wf(),
        ensures
            self.jobs().len() + 1 == self.next_number(),
            forall|k: int| 0 <= k < self.jobs().len() ==> #[trigger] self.jobs()[k].id@ == decimal_seq((k + 1) as nat),
    {
        assert forall|k: int| 0 <= k < self.jobs().len() implies #[trigger] self.jobs()[k].id@ == decimal_seq((k + 1) as nat) by {
            assert(self.jobs@.contains_key((k + 1) as u64));
        }
    }

    /// The job with id `id`, if there is one.
    pub fn get(&self, id: &str) -> (r: Option<Job>)
        requires
            self.wf(),
        ensures
            r == job_lookup(self.jobs(), id@),
    {
        proof { lemma_lookup_position(self.jobs(), id@); }
        match self.position(id) {
            Some(n) => Some(self.job_at(n)),
            None => None,
        }
    }

    /// All jobs, in the order they were created.
    pub fn list(&self) -> (r: Vec<Job>)
        requires
            self.wf(),
        ensures
            r@ == self.jobs(),
    {
        let mut r: Vec<Job> = Vec::new();
        let mut n: u64 = 1;
        assert(self.jobs().take(0) =~= Seq::<Job>::empty());
        while n < self.next_id
            invariant
                self.wf(),
                1 <= n <= self.next_id,
                r@ == self.jobs().take(n - 1),
            decreases self.next_id - n,
        {
            let j = self.job_at(n);
            r.push(j);
            assert(self.jobs().take(n as int) =~= self.jobs().take(n - 1).push(self.jobs()[n - 1]));
            n += 1;
        }
        assert(self.jobs().take(self.jobs().len() as int) =~= self.jobs());
        r
    }

    fn replace_at(&mut self, n: u64, j: Job)
        requires
            old(self).wf(),
            1 <= n < old(self).next_id,
            j.id@ == old(self).jobs()[n - 1].id@,
        ensures
            final(self).wf(),
            final(self).jobs() == old(self).jobs().update(n - 1, j),
            final(self).next_id == old(self).next_id,
    {
        assert(old(self).jobs@.contains_key(n));
        let ghost before = self.jobs();
        self.jobs.insert(n, j);
        assert(self.jobs() =~= before.update(n - 1, j));
    }

    /// Marks job `id` as running; other jobs are unchanged, and nothing happens when there is
    /// no such job.
    pub fn set_running(&mut self, id: &str)
        requires
            old(self).wf(),
        ensures
            final(self).wf(),
            final(self).next_number() == old(self).next_number(),
            match job_position(old(self).jobs(), id@) {
                Some(k) => final(self).jobs() == old(self).jobs().update(k, Job { status: JobStatus::Running, ..old(self).jobs()[k] }),
                None => final(self).jobs() == old(self).jobs(),
            },
    {
        match self.position(id) {
            Some(n) => {
                let j = self.job_at(n);
                self.replace_at(n, Job { status: JobStatus::Running, ..j });
            },
            None => {},
        }
    }

    /// Records the end of job `id`'s command: its exit code (if the process gave one), its
    /// output, and `Completed` when the command succeeded, else `Failed`.
    pub fn finish(&mut self, id: &str, exit_code: Option<i32>, success: bool, output: String)
        requires
            old(self).wf(),
        ensures
            final(self).wf(),
            final(self).next_number() == old(self).next_number(),
            match job_position(old(self).jobs(), id@) {
                Some(k) => final(self).jobs() == old(self).jobs().update(k, Job {
                    status: if success { JobStatus::Completed } else { JobStatus::Failed },
                    exit_code: exit_code,
                    output: output,
                    ..old(self).jobs()[k]
                }),
                None => final(self).jobs() == old(self).jobs(),
            },
    {
        match self.position(id) {
            Some(n) => {
                let j = self.job_at(n);
                let status = if success { JobStatus::Completed } else { JobStatus::Failed };
                self.replace_at(n, Job { status, exit_code, output, ..j });
            },
            None => {},
        }
    }

    /// Marks job `id` failed after a system error, appending
    /// `"\n[system error] " + error + "\n"` to its output.
    pub fn fail_system(&mut self, id: &str, error: &str)
        requires
            old(self).wf(),
        ensures
            final(self).wf(),
            final(self).next_number() == old(self).next_number(),
            match job_position(old(self).jobs(), id@) {
                Some(k) => {
                    &&& final(self).jobs().len() == old(self).jobs().len()
                    &&& forall|m: int| 0 <= m < old(self).jobs().len() && m != k ==> #[trigger] final(self).jobs()[m] == old(self).jobs()[m]
                    &&& final(self).jobs()[k].status == JobStatus::Failed
                    &&& final(self).jobs()[k].output@ == system_error_output(old(self).jobs()[k].output@, error@)
                    &&& final(self).jobs()[k].id == old(self).jobs()[k].id
                    &&& final(self).jobs()[k].exit_code == old(self).jobs()[k].exit_code
                    &&& final(self).jobs()[k].created_at == old(self).jobs()[k].created_at
                },
                None => final(self).jobs() == old(self).jobs(),
            },
    {
        match self.position(id) {
            Some(n) => {
                let j = self.job_at(n);
                let a = concat(j.output.as_str(), "\n[system error] ");
                let b = concat(a.as_str(), error);
                let output = concat(b.as_str(), "\n");
                self.replace_at(n, Job { status: JobStatus::Failed, output, ..j });
            },
            None => {},
        }
    }

    /// Applies the outcome of a step to job `id`.
    pub fn apply(&mut self, id: &str, outcome: JobOutcome)
        requires
            old(self).wf(),
        ensures
            final(self).wf(),
            final(self).next_number() == old(self).next_number(),
            match job_position(old(self).jobs(), id@) {
                Some(k) => final(self).jobs() == old(self).jobs().update(k, with_outcome(old(self).jobs()[k], outcome)),
                None => final(self).jobs() == old(self).jobs(),
            },
    {
        match self.position(id) {
            Some(n) => {
                let j = self.job_at(n);
                let exit_code = match outcome.exit_code { Some(c) => Some(c), None => j.exit_code };
                self.replace_at(n, Job { status: outcome.status, exit_code, output: outcome.output, ..j });
            },
            None => {},
        }
    }
}

/// A job's output after a system error.
pub open spec fn system_error_output(output: Seq<char>, error: Seq<char>) -> Seq<char> {
    output + "\n[system error] "@ + error + "\n"@
}

proof fn lemma_lookup_position(jobs: Seq<Job>, id: Seq<char>)
    ensures
        match job_position(jobs, id) {
            Some(k) => 0 <= k < jobs.len() && job_lookup(jobs, id) == Some(jobs[k]) && jobs[k].id@ == id,
            None => job_lookup(jobs, id) is None,
        },
    decreases jobs.len(),
{
    if jobs.len() > 0 && jobs.last().id@ != id {
        lemma_lookup_position(jobs.drop_last(), id);
    }
}

proof fn lemma_position_unique(jobs: Seq<Job>, id: Seq<char>, i: int)
    requires
        0 <= i < jobs.len(),
        jobs[i].id@ == id,
        forall|j: int| i < j < jobs.len() ==> #[trigger] jobs[j].id@ != id,
    ensures
        job_position(jobs, id) == Some(i),
    decreases jobs.len(),
{
    if i < jobs.len() - 1 {
        assert(jobs.last() == jobs[jobs.len() - 1]);
        lemma_position_unique(jobs.drop_last(), id, i);
    }
}

proof fn lemma_position_absent(jobs: Seq<Job>, id: Seq<char>)
    requires
        forall|j: int| 0 <= j < jobs.len() ==> #[trigger] jobs[j].id@ != id,
    ensures
        job_position(jobs, id) is None,
    decreases jobs.len(),
{
    if jobs.len() > 0 {
        assert(jobs.last() == jobs[jobs.len() - 1]);
        lemma_position_absent(jobs.drop_last(), id);
    }
}


proof fn lemma_lookup_unique(jobs: Seq<Job>, id: Seq<char>, i: int)
    requires
        0 <= i < jobs.len(),
        jobs[i].id@ == id,
        forall|j: int| i < j < jobs.len() ==> #[trigger] jobs[j].id@ != id,
    ensures
        job_lookup(jobs, id) == Some(jobs[i]),
    decreases jobs.len(),
{
    if i < jobs.len() - 1 {
        assert(jobs.last() == jobs[jobs.len() - 1]);
        lemma_lookup_unique(jobs.drop_last(), id, i);
    }
}

/// No two jobs of a store share an id.
pub proof fn law_job_ids_distinct(s: JobStore)
    requires
        s.wf(),
    ensures
        forall|a: int, b: int| 0 <= a < s.jobs().len() && 0 <= b < s.jobs().len() && a != b
            ==> #[trigger] s.jobs()[a].id@ != #[trigger] s.jobs()[b].id@,
{
    s.lemma_job_ids();
    assert forall|a: int, b: int| 0 <= a < s.jobs().len() && 0 <= b < s.jobs().len() && a != b
        implies #[trigger] s.jobs()[a].id@ != #[trigger] s.jobs()[b].id@ by {
        if s.jobs()[a].id@ == s.jobs()[b].id@ {
            lemma_decimal_injective((a + 1) as nat, (b + 1) as nat);
        }
    }
}

/// The job created `k`-th (counting from 1) has id `k` in decimal, and looking that id up
/// finds it.
pub proof fn law_job_found_by_number(s: JobStore, k: nat)
    requires
        s.wf(),
        1 <= k <= s.jobs().len(),
    ensures
        s.jobs()[k - 1].id@ == decimal_seq(k),
        job_lookup(s.jobs(), decimal_seq(k)) == Some(s.jobs()[k - 1]),
{
    law_job_ids_distinct(s);
    s.lemma_job_ids();
    assert(s.jobs()[k - 1].id@ == decimal_seq(k));
    lemma_lookup_unique(s.jobs(), decimal_seq(k), k - 1);
}

/// After a job is added, its id finds it, and every other id finds what it found before.
pub proof fn law_create_then_get(before: Seq<Job>, after: Seq<Job>, other: Seq<char>)
    requires
        after.len() == before.len() + 1,
        after.drop_last() == before,
    ensures
        job_lookup(after, after.last().id@) == Some(after.last()),
        other != after.last().id@ ==> job_lookup(after, other) == job_lookup(before, other),
{
}

} // verus!
