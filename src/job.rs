use vstd::prelude::*;

verus! {

/// Why a due job was not executed in this cycle.
#[derive(Debug, Clone, Copy, PartialEq, Eq, Structural)]
pub enum InternalError {
    /// The network fee of the built transaction exceeds the job's balance.
    NoBalanceLeft,
    /// Simulation, building or parsing failed.
    Other,
}

/// A recurring job: every `interval` seconds it calls `function` on `contract`,
/// paid from `balance`.
pub struct RunningJob {
    pub name: String,
    pub interval: u64,
    pub function: String,
    pub contract: String,
    pub last: u64,
    pub balance: i64,
    pub creator: String,
}

/// A registration request for a new job.
pub struct Request {
    pub name: String,
    pub interval: u64,
    pub function: String,
    pub contract: String,
    pub counter_start: u64,
    pub creator: String,
}

impl RunningJob {
    /// The job has elapsed its interval at time `now`.
    pub open spec fn spec_due(&self, now: u64) -> bool {
        self.last as int + self.interval as int <= now as int
    }

    /// Whether the job is due at time `now`.
    pub fn is_due(&self, now: u64) -> (r: bool)
        ensures
            r == self.spec_due(now),
    {
        self.last <= now && self.interval <= now - self.last
    }

    /// A field-for-field copy of the job.
    pub fn copy(&self) -> (r: RunningJob)
        ensures
            r == *self,
    {
        RunningJob {
            name: self.name.clone(),
            interval: self.interval,
            function: self.function.clone(),
            contract: self.contract.clone(),
            last: self.last,
            balance: self.balance,
            creator: self.creator.clone(),
        }
    }
}

/// Some job of the registry carries this name.
pub open spec fn has_job(jobs: Seq<RunningJob>, name: Seq<char>) -> bool {
    exists|i: int| 0 <= i < jobs.len() && #[trigger] jobs[i].name@ == name
}

/// The position of the job with this name (meaningful when `has_job` holds).
pub open spec fn job_index(jobs: Seq<RunningJob>, name: Seq<char>) -> int {
    choose|i: int| 0 <= i < jobs.len() && #[trigger] jobs[i].name@ == name
}

/// Names are unique and no balance is negative.
pub open spec fn registry_wf(jobs: Seq<RunningJob>) -> bool {
    &&& forall|i: int| 0 <= i < jobs.len() ==> #[trigger] jobs[i].balance >= 0
    &&& forall|i: int, j: int|
        0 <= i < jobs.len() && 0 <= j < jobs.len() && i != j ==> #[trigger] jobs[i].name@
            != #[trigger] jobs[j].name@
}

/// The record that registration creates from a request.
pub open spec fn job_of_request(r: Request) -> RunningJob {
    RunningJob {
        name: r.name,
        interval: r.interval,
        function: r.function,
        contract: r.contract,
        last: r.counter_start,
        balance: 0,
        creator: r.creator,
    }
}

/// With unique names, a job that carries `name` sits at `job_index`.
pub proof fn lemma_index_unique(jobs: Seq<RunningJob>, name: Seq<char>, i: int)
    requires
        registry_wf(jobs),
        0 <= i < jobs.len(),
        jobs[i].name@ == name,
    ensures
        has_job(jobs, name),
        job_index(jobs, name) == i,
{
    let k = job_index(jobs, name);
    assert(jobs[k].name@ == name);
}

/// Looks a job up by name: its position, or `None` when no job carries it.
pub fn find_job(jobs: &Vec<RunningJob>, name: &String) -> (r: Option<usize>)
    requires
        registry_wf(jobs@),
    ensures
        r is None <==> !has_job(jobs@, name@),
        r matches Some(i) ==> i == job_index(jobs@, name@) && i < jobs@.len(),
{
    let mut i: usize = 0;
    while i < jobs.len()
        invariant
            i <= jobs@.len(),
            registry_wf(jobs@),
            forall|k: int| 0 <= k < i ==> jobs@[k].name@ != name@,
        decreases jobs@.len() - i,
    {
        if jobs[i].name == *name {
            proof {
                lemma_index_unique(jobs@, name@, i as int);
            }
            return Some(i);
        }
        i = i + 1;
    }
    None
}

/// Registers a job: inserted with balance zero and `last` at the request's
/// counter start when its name is unused; refused (`false`) otherwise.
pub fn newjob(jobs: &mut Vec<RunningJob>, request: Request) -> (r: bool)
    requires
        registry_wf(old(jobs)@),
    ensures
        r == !has_job(old(jobs)@, request.name@),
        r ==> final(jobs)@ == old(jobs)@.push(job_of_request(request)),
        !r ==> final(jobs)@ == old(jobs)@,
        registry_wf(final(jobs)@),
{
    match find_job(jobs, &request.name) {
        Some(_) => false,
        None => {
            let job = RunningJob {
                name: request.name,
                interval: request.interval,
                function: request.function,
                contract: request.contract,
                last: request.counter_start,
                balance: 0,
                creator: request.creator,
            };
            jobs.push(job);
            proof {
                let js = final(jobs)@;
                assert forall|i: int, j: int|
                    0 <= i < js.len() && 0 <= j < js.len() && i != j implies #[trigger] js[i].name@
                    != #[trigger] js[j].name@ by {
                    if i == js.len() - 1 {
                        assert(old(jobs)@[j] == js[j]);
                    } else if j == js.len() - 1 {
                        assert(old(jobs)@[i] == js[i]);
                    } else {
                        assert(old(jobs)@[i] == js[i]);
                        assert(old(jobs)@[j] == js[j]);
                    }
                }
            }
            true
        },
    }
}

} // verus!
