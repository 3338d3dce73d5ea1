use vstd::prelude::*;
use vstd::string::StringExecFns;
use crate::cycle::CloseCycle;
use crate::job::{find_job, has_job, job_index, registry_wf, RunningJob};
use crate::strkey::{url_encode, url_encoded};

verus! {

/// The endpoint that takes signed transactions.
pub const SUBMIT_URL: &'static str = "https://horizon-testnet.stellar.org/transactions";

/// The content type of a submission body.
pub const FORM_CONTENT_TYPE: &'static str = "application/x-www-form-urlencoded";

/// The method of an outbound request.
pub enum HttpMethod {
    Post,
}

/// An outbound web request, handed to the host to send.
pub struct SubmitRequest {
    pub body: String,
    pub url: String,
    pub method: HttpMethod,
    pub headers: Vec<(String, String)>,
}

/// The form body that submits a signed transaction envelope: field `tx`.
pub open spec fn submit_body(tx: Seq<char>) -> Seq<char> {
    seq!['t', 'x', '='] + url_encoded(tx)
}

/// Frames an already percent-encoded transaction envelope as the form POST
/// `tx=<encoded>` to the submission endpoint.
pub fn submit_request_for(encoded: &str) -> (r: SubmitRequest)
    ensures
        r.body@ == seq!['t', 'x', '='] + encoded@,
        r.url@ == SUBMIT_URL@,
        r.method == HttpMethod::Post,
        r.headers@.len() == 1,
        r.headers@[0].0@ == "Content-Type"@,
        r.headers@[0].1@ == FORM_CONTENT_TYPE@,
{
    proof {
        reveal_strlit("tx=");
    }
    let mut body = String::from_str("tx=");
    body.append(encoded);
    let mut headers: Vec<(String, String)> = Vec::new();
    headers.push((String::from_str("Content-Type"), String::from_str(FORM_CONTENT_TYPE)));
    SubmitRequest { body, url: String::from_str(SUBMIT_URL), method: HttpMethod::Post, headers }
}

/// Frames a base64 signed transaction envelope as a form POST to the submission
/// endpoint.
pub fn create_agnostic_request(tx: &str) -> (r: SubmitRequest)
    ensures
        r.body@ == submit_body(tx@),
        r.url@ == SUBMIT_URL@,
        r.method == HttpMethod::Post,
        r.headers@.len() == 1,
        r.headers@[0].0@ == "Content-Type"@,
        r.headers@[0].1@ == FORM_CONTENT_TYPE@,
{
    let encoded = url_encode(tx);
    submit_request_for(encoded.as_str())
}

/// The sequence number that the next transaction of the operator carries: one
/// past the last one used in this cycle; `None` when the counter is exhausted.
pub fn get_account_sequence(cycle: &CloseCycle) -> (r: Option<i64>)
    ensures
        r == (if cycle.seq < i64::MAX {
            Some((cycle.seq + 1) as i64)
        } else {
            None::<i64>
        }),
{
    if cycle.seq < i64::MAX {
        Some(cycle.seq + 1)
    } else {
        None
    }
}

/// Overwrites the whole record of the job that carries `job`'s name; with no
/// such job nothing changes.
pub fn update_job(jobs: &mut Vec<RunningJob>, job: RunningJob)
    requires
        registry_wf(old(jobs)@),
        job.balance >= 0,
    ensures
        has_job(old(jobs)@, job.name@) ==> final(jobs)@ == old(jobs)@.update(
            job_index(old(jobs)@, job.name@),
            job,
        ),
        !has_job(old(jobs)@, job.name@) ==> final(jobs)@ == old(jobs)@,
        registry_wf(final(jobs)@),
{
    match find_job(jobs, &job.name) {
        Some(i) => {
            let ghost name = job.name@;
            jobs.set(i, job);
            proof {
                let js = final(jobs)@;
                assert forall|a: int, b: int|
                    0 <= a < js.len() && 0 <= b < js.len() && a != b implies #[trigger] js[a].name@
                    != #[trigger] js[b].name@ by {
                    assert(old(jobs)@[a].name@ == js[a].name@);
                    assert(old(jobs)@[b].name@ == js[b].name@);
                }
                assert forall|a: int| 0 <= a < js.len() implies #[trigger] js[a].balance >= 0 by {
                    if a != i {
                        assert(old(jobs)@[a] == js[a]);
                    }
                }
            }
        },
        None => {},
    }
}

/// A copy of the job that carries `name`, if any.
pub fn job_by_name(jobs: &Vec<RunningJob>, name: &String) -> (r: Option<RunningJob>)
    requires
        registry_wf(jobs@),
    ensures
        r is None <==> !has_job(jobs@, name@),
        r matches Some(j) ==> j == jobs@[job_index(jobs@, name@)],
{
    match find_job(jobs, name) {
        Some(i) => Some(jobs[i].copy()),
        None => None,
    }
}

} // verus!
