use vstd::prelude::*;
use crate::job::{find_job, has_job, job_index, registry_wf, InternalError, RunningJob};
use crate::ledger::{events_view, ledger_events, ledger_payments, EventView, LedgerTx, MuxedAccount, PaymentEvent};
use crate::strkey::{account_key_of, account_str_to_bytes, contract_key_of, contract_str_to_bytes};
use crate::tx::{FIXED_FEE, execute_transaction, execution_outcome, refund_payout, repay_balance, Payout, PayoutView, Simulation};
use crate::utils::{get_account_sequence, update_job};

verus! {

/// The state of one ledger-close invocation: the registry, the ledger's time,
/// the last sequence number used by the operator, and the payouts built so far.
pub struct CloseCycle {
    pub jobs: Vec<RunningJob>,
    pub now: u64,
    pub seq: i64,
    /// The operator's account address.
    pub operator: String,
    /// The operator's key, decoded from `operator`.
    pub operator_key: [u8; 32],
    pub payouts: Vec<Payout>,
}

/// The part of a cycle that events and executions change: the registry, the
/// last sequence number used, and the payouts built.
pub struct Books {
    pub jobs: Seq<RunningJob>,
    pub seq: i64,
    pub payouts: Seq<PayoutView>,
}

/// A contract call to simulate for a due job.
pub struct Invocation {
    pub contract: [u8; 32],
    pub function: String,
    pub seq_num: i64,
}

pub open spec fn payouts_view(ps: Seq<Payout>) -> Seq<PayoutView> {
    ps.map_values(|p: Payout| p@)
}

/// The refund request comes from the job's creator.
pub open spec fn refund_authorized(job: RunningJob, source: MuxedAccount) -> bool {
    match source {
        MuxedAccount::Ed25519(k) => account_key_of(job.creator@) == Some(k@),
        MuxedAccount::Muxed => false,
    }
}

/// A funding payment that the balance takes: positive, and the sum fits.
pub open spec fn credit_fits(balance: i64, amount: i64) -> bool {
    amount > 0 && balance as int + amount as int <= i64::MAX as int
}

/// The effect of one payment event on the books, the operator's key being `key`.
pub open spec fn after_event(b: Books, e: EventView, key: Seq<u8>) -> Books {
    if !has_job(b.jobs, e.name) {
        b
    } else {
        let i = job_index(b.jobs, e.name);
        let j = b.jobs[i];
        if e.refund {
            if refund_authorized(j, e.source) && b.seq < i64::MAX {
                match refund_payout(j, key, (b.seq + 1) as i64) {
                    Some(p) => Books {
                        jobs: b.jobs.update(i, RunningJob { balance: 0, ..j }),
                        seq: (b.seq + 1) as i64,
                        payouts: b.payouts.push(p),
                    },
                    None => b,
                }
            } else {
                b
            }
        } else if credit_fits(j.balance, e.amount) {
            Books { jobs: b.jobs.update(i, RunningJob { balance: (j.balance + e.amount) as i64, ..j }), ..b }
        } else {
            b
        }
    }
}

/// The effect of a list of payment events, applied in order.
pub open spec fn after_events(b: Books, es: Seq<EventView>, key: Seq<u8>) -> Books
    decreases es.len(),
{
    if es.len() == 0 {
        b
    } else {
        after_event(after_events(b, es.drop_last(), key), es.last(), key)
    }
}

/// Every job is still there under its name, `last` has not gone back, and no
/// balance is negative.
pub open spec fn keeps_progress(before: Seq<RunningJob>, after: Seq<RunningJob>) -> bool {
    &&& after.len() == before.len()
    &&& forall|i: int|
        0 <= i < after.len() ==> {
            &&& #[trigger] after[i].name@ == before[i].name@
            &&& after[i].last >= before[i].last
            &&& after[i].balance >= 0
        }
}

/// Compares two 32-byte keys.
pub fn same_key(a: &[u8; 32], b: &[u8; 32]) -> (r: bool)
    ensures
        r == (a@ == b@),
{
    let mut i: usize = 0;
    while i < 32
        invariant
            i <= 32,
            a@.len() == 32,
            b@.len() == 32,
            forall|k: int| 0 <= k < i ==> a@[k] == b@[k],
        decreases 32 - i,
    {
        if a[i] != b[i] {
            return false;
        }
        i = i + 1;
    }
    proof {
        assert(a@ =~= b@);
    }
    true
}

impl CloseCycle {
    pub open spec fn books(&self) -> Books {
        Books { jobs: self.jobs@, seq: self.seq, payouts: payouts_view(self.payouts@) }
    }

    pub open spec fn wf(&self) -> bool {
        &&& registry_wf(self.jobs@)
        &&& account_key_of(self.operator@) == Some(self.operator_key@)
    }

    /// Opens a cycle at ledger time `now`, with the operator's on-ledger sequence
    /// number `account_seq`; `None` when `operator` is no account address.
    pub fn new(jobs: Vec<RunningJob>, now: u64, account_seq: i64, operator: String) -> (r: Option<
        CloseCycle,
    >)
        requires
            registry_wf(jobs@),
        ensures
            r is None <==> account_key_of(operator@) is None,
            r matches Some(c) ==> {
                &&& c.wf()
                &&& c.jobs@ == jobs@
                &&& c.now == now
                &&& c.seq == account_seq
                &&& c.operator@ == operator@
                &&& c.payouts@.len() == 0
            },
    {
        match account_str_to_bytes(operator.as_str()) {
            Some(operator_key) => Some(
                CloseCycle { jobs, now, seq: account_seq, operator, operator_key, payouts: Vec::new() },
            ),
            None => None,
        }
    }

    /// Applies one payment event: a funding credits the named job; a refund
    /// request from its creator pays the balance out and zeroes it. Unknown
    /// names and refunds from anyone else change nothing.
    pub fn apply_payment(&mut self, e: &PaymentEvent)
        requires
            old(self).wf(),
        ensures
            final(self).wf(),
            final(self).books() == after_event(old(self).books(), e@, old(self).operator_key@),
            final(self).now == old(self).now,
            final(self).operator == old(self).operator,
            final(self).operator_key == old(self).operator_key,
    {
        match find_job(&self.jobs, &e.name) {
            None => {},
            Some(i) => {
                let mut job = self.jobs[i].copy();
                if e.refund {
                    let authorized = match &e.source {
                        MuxedAccount::Ed25519(k) => match account_str_to_bytes(job.creator.as_str()) {
                            Some(c) => same_key(&c, k),
                            None => false,
                        },
                        MuxedAccount::Muxed => false,
                    };
                    if authorized {
                        match get_account_sequence(self) {
                            Some(seq) => match repay_balance(&job, self.operator_key, seq) {
                                Some(p) => {
                                    self.payouts.push(p);
                                    self.seq = seq;
                                    job.balance = 0;
                                    update_job(&mut self.jobs, job);
                                    proof {
                                        assert(payouts_view(self.payouts@) =~= payouts_view(
                                            old(self).payouts@,
                                        ).push(p@));
                                    }
                                },
                                None => {},
                            },
                            None => {},
                        }
                    }
                } else if e.amount > 0 && job.balance <= i64::MAX - e.amount {
                    job.balance = job.balance + e.amount;
                    update_job(&mut self.jobs, job);
                }
            },
        }
    }

    /// Scans a closed ledger and applies its payments to the operator in order.
    pub fn scan_ledger(&mut self, txs: &Vec<LedgerTx>)
        requires
            old(self).wf(),
        ensures
            final(self).wf(),
            final(self).books() == after_events(
                old(self).books(),
                ledger_events(txs@, old(self).operator@),
                old(self).operator_key@,
            ),
            final(self).now == old(self).now,
            final(self).operator == old(self).operator,
            final(self).operator_key == old(self).operator_key,
    {
        let events = ledger_payments(txs, &self.operator);
        let ghost es = events_view(events@);
        let mut i: usize = 0;
        while i < events.len()
            invariant
                i <= events@.len(),
                es == events_view(events@),
                self.wf(),
                self.books() == after_events(
                    old(self).books(),
                    es.subrange(0, i as int),
                    old(self).operator_key@,
                ),
                self.now == old(self).now,
                self.operator == old(self).operator,
                self.operator_key == old(self).operator_key,
            decreases events@.len() - i,
        {
            proof {
                assert(es.subrange(0, i + 1).drop_last() =~= es.subrange(0, i as int));
            }
            self.apply_payment(&events[i]);
            i = i + 1;
        }
        proof {
            assert(es.subrange(0, i as int) =~= es);
        }
    }

    /// The first job at or after position `from` that is due.
    pub fn next_due(&self, from: usize) -> (r: Option<usize>)
        ensures
            r matches Some(i) ==> from <= i < self.jobs@.len() && self.jobs@[i as int].spec_due(
                self.now,
            ),
            forall|k: int|
                from <= k < self.jobs@.len() && (r matches Some(i) ==> k < i) ==> !(
                #[trigger] self.jobs@[k]).spec_due(self.now),
    {
        let mut i: usize = from;
        while i < self.jobs.len()
            invariant
                from <= i,
                forall|k: int| from <= k < i && k < self.jobs@.len() ==> !(#[trigger] self.jobs@[k]).spec_due(self.now),
            decreases self.jobs@.len() - i,
        {
            if self.jobs[i].is_due(self.now) {
                return Some(i);
            }
            i = i + 1;
        }
        None
    }

    /// The contract call to simulate for job `i`, at the next sequence number;
    /// `Other` when its contract address does not decode or the sequence
    /// counter is exhausted.
    pub fn invocation(&self, i: usize) -> (r: Result<Invocation, InternalError>)
        requires
            i < self.jobs@.len(),
        ensures
            r is Ok <==> contract_key_of(self.jobs@[i as int].contract@) is Some && self.seq < i64::MAX,
            r matches Ok(inv) ==> {
                &&& contract_key_of(self.jobs@[i as int].contract@) == Some(inv.contract@)
                &&& inv.function@ == self.jobs@[i as int].function@
                &&& inv.seq_num == self.seq + 1
            },
            r matches Err(e) ==> e == InternalError::Other,
    {
        let job = &self.jobs[i];
        match contract_str_to_bytes(job.contract.as_str()) {
            Some(contract) => match get_account_sequence(self) {
                Some(seq_num) => Ok(Invocation { contract, function: job.function.clone(), seq_num }),
                None => Err(InternalError::Other),
            },
            None => Err(InternalError::Other),
        }
    }

    /// Records the simulation of due job `i`: when its fee is within the balance
    /// the fee is debited, `last` moves to the ledger time and the sequence number
    /// is used; otherwise nothing changes.
    pub fn record_execution(&mut self, i: usize, sim: &Simulation) -> (r: Result<u32, InternalError>)
        requires
            old(self).wf(),
            i < old(self).jobs@.len(),
            old(self).jobs@[i as int].spec_due(old(self).now),
        ensures
            final(self).wf(),
            r == (if old(self).seq < i64::MAX {
                execution_outcome(old(self).jobs@[i as int].balance, *sim)
            } else {
                Err(InternalError::Other)
            }),
            r matches Ok(fee) ==> {
                &&& final(self).jobs@ == old(self).jobs@.update(
                    i as int,
                    RunningJob {
                        balance: (old(self).jobs@[i as int].balance - fee) as i64,
                        last: old(self).now,
                        ..old(self).jobs@[i as int]
                    },
                )
                &&& final(self).seq == old(self).seq + 1
            },
            r is Err ==> final(self).jobs@ == old(self).jobs@ && final(self).seq == old(self).seq,
            forall|fee: u32|
                *sim == (Simulation::Built { fee }) && fee as int > old(self).jobs@[i as int].balance
                    ==> final(self).jobs@ == old(self).jobs@ && (old(self).seq < i64::MAX ==> r
                    == Err::<u32, InternalError>(InternalError::NoBalanceLeft)),
            forall|fee: u32|
                *sim == (Simulation::Built { fee }) && fee as int <= old(self).jobs@[i as int].balance
                    && old(self).seq < i64::MAX ==> {
                    &&& r == Ok::<u32, InternalError>(fee)
                    &&& final(self).jobs@[i as int].balance == old(self).jobs@[i as int].balance - fee
                    &&& final(self).jobs@[i as int].last == old(self).now
                },
            final(self).payouts@ == old(self).payouts@,
            keeps_progress(old(self).jobs@, final(self).jobs@),
            final(self).now == old(self).now,
            final(self).operator == old(self).operator,
            final(self).operator_key == old(self).operator_key,
    {
        let seq = match get_account_sequence(self) {
            Some(s) => s,
            None => {
                proof {
                    assert(keeps_progress(self.jobs@, self.jobs@));
                }
                return Err(InternalError::Other);
            },
        };
        let mut job = self.jobs[i].copy();
        let r = execute_transaction(&job, sim);
        match r {
            Ok(fee) => {
                job.balance = job.balance - fee as i64;
                job.last = self.now;
                proof {
                    crate::job::lemma_index_unique(self.jobs@, job.name@, i as int);
                }
                update_job(&mut self.jobs, job);
                self.seq = seq;
            },
            Err(_) => {},
        }
        proof {
            assert(keeps_progress(old(self).jobs@, self.jobs@));
        }
        r
    }
}

/// Progress is kept from `a` to `c` when it is kept from `a` to `b` and from
/// `b` to `c`: the steps of one ledger close compose.
pub proof fn lemma_progress_transitive(a: Seq<RunningJob>, b: Seq<RunningJob>, c: Seq<RunningJob>)
    requires
        keeps_progress(a, b),
        keeps_progress(b, c),
    ensures
        keeps_progress(a, c),
{
    assert forall|i: int| 0 <= i < c.len() implies #[trigger] c[i].name@ == a[i].name@ && c[i].last
        >= a[i].last && c[i].balance >= 0 by {
        assert(b[i].name@ == a[i].name@);
        assert(c[i].name@ == b[i].name@);
    }
}

/// One payment event keeps every job under its name, never moves `last` back,
/// and never leaves a balance negative.
pub proof fn lemma_event_keeps_progress(b: Books, e: EventView, key: Seq<u8>)
    requires
        registry_wf(b.jobs),
    ensures
        keeps_progress(b.jobs, after_event(b, e, key).jobs),
        registry_wf(after_event(b, e, key).jobs),
{
    let r = after_event(b, e, key).jobs;
    if has_job(b.jobs, e.name) {
        let i = job_index(b.jobs, e.name);
        assert(0 <= i < b.jobs.len() && b.jobs[i].name@ == e.name);
        assert forall|k: int| 0 <= k < r.len() implies r[k].name@ == b.jobs[k].name@ && r[k].last
            >= b.jobs[k].last && r[k].balance >= 0 by {
            assert(b.jobs[k].balance >= 0);
        }
        assert forall|x: int, y: int|
            0 <= x < r.len() && 0 <= y < r.len() && x != y implies #[trigger] r[x].name@
            != #[trigger] r[y].name@ by {
            assert(r[x].name@ == b.jobs[x].name@);
            assert(r[y].name@ == b.jobs[y].name@);
        }
    } else {
        assert forall|k: int| 0 <= k < r.len() implies r[k].balance >= 0 by {
            assert(b.jobs[k].balance >= 0);
        }
    }
}

/// Any list of payment events keeps every job under its name, never moves
/// `last` back, and never leaves a balance negative.
pub proof fn lemma_events_keep_progress(b: Books, es: Seq<EventView>, key: Seq<u8>)
    requires
        registry_wf(b.jobs),
    ensures
        keeps_progress(b.jobs, after_events(b, es, key).jobs),
        registry_wf(after_events(b, es, key).jobs),
    decreases es.len(),
{
    if es.len() == 0 {
        assert forall|k: int| 0 <= k < b.jobs.len() implies b.jobs[k].balance >= 0 by {}
    } else {
        let mid = after_events(b, es.drop_last(), key);
        lemma_events_keep_progress(b, es.drop_last(), key);
        lemma_event_keeps_progress(mid, es.last(), key);
        lemma_progress_transitive(b.jobs, mid.jobs, after_event(mid, es.last(), key).jobs);
    }
}

/// A funding payment of `A` to a job with balance `B` leaves its balance at
/// `B + A`; nothing else changes and no payout is built.
pub proof fn lemma_funding_credits(b: Books, e: EventView, key: Seq<u8>)
    requires
        registry_wf(b.jobs),
        !e.refund,
        has_job(b.jobs, e.name),
        credit_fits(b.jobs[job_index(b.jobs, e.name)].balance, e.amount),
    ensures
        ({
            let i = job_index(b.jobs, e.name);
            let r = after_event(b, e, key);
            &&& r.jobs.len() == b.jobs.len()
            &&& r.jobs[i].balance == b.jobs[i].balance + e.amount
            &&& r.jobs[i].last == b.jobs[i].last
            &&& forall|k: int| 0 <= k < b.jobs.len() && k != i ==> r.jobs[k] == b.jobs[k]
            &&& r.payouts == b.payouts
            &&& r.seq == b.seq
        }),
{
}

/// A refund request from the creator of a job with balance `B` (at least the fixed
/// fee) zeroes the balance and builds exactly one payout of `B - FIXED_FEE` to
/// the creator, at the next sequence number.
pub proof fn lemma_refund_pays_out(b: Books, e: EventView, key: Seq<u8>)
    requires
        registry_wf(b.jobs),
        e.refund,
        has_job(b.jobs, e.name),
        refund_authorized(b.jobs[job_index(b.jobs, e.name)], e.source),
        b.jobs[job_index(b.jobs, e.name)].balance >= FIXED_FEE,
        b.seq < i64::MAX,
    ensures
        ({
            let i = job_index(b.jobs, e.name);
            let j = b.jobs[i];
            let r = after_event(b, e, key);
            &&& r.jobs == b.jobs.update(i, RunningJob { balance: 0, ..j })
            &&& r.payouts.len() == b.payouts.len() + 1
            &&& r.payouts.drop_last() == b.payouts
            &&& r.payouts.last() == PayoutView {
                source: key,
                destination: account_key_of(j.creator@).unwrap(),
                fee: FIXED_FEE,
                seq_num: (b.seq + 1) as i64,
                amount: (j.balance - FIXED_FEE) as i64,
            }
        }),
{
    let r = after_event(b, e, key);
    assert(r.payouts.drop_last() =~= b.payouts);
}

/// A refund request from anyone but the job's creator changes nothing and builds
/// no payout.
pub proof fn lemma_stranger_refund_ignored(b: Books, e: EventView, key: Seq<u8>)
    requires
        e.refund,
        has_job(b.jobs, e.name),
        !refund_authorized(b.jobs[job_index(b.jobs, e.name)], e.source),
    ensures
        after_event(b, e, key) == b,
{
}

} // verus!
