use vstd::prelude::*;
use crate::job::{InternalError, RunningJob};
use crate::strkey::{account_key_of, account_str_to_bytes};

verus! {

/// The base fee of a refund payout, in stroops.
pub const FIXED_FEE: u32 = 200;

/// A native payment from the operator to a job's creator, ready to be signed.
#[derive(Clone, Copy)]
pub struct Payout {
    pub source: [u8; 32],
    pub destination: [u8; 32],
    pub fee: u32,
    pub seq_num: i64,
    pub amount: i64,
}

/// A payout with its keys as byte sequences.
pub struct PayoutView {
    pub source: Seq<u8>,
    pub destination: Seq<u8>,
    pub fee: u32,
    pub seq_num: i64,
    pub amount: i64,
}

impl View for Payout {
    type V = PayoutView;

    open spec fn view(&self) -> PayoutView {
        PayoutView {
            source: self.source@,
            destination: self.destination@,
            fee: self.fee,
            seq_num: self.seq_num,
            amount: self.amount,
        }
    }
}

/// What simulating a job's contract call gave back.
#[derive(Clone, Copy, PartialEq, Eq, Structural)]
pub enum Simulation {
    /// The contract reported an error, or the result could not be read.
    Failed,
    /// A transaction was built; `fee` is its declared network fee.
    Built { fee: u32 },
}

/// What executing a job amounts to, given the simulation: the fee to debit,
/// or why the job is skipped.
pub open spec fn execution_outcome(balance: i64, sim: Simulation) -> Result<u32, InternalError> {
    match sim {
        Simulation::Failed => Err(InternalError::Other),
        Simulation::Built { fee } => if fee as int > balance as int {
            Err(InternalError::NoBalanceLeft)
        } else {
            Ok(fee)
        },
    }
}

/// Decides whether a simulated call for `job` is submitted: the fee to charge,
/// `NoBalanceLeft` when it exceeds the balance, `Other` when simulation failed.
pub fn execute_transaction(job: &RunningJob, sim: &Simulation) -> (r: Result<u32, InternalError>)
    ensures
        r == execution_outcome(job.balance, *sim),
{
    match sim {
        Simulation::Failed => Err(InternalError::Other),
        Simulation::Built { fee } => {
            if *fee as i64 > job.balance {
                Err(InternalError::NoBalanceLeft)
            } else {
                Ok(*fee)
            }
        },
    }
}

/// The payout that refunds a job's balance from the operator account `source`
/// at sequence number `seq_num`: none when the creator's address does not decode
/// or the balance is below the fixed fee (the payout would be negative).
pub open spec fn refund_payout(job: RunningJob, source: Seq<u8>, seq_num: i64) -> Option<PayoutView> {
    match account_key_of(job.creator@) {
        Some(k) => payout_of(k, job.balance, source, seq_num),
        None => None,
    }
}

/// The payout of `balance`, less the fixed fee, from `source` to `destination`:
/// none when the balance is below the fee.
pub open spec fn payout_of(destination: Seq<u8>, balance: i64, source: Seq<u8>, seq_num: i64) -> Option<
    PayoutView,
> {
    if balance >= FIXED_FEE {
        Some(
            PayoutView {
                source,
                destination,
                fee: FIXED_FEE,
                seq_num,
                amount: (balance - FIXED_FEE) as i64,
            },
        )
    } else {
        None
    }
}

/// Builds the payout of `balance`, less the fixed fee, from `source` to the
/// decoded creator key `destination`.
pub fn payout_to(destination: [u8; 32], balance: i64, source: [u8; 32], seq_num: i64) -> (r: Option<
    Payout,
>)
    ensures
        r matches Some(p) ==> payout_of(destination@, balance, source@, seq_num) == Some(p@),
        r is None <==> payout_of(destination@, balance, source@, seq_num) is None,
{
    if balance >= FIXED_FEE as i64 {
        Some(Payout { source, destination, fee: FIXED_FEE, seq_num, amount: balance - FIXED_FEE as i64 })
    } else {
        None
    }
}

/// Builds the payout of a job's whole balance, less the fixed fee, to its creator.
pub fn repay_balance(job: &RunningJob, source: [u8; 32], seq_num: i64) -> (r: Option<Payout>)
    ensures
        r matches Some(p) ==> refund_payout(*job, source@, seq_num) == Some(p@),
        r is None <==> refund_payout(*job, source@, seq_num) is None,
{
    match account_str_to_bytes(job.creator.as_str()) {
        Some(destination) => payout_to(destination, job.balance, source, seq_num),
        None => None,
    }
}

} // verus!
