use zephyr_cron::cycle::CloseCycle;
use zephyr_cron::job::{newjob, InternalError, Request, RunningJob};
use zephyr_cron::ledger::{
    ledger_payments, memo_target_of, Envelope, LedgerTx, Memo, MuxedAccount, Operation,
    PaymentEvent, PaymentOp, TxV1,
};
use zephyr_cron::strkey::account_str_to_bytes;
use zephyr_cron::tx::{execute_transaction, payout_to, repay_balance, Simulation, FIXED_FEE};
use zephyr_cron::utils::{create_agnostic_request, submit_request_for, job_by_name, update_job, SUBMIT_URL};

const OPERATOR_KEY: [u8; 32] = [7u8; 32];
const CREATOR_KEY: [u8; 32] = [9u8; 32];
const STRANGER_KEY: [u8; 32] = [3u8; 32];

fn address(key: [u8; 32]) -> String {
    stellar_strkey::ed25519::PublicKey(key).to_string().as_str().to_owned()
}

fn contract_address(key: [u8; 32]) -> String {
    stellar_strkey::Contract(key).to_string().as_str().to_owned()
}

fn job(name: &str, interval: u64, last: u64, balance: i64) -> RunningJob {
    RunningJob {
        name: name.to_string(),
        interval,
        function: "tick".to_string(),
        contract: contract_address([5u8; 32]),
        last,
        balance,
        creator: address(CREATOR_KEY),
    }
}

fn payment_tx(source: [u8; 32], memo: &str, dest: [u8; 32], native: bool, amount: i64) -> LedgerTx {
    LedgerTx {
        success: true,
        envelope: Envelope::Tx(TxV1 {
            source: MuxedAccount::Ed25519(source),
            memo: Memo::Text(memo.to_string()),
            operations: vec![Operation::Payment(PaymentOp {
                destination: MuxedAccount::Ed25519(dest),
                native,
                amount,
            })],
        }),
    }
}

fn cycle(jobs: Vec<RunningJob>, now: u64) -> CloseCycle {
    CloseCycle::new(jobs, now, 1000, address(OPERATOR_KEY)).unwrap()
}

#[test]
fn funding_before_due_credits_only() {
    let mut c = cycle(vec![job("alpha", 100, 0, 0)], 50);
    c.scan_ledger(&vec![payment_tx(STRANGER_KEY, "alpha", OPERATOR_KEY, true, 500)]);
    assert_eq!(c.jobs[0].balance, 500);
    assert_eq!(c.jobs[0].last, 0);
    assert_eq!(c.next_due(0), None);
    assert!(c.payouts.is_empty());
}

#[test]
fn due_job_pays_simulated_fee() {
    let mut c = cycle(vec![job("alpha", 100, 0, 500)], 150);
    let i = c.next_due(0).unwrap();
    assert_eq!(i, 0);
    let inv = c.invocation(i).unwrap();
    assert_eq!(inv.seq_num, 1001);
    assert_eq!(inv.contract, [5u8; 32]);
    assert_eq!(inv.function, "tick");
    assert_eq!(c.record_execution(i, &Simulation::Built { fee: 120 }), Ok(120));
    assert_eq!(c.jobs[0].balance, 380);
    assert_eq!(c.jobs[0].last, 150);
    assert_eq!(c.seq, 1001);
}

#[test]
fn creator_refund_pays_out_balance() {
    let mut c = cycle(vec![job("beta", 100, 0, 300)], 10);
    c.scan_ledger(&vec![payment_tx(CREATOR_KEY, "d:beta", OPERATOR_KEY, true, 1)]);
    assert_eq!(c.jobs[0].balance, 0);
    assert_eq!(c.payouts.len(), 1);
    let p = c.payouts[0];
    assert_eq!(p.destination, CREATOR_KEY);
    assert_eq!(p.source, OPERATOR_KEY);
    assert_eq!(p.amount, 300 - FIXED_FEE as i64);
    assert_eq!(p.amount, 100);
    assert_eq!(p.fee, 200);
    assert_eq!(p.seq_num, 1001);
    assert_eq!(c.seq, 1001);
}

#[test]
fn stranger_refund_is_ignored() {
    let mut c = cycle(vec![job("beta", 100, 0, 300)], 10);
    c.scan_ledger(&vec![payment_tx(STRANGER_KEY, "d:beta", OPERATOR_KEY, true, 1)]);
    assert_eq!(c.jobs[0].balance, 300);
    assert!(c.payouts.is_empty());
    assert_eq!(c.seq, 1000);
}

#[test]
fn refund_of_balance_equal_to_fee_pays_zero() {
    let mut c = cycle(vec![job("beta", 100, 0, 200)], 10);
    c.scan_ledger(&vec![payment_tx(CREATOR_KEY, "d:beta", OPERATOR_KEY, true, 1)]);
    assert_eq!(c.jobs[0].balance, 0);
    assert_eq!(c.payouts.len(), 1);
    assert_eq!(c.payouts[0].amount, 0);
}

#[test]
fn refund_of_balance_below_fee_is_refused() {
    let mut c = cycle(vec![job("beta", 100, 0, 199)], 10);
    c.scan_ledger(&vec![payment_tx(CREATOR_KEY, "d:beta", OPERATOR_KEY, true, 1)]);
    assert_eq!(c.jobs[0].balance, 199);
    assert!(c.payouts.is_empty());
}

#[test]
fn payout_after_decoding_creator() {
    assert!(payout_to(CREATOR_KEY, 199, OPERATOR_KEY, 3).is_none());
    let p = payout_to(CREATOR_KEY, 200, OPERATOR_KEY, 3).unwrap();
    assert_eq!(p.amount, 0);
    assert_eq!(p.fee, 200);
    let p = payout_to(CREATOR_KEY, 950, OPERATOR_KEY, 3).unwrap();
    assert_eq!(p.amount, 750);
    assert_eq!(p.destination, CREATOR_KEY);
    assert_eq!(p.source, OPERATOR_KEY);
    assert_eq!(p.seq_num, 3);
}

#[test]
fn underfunded_due_job_is_left_unchanged() {
    let mut c = cycle(vec![job("gamma", 10, 5, 50)], 100);
    assert_eq!(
        c.record_execution(0, &Simulation::Built { fee: 120 }),
        Err(InternalError::NoBalanceLeft)
    );
    assert_eq!(c.jobs[0].balance, 50);
    assert_eq!(c.jobs[0].last, 5);
    assert_eq!(c.seq, 1000);
    assert_eq!(c.next_due(0), Some(0));
}

#[test]
fn failed_simulation_is_other() {
    let mut c = cycle(vec![job("gamma", 10, 5, 500)], 100);
    assert_eq!(c.record_execution(0, &Simulation::Failed), Err(InternalError::Other));
    assert_eq!(c.jobs[0].balance, 500);
    assert_eq!(c.jobs[0].last, 5);
}

#[test]
fn fee_equal_to_balance_is_paid() {
    let j = job("delta", 10, 0, 120);
    assert_eq!(execute_transaction(&j, &Simulation::Built { fee: 120 }), Ok(120));
    assert_eq!(execute_transaction(&j, &Simulation::Built { fee: 121 }), Err(InternalError::NoBalanceLeft));
}

#[test]
fn due_boundary_is_inclusive() {
    let c = cycle(vec![job("a", 100, 0, 0), job("b", 100, 51, 0), job("c", 100, 50, 0)], 150);
    assert_eq!(c.next_due(0), Some(0));
    assert_eq!(c.next_due(1), Some(2));
    assert_eq!(c.next_due(3), None);
}

#[test]
fn huge_interval_never_due() {
    let c = cycle(vec![job("a", u64::MAX, 10, 0)], u64::MAX);
    assert_eq!(c.next_due(0), None);
}

#[test]
fn invalid_contract_gives_other() {
    let mut j = job("a", 1, 0, 0);
    j.contract = "not-a-contract".to_string();
    let c = cycle(vec![j], 10);
    assert!(matches!(c.invocation(0), Err(InternalError::Other)));
}

#[test]
fn unknown_job_and_foreign_payments_are_dropped() {
    let mut c = cycle(vec![job("alpha", 100, 0, 10)], 50);
    let failed = LedgerTx { success: false, ..payment_tx(STRANGER_KEY, "alpha", OPERATOR_KEY, true, 5) };
    let fee_bump = LedgerTx { success: true, envelope: Envelope::Other };
    let no_text = LedgerTx {
        success: true,
        envelope: Envelope::Tx(TxV1 {
            source: MuxedAccount::Ed25519(STRANGER_KEY),
            memo: Memo::Other,
            operations: vec![Operation::Payment(PaymentOp {
                destination: MuxedAccount::Ed25519(OPERATOR_KEY),
                native: true,
                amount: 5,
            })],
        }),
    };
    c.scan_ledger(&vec![
        payment_tx(STRANGER_KEY, "nobody", OPERATOR_KEY, true, 5),
        payment_tx(STRANGER_KEY, "alpha", STRANGER_KEY, true, 5),
        payment_tx(STRANGER_KEY, "alpha", OPERATOR_KEY, false, 5),
        failed,
        fee_bump,
        no_text,
    ]);
    assert_eq!(c.jobs[0].balance, 10);
}

#[test]
fn payments_apply_in_order() {
    let mut c = cycle(vec![job("alpha", 100, 0, 1000)], 50);
    let tx = LedgerTx {
        success: true,
        envelope: Envelope::Tx(TxV1 {
            source: MuxedAccount::Ed25519(STRANGER_KEY),
            memo: Memo::Text("alpha".to_string()),
            operations: vec![
                Operation::Payment(PaymentOp {
                    destination: MuxedAccount::Ed25519(OPERATOR_KEY),
                    native: true,
                    amount: 5,
                }),
                Operation::Other,
                Operation::Payment(PaymentOp {
                    destination: MuxedAccount::Ed25519(OPERATOR_KEY),
                    native: true,
                    amount: 7,
                }),
            ],
        }),
    };
    c.scan_ledger(&vec![tx, payment_tx(CREATOR_KEY, "d:alpha", OPERATOR_KEY, true, 1),
        payment_tx(STRANGER_KEY, "alpha", OPERATOR_KEY, true, 40)]);
    assert_eq!(c.jobs[0].balance, 40);
    assert_eq!(c.payouts.len(), 1);
    assert_eq!(c.payouts[0].amount, 1012 - 200);
}

#[test]
fn scanner_extracts_operator_payments() {
    let txs = vec![
        payment_tx(CREATOR_KEY, "d:beta", OPERATOR_KEY, true, 3),
        payment_tx(STRANGER_KEY, "alpha", STRANGER_KEY, true, 4),
    ];
    let events: Vec<PaymentEvent> = ledger_payments(&txs, &address(OPERATOR_KEY));
    assert_eq!(events.len(), 1);
    assert_eq!(events[0].name, "beta");
    assert!(events[0].refund);
    assert_eq!(events[0].amount, 3);
}

#[test]
fn memo_sentinel_split() {
    assert_eq!(memo_target_of(&"d:job".to_string()), (true, "job".to_string()));
    assert_eq!(memo_target_of(&"job".to_string()), (false, "job".to_string()));
    assert_eq!(memo_target_of(&"d".to_string()), (false, "d".to_string()));
    assert_eq!(memo_target_of(&"d:".to_string()), (true, "".to_string()));
}

#[test]
fn registration_rejects_duplicate_names() {
    let mut jobs = Vec::new();
    let req = |name: &str| Request {
        name: name.to_string(),
        interval: 60,
        function: "run".to_string(),
        contract: contract_address([1u8; 32]),
        counter_start: 42,
        creator: address(CREATOR_KEY),
    };
    assert!(newjob(&mut jobs, req("a")));
    assert!(!newjob(&mut jobs, req("a")));
    assert!(newjob(&mut jobs, req("b")));
    assert_eq!(jobs.len(), 2);
    assert_eq!(jobs[0].balance, 0);
    assert_eq!(jobs[0].last, 42);
    let found = job_by_name(&jobs, &"b".to_string()).unwrap();
    assert_eq!(found.interval, 60);
    assert!(job_by_name(&jobs, &"c".to_string()).is_none());
}

#[test]
fn update_overwrites_named_record() {
    let mut jobs = vec![job("a", 1, 0, 0), job("b", 1, 0, 0)];
    update_job(&mut jobs, job("b", 9, 3, 77));
    assert_eq!(jobs[1].interval, 9);
    assert_eq!(jobs[1].balance, 77);
    update_job(&mut jobs, job("zz", 9, 3, 77));
    assert_eq!(jobs.len(), 2);
    assert_eq!(jobs[0].interval, 1);
}

#[test]
fn refund_payout_built_from_creator() {
    let p = repay_balance(&job("a", 1, 0, 1000), OPERATOR_KEY, 55).unwrap();
    assert_eq!(p.destination, CREATOR_KEY);
    assert_eq!(p.amount, 800);
    assert_eq!(p.seq_num, 55);
    let mut bad = job("a", 1, 0, 1000);
    bad.creator = "nobody".to_string();
    assert!(repay_balance(&bad, OPERATOR_KEY, 55).is_none());
}

#[test]
fn account_addresses_decode() {
    assert_eq!(account_str_to_bytes(&address(CREATOR_KEY)), Some(CREATOR_KEY));
    assert_eq!(account_str_to_bytes("GABC"), None);
    assert!(CloseCycle::new(vec![], 0, 0, "bad".to_string()).is_none());
}

#[test]
fn submission_request_is_form_encoded() {
    let r = create_agnostic_request("AB+c/d==");
    assert_eq!(r.body, "tx=AB%2Bc%2Fd%3D%3D");
    assert_eq!(r.url, SUBMIT_URL);
    assert_eq!(r.headers.len(), 1);
    assert_eq!(r.headers[0].0, "Content-Type");
    assert_eq!(r.headers[0].1, "application/x-www-form-urlencoded");
}

#[test]
fn exhausted_sequence_builds_nothing() {
    let mut c = CloseCycle::new(vec![job("beta", 1, 0, 300)], 10, i64::MAX, address(OPERATOR_KEY)).unwrap();
    c.scan_ledger(&vec![payment_tx(CREATOR_KEY, "d:beta", OPERATOR_KEY, true, 1)]);
    assert_eq!(c.jobs[0].balance, 300);
    assert!(c.invocation(0).is_err());
    assert_eq!(c.record_execution(0, &Simulation::Built { fee: 1 }), Err(InternalError::Other));
}

#[test]
fn submission_framing_of_encoded_envelope() {
    let r = submit_request_for("AB%2Bc");
    assert_eq!(r.body, "tx=AB%2Bc");
    assert_eq!(r.url, "https://horizon-testnet.stellar.org/transactions");
    assert_eq!(r.headers[0].1, "application/x-www-form-urlencoded");
}
