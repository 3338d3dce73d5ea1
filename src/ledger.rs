use vstd::prelude::*;
use crate::strkey::{account_address_of, account_bytes_to_str, strip_prefix_of};

verus! {

/// The memo prefix that turns a payment into a refund request.
pub const REFUND_SENTINEL: &'static str = "d:";

/// A transaction or payment account: a plain ed25519 key, or a multiplexed one.
#[derive(Clone, Copy)]
pub enum MuxedAccount {
    Ed25519([u8; 32]),
    Muxed,
}

/// A transaction memo: only text memos name jobs.
pub enum Memo {
    Text(String),
    Other,
}

/// A payment operation.
pub struct PaymentOp {
    pub destination: MuxedAccount,
    /// The payment is in the native asset.
    pub native: bool,
    pub amount: i64,
}

/// An operation of a transaction: only payments matter here.
pub enum Operation {
    Payment(PaymentOp),
    Other,
}

/// A single-signer transaction.
pub struct TxV1 {
    pub source: MuxedAccount,
    pub memo: Memo,
    pub operations: Vec<Operation>,
}

/// A transaction envelope: single-signer, or another kind (fee bump, legacy).
pub enum Envelope {
    Tx(TxV1),
    Other,
}

/// One settled transaction of a closed ledger.
pub struct LedgerTx {
    /// Its execution result is success.
    pub success: bool,
    pub envelope: Envelope,
}

/// A payment to the operator that funds a job or asks for its refund.
pub struct PaymentEvent {
    /// The job's name, taken from the memo.
    pub name: String,
    /// The memo carried the refund sentinel.
    pub refund: bool,
    /// The transaction's source account.
    pub source: MuxedAccount,
    pub amount: i64,
}

/// A payment event with its name as a sequence of characters.
pub struct EventView {
    pub name: Seq<char>,
    pub refund: bool,
    pub source: MuxedAccount,
    pub amount: i64,
}

impl View for PaymentEvent {
    type V = EventView;

    open spec fn view(&self) -> EventView {
        EventView { name: self.name@, refund: self.refund, source: self.source, amount: self.amount }
    }
}

pub open spec fn refund_sentinel() -> Seq<char> {
    seq!['d', ':']
}

/// The event a memo text names: `(true, rest)` after the refund sentinel,
/// `(false, text)` otherwise.
pub open spec fn memo_target(text: Seq<char>) -> (bool, Seq<char>) {
    if refund_sentinel().is_prefix_of(text) {
        (true, text.subrange(2, text.len() as int))
    } else {
        (false, text)
    }
}

/// A native-asset payment to the account whose address is `operator`.
pub open spec fn pays_operator(op: Operation, operator: Seq<char>) -> bool {
    match op {
        Operation::Payment(p) => p.native && match p.destination {
            MuxedAccount::Ed25519(k) => account_address_of(k@) == operator,
            MuxedAccount::Muxed => false,
        },
        Operation::Other => false,
    }
}

pub open spec fn op_amount(op: Operation) -> i64 {
    match op {
        Operation::Payment(p) => p.amount,
        Operation::Other => 0,
    }
}

/// The events of a list of operations, in order.
pub open spec fn op_events(
    ops: Seq<Operation>,
    target: (bool, Seq<char>),
    source: MuxedAccount,
    operator: Seq<char>,
) -> Seq<EventView>
    decreases ops.len(),
{
    if ops.len() == 0 {
        Seq::empty()
    } else {
        let prev = op_events(ops.drop_last(), target, source, operator);
        if pays_operator(ops.last(), operator) {
            prev.push(
                EventView {
                    name: target.1,
                    refund: target.0,
                    source,
                    amount: op_amount(ops.last()),
                },
            )
        } else {
            prev
        }
    }
}

/// The events of one transaction: none unless it succeeded, is single-signer
/// and has a text memo.
pub open spec fn tx_events(tx: LedgerTx, operator: Seq<char>) -> Seq<EventView> {
    if !tx.success {
        Seq::empty()
    } else {
        match tx.envelope {
            Envelope::Tx(v1) => match v1.memo {
                Memo::Text(t) => op_events(v1.operations@, memo_target(t@), v1.source, operator),
                Memo::Other => Seq::empty(),
            },
            Envelope::Other => Seq::empty(),
        }
    }
}

/// The events of a closed ledger, transaction by transaction.
pub open spec fn ledger_events(txs: Seq<LedgerTx>, operator: Seq<char>) -> Seq<EventView>
    decreases txs.len(),
{
    if txs.len() == 0 {
        Seq::empty()
    } else {
        ledger_events(txs.drop_last(), operator) + tx_events(txs.last(), operator)
    }
}

pub open spec fn events_view(es: Seq<PaymentEvent>) -> Seq<EventView> {
    es.map_values(|e: PaymentEvent| e@)
}

/// Splits a memo text into its refund flag and the job name.
pub fn memo_target_of(text: &String) -> (r: (bool, String))
    ensures
        (r.0, r.1@) == memo_target(text@),
{
    proof {
        reveal_strlit("d:");
    }
    match strip_prefix_of(text.as_str(), REFUND_SENTINEL) {
        Some(rest) => (true, rest),
        None => (false, text.clone()),
    }
}

/// Whether an operation is a native payment to the operator's address.
pub fn is_operator_payment(op: &Operation, operator: &String) -> (r: bool)
    ensures
        r == pays_operator(*op, operator@),
{
    match op {
        Operation::Payment(p) => {
            if !p.native {
                return false;
            }
            match &p.destination {
                MuxedAccount::Ed25519(k) => account_bytes_to_str(k) == *operator,
                MuxedAccount::Muxed => false,
            }
        },
        Operation::Other => false,
    }
}

fn push_op_events(
    out: &mut Vec<PaymentEvent>,
    ops: &Vec<Operation>,
    target: &(bool, String),
    source: MuxedAccount,
    operator: &String,
)
    ensures
        events_view(final(out)@) == events_view(old(out)@) + op_events(
            ops@,
            (target.0, target.1@),
            source,
            operator@,
        ),
{
    let ghost start = events_view(out@);
    let mut i: usize = 0;
    while i < ops.len()
        invariant
            i <= ops@.len(),
            events_view(out@) == start + op_events(
                ops@.subrange(0, i as int),
                (target.0, target.1@),
                source,
                operator@,
            ),
        decreases ops@.len() - i,
    {
        let ghost before = out@;
        proof {
            assert(ops@.subrange(0, i + 1).drop_last() =~= ops@.subrange(0, i as int));
        }
        let op = &ops[i];
        if is_operator_payment(op, operator) {
            let amount = match op {
                Operation::Payment(p) => p.amount,
                Operation::Other => 0,
            };
            out.push(PaymentEvent { name: target.1.clone(), refund: target.0, source, amount });
            proof {
                assert(events_view(out@) =~= events_view(before).push(out@.last()@));
            }
        }
        i = i + 1;
    }
    proof {
        assert(ops@.subrange(0, i as int) =~= ops@);
    }
}

/// Scans a closed ledger for payments to the operator (whose address is
/// `operator`), in transaction and operation order.
pub fn ledger_payments(txs: &Vec<LedgerTx>, operator: &String) -> (r: Vec<PaymentEvent>)
    ensures
        events_view(r@) == ledger_events(txs@, operator@),
{
    let mut out: Vec<PaymentEvent> = Vec::new();
    let mut i: usize = 0;
    proof {
        assert(events_view(out@) =~= Seq::empty());
    }
    while i < txs.len()
        invariant
            i <= txs@.len(),
            events_view(out@) == ledger_events(txs@.subrange(0, i as int), operator@),
        decreases txs@.len() - i,
    {
        proof {
            assert(txs@.subrange(0, i + 1).drop_last() =~= txs@.subrange(0, i as int));
        }
        let ghost before = events_view(out@);
        let tx = &txs[i];
        if tx.success {
            match &tx.envelope {
                Envelope::Tx(v1) => match &v1.memo {
                    Memo::Text(t) => {
                        let target = memo_target_of(t);
                        push_op_events(&mut out, &v1.operations, &target, v1.source, operator);
                    },
                    Memo::Other => {},
                },
                Envelope::Other => {},
            }
        }
        proof {
            assert(events_view(out@) =~= before + tx_events(txs@[i as int], operator@));
        }
        i = i + 1;
    }
    proof {
        assert(txs@.subrange(0, i as int) =~= txs@);
    }
    out
}

} // verus!
