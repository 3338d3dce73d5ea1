//! A prepaid job scheduler driven by ledger closes: payments fund or refund
//! jobs, and due jobs are executed against their balance.

pub mod job;
pub mod strkey;
pub mod ledger;
pub mod tx;
pub mod utils;
pub mod cycle;
