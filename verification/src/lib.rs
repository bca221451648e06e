//! A batch payments ledger: replays an ordered stream of transactions
//! (deposits, withdrawals, disputes, resolutions, chargebacks) against
//! per-client accounts and exposes the resulting balances.
//!
//! Monetary values are exact fixed-point quantities (`Amount`), so every
//! balance computation is plain integer arithmetic and is verified: each
//! mutation of the ledger is proved equal to a mathematical transition
//! function over the ledger's abstract view.

pub mod amount;
pub mod types;
pub mod model;
pub mod laws;
pub mod ledger;
