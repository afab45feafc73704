//! A ledger of client accounts, driven by an ordered stream of deposits,
//! withdrawals, disputes, resolves and chargebacks.
//!
//! Amounts are decimals kept to four places, and every balance is an exact sum
//! or difference of such amounts. A record that would take a balance to where a
//! decimal cannot hold it without rounding is refused, and changes nothing.

pub mod account;
pub mod amount;
pub mod laws;
pub mod ledger;
pub mod record;
