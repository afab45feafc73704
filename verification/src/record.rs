//! The records the ledger consumes.

use crate::amount::{dec_zero, representable, rounded, Amount, Dec, TX_AMOUNT_DECIMAL_PLACES};
use vstd::prelude::*;

verus! {

#[derive(Clone, Copy, Debug, PartialEq, Eq, Structural)]
pub enum TransactionType {
    /// Credit to a client's account. Increases available and total funds.
    Deposit,
    /// Debit to a client's account. Decreases available and total funds, unless
    /// the client lacks the funds.
    Withdrawal,
    /// Claim that an earlier transaction was erroneous. Moves its amount from
    /// available to held funds.
    Dispute,
    /// Settles a dispute in the client's favour. Moves the disputed amount back
    /// from held to available funds.
    Resolve,
    /// Settles a dispute against the client. Takes the disputed amount out of
    /// held funds and locks the account.
    Chargeback,
}

/// One entry of the transaction stream.
#[derive(Clone, Copy, Debug)]
pub struct Transaction {
    pub kind: TransactionType,
    pub client_id: u16,
    /// Names the transaction itself for a deposit or a withdrawal, and the
    /// transaction referred to for the other three kinds.
    pub tx_id: u32,
    /// Read for deposits and withdrawals only, where a missing amount counts as
    /// zero.
    pub amount: Option<Amount>,
}

pub struct TransactionView {
    pub kind: TransactionType,
    pub client_id: u16,
    pub tx_id: u32,
    pub amount: Option<Dec>,
}

impl View for Transaction {
    type V = TransactionView;

    open spec fn view(&self) -> TransactionView {
        TransactionView {
            kind: self.kind,
            client_id: self.client_id,
            tx_id: self.tx_id,
            amount: match self.amount {
                Some(a) => Some(a@),
                None => None,
            },
        }
    }
}

/// The amount a deposit or withdrawal moves: what the record carries, or zero,
/// rounded half-to-even to four places.
pub open spec fn amount_of(tx: TransactionView) -> Dec {
    rounded(
        match tx.amount {
            Some(a) => a,
            None => dec_zero(),
        },
        TX_AMOUNT_DECIMAL_PLACES as nat,
    )
}

impl Transaction {
    /// The record's amount as the ledger uses it.
    pub fn rounded_amount(&self) -> (r: Amount)
        ensures
            representable(r@),
            r@ == amount_of(self@),
    {
        let raw: Amount = match self.amount {
            Some(a) => a,
            None => Amount::zero(),
        };
        raw.round_dp(TX_AMOUNT_DECIMAL_PLACES)
    }
}

/// Stands for an entry of the input that could not be decoded into a
/// [`Transaction`].
#[derive(Debug)]
pub struct ParseError {
    pub message: String,
}

} // verus!
