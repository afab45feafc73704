//! The state of one client's account and what each kind of record does to it.

use crate::amount::{
    checked_diff, checked_sum, dec_ge, dec_zero, lemma_sum_is_short, opt_dec, short, Amount, Dec,
    Overflow,
};
use crate::record::TransactionType;
use std::collections::HashSet;
use vstd::prelude::*;

verus! {

broadcast use vstd::std_specs::hash::group_hash_axioms;

pub struct AccountView {
    pub client_id: u16,
    /// Funds usable for withdrawal.
    pub available: Dec,
    /// Funds frozen while a dispute is open.
    pub held: Dec,
    pub total: Dec,
    pub locked: bool,
    /// The transactions under an open dispute.
    pub disputed: Set<u32>,
}

/// The account of a client seen for the first time.
pub open spec fn opened(client_id: u16) -> AccountView {
    AccountView {
        client_id,
        available: dec_zero(),
        held: dec_zero(),
        total: dec_zero(),
        locked: false,
        disputed: Set::empty(),
    }
}

/// `a` with the given available and held funds and the total that goes with
/// them, where all three could be computed exactly.
pub open spec fn rebalanced(a: AccountView, available: Option<Dec>, held: Option<Dec>) -> Option<
    AccountView,
> {
    match (available, held) {
        (Some(av), Some(h)) => match checked_sum(av, h) {
            Some(t) => Some(AccountView { available: av, held: h, total: t, ..a }),
            None => None,
        },
        _ => None,
    }
}

/// `a` with its total brought up to date.
pub open spec fn settled(a: AccountView) -> Option<AccountView> {
    rebalanced(a, Some(a.available), Some(a.held))
}

pub open spec fn deposited(a: AccountView, amount: Dec) -> Option<AccountView> {
    rebalanced(a, checked_sum(a.available, amount), Some(a.held))
}

/// A withdrawal goes through only where the available funds cover it.
pub open spec fn withdrawn(a: AccountView, amount: Dec) -> Option<AccountView> {
    if dec_ge(a.available, amount) {
        rebalanced(a, checked_diff(a.available, amount), Some(a.held))
    } else {
        settled(a)
    }
}

/// A dispute of `tx_id`, whose amount was `amount`, opens only where none is
/// open for it yet.
pub open spec fn disputed(a: AccountView, tx_id: u32, amount: Dec) -> Option<AccountView> {
    if a.disputed.contains(tx_id) {
        settled(a)
    } else {
        match rebalanced(a, checked_diff(a.available, amount), checked_sum(a.held, amount)) {
            Some(b) => Some(AccountView { disputed: a.disputed.insert(tx_id), ..b }),
            None => None,
        }
    }
}

/// A resolve closes the open dispute of `tx_id`, if there is one.
pub open spec fn resolved(a: AccountView, tx_id: u32, amount: Dec) -> Option<AccountView> {
    if a.disputed.contains(tx_id) {
        match rebalanced(a, checked_sum(a.available, amount), checked_diff(a.held, amount)) {
            Some(b) => Some(AccountView { disputed: a.disputed.remove(tx_id), ..b }),
            None => None,
        }
    } else {
        settled(a)
    }
}

/// A chargeback closes the open dispute of `tx_id`, if there is one, and locks
/// the account.
pub open spec fn charged_back(a: AccountView, tx_id: u32, amount: Dec) -> Option<AccountView> {
    if a.disputed.contains(tx_id) {
        match rebalanced(a, Some(a.available), checked_diff(a.held, amount)) {
            Some(b) => Some(
                AccountView { locked: true, disputed: a.disputed.remove(tx_id), ..b },
            ),
            None => None,
        }
    } else {
        settled(a)
    }
}

/// What one record does to the account it names, or `None` where a decimal
/// cannot hold one of the balances it would leave. `amount` is the record's own
/// rounded amount; `referred` is the amount of the deposit or withdrawal that
/// `tx_id` refers to, if one was seen. A locked account takes nothing.
pub open spec fn account_step(
    a: AccountView,
    kind: TransactionType,
    tx_id: u32,
    amount: Dec,
    referred: Option<Dec>,
) -> Option<AccountView> {
    if a.locked {
        Some(a)
    } else {
        match kind {
            TransactionType::Deposit => deposited(a, amount),
            TransactionType::Withdrawal => withdrawn(a, amount),
            TransactionType::Dispute => match referred {
                Some(d) => disputed(a, tx_id, d),
                None => settled(a),
            },
            TransactionType::Resolve => match referred {
                Some(d) => resolved(a, tx_id, d),
                None => settled(a),
            },
            TransactionType::Chargeback => match referred {
                Some(d) => charged_back(a, tx_id, d),
                None => settled(a),
            },
        }
    }
}

/// What holds of every account in a ledger: the balances have at most four
/// places, and the total is the exact sum of the available and the held funds.
pub open spec fn account_wf(a: AccountView) -> bool {
    &&& short(a.available)
    &&& short(a.held)
    &&& short(a.total)
    &&& checked_sum(a.available, a.held) == Some(a.total)
}

/// A step keeps a well-formed account well-formed.
pub proof fn lemma_account_step_wf(
    a: AccountView,
    kind: TransactionType,
    tx_id: u32,
    amount: Dec,
    referred: Option<Dec>,
)
    requires
        account_wf(a),
    ensures
        account_step(a, kind, tx_id, amount, referred) matches Some(b) ==> account_wf(b)
            && b.client_id == a.client_id,
{
    if account_step(a, kind, tx_id, amount, referred) is Some {
        let b: AccountView = account_step(a, kind, tx_id, amount, referred)->Some_0;
        lemma_sum_is_short(b.available, b.held);
    }
}

/// The state of one client's account.
#[derive(Debug)]
pub struct ClientState {
    client_id: u16,
    available: Amount,
    held: Amount,
    total: Amount,
    locked: bool,
    disputed_tx_ids: HashSet<u32>,
}

impl View for ClientState {
    type V = AccountView;

    closed spec fn view(&self) -> AccountView {
        AccountView {
            client_id: self.client_id,
            available: self.available@,
            held: self.held@,
            total: self.total@,
            locked: self.locked,
            disputed: self.disputed_tx_ids@,
        }
    }
}

impl Default for ClientState {
    fn default() -> (s: ClientState)
        ensures
            s@ == opened(0),
    {
        ClientState::new(0)
    }
}

impl ClientState {
    /// A fresh account: nothing in it, unlocked, no dispute open.
    pub fn new(client_id: u16) -> (s: ClientState)
        ensures
            s@ == opened(client_id),
    {
        ClientState {
            client_id,
            available: Amount::zero(),
            held: Amount::zero(),
            total: Amount::zero(),
            locked: false,
            disputed_tx_ids: HashSet::new(),
        }
    }

    pub fn client_id(&self) -> (id: u16)
        ensures
            id == self@.client_id,
    {
        self.client_id
    }

    pub fn available(&self) -> (a: Amount)
        ensures
            a@ == self@.available,
    {
        self.available
    }

    pub fn held(&self) -> (a: Amount)
        ensures
            a@ == self@.held,
    {
        self.held
    }

    pub fn total(&self) -> (a: Amount)
        ensures
            a@ == self@.total,
    {
        self.total
    }

    pub fn locked(&self) -> (b: bool)
        ensures
            b == self@.locked,
    {
        self.locked
    }

    /// Whether a dispute of `tx_id` is open on this account.
    pub fn is_disputed(&self, tx_id: u32) -> (b: bool)
        ensures
            b == self@.disputed.contains(tx_id),
    {
        self.disputed_tx_ids.contains(&tx_id)
    }

    /// Applies one record to the account, or refuses it and leaves the account
    /// as it was where a decimal cannot hold one of the new balances.
    pub(crate) fn apply(
        &mut self,
        kind: TransactionType,
        tx_id: u32,
        amount: Amount,
        referred: Option<Amount>,
    ) -> (r: Result<(), Overflow>)
        requires
            account_wf(old(self)@),
        ensures
            r is Ok ==> account_step(old(self)@, kind, tx_id, amount@, opt_dec(referred)) == Some(
                final(self)@,
            ),
            r is Ok ==> account_wf(final(self)@),
            r is Err ==> account_step(old(self)@, kind, tx_id, amount@, opt_dec(referred)) is None,
            r is Err ==> *final(self) == *old(self),
    {
        if self.locked {
            return Ok(());
        }
        let mut available: Option<Amount> = Some(self.available);
        let mut held: Option<Amount> = Some(self.held);
        let mut locks: bool = false;
        let mut opens: bool = false;
        let mut closes: bool = false;
        match kind {
            TransactionType::Deposit => {
                available = self.available.checked_add(amount);
            },
            TransactionType::Withdrawal => {
                if self.available.at_least(amount) {
                    available = self.available.checked_sub(amount);
                }
            },
            TransactionType::Dispute => {
                if let Some(d) = referred {
                    if !self.disputed_tx_ids.contains(&tx_id) {
                        available = self.available.checked_sub(d);
                        held = self.held.checked_add(d);
                        opens = true;
                    }
                }
            },
            TransactionType::Resolve => {
                if let Some(d) = referred {
                    if self.disputed_tx_ids.contains(&tx_id) {
                        available = self.available.checked_add(d);
                        held = self.held.checked_sub(d);
                        closes = true;
                    }
                }
            },
            TransactionType::Chargeback => {
                if let Some(d) = referred {
                    if self.disputed_tx_ids.contains(&tx_id) {
                        held = self.held.checked_sub(d);
                        locks = true;
                        closes = true;
                    }
                }
            },
        }
        let (available, held): (Amount, Amount) = match (available, held) {
            (Some(a), Some(h)) => (a, h),
            _ => {
                return Err(Overflow);
            },
        };
        let total: Amount = match available.checked_add(held) {
            Some(t) => t,
            None => {
                return Err(Overflow);
            },
        };
        proof {
            lemma_account_step_wf(old(self)@, kind, tx_id, amount@, opt_dec(referred));
        }
        self.available = available;
        self.held = held;
        self.total = total;
        self.locked = locks;
        if opens {
            self.disputed_tx_ids.insert(tx_id);
        }
        if closes {
            self.disputed_tx_ids.remove(&tx_id);
        }
        Ok(())
    }
}

} // verus!
