//! The ledger: every client's account, and the deposits and withdrawals that a
//! later record may refer to.

use crate::account::{
    account_step, account_wf, lemma_account_step_wf, opened, AccountView, ClientState,
};
use crate::amount::{opt_dec, Amount, Dec, Overflow};
use crate::record::{amount_of, ParseError, Transaction, TransactionType, TransactionView};
use std::collections::HashMap;
use vstd::prelude::*;

verus! {

broadcast use vstd::std_specs::hash::group_hash_axioms;

pub struct LedgerView {
    /// The account of every client that a record has named so far.
    pub accounts: Map<u16, AccountView>,
    /// The rounded amount of every deposit and withdrawal taken so far, by
    /// transaction id. It is shared by all clients, and an id used twice keeps
    /// the later amount.
    pub disputable: Map<u32, Dec>,
}

pub open spec fn empty_ledger() -> LedgerView {
    LedgerView { accounts: Map::empty(), disputable: Map::empty() }
}

/// The account that a record for `client_id` works on: the client's own, or a
/// fresh one for a client not seen before.
pub open spec fn account_of(s: LedgerView, client_id: u16) -> AccountView {
    if s.accounts.contains_key(client_id) {
        s.accounts[client_id]
    } else {
        opened(client_id)
    }
}

/// Whether the record is one that gets remembered for later disputes: a deposit
/// or withdrawal on an account that is not locked.
pub open spec fn remembered(s: LedgerView, tx: TransactionView) -> bool {
    !account_of(s, tx.client_id).locked && (tx.kind is Deposit || tx.kind is Withdrawal)
}

/// The ledger after one more record, or `None` where the record is refused
/// because a decimal cannot hold one of the balances it would leave.
pub open spec fn step(s: LedgerView, tx: TransactionView) -> Option<LedgerView> {
    match account_step(
        account_of(s, tx.client_id),
        tx.kind,
        tx.tx_id,
        amount_of(tx),
        s.disputable.get(tx.tx_id),
    ) {
        Some(a) => Some(
            LedgerView {
                accounts: s.accounts.insert(tx.client_id, a),
                disputable: if remembered(s, tx) {
                    s.disputable.insert(tx.tx_id, amount_of(tx))
                } else {
                    s.disputable
                },
            },
        ),
        None => None,
    }
}

/// What holds of a ledger at all times: every account is well-formed and filed
/// under its own client, and every open dispute is of a remembered transaction.
pub open spec fn ledger_wf(s: LedgerView) -> bool {
    &&& forall|id: u16| #[trigger]
        s.accounts.contains_key(id) ==> account_wf(s.accounts[id]) && s.accounts[id].client_id
            == id
    &&& forall|id: u16, tx_id: u32|
        s.accounts.contains_key(id) && #[trigger] s.accounts[id].disputed.contains(tx_id)
            ==> s.disputable.contains_key(tx_id)
}

pub open spec fn accounts_view(m: Map<u16, ClientState>) -> Map<u16, AccountView> {
    Map::new(|id: u16| m.contains_key(id), |id: u16| m[id]@)
}

pub open spec fn amounts_view(m: Map<u32, Amount>) -> Map<u32, Dec> {
    Map::new(|tx_id: u32| m.contains_key(tx_id), |tx_id: u32| m[tx_id]@)
}

/// Why a stream of records could not be processed to its end.
#[derive(Clone, Copy, Debug, PartialEq, Eq)]
pub enum ProcessError {
    /// The entry at `index` was not a decoded record.
    Malformed { index: usize },
    /// The record at `index` would have left a balance that a decimal cannot
    /// hold without rounding.
    Overflow { index: usize },
}

pub open spec fn decoded(input: Result<Transaction, ParseError>) -> Option<TransactionView> {
    match input {
        Ok(tx) => Some(tx@),
        Err(_) => None,
    }
}

pub open spec fn decoded_all(inputs: Seq<Result<Transaction, ParseError>>) -> Seq<
    Option<TransactionView>,
> {
    Seq::new(inputs.len(), |i: int| decoded(inputs[i]))
}

/// The result of processing a stream from an empty ledger, one entry after the
/// other: the ledger after the last entry, or the first entry that stopped it.
pub open spec fn outcome(inputs: Seq<Option<TransactionView>>) -> Result<LedgerView, ProcessError>
    decreases inputs.len(),
{
    if inputs.len() == 0 {
        Ok(empty_ledger())
    } else {
        match outcome(inputs.drop_last()) {
            Err(e) => Err(e),
            Ok(s) => match inputs.last() {
                None => Err(ProcessError::Malformed { index: (inputs.len() - 1) as usize }),
                Some(tx) => match step(s, tx) {
                    Some(t) => Ok(t),
                    None => Err(ProcessError::Overflow { index: (inputs.len() - 1) as usize }),
                },
            },
        }
    }
}

/// A step keeps a well-formed ledger well-formed.
pub proof fn lemma_step_wf(s: LedgerView, tx: TransactionView)
    requires
        ledger_wf(s),
        step(s, tx) is Some,
    ensures
        ledger_wf(step(s, tx)->Some_0),
{
    let t = step(s, tx)->Some_0;
    let a = account_of(s, tx.client_id);
    lemma_account_step_wf(a, tx.kind, tx.tx_id, amount_of(tx), s.disputable.get(tx.tx_id));
    assert forall|id: u16| #[trigger] t.accounts.contains_key(id) implies account_wf(
        t.accounts[id],
    ) && t.accounts[id].client_id == id by {
        if id != tx.client_id {
            assert(s.accounts.contains_key(id));
        }
    }
    assert forall|id: u16, tx_id: u32|
        t.accounts.contains_key(id) && #[trigger] t.accounts[id].disputed.contains(
            tx_id,
        ) implies t.disputable.contains_key(tx_id) by {
        if id != tx.client_id {
            assert(s.accounts.contains_key(id));
            assert(s.accounts[id].disputed.contains(tx_id));
        } else if tx_id != tx.tx_id {
            assert(a.disputed.contains(tx_id));
            if s.accounts.contains_key(id) {
                assert(s.accounts[id].disputed.contains(tx_id));
            }
        }
    }
}

pub struct Ledger {
    client_states: HashMap<u16, ClientState>,
    disputable_transactions: HashMap<u32, Amount>,
}

impl View for Ledger {
    type V = LedgerView;

    closed spec fn view(&self) -> LedgerView {
        LedgerView {
            accounts: accounts_view(self.client_states@),
            disputable: amounts_view(self.disputable_transactions@),
        }
    }
}

impl Ledger {
    pub open spec fn wf(&self) -> bool {
        ledger_wf(self@)
    }

    /// A ledger that has seen no record.
    pub fn new() -> (ledger: Ledger)
        ensures
            ledger.wf(),
            ledger@ == empty_ledger(),
    {
        let ledger = Ledger {
            client_states: HashMap::new(),
            disputable_transactions: HashMap::new(),
        };
        assert(ledger@.accounts =~= Map::empty());
        assert(ledger@.disputable =~= Map::empty());
        ledger
    }

    /// The account of `client_id`, if a record has named that client.
    pub fn account(&self, client_id: u16) -> (r: Option<&ClientState>)
        ensures
            match r {
                Some(state) => self@.accounts.contains_key(client_id) && state@
                    == self@.accounts[client_id],
                None => !self@.accounts.contains_key(client_id),
            },
    {
        self.client_states.get(&client_id)
    }

    /// All accounts, by client.
    pub fn client_states(&self) -> (m: &HashMap<u16, ClientState>)
        ensures
            accounts_view(m@) == self@.accounts,
    {
        &self.client_states
    }

    /// The amount remembered for `tx_id`, if a deposit or withdrawal of that id
    /// was taken.
    pub fn disputable(&self, tx_id: u32) -> (r: Option<Amount>)
        ensures
            opt_dec(r) == self@.disputable.get(tx_id),
    {
        match self.disputable_transactions.get(&tx_id) {
            Some(a) => Some(*a),
            None => None,
        }
    }

    /// Takes one record. The ledger moves on by one step, or refuses the record
    /// and stays as it was.
    pub fn apply(&mut self, tx: &Transaction) -> (r: Result<(), Overflow>)
        requires
            old(self).wf(),
        ensures
            final(self).wf(),
            r is Ok ==> step(old(self)@, tx@) == Some(final(self)@),
            r is Err ==> step(old(self)@, tx@) is None,
            r is Err ==> final(self)@ == old(self)@,
    {
        let id: u16 = tx.client_id;
        let amount: Amount = tx.rounded_amount();
        let referred: Option<Amount> = self.disputable(tx.tx_id);
        let existing: Option<ClientState> = self.client_states.remove(&id);
        let existed: bool = existing.is_some();
        let mut state: ClientState = match existing {
            Some(s) => s,
            None => ClientState::new(id),
        };
        assert(state@ == account_of(old(self)@, id));
        let was_locked: bool = state.locked();
        let r = state.apply(tx.kind, tx.tx_id, amount, referred);
        match r {
            Ok(()) => {
                self.client_states.insert(id, state);
                let remembers: bool = !was_locked && match tx.kind {
                    TransactionType::Deposit => true,
                    TransactionType::Withdrawal => true,
                    _ => false,
                };
                if remembers {
                    self.disputable_transactions.insert(tx.tx_id, amount);
                }
                proof {
                    let t = step(old(self)@, tx@)->Some_0;
                    assert(self@.accounts =~= t.accounts);
                    assert(self@.disputable =~= t.disputable);
                    lemma_step_wf(old(self)@, tx@);
                }
                Ok(())
            },
            Err(e) => {
                if existed {
                    self.client_states.insert(id, state);
                }
                proof {
                    assert(self.client_states@ =~= old(self).client_states@);
                }
                Err(e)
            },
        }
    }

    /// Processes a whole stream from an empty ledger, stopping at the first
    /// entry that is malformed or refused.
    pub fn process(inputs: &Vec<Result<Transaction, ParseError>>) -> (r: Result<
        Ledger,
        ProcessError,
    >)
        ensures
            match r {
                Ok(ledger) => ledger.wf() && outcome(decoded_all(inputs@)) == Ok::<
                    LedgerView,
                    ProcessError,
                >(ledger@),
                Err(e) => outcome(decoded_all(inputs@)) == Err::<LedgerView, ProcessError>(e),
            },
    {
        let mut ledger: Ledger = Ledger::new();
        let mut i: usize = 0;
        let ghost all = decoded_all(inputs@);
        assert(all.take(0) =~= Seq::empty());
        while i < inputs.len()
            invariant
                i <= inputs.len(),
                all == decoded_all(inputs@),
                ledger.wf(),
                outcome(all.take(i as int)) == Ok::<LedgerView, ProcessError>(ledger@),
            decreases inputs.len() - i,
        {
            proof {
                assert(all.take(i + 1).drop_last() =~= all.take(i as int));
                assert(all.take(i + 1).last() == decoded(inputs@[i as int]));
            }
            match &inputs[i] {
                Err(_) => {
                    proof {
                        lemma_failure_is_final(all, i + 1);
                    }
                    return Err(ProcessError::Malformed { index: i });
                },
                Ok(tx) => {
                    if ledger.apply(tx).is_err() {
                        proof {
                            lemma_failure_is_final(all, i + 1);
                        }
                        return Err(ProcessError::Overflow { index: i });
                    }
                },
            }
            i += 1;
        }
        assert(all.take(i as int) =~= all);
        Ok(ledger)
    }
}

/// Once a prefix of the stream has failed, the whole stream fails the same way.
pub proof fn lemma_failure_is_final(inputs: Seq<Option<TransactionView>>, n: int)
    requires
        0 <= n <= inputs.len(),
        outcome(inputs.take(n)) is Err,
    ensures
        outcome(inputs) == outcome(inputs.take(n)),
    decreases inputs.len() - n,
{
    if n < inputs.len() {
        assert(inputs.take(n + 1).drop_last() =~= inputs.take(n));
        lemma_failure_is_final(inputs, n + 1);
    } else {
        assert(inputs.take(n) =~= inputs);
    }
}

} // verus!
