//! What holds of the ledger over whole streams of records.

use crate::account::AccountView;
use crate::amount::{
    lemma_ge_by_units, lemma_sum_in_units, pow10, round_half_even, rounded, units, Dec,
};
use crate::ledger::{account_of, ledger_wf, lemma_step_wf, outcome, step, LedgerView};
use crate::record::{amount_of, TransactionView};
use vstd::prelude::*;

verus! {

pub proof fn lemma_pow10_positive(n: nat)
    ensures
        pow10(n) > 0,
    decreases n,
{
    if n > 0 {
        lemma_pow10_positive((n - 1) as nat);
    }
}

/// `round_half_even(m, d)` is an integer nearest to `m / d`, and the even one
/// of the two nearest where `m / d` lies halfway between them.
pub proof fn lemma_round_half_even_is_nearest(m: int, d: int)
    requires
        d > 0,
    ensures
        ({
            let n: int = round_half_even(m, d);
            &&& -d <= 2 * (n * d - m) <= d
            &&& (2 * (n * d - m) == d || 2 * (n * d - m) == -d) ==> n % 2 == 0
        }),
{
    let a: int = if m < 0 { -m } else { m };
    let q: int = a / d;
    let r: int = a % d;
    vstd::arithmetic::div_mod::lemma_fundamental_div_mod(a, d);
    vstd::arithmetic::div_mod::lemma_mod_bound(a, d);
    assert(q >= 0) by (nonlinear_arith)
        requires
            a >= 0,
            d > 0,
            q == a / d,
    ;
    assert(a == q * d + r) by (nonlinear_arith)
        requires
            a == d * q + r,
    ;
    assert((q + 1) * d == q * d + d) by (nonlinear_arith);
    assert((-q) * d == -(q * d)) by (nonlinear_arith);
    assert((-(q + 1)) * d == -(q * d + d)) by (nonlinear_arith);
}

/// Rounding an amount of more than `dp` places gives a nearest amount of `dp`
/// places, and where two are equally near, the one whose last digit is even.
pub proof fn rounding_is_to_nearest_ties_to_even(v: Dec, dp: nat)
    requires
        v.scale > dp,
    ensures
        rounded(v, dp).scale == dp,
        ({
            let n: int = rounded(v, dp).mantissa;
            let d: int = pow10((v.scale - dp) as nat);
            &&& d > 0
            &&& -d <= 2 * (n * d - v.mantissa) <= d
            &&& (2 * (n * d - v.mantissa) == d || 2 * (n * d - v.mantissa) == -d) ==> n % 2 == 0
        }),
{
    lemma_pow10_positive((v.scale - dp) as nat);
    lemma_round_half_even_is_nearest(v.mantissa, pow10((v.scale - dp) as nat));
}

/// A stream that was processed to its end leaves a well-formed ledger.
pub proof fn processed_ledger_is_well_formed(inputs: Seq<Option<TransactionView>>)
    requires
        outcome(inputs) is Ok,
    ensures
        ledger_wf(outcome(inputs)->Ok_0),
    decreases inputs.len(),
{
    if inputs.len() > 0 {
        processed_ledger_is_well_formed(inputs.drop_last());
        lemma_step_wf(outcome(inputs.drop_last())->Ok_0, inputs.last()->Some_0);
    }
}

/// A stream that was processed to its end was processed up to every point
/// before the end.
pub proof fn every_prefix_is_processed(inputs: Seq<Option<TransactionView>>, n: int)
    requires
        0 <= n <= inputs.len(),
        outcome(inputs) is Ok,
    ensures
        outcome(inputs.take(n)) is Ok,
    decreases inputs.len(),
{
    if n == inputs.len() {
        assert(inputs.take(n) =~= inputs);
    } else {
        assert(inputs.drop_last().take(n) =~= inputs.take(n));
        every_prefix_is_processed(inputs.drop_last(), n);
    }
}

/// At every point of a stream, each account's total is exactly its available
/// funds plus its held funds.
pub proof fn total_is_available_plus_held(
    inputs: Seq<Option<TransactionView>>,
    n: int,
    client_id: u16,
)
    requires
        0 <= n <= inputs.len(),
        outcome(inputs) is Ok,
        outcome(inputs.take(n))->Ok_0.accounts.contains_key(client_id),
    ensures
        outcome(inputs.take(n)) is Ok,
        ({
            let a: AccountView = outcome(inputs.take(n))->Ok_0.accounts[client_id];
            units(a.total) == units(a.available) + units(a.held)
        }),
{
    every_prefix_is_processed(inputs, n);
    processed_ledger_is_well_formed(inputs.take(n));
    let a: AccountView = outcome(inputs.take(n))->Ok_0.accounts[client_id];
    lemma_sum_in_units(a.available, a.held);
}

/// A record leaves a locked account exactly as it was, whichever client the
/// record names; one that names the locked account's own client is taken and
/// leaves the whole ledger as it was.
pub proof fn locked_account_ignores_record(s: LedgerView, tx: TransactionView, client_id: u16)
    requires
        s.accounts.contains_key(client_id),
        s.accounts[client_id].locked,
    ensures
        step(s, tx) matches Some(t) ==> t.accounts.contains_key(client_id)
            && t.accounts[client_id] == s.accounts[client_id],
        tx.client_id == client_id ==> step(s, tx) == Some(s),
{
    if tx.client_id == client_id {
        let t: LedgerView = step(s, tx)->Some_0;
        assert(t.accounts =~= s.accounts);
    }
}

/// Once an account is locked, nothing that comes later in the stream changes
/// its balances, its dispute set or the lock.
pub proof fn locked_account_stays_as_it_is(
    inputs: Seq<Option<TransactionView>>,
    n: int,
    client_id: u16,
)
    requires
        0 <= n <= inputs.len(),
        outcome(inputs) is Ok,
        outcome(inputs.take(n))->Ok_0.accounts.contains_key(client_id),
        outcome(inputs.take(n))->Ok_0.accounts[client_id].locked,
    ensures
        outcome(inputs)->Ok_0.accounts.contains_key(client_id),
        outcome(inputs)->Ok_0.accounts[client_id] == outcome(
            inputs.take(n),
        )->Ok_0.accounts[client_id],
    decreases inputs.len(),
{
    if n == inputs.len() {
        assert(inputs.take(n) =~= inputs);
    } else {
        assert(inputs.drop_last().take(n) =~= inputs.take(n));
        locked_account_stays_as_it_is(inputs.drop_last(), n, client_id);
        locked_account_ignores_record(
            outcome(inputs.drop_last())->Ok_0,
            inputs.last()->Some_0,
            client_id,
        );
    }
}

/// A withdrawal of more than the available funds is taken and changes nothing
/// in the account: no balance, no lock, no dispute.
pub proof fn insufficient_withdrawal_takes_nothing(s: LedgerView, tx: TransactionView)
    requires
        ledger_wf(s),
        tx.kind is Withdrawal,
        units(amount_of(tx)) > units(account_of(s, tx.client_id).available),
    ensures
        step(s, tx) is Some,
        step(s, tx)->Some_0.accounts[tx.client_id] == account_of(s, tx.client_id),
{
    lemma_ge_by_units(account_of(s, tx.client_id).available, amount_of(tx));
}

/// Disputing a transaction a second time, right after the first, changes
/// nothing: the second dispute is taken and finds the first one open.
pub proof fn dispute_twice_is_dispute_once(s: LedgerView, tx: TransactionView)
    requires
        tx.kind is Dispute,
    ensures
        step(s, tx) matches Some(once) ==> step(once, tx) == Some(once),
{
    if step(s, tx) is Some {
        let once: LedgerView = step(s, tx)->Some_0;
        assert(step(once, tx) is Some);
        let twice: LedgerView = step(once, tx)->Some_0;
        assert(twice.accounts =~= once.accounts);
        assert(twice.disputable =~= once.disputable);
    }
}

/// A dispute, resolve or chargeback that refers to a transaction never taken as
/// a deposit or withdrawal is taken and changes no balance, no lock and no
/// dispute set. All it can do is open the empty account of a client not seen
/// before.
pub proof fn unknown_reference_changes_nothing(s: LedgerView, tx: TransactionView)
    requires
        ledger_wf(s),
        tx.kind is Dispute || tx.kind is Resolve || tx.kind is Chargeback,
        !s.disputable.contains_key(tx.tx_id),
    ensures
        step(s, tx) == Some(
            LedgerView {
                accounts: s.accounts.insert(tx.client_id, account_of(s, tx.client_id)),
                disputable: s.disputable,
            },
        ),
        s.accounts.contains_key(tx.client_id) ==> step(s, tx) == Some(s),
{
    assert(step(s, tx) is Some);
    let t: LedgerView = step(s, tx)->Some_0;
    assert(t.accounts =~= s.accounts.insert(tx.client_id, account_of(s, tx.client_id)));
    if s.accounts.contains_key(tx.client_id) {
        assert(t.accounts =~= s.accounts);
    }
}

} // verus!
