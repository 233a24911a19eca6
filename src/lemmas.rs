//! Laws of the ledger, stated over its step function `apply` and proved.

use crate::account_manager::{
    Account, DisputeState, Ledger, apply, balanced, empty_ledger, fits, is_balanced, run,
};
use crate::amount::Amount;
use crate::transaction::{Transaction, TransactionId, UserId};
use vstd::prelude::*;

verus! {

/// The transaction id that a transaction carries or refers to.
pub open spec fn tx_of(t: Transaction) -> TransactionId {
    match t {
        Transaction::Deposit { tx, .. } => tx,
        Transaction::Withdrawal { tx, .. } => tx,
        Transaction::Dispute { tx, .. } => tx,
        Transaction::Resolve { tx, .. } => tx,
        Transaction::Chargeback { tx, .. } => tx,
    }
}

/// A dispute, a resolve or a chargeback.
pub open spec fn is_dispute_kind(t: Transaction) -> bool {
    t is Dispute || t is Resolve || t is Chargeback
}

/// The sum of the amounts that `ts` deposits for `user`.
pub open spec fn deposited(ts: Seq<Transaction>, user: UserId) -> int
    decreases ts.len(),
{
    if ts.len() == 0 {
        0
    } else {
        deposited(ts.drop_last(), user) + match ts.last() {
            Transaction::Deposit { user: u, amount, .. } => if u == user { amount.0 as int } else { 0 },
            _ => 0,
        }
    }
}

/// Starting from an empty ledger, deposits alone leave each user's total
/// equal to the sum of that user's deposits, all of it available, nothing
/// held and the account unlocked; a user without deposits has no account.
pub proof fn lemma_deposits_only(ts: Seq<Transaction>, user: UserId)
    requires
        forall|i: int| 0 <= i < ts.len() ==> #[trigger] ts[i] is Deposit,
        run(empty_ledger(), ts) is Some,
    ensures
        ({
            let l = run(empty_ledger(), ts).unwrap();
            &&& l.accounts.contains_key(user) ==> {
                &&& l.accounts[user].total == deposited(ts, user)
                &&& l.accounts[user].available == l.accounts[user].total
                &&& l.accounts[user].held == 0
                &&& !l.accounts[user].locked
            }
            &&& !l.accounts.contains_key(user) ==> deposited(ts, user) == 0
        }),
    decreases ts.len(),
{
    if ts.len() > 0 {
        let init = ts.drop_last();
        assert forall|i: int| 0 <= i < init.len() implies #[trigger] init[i] is Deposit by {
            assert(ts[i] is Deposit);
        }
        lemma_deposits_only(init, user);
        assert(ts[ts.len() - 1] is Deposit);
    }
}

/// One transaction keeps every account balanced (`total == available + held`).
/// A chargeback lowers `held` and `total` by the same amount, so it keeps it too.
pub proof fn lemma_apply_keeps_balance(l: Ledger, t: Transaction)
    requires
        balanced(l),
        apply(l, t) is Some,
    ensures
        balanced(apply(l, t).unwrap()),
{
    let m = apply(l, t).unwrap();
    assert forall|u: UserId| #[trigger] m.accounts.contains_key(u) implies is_balanced(m.accounts[u]) by {
        if l.accounts.contains_key(u) {
            assert(is_balanced(l.accounts[u]));
        }
    }
}

/// Every ledger reached from the empty one is balanced after every transaction.
pub proof fn lemma_run_keeps_balance(ts: Seq<Transaction>)
    requires
        run(empty_ledger(), ts) is Some,
    ensures
        balanced(run(empty_ledger(), ts).unwrap()),
    decreases ts.len(),
{
    if ts.len() > 0 {
        lemma_run_keeps_balance(ts.drop_last());
        lemma_apply_keeps_balance(run(empty_ledger(), ts.drop_last()).unwrap(), ts.last());
    }
}

/// A dispute, resolve or chargeback of a deposit that is already resolved
/// or charged back changes nothing.
pub proof fn lemma_terminal_state_is_final(l: Ledger, t: Transaction)
    requires
        is_dispute_kind(t),
        l.records.contains_key(tx_of(t)),
        l.records[tx_of(t)].state == DisputeState::Resolved
            || l.records[tx_of(t)].state == DisputeState::ChargedBack,
    ensures
        apply(l, t) == Some(l),
{
}

/// A withdrawal of more than is available changes nothing.
pub proof fn lemma_overdraft_refused(l: Ledger, user: UserId, tx: TransactionId, amount: Amount)
    requires
        l.accounts.contains_key(user) ==> l.accounts[user].available < amount.0,
    ensures
        apply(l, Transaction::Withdrawal { user, tx, amount }) == Some(l),
{
}

/// A locked account refuses withdrawals but still takes deposits, which
/// raise `available` and `total` and leave it locked.
pub proof fn lemma_locked_account(l: Ledger, user: UserId, tx: TransactionId, amount: Amount)
    requires
        l.accounts.contains_key(user),
        l.accounts[user].locked,
    ensures
        apply(l, Transaction::Withdrawal { user, tx, amount }) == Some(l),
        ({
            let a = l.accounts[user];
            let d = apply(l, Transaction::Deposit { user, tx, amount });
            fits(a.available + amount.0) && fits(a.total + amount.0) ==> {
                &&& d is Some
                &&& d.unwrap().accounts[user] == Account {
                    available: (a.available + amount.0) as i128,
                    held: a.held,
                    total: (a.total + amount.0) as i128,
                    locked: true,
                }
            }
        }),
{
}

/// A dispute, resolve or chargeback of a transaction id that no deposit
/// recorded changes no account and creates no record.
pub proof fn lemma_unknown_transaction(l: Ledger, t: Transaction)
    requires
        is_dispute_kind(t),
        !l.records.contains_key(tx_of(t)),
    ensures
        apply(l, t) == Some(l),
{
}

} // verus!
