//! The ledger engine: accounts per user and the dispute state of each deposit.

use crate::amount::Amount;
use crate::transaction::{Transaction, TransactionId, UserId};
use std::collections::HashMap;
use vstd::prelude::*;

verus! {

broadcast use vstd::std_specs::hash::group_hash_axioms;

/// The balances of one user.
#[derive(Copy, Clone, Debug, PartialEq, Eq, Structural)]
pub struct Account {
    /// Funds usable for withdrawal; may go negative through disputes.
    pub available: i128,
    /// Funds frozen by open disputes.
    pub held: i128,
    /// All funds of the account: `available + held`.
    pub total: i128,
    /// Set by a chargeback; a locked account takes deposits only.
    pub locked: bool,
}

/// Where a deposit stands in its dispute lifecycle.
#[derive(Copy, Clone, Debug, PartialEq, Eq, Structural)]
pub enum DisputeState {
    Initial,
    Disputed,
    Resolved,
    ChargedBack,
}

/// A deposit as the ledger remembers it.
#[derive(Copy, Clone, Debug, PartialEq, Eq, Structural)]
pub struct TransactionRecord {
    pub transaction: Transaction,
    pub state: DisputeState,
}

/// The abstract state of the ledger: the accounts by user, and the
/// records of deposits by transaction id.
pub struct Ledger {
    pub accounts: Map<UserId, Account>,
    pub records: Map<TransactionId, TransactionRecord>,
}

pub open spec fn empty_ledger() -> Ledger {
    Ledger { accounts: Map::empty(), records: Map::empty() }
}

pub open spec fn fits(v: int) -> bool {
    i128::MIN <= v <= i128::MAX
}

pub open spec fn zero_account() -> Account {
    Account { available: 0, held: 0, total: 0, locked: false }
}

/// `total == available + held`.
pub open spec fn is_balanced(a: Account) -> bool {
    a.total == a.available + a.held
}

/// Every account of `l` is balanced.
pub open spec fn balanced(l: Ledger) -> bool {
    forall|u: UserId| #[trigger] l.accounts.contains_key(u) ==> is_balanced(l.accounts[u])
}

/// The amount of a deposit or a withdrawal; zero for the other kinds.
pub open spec fn amount_of(t: Transaction) -> int {
    match t {
        Transaction::Deposit { amount, .. } => amount.0 as int,
        Transaction::Withdrawal { amount, .. } => amount.0 as int,
        _ => 0,
    }
}

/// A dispute-kind transaction on `user` and `tx` passes the guard when the
/// user's account exists and is unlocked and `tx` is a deposit in state `from`.
/// The owner of the deposit is not compared with `user`.
pub open spec fn guard(l: Ledger, user: UserId, tx: TransactionId, from: DisputeState) -> bool {
    &&& l.accounts.contains_key(user)
    &&& !l.accounts[user].locked
    &&& l.records.contains_key(tx)
    &&& l.records[tx].transaction is Deposit
    &&& l.records[tx].state == from
}

pub open spec fn with_account(l: Ledger, user: UserId, a: Account) -> Ledger {
    Ledger { accounts: l.accounts.insert(user, a), records: l.records }
}

pub open spec fn with_state(l: Ledger, tx: TransactionId, s: DisputeState) -> Ledger {
    Ledger {
        accounts: l.accounts,
        records: l.records.insert(tx, TransactionRecord { transaction: l.records[tx].transaction, state: s }),
    }
}

/// The account of `user` after its three balances become `av`, `h`, `t`
/// and its lock `lk`; `None` where one leaves the range of `i128`.
pub open spec fn set_balances(av: int, h: int, t: int, lk: bool) -> Option<Account> {
    if fits(av) && fits(h) && fits(t) {
        Some(Account { available: av as i128, held: h as i128, total: t as i128, locked: lk })
    } else {
        None
    }
}

pub open spec fn deposit_step(l: Ledger, user: UserId, tx: TransactionId, amount: Amount) -> Option<Ledger> {
    let a = if l.accounts.contains_key(user) { l.accounts[user] } else { zero_account() };
    match set_balances(a.available + amount.0, a.held as int, a.total + amount.0, a.locked) {
        Some(b) => Some(Ledger {
            accounts: l.accounts.insert(user, b),
            records: l.records.insert(
                tx,
                TransactionRecord {
                    transaction: Transaction::Deposit { user, tx, amount },
                    state: DisputeState::Initial,
                },
            ),
        }),
        None => None,
    }
}

pub open spec fn withdrawal_step(l: Ledger, user: UserId, amount: Amount) -> Option<Ledger> {
    if l.accounts.contains_key(user) && !l.accounts[user].locked && l.accounts[user].available >= amount.0 {
        let a = l.accounts[user];
        match set_balances(a.available - amount.0, a.held as int, a.total - amount.0, a.locked) {
            Some(b) => Some(with_account(l, user, b)),
            None => None,
        }
    } else {
        Some(l)
    }
}

/// Dispute and resolve both move the deposit's amount from `available`
/// to `held`; they differ in the state they start from and reach.
pub open spec fn hold_step(
    l: Ledger,
    user: UserId,
    tx: TransactionId,
    from: DisputeState,
    to: DisputeState,
) -> Option<Ledger> {
    if guard(l, user, tx, from) {
        let a = l.accounts[user];
        let m = amount_of(l.records[tx].transaction);
        match set_balances(a.available - m, a.held + m, a.total as int, a.locked) {
            Some(b) => Some(with_state(with_account(l, user, b), tx, to)),
            None => None,
        }
    } else {
        Some(l)
    }
}

pub open spec fn chargeback_step(l: Ledger, user: UserId, tx: TransactionId) -> Option<Ledger> {
    if guard(l, user, tx, DisputeState::Disputed) {
        let a = l.accounts[user];
        let m = amount_of(l.records[tx].transaction);
        match set_balances(a.available as int, a.held - m, a.total - m, true) {
            Some(b) => Some(with_state(with_account(l, user, b), tx, DisputeState::ChargedBack)),
            None => None,
        }
    } else {
        Some(l)
    }
}

/// The ledger after `t`; `None` where a balance would leave the range of `i128`.
pub open spec fn apply(l: Ledger, t: Transaction) -> Option<Ledger> {
    match t {
        Transaction::Deposit { user, tx, amount } => deposit_step(l, user, tx, amount),
        Transaction::Withdrawal { user, amount, .. } => withdrawal_step(l, user, amount),
        Transaction::Dispute { user, tx } => hold_step(l, user, tx, DisputeState::Initial, DisputeState::Disputed),
        Transaction::Resolve { user, tx } => hold_step(l, user, tx, DisputeState::Disputed, DisputeState::Resolved),
        Transaction::Chargeback { user, tx } => chargeback_step(l, user, tx),
    }
}

/// The ledger after each of `ts` in turn.
pub open spec fn run(l: Ledger, ts: Seq<Transaction>) -> Option<Ledger>
    decreases ts.len(),
{
    if ts.len() == 0 {
        Some(l)
    } else {
        match run(l, ts.drop_last()) {
            Some(m) => apply(m, ts.last()),
            None => None,
        }
    }
}

impl TransactionRecord {
    pub fn new(transaction: Transaction) -> (r: Self)
        ensures
            r == (TransactionRecord { transaction, state: DisputeState::Initial }),
    {
        TransactionRecord { transaction, state: DisputeState::Initial }
    }

    pub fn dispute(&mut self)
        requires
            old(self).state == DisputeState::Initial,
        ensures
            *final(self) == (TransactionRecord { state: DisputeState::Disputed, ..*old(self) }),
    {
        self.state = DisputeState::Disputed;
    }

    pub fn resolve(&mut self)
        requires
            old(self).state == DisputeState::Disputed,
        ensures
            *final(self) == (TransactionRecord { state: DisputeState::Resolved, ..*old(self) }),
    {
        self.state = DisputeState::Resolved;
    }

    pub fn chargeback(&mut self)
        requires
            old(self).state == DisputeState::Disputed,
        ensures
            *final(self) == (TransactionRecord { state: DisputeState::ChargedBack, ..*old(self) }),
    {
        self.state = DisputeState::ChargedBack;
    }
}

/// The ledger engine.
#[derive(Debug)]
pub struct AccountManager {
    accounts: HashMap<UserId, Account>,
    transactions: HashMap<TransactionId, TransactionRecord>,
}

impl View for AccountManager {
    type V = Ledger;

    closed spec fn view(&self) -> Ledger {
        Ledger { accounts: self.accounts@, records: self.transactions@ }
    }
}

impl Default for AccountManager {
    fn default() -> (r: Self)
        ensures
            r@ == empty_ledger(),
    {
        let r = AccountManager { accounts: HashMap::new(), transactions: HashMap::new() };
        assert(r@.accounts == empty_ledger().accounts);
        r
    }
}

impl AccountManager {
    /// The account of `user`, if a deposit ever created it.
    pub fn account(&self, user: UserId) -> (r: Option<Account>)
        ensures
            r == (if self@.accounts.contains_key(user) { Some(self@.accounts[user]) } else { None }),
    {
        match self.accounts.get(&user) {
            Some(a) => Some(*a),
            None => None,
        }
    }

    /// The dispute state of the deposit `tx`, if one was recorded.
    pub fn transaction_state(&self, tx: TransactionId) -> (r: Option<DisputeState>)
        ensures
            r == (if self@.records.contains_key(tx) { Some(self@.records[tx].state) } else { None }),
    {
        match self.transactions.get(&tx) {
            Some(rec) => Some(rec.state),
            None => None,
        }
    }

    /// Every account with its user, in increasing order of user.
    pub fn snapshot(&self) -> (r: Vec<(UserId, Account)>)
        ensures
            forall|i: int, j: int| 0 <= i < j < r@.len() ==> r@[i].0 < r@[j].0,
            forall|i: int| 0 <= i < r@.len() ==> {
                &&& self@.accounts.contains_key(#[trigger] r@[i].0)
                &&& self@.accounts[r@[i].0] == r@[i].1
            },
            forall|u: UserId| #[trigger] self@.accounts.contains_key(u) ==> exists|i: int|
                0 <= i < r@.len() && r@[i].0 == u,
    {
        let mut r: Vec<(UserId, Account)> = Vec::new();
        let mut next: u32 = 0;
        while next <= 0xffff
            invariant
                next <= 0x10000,
                forall|i: int, j: int| 0 <= i < j < r@.len() ==> r@[i].0 < r@[j].0,
                forall|i: int| 0 <= i < r@.len() ==> (#[trigger] r@[i].0) < next,
                forall|i: int| 0 <= i < r@.len() ==> {
                    &&& self@.accounts.contains_key(#[trigger] r@[i].0)
                    &&& self@.accounts[r@[i].0] == r@[i].1
                },
                forall|u: UserId| #[trigger] self@.accounts.contains_key(u) && u < next ==> exists|i: int|
                    0 <= i < r@.len() && r@[i].0 == u,
            decreases 0x10000 - next,
        {
            let user = next as u16;
            let ghost before = r@;
            if let Some(a) = self.accounts.get(&user) {
                r.push((user, *a));
                assert(r@[r@.len() - 1].0 == user);
            }
            assert forall|u: UserId| #[trigger] self@.accounts.contains_key(u) && u < next + 1 implies exists|i: int|
                0 <= i < r@.len() && r@[i].0 == u by {
                if u == user {
                    assert(r@[r@.len() - 1].0 == u);
                } else {
                    assert(self@.accounts.contains_key(u) && u < next);
                    let i = choose|i: int| 0 <= i < before.len() && #[trigger] before[i].0 == u;
                    assert(r@[i] == before[i]);
                }
            }
            next = next + 1;
        }
        r
    }

    /// Applies one transaction. An inapplicable transaction changes nothing
    /// and still counts as handled; `None` reports that a balance would leave
    /// the range of `i128`, and the ledger is then left as it was.
    pub fn handle_transaction(&mut self, transaction: Transaction) -> (r: Option<()>)
        ensures
            match apply(old(self)@, transaction) {
                Some(l) => r == Some(()) && final(self)@ == l,
                None => r.is_none() && final(self)@ == old(self)@,
            },
    {
        match transaction {
            Transaction::Deposit { user, tx, amount } => self.handle_deposit(user, tx, amount),
            Transaction::Withdrawal { user, tx: _, amount } => self.handle_withdrawal(user, amount),
            Transaction::Dispute { user, tx } => self.handle_dispute(user, tx),
            Transaction::Resolve { user, tx } => self.handle_resolve(user, tx),
            Transaction::Chargeback { user, tx } => self.handle_chargeback(user, tx),
        }
    }

    fn handle_deposit(&mut self, user: UserId, tx: TransactionId, amount: Amount) -> (r: Option<()>)
        ensures
            match deposit_step(old(self)@, user, tx, amount) {
                Some(l) => r == Some(()) && final(self)@ == l,
                None => r.is_none() && final(self)@ == old(self)@,
            },
    {
        let account = match self.accounts.get(&user) {
            Some(a) => *a,
            None => Account { available: 0, held: 0, total: 0, locked: false },
        };
        let m = amount.0 as i128;
        if account.available > i128::MAX - m || account.total > i128::MAX - m {
            return None;
        }
        let updated = Account { available: account.available + m, total: account.total + m, ..account };
        self.accounts.insert(user, updated);
        self.transactions.insert(tx, TransactionRecord::new(Transaction::Deposit { user, tx, amount }));
        Some(())
    }

    fn handle_withdrawal(&mut self, user: UserId, amount: Amount) -> (r: Option<()>)
        ensures
            match withdrawal_step(old(self)@, user, amount) {
                Some(l) => r == Some(()) && final(self)@ == l,
                None => r.is_none() && final(self)@ == old(self)@,
            },
    {
        let account = match self.accounts.get(&user) {
            Some(a) => *a,
            None => return Some(()),
        };
        let m = amount.0 as i128;
        if account.locked || account.available < m {
            return Some(());
        }
        if account.total < i128::MIN + m {
            return None;
        }
        let updated = Account { available: account.available - m, total: account.total - m, ..account };
        self.accounts.insert(user, updated);
        Some(())
    }

    /// Moves a deposit's amount from `available` to `held` and advances its
    /// state from `from` to `to`, when the guard holds.
    fn hold_funds(&mut self, user: UserId, tx: TransactionId, from: DisputeState, to: DisputeState) -> (r: Option<()>)
        requires
            (from == DisputeState::Initial && to == DisputeState::Disputed)
                || (from == DisputeState::Disputed && to == DisputeState::Resolved),
        ensures
            match hold_step(old(self)@, user, tx, from, to) {
                Some(l) => r == Some(()) && final(self)@ == l,
                None => r.is_none() && final(self)@ == old(self)@,
            },
    {
        let account = match self.accounts.get(&user) {
            Some(a) => *a,
            None => return Some(()),
        };
        if account.locked {
            return Some(());
        }
        let mut record = match self.transactions.get(&tx) {
            Some(rec) => *rec,
            None => return Some(()),
        };
        if record.state != from {
            return Some(());
        }
        let m = match record.transaction {
            Transaction::Deposit { amount, .. } => amount.0 as i128,
            _ => return Some(()),
        };
        if account.available < i128::MIN + m || account.held > i128::MAX - m {
            return None;
        }
        let updated = Account { available: account.available - m, held: account.held + m, ..account };
        self.accounts.insert(user, updated);
        if from == DisputeState::Initial {
            record.dispute();
        } else {
            record.resolve();
        }
        self.transactions.insert(tx, record);
        Some(())
    }

    fn handle_dispute(&mut self, user: UserId, tx: TransactionId) -> (r: Option<()>)
        ensures
            match hold_step(old(self)@, user, tx, DisputeState::Initial, DisputeState::Disputed) {
                Some(l) => r == Some(()) && final(self)@ == l,
                None => r.is_none() && final(self)@ == old(self)@,
            },
    {
        self.hold_funds(user, tx, DisputeState::Initial, DisputeState::Disputed)
    }

    /// Resolve repeats the movement of a dispute (from `available` to
    /// `held`) rather than reversing it.
    fn handle_resolve(&mut self, user: UserId, tx: TransactionId) -> (r: Option<()>)
        ensures
            match hold_step(old(self)@, user, tx, DisputeState::Disputed, DisputeState::Resolved) {
                Some(l) => r == Some(()) && final(self)@ == l,
                None => r.is_none() && final(self)@ == old(self)@,
            },
    {
        self.hold_funds(user, tx, DisputeState::Disputed, DisputeState::Resolved)
    }

    fn handle_chargeback(&mut self, user: UserId, tx: TransactionId) -> (r: Option<()>)
        ensures
            match chargeback_step(old(self)@, user, tx) {
                Some(l) => r == Some(()) && final(self)@ == l,
                None => r.is_none() && final(self)@ == old(self)@,
            },
    {
        let account = match self.accounts.get(&user) {
            Some(a) => *a,
            None => return Some(()),
        };
        if account.locked {
            return Some(());
        }
        let mut record = match self.transactions.get(&tx) {
            Some(rec) => *rec,
            None => return Some(()),
        };
        if record.state != DisputeState::Disputed {
            return Some(());
        }
        let m = match record.transaction {
            Transaction::Deposit { amount, .. } => amount.0 as i128,
            _ => return Some(()),
        };
        if account.held < i128::MIN + m || account.total < i128::MIN + m {
            return None;
        }
        let updated = Account { held: account.held - m, total: account.total - m, locked: true, ..account };
        self.accounts.insert(user, updated);
        record.chargeback();
        self.transactions.insert(tx, record);
        Some(())
    }
}

} // verus!
