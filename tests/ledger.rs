use ledger::account_manager::{Account, AccountManager, DisputeState};
use ledger::amount::{fixed_point_parts, Amount};
use ledger::transaction::Transaction;

fn deposit(user: u16, tx: u32, amount: u64) -> Transaction {
    Transaction::Deposit { user, tx, amount: Amount(amount) }
}

fn withdrawal(user: u16, tx: u32, amount: u64) -> Transaction {
    Transaction::Withdrawal { user, tx, amount: Amount(amount) }
}

fn account(available: i128, held: i128, total: i128, locked: bool) -> Account {
    Account { available, held, total, locked }
}

fn apply_all(m: &mut AccountManager, ts: &[Transaction]) {
    for t in ts {
        assert_eq!(m.handle_transaction(*t), Some(()));
    }
}

#[test]
fn deposits_add_up() {
    let mut m = AccountManager::default();
    apply_all(&mut m, &[deposit(1, 1, 10_000), deposit(2, 2, 5), deposit(1, 3, 25_000)]);
    assert_eq!(m.account(1), Some(account(35_000, 0, 35_000, false)));
    assert_eq!(m.account(2), Some(account(5, 0, 5, false)));
    assert_eq!(m.account(3), None);
}

#[test]
fn dispute_holds_the_deposit() {
    let mut m = AccountManager::default();
    apply_all(&mut m, &[deposit(1, 1, 1_000_000), Transaction::Dispute { user: 1, tx: 1 }]);
    assert_eq!(m.account(1), Some(account(0, 1_000_000, 1_000_000, false)));
    assert_eq!(m.transaction_state(1), Some(DisputeState::Disputed));
}

#[test]
fn chargeback_after_dispute_locks() {
    let mut m = AccountManager::default();
    apply_all(
        &mut m,
        &[
            deposit(1, 1, 1_000_000),
            Transaction::Dispute { user: 1, tx: 1 },
            Transaction::Chargeback { user: 1, tx: 1 },
        ],
    );
    assert_eq!(m.account(1), Some(account(0, 0, 0, true)));
    assert_eq!(m.transaction_state(1), Some(DisputeState::ChargedBack));
}

#[test]
fn resolve_moves_funds_to_held_again() {
    let mut m = AccountManager::default();
    apply_all(
        &mut m,
        &[
            deposit(1, 5, 500_000),
            Transaction::Dispute { user: 1, tx: 5 },
            Transaction::Resolve { user: 1, tx: 5 },
        ],
    );
    assert_eq!(m.account(1), Some(account(-500_000, 1_000_000, 500_000, false)));
    assert_eq!(m.transaction_state(5), Some(DisputeState::Resolved));
}

#[test]
fn terminal_states_ignore_further_disputes() {
    let mut m = AccountManager::default();
    apply_all(
        &mut m,
        &[
            deposit(1, 1, 100),
            deposit(1, 2, 200),
            Transaction::Dispute { user: 1, tx: 1 },
            Transaction::Resolve { user: 1, tx: 1 },
        ],
    );
    let before = m.account(1);
    apply_all(
        &mut m,
        &[
            Transaction::Resolve { user: 1, tx: 1 },
            Transaction::Chargeback { user: 1, tx: 1 },
            Transaction::Dispute { user: 1, tx: 1 },
        ],
    );
    assert_eq!(m.account(1), before);
    assert_eq!(m.transaction_state(1), Some(DisputeState::Resolved));

    let mut c = AccountManager::default();
    apply_all(
        &mut c,
        &[
            deposit(2, 9, 300),
            Transaction::Dispute { user: 2, tx: 9 },
            Transaction::Chargeback { user: 2, tx: 9 },
        ],
    );
    let before = c.account(2);
    apply_all(&mut c, &[Transaction::Chargeback { user: 2, tx: 9 }, Transaction::Resolve { user: 2, tx: 9 }]);
    assert_eq!(c.account(2), before);
    assert_eq!(c.transaction_state(9), Some(DisputeState::ChargedBack));
}

#[test]
fn overdraft_is_refused() {
    let mut m = AccountManager::default();
    apply_all(&mut m, &[deposit(1, 1, 100), withdrawal(1, 2, 101)]);
    assert_eq!(m.account(1), Some(account(100, 0, 100, false)));
    apply_all(&mut m, &[withdrawal(1, 3, 100)]);
    assert_eq!(m.account(1), Some(account(0, 0, 0, false)));
    apply_all(&mut m, &[withdrawal(7, 4, 1)]);
    assert_eq!(m.account(7), None);
}

#[test]
fn locked_account_takes_deposits_only() {
    let mut m = AccountManager::default();
    apply_all(
        &mut m,
        &[
            deposit(1, 1, 100),
            deposit(1, 2, 50),
            Transaction::Dispute { user: 1, tx: 1 },
            Transaction::Chargeback { user: 1, tx: 1 },
        ],
    );
    assert_eq!(m.account(1), Some(account(50, 0, 50, true)));
    apply_all(&mut m, &[deposit(1, 3, 10)]);
    assert_eq!(m.account(1), Some(account(60, 0, 60, true)));
    apply_all(&mut m, &[withdrawal(1, 4, 10), Transaction::Dispute { user: 1, tx: 3 }]);
    assert_eq!(m.account(1), Some(account(60, 0, 60, true)));
    assert_eq!(m.transaction_state(3), Some(DisputeState::Initial));
}

#[test]
fn unknown_transaction_changes_nothing() {
    let mut m = AccountManager::default();
    apply_all(&mut m, &[deposit(1, 1, 100)]);
    apply_all(
        &mut m,
        &[
            Transaction::Dispute { user: 1, tx: 42 },
            Transaction::Resolve { user: 1, tx: 42 },
            Transaction::Chargeback { user: 1, tx: 42 },
            Transaction::Dispute { user: 2, tx: 1 },
        ],
    );
    assert_eq!(m.account(1), Some(account(100, 0, 100, false)));
    assert_eq!(m.account(2), None);
    assert_eq!(m.transaction_state(42), None);
    assert_eq!(m.transaction_state(1), Some(DisputeState::Initial));
}

#[test]
fn withdrawals_leave_no_record() {
    let mut m = AccountManager::default();
    apply_all(&mut m, &[deposit(1, 1, 100), withdrawal(1, 2, 40), Transaction::Dispute { user: 1, tx: 2 }]);
    assert_eq!(m.transaction_state(2), None);
    assert_eq!(m.account(1), Some(account(60, 0, 60, false)));
}

#[test]
fn dispute_does_not_check_the_owner() {
    let mut m = AccountManager::default();
    apply_all(&mut m, &[deposit(1, 1, 100), deposit(2, 2, 30), Transaction::Dispute { user: 2, tx: 1 }]);
    assert_eq!(m.account(1), Some(account(100, 0, 100, false)));
    assert_eq!(m.account(2), Some(account(-70, 100, 30, false)));
}

#[test]
fn reused_deposit_id_overwrites_the_record() {
    let mut m = AccountManager::default();
    apply_all(
        &mut m,
        &[deposit(1, 1, 100), Transaction::Dispute { user: 1, tx: 1 }, deposit(1, 1, 7)],
    );
    assert_eq!(m.transaction_state(1), Some(DisputeState::Initial));
    apply_all(&mut m, &[Transaction::Dispute { user: 1, tx: 1 }]);
    assert_eq!(m.account(1), Some(account(0, 107, 107, false)));
}

#[test]
fn balance_stays_consistent() {
    let mut m = AccountManager::default();
    apply_all(
        &mut m,
        &[
            deposit(1, 1, 100),
            deposit(1, 2, 70),
            withdrawal(1, 3, 20),
            Transaction::Dispute { user: 1, tx: 1 },
            Transaction::Resolve { user: 1, tx: 1 },
            Transaction::Dispute { user: 1, tx: 2 },
            Transaction::Chargeback { user: 1, tx: 2 },
        ],
    );
    let a = m.account(1).unwrap();
    assert_eq!(a.total, a.available + a.held);
    assert_eq!(a, account(-120, 200, 80, true));
}

#[test]
fn snapshot_is_ordered_by_user() {
    let mut m = AccountManager::default();
    apply_all(&mut m, &[deposit(9, 1, 1), deposit(2, 2, 2), deposit(65535, 3, 3), deposit(0, 4, 4)]);
    let users: Vec<u16> = m.snapshot().iter().map(|(u, _)| *u).collect();
    assert_eq!(users, vec![0, 2, 9, 65535]);
    assert_eq!(m.snapshot()[1].1, account(2, 0, 2, false));
    assert!(AccountManager::default().snapshot().is_empty());
}

#[test]
fn fixed_point_parts_split_a_balance() {
    assert_eq!(fixed_point_parts(1_234_500), (false, 123, 4500));
    assert_eq!(fixed_point_parts(-500_000), (true, 50, 0));
    assert_eq!(fixed_point_parts(-1), (true, 0, 1));
    assert_eq!(fixed_point_parts(0), (false, 0, 0));
    assert_eq!(
        fixed_point_parts(i128::MIN),
        (true, 17014118346046923173168730371588410, 5728)
    );
}
