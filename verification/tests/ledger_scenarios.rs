use wallet::store::Ledger;
use wallet::types::Currency;
use wallet::types::Direction;
use wallet::types::LedgerError;
use wallet::types::TransferOutcome;
use wallet::types::WalletKind;
use wallet::types::WithdrawalState;
use wallet::types::LAMPORTS_PER_SOL;

const SOL: u64 = LAMPORTS_PER_SOL;

fn ledger_with_account(balance: u64) -> (Ledger, u64) {
    let mut ledger = Ledger::new();
    let e = ledger
        .get_or_create_account("ann@example.org", "Ann", Some("addr-ann".to_string()), 1)
        .unwrap();
    if balance > 0 {
        ledger.deposit(e.account.id, Currency::Sol, balance, "seed", 2).unwrap();
    }
    (ledger, e.account.id)
}

fn net_of(ledger: &Ledger, account_id: u64) -> i128 {
    ledger.transactions_for(account_id).iter().map(|e| e.signed_amount()).sum()
}

#[test]
fn deposit_repeat_overdraft_and_full_withdrawal() {
    let (mut ledger, id) = ledger_with_account(10 * SOL);
    let before = ledger.transaction_count();

    let w = ledger.deposit(id, Currency::Sol, 5 * SOL, "dep-1", 10).unwrap();
    assert_eq!(w.balance, 15 * SOL);
    assert_eq!(ledger.transaction_count(), before + 1);

    let again = ledger.deposit(id, Currency::Sol, 5 * SOL, "dep-1", 11).unwrap();
    assert_eq!(again.balance, 15 * SOL);
    assert_eq!(again, w);
    let dep1 = ledger
        .transactions_for(id)
        .iter()
        .filter(|e| e.external_reference == "dep-1")
        .count();
    assert_eq!(dep1, 1);
    assert_eq!(ledger.transaction_count(), before + 1);

    let rejected = ledger.begin_withdraw(id, Currency::Sol, 20 * SOL, "dest", 12);
    assert_eq!(rejected, Err(LedgerError::InsufficientBalance));
    assert_eq!(ledger.wallet(id, Currency::Sol).unwrap().balance, 15 * SOL);
    assert_eq!(ledger.withdrawal_count(), 0);
    assert_eq!(ledger.transaction_count(), before + 1);

    let wid = ledger.begin_withdraw(id, Currency::Sol, 15 * SOL, "dest", 13).unwrap();
    let done = ledger
        .complete_withdraw(wid, TransferOutcome::Confirmed("tx-out-1".to_string()), 14)
        .unwrap();
    assert_eq!(done.balance, 0);
    assert_eq!(done.reserved, 0);
    let withdrawals: Vec<_> = ledger
        .transactions_for(id)
        .into_iter()
        .filter(|e| e.direction == Direction::Withdrawal)
        .collect();
    assert_eq!(withdrawals.len(), 1);
    assert_eq!(withdrawals[0].external_reference, "tx-out-1");
    assert_eq!(withdrawals[0].amount, 15 * SOL);
    assert_eq!(withdrawals[0].signed_amount(), -((15 * SOL) as i128));
    assert_eq!(net_of(&ledger, id), 0);
}

#[test]
fn crash_after_transfer_is_reconciled_once() {
    let (mut ledger, id) = ledger_with_account(10 * SOL);
    let wid = ledger.begin_withdraw(id, Currency::Sol, 4 * SOL, "dest", 5).unwrap();
    // The transfer went out, and the process stopped before it was recorded.
    assert_eq!(ledger.open_withdrawals(), vec![wid]);
    assert_eq!(ledger.withdrawal(wid).unwrap().state, WithdrawalState::InFlight);
    let entries_before = ledger.transaction_count();

    let w = ledger.reconcile(wid, TransferOutcome::Confirmed("tx-9".to_string()), 20).unwrap();
    assert_eq!(w.balance, 6 * SOL);
    assert_eq!(w.reserved, 0);
    assert_eq!(ledger.transaction_count(), entries_before + 1);
    assert_eq!(ledger.withdrawal(wid).unwrap().state, WithdrawalState::Settled);
    assert!(ledger.open_withdrawals().is_empty());

    let again = ledger.reconcile(wid, TransferOutcome::Confirmed("tx-9".to_string()), 21).unwrap();
    assert_eq!(again, w);
    let late = ledger.complete_withdraw(wid, TransferOutcome::Rejected, 22).unwrap();
    assert_eq!(late, w);
    assert_eq!(ledger.transaction_count(), entries_before + 1);
    let for_transfer = ledger
        .transactions_for(id)
        .iter()
        .filter(|e| e.external_reference == "tx-9")
        .count();
    assert_eq!(for_transfer, 1);
    assert_eq!(net_of(&ledger, id), (6 * SOL) as i128);
}

#[test]
fn concurrent_deposits_all_count() {
    let (mut ledger, id) = ledger_with_account(0);
    let n: u64 = 25;
    let a: u64 = 3 * SOL;
    // Requests arrive in one order and get the wallet's lock in another.
    let mut order: Vec<u64> = (0..n).collect();
    order.reverse();
    order.swap(3, 17);
    for k in order {
        let r = ledger.deposit(id, Currency::Sol, a, &format!("dep-{k}"), 100 + k);
        assert!(r.is_ok());
    }
    assert_eq!(ledger.wallet(id, Currency::Sol).unwrap().balance, n * a);
    assert_eq!(ledger.transactions_for(id).len() as u64, n);
    assert_eq!(net_of(&ledger, id), (n * a) as i128);
}

#[test]
fn repeated_deposit_counts_once() {
    let (mut ledger, id) = ledger_with_account(SOL);
    for t in 0..7 {
        let w = ledger.deposit(id, Currency::Sol, 2 * SOL, "dep-x", 50 + t).unwrap();
        assert_eq!(w.balance, 3 * SOL);
        assert_eq!(w.updated_at, 50);
    }
    // The reference decides, not the amount that comes with it.
    let w = ledger.deposit(id, Currency::Sol, 9 * SOL, "dep-x", 99).unwrap();
    assert_eq!(w.balance, 3 * SOL);
    assert_eq!(ledger.transactions_for(id).len(), 2);
}

#[test]
fn same_reference_on_two_accounts_is_two_deposits() {
    let mut ledger = Ledger::new();
    let a = ledger.get_or_create_account("a", "A", Some("addr-a".to_string()), 1).unwrap();
    let b = ledger.get_or_create_account("b", "B", Some("addr-b".to_string()), 1).unwrap();
    ledger.deposit(a.account.id, Currency::Sol, 5, "dep", 2).unwrap();
    let w = ledger.deposit(b.account.id, Currency::Sol, 7, "dep", 3).unwrap();
    assert_eq!(w.balance, 7);
    assert_eq!(ledger.wallet(a.account.id, Currency::Sol).unwrap().balance, 5);
}

#[test]
fn overdraft_leaves_everything_as_it_was() {
    let (mut ledger, id) = ledger_with_account(8);
    let wallet = ledger.wallet(id, Currency::Sol).unwrap();
    let r = ledger.begin_withdraw(id, Currency::Sol, 9, "dest", 77);
    assert_eq!(r, Err(LedgerError::InsufficientBalance));
    assert_eq!(ledger.wallet(id, Currency::Sol).unwrap(), wallet);
    assert_eq!(ledger.transaction_count(), 1);
    assert_eq!(ledger.withdrawal_count(), 0);
    assert!(ledger.open_withdrawals().is_empty());
}

#[test]
fn withdrawing_the_whole_balance_is_allowed() {
    let (mut ledger, id) = ledger_with_account(8);
    let wid = ledger.begin_withdraw(id, Currency::Sol, 8, "dest", 3).unwrap();
    let w = ledger.wallet(id, Currency::Sol).unwrap();
    assert_eq!((w.balance, w.reserved, w.updated_at), (0, 8, 3));
    let note = ledger.withdrawal(wid).unwrap();
    assert_eq!(note.account_id, id);
    assert_eq!(note.amount, 8);
    assert_eq!(note.destination, "dest");
    assert_eq!(note.requested_at, 3);
}

#[test]
fn reserved_funds_cannot_be_withdrawn_twice() {
    let (mut ledger, id) = ledger_with_account(10);
    ledger.begin_withdraw(id, Currency::Sol, 7, "dest", 3).unwrap();
    let second = ledger.begin_withdraw(id, Currency::Sol, 4, "dest", 4);
    assert_eq!(second, Err(LedgerError::InsufficientBalance));
    let third = ledger.begin_withdraw(id, Currency::Sol, 3, "dest", 5);
    assert_eq!(third, Ok(1));
}

#[test]
fn rejected_transfer_restores_the_balance() {
    let (mut ledger, id) = ledger_with_account(10);
    let wid = ledger.begin_withdraw(id, Currency::Sol, 7, "dest", 3).unwrap();
    let r = ledger.complete_withdraw(wid, TransferOutcome::Rejected, 4);
    assert_eq!(r, Err(LedgerError::SettlementTransferFailed));
    let w = ledger.wallet(id, Currency::Sol).unwrap();
    assert_eq!((w.balance, w.reserved), (10, 0));
    assert_eq!(ledger.transaction_count(), 1);
    assert_eq!(ledger.withdrawal(wid).unwrap().state, WithdrawalState::Failed);
    // Reported again, it stays failed and the balance is not restored twice.
    let r = ledger.reconcile(wid, TransferOutcome::Rejected, 5);
    assert_eq!(r, Err(LedgerError::SettlementTransferFailed));
    let r = ledger.complete_withdraw(wid, TransferOutcome::Confirmed("late".to_string()), 6);
    assert_eq!(r, Err(LedgerError::SettlementTransferFailed));
    assert_eq!(ledger.wallet(id, Currency::Sol).unwrap().balance, 10);
    assert_eq!(ledger.transaction_count(), 1);
}

#[test]
fn unknown_outcome_waits_for_reconciliation() {
    let (mut ledger, id) = ledger_with_account(10);
    let wid = ledger.begin_withdraw(id, Currency::Sol, 7, "dest", 3).unwrap();
    let r = ledger.complete_withdraw(wid, TransferOutcome::Unknown, 4);
    assert_eq!(r, Err(LedgerError::SettlementAmbiguous));
    assert_eq!(ledger.withdrawal(wid).unwrap().state, WithdrawalState::Ambiguous);
    let w = ledger.wallet(id, Currency::Sol).unwrap();
    assert_eq!((w.balance, w.reserved), (3, 7));

    // A second answer to the same attempt is not believed.
    let r = ledger.complete_withdraw(wid, TransferOutcome::Confirmed("tx".to_string()), 5);
    assert_eq!(r, Err(LedgerError::SettlementAmbiguous));
    let r = ledger.complete_withdraw(wid, TransferOutcome::Rejected, 5);
    assert_eq!(r, Err(LedgerError::SettlementAmbiguous));
    assert_eq!(ledger.wallet(id, Currency::Sol).unwrap(), w);
    assert_eq!(ledger.open_withdrawals(), vec![wid]);

    // Reconciliation that cannot tell leaves it open.
    let r = ledger.reconcile(wid, TransferOutcome::Unknown, 6);
    assert_eq!(r, Err(LedgerError::SettlementAmbiguous));
    assert_eq!(ledger.open_withdrawals(), vec![wid]);

    // Reconciliation that finds the transfer settles it.
    let settled = ledger.reconcile(wid, TransferOutcome::Confirmed("tx".to_string()), 7).unwrap();
    assert_eq!((settled.balance, settled.reserved, settled.updated_at), (3, 0, 7));
    assert_eq!(net_of(&ledger, id), 3);
}

#[test]
fn reconciliation_that_finds_no_transfer_releases_the_funds() {
    let (mut ledger, id) = ledger_with_account(10);
    let wid = ledger.begin_withdraw(id, Currency::Sol, 7, "dest", 3).unwrap();
    ledger.complete_withdraw(wid, TransferOutcome::Unknown, 4).unwrap_err();
    let r = ledger.reconcile(wid, TransferOutcome::Rejected, 9);
    assert_eq!(r, Err(LedgerError::SettlementTransferFailed));
    let w = ledger.wallet(id, Currency::Sol).unwrap();
    assert_eq!((w.balance, w.reserved, w.updated_at), (10, 0, 9));
    assert!(ledger.open_withdrawals().is_empty());
}

#[test]
fn a_reference_is_not_recorded_for_two_withdrawals() {
    let (mut ledger, id) = ledger_with_account(10);
    let first = ledger.begin_withdraw(id, Currency::Sol, 2, "dest", 3).unwrap();
    let second = ledger.begin_withdraw(id, Currency::Sol, 2, "dest", 4).unwrap();
    ledger.complete_withdraw(first, TransferOutcome::Confirmed("tx-1".to_string()), 5).unwrap();
    let r = ledger.complete_withdraw(second, TransferOutcome::Confirmed("tx-1".to_string()), 6);
    assert_eq!(r, Err(LedgerError::SettlementAmbiguous));
    assert_eq!(ledger.withdrawal(second).unwrap().state, WithdrawalState::Ambiguous);
    assert_eq!(ledger.transaction_count(), 2);
    let w = ledger.reconcile(second, TransferOutcome::Confirmed("tx-2".to_string()), 7).unwrap();
    assert_eq!((w.balance, w.reserved), (6, 0));
    assert_eq!(ledger.transaction_count(), 3);
}

#[test]
fn a_deposit_reference_may_name_a_withdrawal_too() {
    let (mut ledger, id) = ledger_with_account(10);
    let wid = ledger.begin_withdraw(id, Currency::Sol, 2, "dest", 3).unwrap();
    let w = ledger.complete_withdraw(wid, TransferOutcome::Confirmed("seed".to_string()), 5).unwrap();
    assert_eq!(w.balance, 8);
}

#[test]
fn unknown_rows_are_reported() {
    let (mut ledger, id) = ledger_with_account(10);
    assert_eq!(ledger.deposit(id + 1, Currency::Sol, 1, "d", 1), Err(LedgerError::WalletNotFound));
    assert_eq!(ledger.deposit(id, Currency::Eth, 1, "d", 1), Err(LedgerError::WalletNotFound));
    assert_eq!(
        ledger.begin_withdraw(id + 1, Currency::Sol, 1, "dest", 1),
        Err(LedgerError::WalletNotFound)
    );
    assert_eq!(
        ledger.begin_withdraw(id, Currency::Eth, 0, "dest", 1),
        Err(LedgerError::WalletNotFound)
    );
    assert_eq!(
        ledger.complete_withdraw(0, TransferOutcome::Rejected, 1),
        Err(LedgerError::WithdrawalNotFound)
    );
    assert_eq!(
        ledger.reconcile(5, TransferOutcome::Unknown, 1),
        Err(LedgerError::WithdrawalNotFound)
    );
    assert!(ledger.wallet(id + 1, Currency::Sol).is_none());
    assert!(ledger.wallet(id, Currency::Eth).is_none());
    assert!(ledger.account(id + 1).is_none());
    assert!(ledger.withdrawal(0).is_none());
    assert_eq!(ledger.transaction_count(), 1);
}

#[test]
fn a_wallet_cannot_hold_more_than_a_balance_can_say() {
    let (mut ledger, id) = ledger_with_account(u64::MAX - 5);
    assert_eq!(ledger.deposit(id, Currency::Sol, 6, "big", 3), Err(LedgerError::BalanceOverflow));
    assert_eq!(ledger.transaction_count(), 1);
    let w = ledger.deposit(id, Currency::Sol, 5, "fits", 4).unwrap();
    assert_eq!(w.balance, u64::MAX);
    // Reserved funds still count: they may come back.
    let wid = ledger.begin_withdraw(id, Currency::Sol, 10, "dest", 5).unwrap();
    assert_eq!(ledger.deposit(id, Currency::Sol, 1, "more", 6), Err(LedgerError::BalanceOverflow));
    ledger.complete_withdraw(wid, TransferOutcome::Confirmed("out".to_string()), 7).unwrap();
    let w = ledger.deposit(id, Currency::Sol, 10, "more", 8).unwrap();
    assert_eq!(w.balance, u64::MAX);
}

#[test]
fn balances_stay_in_step_with_the_log() {
    let (mut ledger, id) = ledger_with_account(100);
    let mut open: Vec<u64> = Vec::new();
    for step in 0u64..60 {
        match step % 5 {
            0 => {
                let _ = ledger.deposit(id, Currency::Sol, step + 1, &format!("d{step}"), step);
            }
            1 => {
                if let Ok(wid) = ledger.begin_withdraw(id, Currency::Sol, 3 * step, "dest", step) {
                    open.push(wid);
                }
            }
            2 => {
                if let Some(wid) = open.pop() {
                    let _ = ledger.complete_withdraw(
                        wid,
                        TransferOutcome::Confirmed(format!("w{step}")),
                        step,
                    );
                }
            }
            3 => {
                if let Some(wid) = open.pop() {
                    let _ = ledger.complete_withdraw(wid, TransferOutcome::Rejected, step);
                }
            }
            _ => {
                let _ = ledger.deposit(id, Currency::Sol, 1, "d0", step);
            }
        }
        let w = ledger.wallet(id, Currency::Sol).unwrap();
        let held: u64 = ledger
            .open_withdrawals()
            .iter()
            .map(|wid| ledger.withdrawal(*wid).unwrap().amount)
            .sum();
        assert_eq!(w.reserved, held);
        assert_eq!(net_of(&ledger, id), w.balance as i128 + w.reserved as i128);
    }
}

#[test]
fn accounts_are_created_once() {
    let mut ledger = Ledger::new();
    assert!(ledger.find_account("ann@example.org").is_none());
    let first = ledger
        .get_or_create_account("ann@example.org", "Ann", Some("addr-1".to_string()), 7)
        .unwrap();
    assert!(first.created);
    assert_eq!(first.account.id, 0);
    assert_eq!(first.account.identity_ref, "ann@example.org");
    assert_eq!(first.account.display_name, "Ann");
    assert_eq!(first.account.deposit_address, "addr-1");
    assert_eq!(first.wallet.account_id, 0);
    assert_eq!(first.wallet.currency, Currency::Sol);
    assert_eq!(first.wallet.balance, 0);
    assert_eq!(first.wallet.reserved, 0);
    assert_eq!(first.wallet.kind, WalletKind::Custodial);
    assert_eq!(first.wallet.updated_at, 7);

    // The loser of a race comes with an address of its own and gets the
    // winner's account.
    let second = ledger
        .get_or_create_account("ann@example.org", "Annie", Some("addr-2".to_string()), 8)
        .unwrap();
    assert!(!second.created);
    assert_eq!(second.account.id, 0);
    assert_eq!(second.account.display_name, "Ann");
    assert_eq!(second.account.deposit_address, "addr-1");
    assert_eq!(ledger.account_count(), 1);

    // An account that exists is found without the gateway.
    let third = ledger.get_or_create_account("ann@example.org", "Ann", None, 9).unwrap();
    assert!(!third.created);
    let found = ledger.find_account("ann@example.org").unwrap();
    assert_eq!(found.account.id, 0);
    assert!(!found.created);
}

#[test]
fn no_account_without_an_address() {
    let mut ledger = Ledger::new();
    let r = ledger.get_or_create_account("ann@example.org", "Ann", None, 7);
    assert_eq!(r.unwrap_err(), LedgerError::SettlementUnavailable);
    assert_eq!(ledger.account_count(), 0);
    assert!(ledger.find_account("ann@example.org").is_none());
    assert!(ledger.wallet(0, Currency::Sol).is_none());
}

#[test]
fn an_address_serves_one_account() {
    let mut ledger = Ledger::new();
    ledger.get_or_create_account("ann", "Ann", Some("addr-1".to_string()), 7).unwrap();
    let r = ledger.get_or_create_account("bob", "Bob", Some("addr-1".to_string()), 8);
    assert_eq!(r.unwrap_err(), LedgerError::SettlementUnavailable);
    assert_eq!(ledger.account_count(), 1);
    let bob = ledger.get_or_create_account("bob", "Bob", Some("addr-2".to_string()), 9).unwrap();
    assert!(bob.created);
    assert_eq!(bob.account.id, 1);
    assert_eq!(bob.wallet.account_id, 1);
    assert_eq!(ledger.account(1).unwrap().identity_ref, "bob");
}

#[test]
fn listings_follow_the_log() {
    let mut ledger = Ledger::new();
    let a = ledger.get_or_create_account("a", "A", Some("addr-a".to_string()), 1).unwrap().account.id;
    let b = ledger.get_or_create_account("b", "B", Some("addr-b".to_string()), 1).unwrap().account.id;
    ledger.deposit(a, Currency::Sol, 5, "a1", 2).unwrap();
    ledger.deposit(b, Currency::Sol, 6, "b1", 3).unwrap();
    ledger.deposit(a, Currency::Sol, 7, "a2", 4).unwrap();
    let w0 = ledger.begin_withdraw(a, Currency::Sol, 1, "x", 5).unwrap();
    let w1 = ledger.begin_withdraw(b, Currency::Sol, 2, "y", 6).unwrap();
    let w2 = ledger.begin_withdraw(a, Currency::Sol, 3, "z", 7).unwrap();
    assert_eq!((w0, w1, w2), (0, 1, 2));
    ledger.complete_withdraw(w1, TransferOutcome::Confirmed("b-out".to_string()), 8).unwrap();
    ledger.complete_withdraw(w2, TransferOutcome::Unknown, 9).unwrap_err();

    let of_a: Vec<String> =
        ledger.transactions_for(a).into_iter().map(|e| e.external_reference).collect();
    assert_eq!(of_a, vec!["a1", "a2"]);
    let of_b: Vec<(Direction, u64, u64)> = ledger
        .transactions_for(b)
        .into_iter()
        .map(|e| (e.direction, e.amount, e.created_at))
        .collect();
    assert_eq!(of_b, vec![(Direction::Deposit, 6, 3), (Direction::Withdrawal, 2, 8)]);
    assert!(ledger.transactions_for(9).is_empty());
    assert_eq!(ledger.open_withdrawals(), vec![0, 2]);
    assert_eq!(ledger.withdrawal_count(), 3);
    assert_eq!(ledger.transaction_count(), 4);
}
