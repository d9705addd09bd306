use wallet::types::Currency;
use wallet::types::Direction;
use wallet::types::LedgerError;
use wallet::types::LedgerTransaction;
use wallet::types::Wallet;
use wallet::types::WalletKind;
use wallet::types::WithdrawalState;
use wallet::types::LAMPORTS_PER_SOL;

fn wallet(balance: u64, reserved: u64) -> Wallet {
    Wallet {
        account_id: 4,
        currency: Currency::Sol,
        balance,
        reserved,
        kind: WalletKind::Custodial,
        updated_at: 1,
    }
}

#[test]
fn a_new_wallet_is_empty() {
    let w = Wallet::open(4, 9);
    assert_eq!(w, Wallet { updated_at: 9, ..wallet(0, 0) });
    assert_eq!(Currency::base_currency(), Currency::Sol);
    assert_eq!(LAMPORTS_PER_SOL, 1_000_000_000);
}

#[test]
fn credit_adds_to_the_balance() {
    let w = wallet(10, 3).credit(5, 8).unwrap();
    assert_eq!(w, Wallet { updated_at: 8, ..wallet(15, 3) });
}

#[test]
fn credit_counts_the_reserve_against_the_limit() {
    assert_eq!(wallet(u64::MAX - 10, 4).credit(6, 8).unwrap().balance, u64::MAX - 4);
    assert_eq!(wallet(u64::MAX - 10, 4).credit(7, 8), Err(LedgerError::BalanceOverflow));
    assert_eq!(wallet(u64::MAX, 0).credit(1, 8), Err(LedgerError::BalanceOverflow));
    assert_eq!(wallet(0, u64::MAX).credit(1, 8), Err(LedgerError::BalanceOverflow));
    assert_eq!(wallet(u64::MAX, u64::MAX).credit(1, 8), Err(LedgerError::BalanceOverflow));
}

#[test]
fn reserve_moves_funds_out_of_the_balance() {
    let w = wallet(10, 3).reserve(4, 8).unwrap();
    assert_eq!(w, Wallet { updated_at: 8, ..wallet(6, 7) });
    assert_eq!(wallet(10, 3).reserve(10, 8).unwrap().balance, 0);
    assert_eq!(wallet(10, 3).reserve(11, 8), Err(LedgerError::InsufficientBalance));
    assert_eq!(wallet(10, u64::MAX).reserve(1, 8), Err(LedgerError::BalanceOverflow));
    assert_eq!(wallet(0, 0).reserve(0, 8).unwrap(), Wallet { updated_at: 8, ..wallet(0, 0) });
}

#[test]
fn settle_drops_the_reserve() {
    assert_eq!(wallet(6, 7).settle(4, 8), Wallet { updated_at: 8, ..wallet(6, 3) });
    assert_eq!(wallet(6, 7).settle(7, 8), Wallet { updated_at: 8, ..wallet(6, 0) });
    assert_eq!(wallet(6, 7).settle(0, 8), Wallet { updated_at: 8, ..wallet(6, 7) });
}

#[test]
fn release_gives_the_reserve_back() {
    assert_eq!(wallet(6, 7).release(4, 8), Wallet { updated_at: 8, ..wallet(10, 3) });
    assert_eq!(wallet(6, 7).release(7, 8), Wallet { updated_at: 8, ..wallet(13, 0) });
    assert_eq!(wallet(u64::MAX - 2, 7).release(2, 8).balance, u64::MAX);
}

#[test]
fn an_entry_is_signed_by_its_direction() {
    let mut e = LedgerTransaction {
        account_id: 1,
        amount: u64::MAX,
        currency: Currency::Sol,
        direction: Direction::Deposit,
        external_reference: "r".to_string(),
        created_at: 3,
    };
    assert_eq!(e.signed_amount(), u64::MAX as i128);
    e.direction = Direction::Withdrawal;
    assert_eq!(e.signed_amount(), -(u64::MAX as i128));
    let copy = e.duplicate();
    assert_eq!(copy.external_reference, "r");
    assert_eq!(copy.amount, u64::MAX);
    assert_eq!(copy.direction, Direction::Withdrawal);
}

#[test]
fn only_unresolved_withdrawals_are_open() {
    assert!(WithdrawalState::InFlight.open());
    assert!(WithdrawalState::Ambiguous.open());
    assert!(!WithdrawalState::Settled.open());
    assert!(!WithdrawalState::Failed.open());
}

#[test]
fn errors_have_reason_codes() {
    assert_eq!(LedgerError::InsufficientBalance.reason(), "insufficient_balance");
    assert_eq!(LedgerError::WalletNotFound.reason(), "wallet_not_found");
    assert_eq!(LedgerError::WithdrawalNotFound.reason(), "withdrawal_not_found");
    assert_eq!(LedgerError::BalanceOverflow.reason(), "balance_overflow");
    assert_eq!(LedgerError::SettlementUnavailable.reason(), "settlement_unavailable");
    assert_eq!(LedgerError::SettlementTransferFailed.reason(), "settlement_transfer_failed");
    assert_eq!(LedgerError::SettlementAmbiguous.reason(), "settlement_ambiguous");
    assert!(LedgerError::InsufficientBalance.is_user_error());
    assert!(!LedgerError::WalletNotFound.is_user_error());
    assert!(!LedgerError::SettlementAmbiguous.is_user_error());
}

#[test]
fn codes_are_read_back() {
    for c in [Currency::Sol, Currency::Eth] {
        assert_eq!(Currency::from_code(c.code()), Some(c));
    }
    for k in [WalletKind::Custodial, WalletKind::External] {
        assert_eq!(WalletKind::from_code(k.code()), Some(k));
    }
    for d in [Direction::Deposit, Direction::Withdrawal] {
        assert_eq!(Direction::from_code(d.code()), Some(d));
    }
    for s in [
        WithdrawalState::InFlight,
        WithdrawalState::Ambiguous,
        WithdrawalState::Settled,
        WithdrawalState::Failed,
    ] {
        assert_eq!(WithdrawalState::from_code(s.code()), Some(s));
    }
}

#[test]
fn codes_are_spelled_as_stored() {
    assert_eq!(Currency::Sol.code(), "SOL");
    assert_eq!(Currency::Eth.code(), "ETH");
    assert_eq!(WalletKind::Custodial.code(), "PDA");
    assert_eq!(WalletKind::External.code(), "DIRECT");
    assert_eq!(Direction::Deposit.code(), "DEPOSIT");
    assert_eq!(Direction::Withdrawal.code(), "WITHDRAWAL");
    assert_eq!(WithdrawalState::InFlight.code(), "IN_FLIGHT");
    assert_eq!(WithdrawalState::Ambiguous.code(), "AMBIGUOUS");
    assert_eq!(WithdrawalState::Settled.code(), "SETTLED");
    assert_eq!(WithdrawalState::Failed.code(), "FAILED");
}

#[test]
fn unknown_codes_are_not_read() {
    assert_eq!(Currency::from_code("sol"), None);
    assert_eq!(Currency::from_code(""), None);
    assert_eq!(Currency::from_code("SOL "), None);
    assert_eq!(WalletKind::from_code("CUSTODIAL"), None);
    assert_eq!(Direction::from_code("DEPOSITS"), None);
    assert_eq!(WithdrawalState::from_code("OPEN"), None);
}

#[test]
fn rows_are_copied_whole() {
    let account = wallet::types::Account {
        id: 3,
        identity_ref: "ann@example.org".to_string(),
        display_name: "Ann".to_string(),
        deposit_address: "addr".to_string(),
    };
    let copy = account.duplicate();
    assert_eq!(copy.id, 3);
    assert_eq!(copy.identity_ref, "ann@example.org");
    assert_eq!(copy.display_name, "Ann");
    assert_eq!(copy.deposit_address, "addr");
    let note = wallet::types::Withdrawal {
        id: 6,
        account_id: 4,
        currency: Currency::Sol,
        amount: 9,
        destination: "dest".to_string(),
        state: WithdrawalState::Ambiguous,
        requested_at: 2,
    };
    let copy = note.duplicate();
    assert_eq!(
        (copy.id, copy.account_id, copy.currency, copy.amount, copy.state, copy.requested_at),
        (6, 4, Currency::Sol, 9, WithdrawalState::Ambiguous, 2)
    );
    assert_eq!(copy.destination, "dest");
}
