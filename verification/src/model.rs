//! The ledger as a mathematical state, and what each operation does to it.
//!
//! Every operation of the store is described here twice: by the state it
//! leaves behind and by the answer it gives. Both are total functions of the
//! state before the operation and of its arguments.

use crate::types::AccountView;
use crate::types::Currency;
use crate::types::Direction;
use crate::types::EnrollmentView;
use crate::types::LedgerError;
use crate::types::LedgerTransactionView;
use crate::types::TransferOutcomeView;
use crate::types::WalletAnswer;
use crate::types::WalletKind;
use crate::types::WalletView;
use crate::types::WithdrawalState;
use crate::types::WithdrawalView;
use vstd::prelude::*;

verus! {

/// Sum of `weight` over `items`.
pub open spec fn total<T>(items: Seq<T>, weight: spec_fn(T) -> int) -> int
    decreases items.len(),
{
    if items.len() == 0 {
        0
    } else {
        total(items.drop_last(), weight) + weight(items.last())
    }
}

/// Weighs a log entry by its signed amount if it belongs to `account_id`,
/// and by nothing otherwise.
pub open spec fn delta_for(account_id: int) -> spec_fn(LedgerTransactionView) -> int {
    |e: LedgerTransactionView|
        if e.account_id == account_id {
            e.signed_amount()
        } else {
            0
        }
}

/// Weighs a log entry by one if it belongs to `account_id`.
pub open spec fn entry_for(account_id: int) -> spec_fn(LedgerTransactionView) -> int {
    |e: LedgerTransactionView|
        if e.account_id == account_id {
            1
        } else {
            0
        }
}

/// Weighs a withdrawal by its amount if it belongs to `account_id` and its
/// funds are still reserved.
pub open spec fn hold_for(account_id: int) -> spec_fn(WithdrawalView) -> int {
    |w: WithdrawalView|
        if w.account_id == account_id && w.state.is_open() {
            w.amount as int
        } else {
            0
        }
}

/// Weighs a log entry by its amount if it records a withdrawal of
/// `account_id`.
pub open spec fn payout_for(account_id: int) -> spec_fn(LedgerTransactionView) -> int {
    |e: LedgerTransactionView|
        if e.account_id == account_id && e.direction == Direction::Withdrawal {
            e.amount as int
        } else {
            0
        }
}

/// Weighs a log entry by one if it records a withdrawal of `account_id`.
pub open spec fn payout_entry_for(account_id: int) -> spec_fn(LedgerTransactionView) -> int {
    |e: LedgerTransactionView|
        if e.account_id == account_id && e.direction == Direction::Withdrawal {
            1
        } else {
            0
        }
}

/// Weighs a withdrawal by its amount if it belongs to `account_id` and is
/// settled.
pub open spec fn settled_for(account_id: int) -> spec_fn(WithdrawalView) -> int {
    |w: WithdrawalView|
        if w.account_id == account_id && w.state == WithdrawalState::Settled {
            w.amount as int
        } else {
            0
        }
}

/// Weighs a withdrawal by one if it belongs to `account_id` and is settled.
pub open spec fn settled_note_for(account_id: int) -> spec_fn(WithdrawalView) -> int {
    |w: WithdrawalView|
        if w.account_id == account_id && w.state == WithdrawalState::Settled {
            1
        } else {
            0
        }
}

/// Picks the log entries of `account_id`.
pub open spec fn belongs_to(account_id: int) -> spec_fn(LedgerTransactionView) -> bool {
    |e: LedgerTransactionView| e.account_id == account_id
}

/// Picks the withdrawals whose funds are still reserved.
pub open spec fn still_open() -> spec_fn(WithdrawalView) -> bool {
    |w: WithdrawalView| w.state.is_open()
}

/// Whether `e` is the entry of `account_id` in `direction` that carries
/// `reference`.
pub open spec fn names(
    e: LedgerTransactionView,
    account_id: int,
    direction: Direction,
    reference: Seq<char>,
) -> bool {
    &&& e.account_id == account_id
    &&& e.direction == direction
    &&& e.external_reference == reference
}

/// Accounts, wallets, transaction log and withdrawal notes of a ledger.
///
/// The wallet at position `i` is the base-currency wallet of the account at
/// position `i`, and both carry `i` as the account's identifier.
pub struct LedgerView {
    pub accounts: Seq<AccountView>,
    pub wallets: Seq<WalletView>,
    pub log: Seq<LedgerTransactionView>,
    pub withdrawals: Seq<WithdrawalView>,
}

impl LedgerView {
    /// The ledger without any account.
    pub open spec fn empty() -> LedgerView {
        LedgerView {
            accounts: Seq::empty(),
            wallets: Seq::empty(),
            log: Seq::empty(),
            withdrawals: Seq::empty(),
        }
    }

    /// Sum of the signed amounts of the account's log entries.
    pub open spec fn net(self, account_id: int) -> int {
        total(self.log, delta_for(account_id))
    }

    /// Number of the account's log entries.
    pub open spec fn entry_count(self, account_id: int) -> int {
        total(self.log, entry_for(account_id))
    }

    /// Sum of the account's withdrawals whose funds are still reserved.
    pub open spec fn in_flight(self, account_id: int) -> int {
        total(self.withdrawals, hold_for(account_id))
    }

    /// Sum of the account's withdrawals that the log records.
    pub open spec fn paid_out(self, account_id: int) -> int {
        total(self.log, payout_for(account_id))
    }

    /// Number of the account's withdrawals that the log records.
    pub open spec fn payout_count(self, account_id: int) -> int {
        total(self.log, payout_entry_for(account_id))
    }

    /// Sum of the account's settled withdrawals.
    pub open spec fn settled_amount(self, account_id: int) -> int {
        total(self.withdrawals, settled_for(account_id))
    }

    /// Number of the account's settled withdrawals.
    pub open spec fn settled_count(self, account_id: int) -> int {
        total(self.withdrawals, settled_note_for(account_id))
    }

    /// Whether the account exists and has a wallet in `currency`.
    pub open spec fn has_wallet(self, account_id: u64, currency: Currency) -> bool {
        &&& account_id < self.wallets.len()
        &&& self.wallets[account_id as int].currency == currency
    }

    /// Whether the log holds an entry of the account in `direction` with
    /// `reference`.
    pub open spec fn recorded(self, account_id: int, direction: Direction, reference: Seq<char>) -> bool {
        exists|i: int|
            0 <= i < self.log.len() && names(#[trigger] self.log[i], account_id, direction, reference)
    }

    /// Whether an account goes by `identity`.
    pub open spec fn knows(self, identity: Seq<char>) -> bool {
        exists|i: int|
            0 <= i < self.accounts.len() && (#[trigger] self.accounts[i]).identity_ref == identity
    }

    /// Position of the account that goes by `identity`.
    pub open spec fn index_of(self, identity: Seq<char>) -> int {
        choose|i: int|
            0 <= i < self.accounts.len() && (#[trigger] self.accounts[i]).identity_ref == identity
    }

    /// Whether `address` is the deposit address of some account.
    pub open spec fn issued(self, address: Seq<char>) -> bool {
        exists|i: int|
            0 <= i < self.accounts.len() && (#[trigger] self.accounts[i]).deposit_address
                == address
    }

    /// Whether the wallet at `i` is the one its account should have: it is
    /// the account's custodial base-currency wallet, its total is what the
    /// log adds up to, its reserve is what is in flight, and the log records
    /// the account's settled withdrawals, each once, and no other.
    pub open spec fn wallet_sound(self, i: int) -> bool {
        let w = self.wallets[i];
        &&& w.account_id == i
        &&& w.currency == Currency::base()
        &&& w.kind == WalletKind::Custodial
        &&& w.representable()
        &&& w.total() == self.net(i)
        &&& w.reserved == self.in_flight(i)
        &&& self.paid_out(i) == self.settled_amount(i)
        &&& self.payout_count(i) == self.settled_count(i)
    }

    /// Whether the log entry at `i` belongs to an account of the ledger.
    pub open spec fn entry_sound(self, i: int) -> bool {
        let e = self.log[i];
        &&& 0 <= e.account_id < self.accounts.len()
        &&& e.currency == Currency::base()
    }

    /// Whether the withdrawal at `i` is numbered by its position and
    /// belongs to an account of the ledger.
    pub open spec fn withdrawal_sound(self, i: int) -> bool {
        let w = self.withdrawals[i];
        &&& w.id == i
        &&& 0 <= w.account_id < self.accounts.len()
        &&& w.currency == Currency::base()
    }

    /// The consistency that every operation keeps.
    pub open spec fn wf(self) -> bool {
        &&& self.wallets.len() == self.accounts.len()
        &&& forall|i: int| 0 <= i < self.accounts.len() ==> (#[trigger] self.accounts[i]).id == i
        &&& forall|i: int, j: int|
            0 <= i < j < self.accounts.len() ==> (#[trigger] self.accounts[i]).identity_ref != (
            #[trigger] self.accounts[j]).identity_ref
        &&& forall|i: int, j: int|
            0 <= i < j < self.accounts.len() ==> (#[trigger] self.accounts[i]).deposit_address != (
            #[trigger] self.accounts[j]).deposit_address
        &&& forall|i: int| 0 <= i < self.wallets.len() ==> #[trigger] self.wallet_sound(i)
        &&& forall|i: int| 0 <= i < self.log.len() ==> #[trigger] self.entry_sound(i)
        &&& forall|i: int, j: int|
            0 <= i < j < self.log.len() ==> !names(
                #[trigger] self.log[j],
                (#[trigger] self.log[i]).account_id,
                self.log[i].direction,
                self.log[i].external_reference,
            )
        &&& forall|i: int| 0 <= i < self.withdrawals.len() ==> #[trigger] self.withdrawal_sound(i)
    }

    // ---------------------------------------------------------------- accounts

    /// Whether a request to enroll `identity` with `address` adds an account:
    /// the identity is new and the gateway produced an address that no
    /// account has.
    pub open spec fn can_enroll(self, identity: Seq<char>, address: Option<Seq<char>>) -> bool {
        &&& !self.knows(identity)
        &&& address is Some
        &&& !self.issued(address->0)
    }

    /// The ledger after a request to enroll `identity`.
    pub open spec fn enrolled(
        self,
        identity: Seq<char>,
        display_name: Seq<char>,
        address: Option<Seq<char>>,
        now: u64,
    ) -> LedgerView {
        if self.can_enroll(identity, address) {
            LedgerView {
                accounts: self.accounts.push(
                    AccountView {
                        id: self.accounts.len() as int,
                        identity_ref: identity,
                        display_name,
                        deposit_address: address->0,
                    },
                ),
                wallets: self.wallets.push(WalletView::fresh(self.accounts.len() as int, now)),
                ..self
            }
        } else {
            self
        }
    }

    /// The answer to a request to enroll `identity`: the account that goes
    /// by it, whether it was there before or has just been created, or
    /// `SettlementUnavailable` where none exists and none can be created.
    pub open spec fn enroll_answer(
        self,
        identity: Seq<char>,
        display_name: Seq<char>,
        address: Option<Seq<char>>,
        now: u64,
    ) -> Result<EnrollmentView, LedgerError> {
        if self.knows(identity) {
            Ok(
                EnrollmentView {
                    account: self.accounts[self.index_of(identity)],
                    wallet: self.wallets[self.index_of(identity)],
                    created: false,
                },
            )
        } else if self.can_enroll(identity, address) {
            Ok(
                EnrollmentView {
                    account: self.enrolled(identity, display_name, address, now).accounts.last(),
                    wallet: self.enrolled(identity, display_name, address, now).wallets.last(),
                    created: true,
                },
            )
        } else {
            Err(LedgerError::SettlementUnavailable)
        }
    }

    // ---------------------------------------------------------------- deposits

    /// Whether a deposit changes the ledger: the wallet exists, the reference
    /// is new for the account, and the wallet can take the amount.
    pub open spec fn deposit_applies(
        self,
        account_id: u64,
        currency: Currency,
        amount: u64,
        reference: Seq<char>,
    ) -> bool {
        &&& self.has_wallet(account_id, currency)
        &&& !self.recorded(account_id as int, Direction::Deposit, reference)
        &&& self.wallets[account_id as int].total() + amount <= u64::MAX
    }

    /// The ledger after a deposit request.
    pub open spec fn deposited(
        self,
        account_id: u64,
        currency: Currency,
        amount: u64,
        reference: Seq<char>,
        now: u64,
    ) -> LedgerView {
        if self.deposit_applies(account_id, currency, amount, reference) {
            LedgerView {
                wallets: self.wallets.update(
                    account_id as int,
                    self.wallets[account_id as int].credited(amount, now),
                ),
                log: self.log.push(
                    LedgerTransactionView {
                        account_id: account_id as int,
                        amount,
                        currency,
                        direction: Direction::Deposit,
                        external_reference: reference,
                        created_at: now,
                    },
                ),
                ..self
            }
        } else {
            self
        }
    }

    /// The answer to a deposit request.
    pub open spec fn deposit_answer(
        self,
        account_id: u64,
        currency: Currency,
        amount: u64,
        reference: Seq<char>,
        now: u64,
    ) -> WalletAnswer {
        if !self.has_wallet(account_id, currency) {
            Err(LedgerError::WalletNotFound)
        } else if self.recorded(account_id as int, Direction::Deposit, reference) {
            Ok(self.wallets[account_id as int])
        } else if self.wallets[account_id as int].total() + amount > u64::MAX {
            Err(LedgerError::BalanceOverflow)
        } else {
            Ok(self.wallets[account_id as int].credited(amount, now))
        }
    }

    // ------------------------------------------------------------- withdrawals

    /// Whether a withdrawal may begin: the wallet exists and its balance
    /// covers the amount.
    pub open spec fn can_withdraw(self, account_id: u64, currency: Currency, amount: u64) -> bool {
        &&& self.has_wallet(account_id, currency)
        &&& amount <= self.wallets[account_id as int].balance
    }

    /// The ledger after a request to begin a withdrawal: the amount is
    /// reserved and a note of the request is kept.
    pub open spec fn withdrawal_begun(
        self,
        account_id: u64,
        currency: Currency,
        amount: u64,
        destination: Seq<char>,
        now: u64,
    ) -> LedgerView {
        if self.can_withdraw(account_id, currency, amount) {
            LedgerView {
                wallets: self.wallets.update(
                    account_id as int,
                    self.wallets[account_id as int].held(amount, now),
                ),
                withdrawals: self.withdrawals.push(
                    WithdrawalView {
                        id: self.withdrawals.len() as int,
                        account_id: account_id as int,
                        currency,
                        amount,
                        destination,
                        state: WithdrawalState::InFlight,
                        requested_at: now,
                    },
                ),
                ..self
            }
        } else {
            self
        }
    }

    /// The answer to a request to begin a withdrawal: the number of the
    /// withdrawal whose transfer is now to be attempted, or why none is.
    pub open spec fn begin_answer(self, account_id: u64, currency: Currency, amount: u64) -> Result<
        int,
        LedgerError,
    > {
        if !self.has_wallet(account_id, currency) {
            Err(LedgerError::WalletNotFound)
        } else if amount > self.wallets[account_id as int].balance {
            Err(LedgerError::InsufficientBalance)
        } else {
            Ok(self.withdrawals.len() as int)
        }
    }

    /// Whether `id` numbers a withdrawal whose funds are still reserved.
    pub open spec fn is_open(self, id: int) -> bool {
        &&& 0 <= id < self.withdrawals.len()
        &&& self.withdrawals[id].state.is_open()
    }

    /// The ledger with the withdrawal `id` moved to `state`.
    pub open spec fn marked(self, id: int, state: WithdrawalState) -> LedgerView {
        LedgerView {
            withdrawals: self.withdrawals.update(
                id,
                WithdrawalView { state, ..self.withdrawals[id] },
            ),
            ..self
        }
    }

    /// The ledger after the open withdrawal `id` was found to have happened
    /// under `reference`: the reserve is dropped and the log gets its entry.
    pub open spec fn settled(self, id: int, reference: Seq<char>, now: u64) -> LedgerView {
        let w = self.withdrawals[id];
        LedgerView {
            wallets: self.wallets.update(
                w.account_id,
                self.wallets[w.account_id].settled(w.amount, now),
            ),
            log: self.log.push(
                LedgerTransactionView {
                    account_id: w.account_id,
                    amount: w.amount,
                    currency: w.currency,
                    direction: Direction::Withdrawal,
                    external_reference: reference,
                    created_at: now,
                },
            ),
            ..self.marked(id, WithdrawalState::Settled)
        }
    }

    /// The ledger after the open withdrawal `id` was found not to have
    /// happened: the reserve goes back to the balance.
    pub open spec fn released(self, id: int, now: u64) -> LedgerView {
        let w = self.withdrawals[id];
        LedgerView {
            wallets: self.wallets.update(
                w.account_id,
                self.wallets[w.account_id].released(w.amount, now),
            ),
            ..self.marked(id, WithdrawalState::Failed)
        }
    }

    /// The ledger after reconciling the withdrawal `id` with what the
    /// gateway says of its transfer.
    ///
    /// Only a withdrawal whose funds are still reserved changes. A confirmed
    /// transfer settles it, unless the log already holds the reference for
    /// another withdrawal of the account: the report is then not believed and
    /// the withdrawal is marked ambiguous. A rejected transfer releases the
    /// funds. An unknown outcome marks the withdrawal ambiguous.
    pub open spec fn reconciled(self, id: int, outcome: TransferOutcomeView, now: u64) -> LedgerView {
        if !self.is_open(id) {
            self
        } else {
            match outcome {
                TransferOutcomeView::Confirmed(reference) => {
                    if self.recorded(
                        self.withdrawals[id].account_id,
                        Direction::Withdrawal,
                        reference,
                    ) {
                        self.marked(id, WithdrawalState::Ambiguous)
                    } else {
                        self.settled(id, reference, now)
                    }
                },
                TransferOutcomeView::Rejected => self.released(id, now),
                TransferOutcomeView::Unknown => self.marked(id, WithdrawalState::Ambiguous),
            }
        }
    }

    /// The answer to reconciling the withdrawal `id`.
    ///
    /// A withdrawal that was resolved before answers as it was resolved.
    pub open spec fn reconcile_answer(
        self,
        id: int,
        outcome: TransferOutcomeView,
        now: u64,
    ) -> WalletAnswer {
        if !(0 <= id < self.withdrawals.len()) {
            Err(LedgerError::WithdrawalNotFound)
        } else {
            let w = self.withdrawals[id];
            match w.state {
                WithdrawalState::Settled => Ok(self.wallets[w.account_id]),
                WithdrawalState::Failed => Err(LedgerError::SettlementTransferFailed),
                _ => match outcome {
                    TransferOutcomeView::Confirmed(reference) => {
                        if self.recorded(w.account_id, Direction::Withdrawal, reference) {
                            Err(LedgerError::SettlementAmbiguous)
                        } else {
                            Ok(self.wallets[w.account_id].settled(w.amount, now))
                        }
                    },
                    TransferOutcomeView::Rejected => Err(LedgerError::SettlementTransferFailed),
                    TransferOutcomeView::Unknown => Err(LedgerError::SettlementAmbiguous),
                },
            }
        }
    }

    /// Whether the withdrawal `id` waits for reconciliation.
    pub open spec fn is_ambiguous(self, id: int) -> bool {
        &&& 0 <= id < self.withdrawals.len()
        &&& self.withdrawals[id].state == WithdrawalState::Ambiguous
    }

    /// The ledger after the gateway's answer to the transfer of withdrawal
    /// `id` came back. An ambiguous withdrawal is left to reconciliation;
    /// any other is reconciled with the answer.
    pub open spec fn completed(self, id: int, outcome: TransferOutcomeView, now: u64) -> LedgerView {
        if self.is_ambiguous(id) {
            self
        } else {
            self.reconciled(id, outcome, now)
        }
    }

    /// The answer to completing the withdrawal `id`.
    pub open spec fn complete_answer(
        self,
        id: int,
        outcome: TransferOutcomeView,
        now: u64,
    ) -> WalletAnswer {
        if self.is_ambiguous(id) {
            Err(LedgerError::SettlementAmbiguous)
        } else {
            self.reconcile_answer(id, outcome, now)
        }
    }

    // ---------------------------------------------------------------- listings

    /// Numbers of the withdrawals that wait for an outcome, in the order in
    /// which they were begun.
    pub open spec fn open_withdrawals(self) -> Seq<int> {
        self.withdrawals.filter(still_open()).map_values(|w: WithdrawalView| w.id)
    }

    /// The account's log entries, in the order of the log.
    pub open spec fn entries_of(self, account_id: int) -> Seq<LedgerTransactionView> {
        self.log.filter(belongs_to(account_id))
    }

    // -------------------------------------------------------------- histories

    /// The ledger after the operation `op`.
    pub open spec fn after(self, op: Operation) -> LedgerView {
        match op {
            Operation::Enroll { identity, display_name, address, now } => self.enrolled(
                identity,
                display_name,
                address,
                now,
            ),
            Operation::Deposit { account_id, currency, amount, reference, now } => self.deposited(
                account_id,
                currency,
                amount,
                reference,
                now,
            ),
            Operation::BeginWithdraw {
                account_id,
                currency,
                amount,
                destination,
                now,
            } => self.withdrawal_begun(account_id, currency, amount, destination, now),
            Operation::CompleteWithdraw { withdrawal_id, outcome, now } => self.completed(
                withdrawal_id as int,
                outcome,
                now,
            ),
            Operation::Reconcile { withdrawal_id, outcome, now } => self.reconciled(
                withdrawal_id as int,
                outcome,
                now,
            ),
        }
    }

    /// The ledger after the operations `ops`, applied one after the other.
    pub open spec fn after_all(self, ops: Seq<Operation>) -> LedgerView
        decreases ops.len(),
    {
        if ops.len() == 0 {
            self
        } else {
            self.after_all(ops.drop_last()).after(ops.last())
        }
    }

    /// The ledger after one deposit of `amount` for each of `references`, in
    /// their order.
    pub open spec fn deposited_each(
        self,
        account_id: u64,
        currency: Currency,
        amount: u64,
        references: Seq<Seq<char>>,
        now: u64,
    ) -> LedgerView
        decreases references.len(),
    {
        if references.len() == 0 {
            self
        } else {
            self.deposited_each(
                account_id,
                currency,
                amount,
                references.drop_last(),
                now,
            ).deposited(account_id, currency, amount, references.last(), now)
        }
    }
}

/// One request to the ledger, with the arguments it was made with.
pub enum Operation {
    Enroll { identity: Seq<char>, display_name: Seq<char>, address: Option<Seq<char>>, now: u64 },
    Deposit { account_id: u64, currency: Currency, amount: u64, reference: Seq<char>, now: u64 },
    BeginWithdraw {
        account_id: u64,
        currency: Currency,
        amount: u64,
        destination: Seq<char>,
        now: u64,
    },
    CompleteWithdraw { withdrawal_id: u64, outcome: TransferOutcomeView, now: u64 },
    Reconcile { withdrawal_id: u64, outcome: TransferOutcomeView, now: u64 },
}

} // verus!
