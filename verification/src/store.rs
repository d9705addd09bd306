//! The ledger store: accounts, wallets, the transaction log and the notes
//! of withdrawals, held in memory, with every operation an atomic step.

use crate::consistency::lemma_completed_wf;
use crate::consistency::lemma_deposited_wf;
use crate::consistency::lemma_enrolled_wf;
use crate::consistency::lemma_open_withdrawal_is_reserved;
use crate::consistency::lemma_reconciled_wf;
use crate::consistency::lemma_withdrawal_begun_wf;
use crate::model::belongs_to;
use crate::model::names;
use crate::model::still_open;
use crate::model::LedgerView;
use crate::processor::backs;
use crate::processor::complete;
use crate::processor::plan_account;
use crate::processor::plan_deposit;
use crate::processor::plan_withdrawal;
use crate::processor::resolve;
use crate::processor::wallet_answer;
use crate::processor::Resolution;
use crate::types::Account;
use crate::types::Currency;
use crate::types::Direction;
use crate::types::Enrollment;
use crate::types::EnrollmentView;
use crate::types::LedgerError;
use crate::types::LedgerTransaction;
use crate::types::TransferOutcome;
use crate::types::TransferOutcomeView;
use crate::types::Wallet;
use crate::types::Withdrawal;
use crate::types::WithdrawalView;
use vstd::prelude::*;

verus! {

/// The characters of an address that may be missing.
pub open spec fn text_of(address: Option<String>) -> Option<Seq<char>> {
    match address {
        Some(a) => Some(a@),
        None => None,
    }
}

/// An answer that hands out an enrollment, as contracts see it.
pub open spec fn enrollment_answer(r: Result<Enrollment, LedgerError>) -> Result<
    EnrollmentView,
    LedgerError,
> {
    match r {
        Ok(e) => Ok(e@),
        Err(e) => Err(e),
    }
}

/// An answer that hands out the number of a withdrawal, as contracts see it.
pub open spec fn number_answer(r: Result<u64, LedgerError>) -> Result<int, LedgerError> {
    match r {
        Ok(id) => Ok(id as int),
        Err(e) => Err(e),
    }
}

/// The ledger store.
pub struct Ledger {
    accounts: Vec<Account>,
    wallets: Vec<Wallet>,
    log: Vec<LedgerTransaction>,
    withdrawals: Vec<Withdrawal>,
}

impl View for Ledger {
    type V = LedgerView;

    closed spec fn view(&self) -> LedgerView {
        LedgerView {
            accounts: self.accounts@.map_values(|a: Account| a@),
            wallets: self.wallets@.map_values(|w: Wallet| w@),
            log: self.log@.map_values(|e: LedgerTransaction| e@),
            withdrawals: self.withdrawals@.map_values(|w: Withdrawal| w@),
        }
    }
}

impl Ledger {
    /// Whether the store is consistent. Every operation keeps it so.
    pub open spec fn wf(&self) -> bool {
        self@.wf()
    }

    /// A ledger without accounts.
    pub fn new() -> (ledger: Ledger)
        ensures
            ledger.wf(),
            ledger@ == LedgerView::empty(),
    {
        let ledger = Ledger {
            accounts: Vec::new(),
            wallets: Vec::new(),
            log: Vec::new(),
            withdrawals: Vec::new(),
        };
        proof {
            assert(ledger@.accounts =~= Seq::empty());
            assert(ledger@.wallets =~= Seq::empty());
            assert(ledger@.log =~= Seq::empty());
            assert(ledger@.withdrawals =~= Seq::empty());
        }
        ledger
    }

    /// Position of the account that goes by `identity`, if there is one.
    fn position_of(&self, identity: &String) -> (found: Option<usize>)
        requires
            self.wf(),
        ensures
            found is Some <==> self@.knows(identity@),
            found matches Some(i) ==> i == self@.index_of(identity@) && i < self.accounts.len()
                && i < self.wallets.len(),
    {
        let mut i: usize = 0;
        while i < self.accounts.len()
            invariant
                i <= self.accounts.len(),
                self.wf(),
                forall|k: int| 0 <= k < i ==> (#[trigger] self@.accounts[k]).identity_ref != identity@,
            decreases self.accounts.len() - i,
        {
            if self.accounts[i].identity_ref == *identity {
                proof {
                    assert(self@.accounts[i as int].identity_ref == identity@);
                    let j = self@.index_of(identity@);
                    assert(self@.accounts[j].identity_ref == identity@);
                }
                return Some(i);
            }
            i += 1;
        }
        None
    }

    /// Whether `address` is the deposit address of some account.
    fn address_issued(&self, address: &String) -> (issued: bool)
        ensures
            issued == self@.issued(address@),
    {
        let mut i: usize = 0;
        while i < self.accounts.len()
            invariant
                i <= self.accounts.len(),
                forall|k: int| 0 <= k < i ==> (#[trigger] self@.accounts[k]).deposit_address != address@,
            decreases self.accounts.len() - i,
        {
            if self.accounts[i].deposit_address == *address {
                proof {
                    assert(self@.accounts[i as int].deposit_address == address@);
                }
                return true;
            }
            i += 1;
        }
        false
    }

    /// Whether the log holds an entry of the account in `direction` with
    /// `reference`.
    fn has_entry(&self, account_id: u64, direction: Direction, reference: &String) -> (found: bool)
        ensures
            found == self@.recorded(account_id as int, direction, reference@),
    {
        let mut i: usize = 0;
        while i < self.log.len()
            invariant
                i <= self.log.len(),
                forall|k: int|
                    0 <= k < i ==> !names(
                        #[trigger] self@.log[k],
                        account_id as int,
                        direction,
                        reference@,
                    ),
            decreases self.log.len() - i,
        {
            let e = &self.log[i];
            if e.account_id == account_id && e.direction == direction && e.external_reference
                == *reference {
                proof {
                    assert(names(self@.log[i as int], account_id as int, direction, reference@));
                }
                return true;
            }
            i += 1;
        }
        false
    }

    /// The account that goes by `identity_ref`, with its wallet.
    pub fn find_account(&self, identity_ref: &str) -> (found: Option<Enrollment>)
        requires
            self.wf(),
        ensures
            found is Some <==> self@.knows(identity_ref@),
            found matches Some(e) ==> !e.created && e.account@ == self@.accounts[self@.index_of(
                identity_ref@,
            )] && e.wallet@ == self@.wallets[self@.index_of(identity_ref@)],
    {
        let key = identity_ref.to_owned();
        match self.position_of(&key) {
            Some(i) => Some(
                Enrollment {
                    account: self.accounts[i].duplicate(),
                    wallet: self.wallets[i],
                    created: false,
                },
            ),
            None => None,
        }
    }

    /// Returns the account that goes by `identity_ref`, creating it if there
    /// is none.
    ///
    /// `address` is what the settlement gateway answered when asked for a
    /// fresh deposit address: `None` if it failed. An account that exists is
    /// returned as it is and the address is not used. Otherwise the account
    /// and its empty base-currency wallet are created together, or, without
    /// an address that no account has yet, neither is.
    pub fn get_or_create_account(
        &mut self,
        identity_ref: &str,
        display_name: &str,
        address: Option<String>,
        now: u64,
    ) -> (r: Result<Enrollment, LedgerError>)
        requires
            old(self).wf(),
        ensures
            final(self).wf(),
            final(self)@ == old(self)@.enrolled(
                identity_ref@,
                display_name@,
                text_of(address),
                now,
            ),
            enrollment_answer(r) == old(self)@.enroll_answer(
                identity_ref@,
                display_name@,
                text_of(address),
                now,
            ),
    {
        let key = identity_ref.to_owned();
        if let Some(i) = self.position_of(&key) {
            return Ok(
                Enrollment {
                    account: self.accounts[i].duplicate(),
                    wallet: self.wallets[i],
                    created: false,
                },
            );
        }
        let issued = match &address {
            Some(a) => self.address_issued(a),
            None => false,
        };
        let id: u64 = self.accounts.len() as u64;
        let enrollment = match plan_account(id, identity_ref, display_name, address, issued, now) {
            Ok(enrollment) => enrollment,
            Err(e) => { return Err(e); },
        };
        self.accounts.push(enrollment.account.duplicate());
        self.wallets.push(enrollment.wallet);
        proof {
            let before = old(self)@;
            let after = before.enrolled(identity_ref@, display_name@, text_of(address), now);
            assert(self@.accounts =~= after.accounts);
            assert(self@.wallets =~= after.wallets);
            assert(self@.log =~= after.log);
            assert(self@.withdrawals =~= after.withdrawals);
            lemma_enrolled_wf(before, identity_ref@, display_name@, text_of(address), now);
        }
        Ok(enrollment)
    }

    /// The wallet of the account in `currency`, if it has one.
    fn wallet_position(&self, account_id: u64, currency: Currency) -> (found: Option<usize>)
        ensures
            found is Some <==> self@.has_wallet(account_id, currency),
            found matches Some(i) ==> i == account_id && i < self.wallets.len(),
    {
        if account_id >= self.wallets.len() as u64 {
            return None;
        }
        let i: usize = account_id as usize;
        if self.wallets[i].currency == currency {
            Some(i)
        } else {
            None
        }
    }

    /// Credits a deposit to the account's wallet and appends its entry to
    /// the log, both or neither.
    ///
    /// `amount` is positive. `external_reference` names the transfer on the
    /// settlement network. A reference that the log already holds as a
    /// deposit of the account changes nothing and is answered with the
    /// wallet as it is, so a notification delivered twice is credited once.
    /// Fails with `WalletNotFound` where the account has no wallet in
    /// `currency`, and with `BalanceOverflow` where the wallet cannot take
    /// the amount.
    pub fn deposit(
        &mut self,
        account_id: u64,
        currency: Currency,
        amount: u64,
        external_reference: &str,
        now: u64,
    ) -> (r: Result<Wallet, LedgerError>)
        requires
            old(self).wf(),
            amount > 0,
        ensures
            final(self).wf(),
            final(self)@ == old(self)@.deposited(
                account_id,
                currency,
                amount,
                external_reference@,
                now,
            ),
            wallet_answer(r) == old(self)@.deposit_answer(
                account_id,
                currency,
                amount,
                external_reference@,
                now,
            ),
    {
        let i: usize = match self.wallet_position(account_id, currency) {
            Some(i) => i,
            None => { return Err(LedgerError::WalletNotFound); },
        };
        proof {
            assert(self@.wallet_sound(i as int));
        }
        let reference = external_reference.to_owned();
        let recorded = self.has_entry(account_id, Direction::Deposit, &reference);
        let posting = match plan_deposit(&self.wallets[i], recorded, amount, external_reference, now) {
            Ok(Some(posting)) => posting,
            Ok(None) => { return Ok(self.wallets[i]); },
            Err(e) => { return Err(e); },
        };
        self.wallets.set(i, posting.wallet);
        self.log.push(posting.entry);
        proof {
            let before = old(self)@;
            let after = before.deposited(account_id, currency, amount, external_reference@, now);
            assert(self@.accounts =~= after.accounts);
            assert(self@.wallets =~= after.wallets);
            assert(self@.log =~= after.log);
            assert(self@.withdrawals =~= after.withdrawals);
            lemma_deposited_wf(before, account_id, currency, amount, external_reference@, now);
        }
        Ok(posting.wallet)
    }

    /// First step of a withdrawal: checks the balance and reserves the
    /// amount.
    ///
    /// On `Ok` the amount has left the balance, a note of the request is
    /// kept under the number returned, and the caller is to ask the
    /// settlement gateway, once, to transfer `amount` to `destination`, and
    /// to report what came of it with [`Ledger::complete_withdraw`]. On
    /// `Err` nothing has changed and no transfer is to be made:
    /// `WalletNotFound` where the account has no wallet in `currency`,
    /// `InsufficientBalance` where the balance is smaller than `amount`.
    pub fn begin_withdraw(
        &mut self,
        account_id: u64,
        currency: Currency,
        amount: u64,
        destination: &str,
        now: u64,
    ) -> (r: Result<u64, LedgerError>)
        requires
            old(self).wf(),
        ensures
            final(self).wf(),
            final(self)@ == old(self)@.withdrawal_begun(
                account_id,
                currency,
                amount,
                destination@,
                now,
            ),
            number_answer(r) == old(self)@.begin_answer(account_id, currency, amount),
            r is Err ==> final(self)@ == old(self)@,
    {
        let i: usize = match self.wallet_position(account_id, currency) {
            Some(i) => i,
            None => { return Err(LedgerError::WalletNotFound); },
        };
        proof {
            assert(self@.wallet_sound(i as int));
        }
        let id: u64 = self.withdrawals.len() as u64;
        let reservation = match plan_withdrawal(&self.wallets[i], id, amount, destination, now) {
            Ok(reservation) => reservation,
            Err(e) => { return Err(e); },
        };
        self.wallets.set(i, reservation.wallet);
        self.withdrawals.push(reservation.note);
        proof {
            let before = old(self)@;
            let after = before.withdrawal_begun(account_id, currency, amount, destination@, now);
            assert(self@.accounts =~= after.accounts);
            assert(self@.wallets =~= after.wallets);
            assert(self@.log =~= after.log);
            assert(self@.withdrawals =~= after.withdrawals);
            lemma_withdrawal_begun_wf(before, account_id, currency, amount, destination@, now);
        }
        Ok(id)
    }

    /// Whether the log holds a withdrawal of the account under the
    /// reference that `outcome` confirms.
    fn confirms_recorded(&self, account_id: u64, outcome: &TransferOutcome) -> (recorded: bool)
        ensures
            outcome@ matches TransferOutcomeView::Confirmed(reference) ==> recorded
                == self@.recorded(account_id as int, Direction::Withdrawal, reference),
    {
        match outcome {
            TransferOutcome::Confirmed(reference) => self.has_entry(
                account_id,
                Direction::Withdrawal,
                reference,
            ),
            _ => false,
        }
    }

    /// Writes what was decided of the withdrawal at `i`, whose wallet is at
    /// `a`.
    fn apply(&mut self, i: usize, a: usize, resolution: Resolution)
        requires
            i < old(self).withdrawals.len(),
            a < old(self).wallets.len(),
        ensures
            final(self)@.accounts == old(self)@.accounts,
            final(self)@.wallets == old(self)@.wallets.update(a as int, resolution@.wallet),
            final(self)@.log == match resolution@.entry {
                Some(e) => old(self)@.log.push(e),
                None => old(self)@.log,
            },
            final(self)@.withdrawals == old(self)@.withdrawals.update(
                i as int,
                WithdrawalView { state: resolution@.state, ..old(self)@.withdrawals[i as int] },
            ),
    {
        let note = Withdrawal { state: resolution.state, ..self.withdrawals[i].duplicate() };
        self.withdrawals.set(i, note);
        self.wallets.set(a, resolution.wallet);
        if let Some(entry) = resolution.entry {
            self.log.push(entry);
        }
        proof {
            assert(self@.accounts =~= old(self)@.accounts);
            assert(self@.wallets =~= old(self)@.wallets.update(a as int, resolution@.wallet));
            assert(self@.log =~= match resolution@.entry {
                Some(e) => old(self)@.log.push(e),
                None => old(self)@.log,
            });
            assert(self@.withdrawals =~= old(self)@.withdrawals.update(
                i as int,
                WithdrawalView { state: resolution@.state, ..old(self)@.withdrawals[i as int] },
            ));
        }
    }

    /// Position of the withdrawal numbered `withdrawal_id` and of the
    /// wallet it was reserved from.
    fn withdrawal_position(&self, withdrawal_id: u64) -> (found: Option<(usize, usize)>)
        requires
            self.wf(),
        ensures
            found is Some <==> withdrawal_id < self@.withdrawals.len(),
            found matches Some((i, a)) ==> {
                &&& i == withdrawal_id
                &&& i < self.withdrawals.len()
                &&& a < self.wallets.len()
                &&& a == self@.withdrawals[i as int].account_id
                &&& self.withdrawals[i as int]@ == self@.withdrawals[i as int]
                &&& self.wallets[a as int]@ == self@.wallets[a as int]
                &&& backs(self.wallets[a as int]@, self.withdrawals[i as int]@)
            },
    {
        if withdrawal_id >= self.withdrawals.len() as u64 {
            return None;
        }
        let i: usize = withdrawal_id as usize;
        let account_id: u64 = self.withdrawals[i].account_id;
        proof {
            assert(self@.withdrawal_sound(i as int));
            assert(self@.withdrawals[i as int] == self.withdrawals[i as int]@);
            assert(self@.wallets.len() == self.wallets.len());
        }
        let a: usize = account_id as usize;
        proof {
            assert(self@.wallets[a as int] == self.wallets[a as int]@);
            assert(self@.wallet_sound(a as int));
            if self@.is_open(i as int) {
                lemma_open_withdrawal_is_reserved(self@, i as int);
            }
        }
        Some((i, a))
    }

    /// Reconciles the withdrawal `withdrawal_id` with what the settlement
    /// gateway says of its transfer.
    ///
    /// This is the way out for a withdrawal whose transfer was attempted
    /// but whose outcome was never recorded, be it that the answer was lost
    /// or that the process stopped before it could be written down. A
    /// confirmed transfer gets its log entry and the reserve is dropped; a
    /// rejected one gives the reserve back to the balance; an unknown one
    /// leaves the withdrawal ambiguous. A withdrawal that was resolved
    /// before is not touched and answers as it was resolved, so the log
    /// never holds two entries for one transfer.
    ///
    /// Answers `Ok` with the wallet where the withdrawal is settled,
    /// `SettlementTransferFailed` where it has failed,
    /// `SettlementAmbiguous` where it stays open, and `WithdrawalNotFound`
    /// where no withdrawal has that number.
    pub fn reconcile(&mut self, withdrawal_id: u64, outcome: TransferOutcome, now: u64) -> (r:
        Result<Wallet, LedgerError>)
        requires
            old(self).wf(),
        ensures
            final(self).wf(),
            final(self)@ == old(self)@.reconciled(withdrawal_id as int, outcome@, now),
            wallet_answer(r) == old(self)@.reconcile_answer(withdrawal_id as int, outcome@, now),
    {
        let (i, a) = match self.withdrawal_position(withdrawal_id) {
            Some(found) => found,
            None => { return Err(LedgerError::WithdrawalNotFound); },
        };
        let recorded = self.confirms_recorded(self.withdrawals[i].account_id, &outcome);
        let ghost reported = outcome@;
        let resolution = resolve(&self.withdrawals[i], &self.wallets[a], outcome, recorded, now);
        let answer = resolution.answer();
        self.apply(i, a, resolution);
        proof {
            let before = old(self)@;
            let after = before.reconciled(i as int, reported, now);
            assert(self@.accounts =~= after.accounts);
            assert(self@.wallets =~= after.wallets);
            assert(self@.log =~= after.log);
            assert(self@.withdrawals =~= after.withdrawals);
            lemma_reconciled_wf(before, i as int, reported, now);
        }
        answer
    }

    /// Last step of a withdrawal: records what the settlement gateway
    /// answered to the transfer that [`Ledger::begin_withdraw`] asked for.
    ///
    /// A confirmed transfer drops the reserve and appends the withdrawal's
    /// entry to the log, with the gateway's reference; a rejected transfer
    /// gives the reserve back to the balance and answers
    /// `SettlementTransferFailed`; an unknown outcome marks the withdrawal
    /// ambiguous and answers `SettlementAmbiguous`. A withdrawal that is
    /// ambiguous already is left to [`Ledger::reconcile`], whatever
    /// `outcome` says; one that was resolved before answers as it was
    /// resolved.
    pub fn complete_withdraw(&mut self, withdrawal_id: u64, outcome: TransferOutcome, now: u64) -> (r:
        Result<Wallet, LedgerError>)
        requires
            old(self).wf(),
        ensures
            final(self).wf(),
            final(self)@ == old(self)@.completed(withdrawal_id as int, outcome@, now),
            wallet_answer(r) == old(self)@.complete_answer(withdrawal_id as int, outcome@, now),
    {
        let (i, a) = match self.withdrawal_position(withdrawal_id) {
            Some(found) => found,
            None => { return Err(LedgerError::WithdrawalNotFound); },
        };
        let recorded = self.confirms_recorded(self.withdrawals[i].account_id, &outcome);
        let ghost reported = outcome@;
        let resolution = complete(&self.withdrawals[i], &self.wallets[a], outcome, recorded, now);
        let answer = resolution.answer();
        self.apply(i, a, resolution);
        proof {
            let before = old(self)@;
            let after = before.completed(i as int, reported, now);
            assert(self@.accounts =~= after.accounts);
            assert(self@.wallets =~= after.wallets);
            assert(self@.log =~= after.log);
            assert(self@.withdrawals =~= after.withdrawals);
            lemma_completed_wf(before, i as int, reported, now);
        }
        answer
    }

    /// Number of accounts.
    pub fn account_count(&self) -> (n: usize)
        ensures
            n == self@.accounts.len(),
    {
        self.accounts.len()
    }

    /// Number of log entries.
    pub fn transaction_count(&self) -> (n: usize)
        ensures
            n == self@.log.len(),
    {
        self.log.len()
    }

    /// Number of withdrawals ever begun.
    pub fn withdrawal_count(&self) -> (n: usize)
        ensures
            n == self@.withdrawals.len(),
    {
        self.withdrawals.len()
    }

    /// The account numbered `account_id`.
    pub fn account(&self, account_id: u64) -> (found: Option<Account>)
        ensures
            account_id < self@.accounts.len() ==> found is Some && found.unwrap()@
                == self@.accounts[account_id as int],
            account_id >= self@.accounts.len() ==> found is None,
    {
        if account_id >= self.accounts.len() as u64 {
            return None;
        }
        Some(self.accounts[account_id as usize].duplicate())
    }

    /// The wallet of the account in `currency`.
    pub fn wallet(&self, account_id: u64, currency: Currency) -> (found: Option<Wallet>)
        ensures
            self@.has_wallet(account_id, currency) ==> found is Some && found.unwrap()@
                == self@.wallets[account_id as int],
            !self@.has_wallet(account_id, currency) ==> found is None,
    {
        match self.wallet_position(account_id, currency) {
            Some(i) => Some(self.wallets[i]),
            None => None,
        }
    }

    /// The note of the withdrawal numbered `withdrawal_id`.
    pub fn withdrawal(&self, withdrawal_id: u64) -> (found: Option<Withdrawal>)
        ensures
            withdrawal_id < self@.withdrawals.len() ==> found is Some && found.unwrap()@
                == self@.withdrawals[withdrawal_id as int],
            withdrawal_id >= self@.withdrawals.len() ==> found is None,
    {
        if withdrawal_id >= self.withdrawals.len() as u64 {
            return None;
        }
        Some(self.withdrawals[withdrawal_id as usize].duplicate())
    }

    /// Numbers of the withdrawals that wait for an outcome, in the order in
    /// which they were begun: those that reconciliation has to look at.
    pub fn open_withdrawals(&self) -> (ids: Vec<u64>)
        ensures
            ids@.map_values(|id: u64| id as int) == self@.open_withdrawals(),
    {
        let mut ids: Vec<u64> = Vec::new();
        let mut i: usize = 0;
        while i < self.withdrawals.len()
            invariant
                i <= self.withdrawals.len(),
                ids@.map_values(|id: u64| id as int) == self@.withdrawals.take(i as int).filter(
                    still_open(),
                ).map_values(|w: WithdrawalView| w.id),
            decreases self.withdrawals.len() - i,
        {
            let ghost listed = ids@;
            if self.withdrawals[i].state.open() {
                ids.push(self.withdrawals[i].id);
            }
            i += 1;
            proof {
                reveal(Seq::filter);
                let seen = self@.withdrawals.take(i as int);
                let earlier = self@.withdrawals.take(i - 1).filter(still_open());
                let note = self.withdrawals[i - 1]@;
                assert(seen.drop_last() =~= self@.withdrawals.take(i - 1));
                assert(seen.last() == note);
                if note.state.is_open() {
                    assert(seen.filter(still_open()) == earlier.push(note));
                    assert(earlier.push(note).map_values(|w: WithdrawalView| w.id)
                        =~= earlier.map_values(|w: WithdrawalView| w.id).push(note.id));
                    assert(ids@.map_values(|id: u64| id as int) =~= listed.map_values(
                        |id: u64| id as int,
                    ).push(note.id));
                }
            }
        }
        proof {
            assert(self@.withdrawals.take(i as int) =~= self@.withdrawals);
        }
        ids
    }

    /// The account's log entries, in the order in which they were recorded.
    pub fn transactions_for(&self, account_id: u64) -> (entries: Vec<LedgerTransaction>)
        ensures
            entries@.map_values(|e: LedgerTransaction| e@) == self@.entries_of(account_id as int),
    {
        let mut entries: Vec<LedgerTransaction> = Vec::new();
        let mut i: usize = 0;
        while i < self.log.len()
            invariant
                i <= self.log.len(),
                entries@.map_values(|e: LedgerTransaction| e@) == self@.log.take(i as int).filter(
                    belongs_to(account_id as int),
                ),
            decreases self.log.len() - i,
        {
            if self.log[i].account_id == account_id {
                entries.push(self.log[i].duplicate());
            }
            i += 1;
            proof {
                reveal(Seq::filter);
                let seen = self@.log.take(i as int);
                assert(seen.drop_last() =~= self@.log.take(i - 1));
                assert(seen.last() == self.log[i - 1]@);
                assert(entries@.map_values(|e: LedgerTransaction| e@) =~= seen.filter(
                    belongs_to(account_id as int),
                ));
            }
        }
        proof {
            assert(self@.log.take(i as int) =~= self@.log);
        }
        entries
    }
}

} // verus!
