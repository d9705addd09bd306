//! The transaction processor: what a deposit, a withdrawal and the answer
//! of the settlement gateway do to the rows they touch.
//!
//! The functions here read rows and hand back the rows to write. They keep
//! no state and reach no store: whoever holds the rows, under whatever lock
//! the store offers, writes what they return in one atomic step.

use crate::types::Account;
use crate::types::AccountView;
use crate::types::Direction;
use crate::types::Enrollment;
use crate::types::EnrollmentView;
use crate::types::LedgerError;
use crate::types::LedgerTransaction;
use crate::types::LedgerTransactionView;
use crate::types::TransferOutcome;
use crate::types::TransferOutcomeView;
use crate::types::Wallet;
use crate::types::WalletAnswer;
use crate::types::WalletView;
use crate::types::Withdrawal;
use crate::types::WithdrawalState;
use crate::types::WithdrawalView;
use vstd::prelude::*;

verus! {

/// A wallet row to write together with the log entry to append.
#[derive(Clone, Debug)]
pub struct Posting {
    pub wallet: Wallet,
    pub entry: LedgerTransaction,
}

/// A wallet row to write together with the withdrawal note to keep.
#[derive(Clone, Debug)]
pub struct Reservation {
    pub wallet: Wallet,
    pub note: Withdrawal,
}

/// What the gateway's answer makes of a withdrawal: the state of its note,
/// the wallet row, and the log entry to append if the transfer happened.
#[derive(Clone, Debug)]
pub struct Resolution {
    pub state: WithdrawalState,
    pub wallet: Wallet,
    pub entry: Option<LedgerTransaction>,
}

/// The account that a request creates, with its empty wallet.
pub open spec fn new_enrollment(
    account_id: int,
    identity: Seq<char>,
    display_name: Seq<char>,
    address: Seq<char>,
    now: u64,
) -> EnrollmentView {
    EnrollmentView {
        account: AccountView {
            id: account_id,
            identity_ref: identity,
            display_name,
            deposit_address: address,
        },
        wallet: WalletView::fresh(account_id, now),
        created: true,
    }
}

/// The log entry of a deposit.
pub open spec fn deposit_entry(
    wallet: WalletView,
    amount: u64,
    reference: Seq<char>,
    now: u64,
) -> LedgerTransactionView {
    LedgerTransactionView {
        account_id: wallet.account_id,
        amount,
        currency: wallet.currency,
        direction: Direction::Deposit,
        external_reference: reference,
        created_at: now,
    }
}

/// The log entry of a withdrawal whose transfer happened under `reference`.
pub open spec fn withdrawal_entry(
    note: WithdrawalView,
    reference: Seq<char>,
    now: u64,
) -> LedgerTransactionView {
    LedgerTransactionView {
        account_id: note.account_id,
        amount: note.amount,
        currency: note.currency,
        direction: Direction::Withdrawal,
        external_reference: reference,
        created_at: now,
    }
}

/// The note of a withdrawal that has just been begun.
pub open spec fn fresh_note(
    wallet: WalletView,
    id: int,
    amount: u64,
    destination: Seq<char>,
    now: u64,
) -> WithdrawalView {
    WithdrawalView {
        id,
        account_id: wallet.account_id,
        currency: wallet.currency,
        amount,
        destination,
        state: WithdrawalState::InFlight,
        requested_at: now,
    }
}

/// Whether the wallet is the one the note's amount was taken from, and,
/// while the note is open, holds that amount in reserve and could take it
/// back.
pub open spec fn backs(wallet: WalletView, note: WithdrawalView) -> bool {
    &&& note.account_id == wallet.account_id
    &&& note.currency == wallet.currency
    &&& note.state.is_open() ==> note.amount <= wallet.reserved && wallet.balance + note.amount
        <= u64::MAX
}

/// A [`Resolution`] as contracts see it.
pub struct ResolutionView {
    pub state: WithdrawalState,
    pub wallet: WalletView,
    pub entry: Option<LedgerTransactionView>,
}

impl View for Resolution {
    type V = ResolutionView;

    open spec fn view(&self) -> ResolutionView {
        ResolutionView {
            state: self.state,
            wallet: self.wallet@,
            entry: match self.entry {
                Some(e) => Some(e@),
                None => None,
            },
        }
    }
}

/// The note moves to `state` and nothing else is written.
pub open spec fn only_marked(state: WithdrawalState, wallet: WalletView) -> ResolutionView {
    ResolutionView { state, wallet, entry: None }
}

/// What the gateway's answer `outcome` makes of the withdrawal `note`.
/// `recorded` says whether the log already holds a withdrawal of the
/// account under the reference that `outcome` confirms.
pub open spec fn resolution(
    note: WithdrawalView,
    wallet: WalletView,
    outcome: TransferOutcomeView,
    recorded: bool,
    now: u64,
) -> ResolutionView {
    if !note.state.is_open() {
        only_marked(note.state, wallet)
    } else {
        match outcome {
            TransferOutcomeView::Confirmed(reference) => if recorded {
                only_marked(WithdrawalState::Ambiguous, wallet)
            } else {
                ResolutionView {
                    state: WithdrawalState::Settled,
                    wallet: wallet.settled(note.amount, now),
                    entry: Some(withdrawal_entry(note, reference, now)),
                }
            },
            TransferOutcomeView::Rejected => only_marked(
                WithdrawalState::Failed,
                wallet.released(note.amount, now),
            ),
            TransferOutcomeView::Unknown => only_marked(WithdrawalState::Ambiguous, wallet),
        }
    }
}

/// What the gateway's answer to the one transfer attempt makes of the
/// withdrawal `note`: an ambiguous note stays as it is, any other is
/// resolved.
pub open spec fn completion(
    note: WithdrawalView,
    wallet: WalletView,
    outcome: TransferOutcomeView,
    recorded: bool,
    now: u64,
) -> ResolutionView {
    if note.state == WithdrawalState::Ambiguous {
        only_marked(note.state, wallet)
    } else {
        resolution(note, wallet, outcome, recorded, now)
    }
}

/// The answer that goes with a withdrawal in `state`.
pub open spec fn answer_for(state: WithdrawalState, wallet: WalletView) -> WalletAnswer {
    match state {
        WithdrawalState::Settled => Ok(wallet),
        WithdrawalState::Failed => Err(LedgerError::SettlementTransferFailed),
        _ => Err(LedgerError::SettlementAmbiguous),
    }
}

/// An answer that hands out a wallet, as contracts see it.
pub open spec fn wallet_answer(r: Result<Wallet, LedgerError>) -> WalletAnswer {
    match r {
        Ok(w) => Ok(w@),
        Err(e) => Err(e),
    }
}

/// Executable form of [`backs`].
pub fn wallet_backs(wallet: &Wallet, note: &Withdrawal) -> (ok: bool)
    ensures
        ok == backs(wallet@, note@),
{
    note.account_id == wallet.account_id && note.currency == wallet.currency && (!note.state.open()
        || (note.amount <= wallet.reserved && note.amount <= u64::MAX - wallet.balance))
}

/// Decides the creation of an account for an identity that has none.
///
/// `address` is what the settlement gateway answered when asked for a fresh
/// deposit address, `None` if it failed; `issued` says whether an account
/// has that address already, and is not read without an address. The result
/// is the account row and its empty base-currency wallet row, to be written
/// together under `account_id`, or `SettlementUnavailable` where there is no
/// address that no account has: nothing is then to be written.
pub fn plan_account(
    account_id: u64,
    identity_ref: &str,
    display_name: &str,
    address: Option<String>,
    issued: bool,
    now: u64,
) -> (r: Result<Enrollment, LedgerError>)
    ensures
        address is None || issued ==> r is Err && r->Err_0 == LedgerError::SettlementUnavailable,
        address is Some && !issued ==> r is Ok && r->Ok_0@ == new_enrollment(
            account_id as int,
            identity_ref@,
            display_name@,
            address->0@,
            now,
        ),
{
    let deposit_address = match address {
        Some(a) => a,
        None => { return Err(LedgerError::SettlementUnavailable); },
    };
    if issued {
        return Err(LedgerError::SettlementUnavailable);
    }
    Ok(
        Enrollment {
            account: Account {
                id: account_id,
                identity_ref: identity_ref.to_owned(),
                display_name: display_name.to_owned(),
                deposit_address,
            },
            wallet: Wallet::open(account_id, now),
            created: true,
        },
    )
}

/// Decides a deposit request of a positive `amount` on the wallet row it
/// names.
///
/// `recorded` says whether the log already holds a deposit of the account
/// under `external_reference`. Such a request is a repetition: `Ok(None)`,
/// nothing is to be written. Otherwise the result is the credited wallet
/// row with the entry to append, or `BalanceOverflow` where the wallet
/// cannot take the amount.
pub fn plan_deposit(
    wallet: &Wallet,
    recorded: bool,
    amount: u64,
    external_reference: &str,
    now: u64,
) -> (r: Result<Option<Posting>, LedgerError>)
    requires
        amount > 0,
    ensures
        recorded ==> r == Ok::<Option<Posting>, LedgerError>(None),
        !recorded && wallet@.total() + amount > u64::MAX ==> r == Err::<
            Option<Posting>,
            LedgerError,
        >(LedgerError::BalanceOverflow),
        !recorded && wallet@.total() + amount <= u64::MAX ==> r is Ok && r.unwrap() is Some && ({
            let p = r.unwrap().unwrap();
            &&& p.wallet@ == wallet@.credited(amount, now)
            &&& p.entry@ == deposit_entry(wallet@, amount, external_reference@, now)
        }),
{
    if recorded {
        return Ok(None);
    }
    let credited = match wallet.credit(amount, now) {
        Ok(w) => w,
        Err(e) => { return Err(e); },
    };
    Ok(
        Some(
            Posting {
                wallet: credited,
                entry: LedgerTransaction {
                    account_id: wallet.account_id,
                    amount,
                    currency: wallet.currency,
                    direction: Direction::Deposit,
                    external_reference: external_reference.to_owned(),
                    created_at: now,
                },
            },
        ),
    )
}

/// Decides the first step of a withdrawal on the wallet row it names.
///
/// Fails with `InsufficientBalance` exactly when the balance is smaller
/// than `amount`; no transfer may then be attempted. Otherwise the result
/// is the wallet row with the amount moved into reserve and the note to
/// keep under `withdrawal_id`; once both are written the transfer is to be
/// attempted, once. (`BalanceOverflow` answers a row whose reserve cannot
/// take the amount, which no consistent store holds.)
pub fn plan_withdrawal(
    wallet: &Wallet,
    withdrawal_id: u64,
    amount: u64,
    destination: &str,
    now: u64,
) -> (r: Result<Reservation, LedgerError>)
    ensures
        amount > wallet.balance ==> r == Err::<Reservation, LedgerError>(
            LedgerError::InsufficientBalance,
        ),
        amount <= wallet.balance && wallet.reserved + amount > u64::MAX ==> r == Err::<
            Reservation,
            LedgerError,
        >(LedgerError::BalanceOverflow),
        amount <= wallet.balance && wallet.reserved + amount <= u64::MAX ==> r is Ok && ({
            let p = r.unwrap();
            &&& p.wallet@ == wallet@.held(amount, now)
            &&& p.note@ == fresh_note(wallet@, withdrawal_id as int, amount, destination@, now)
        }),
{
    let held = match wallet.reserve(amount, now) {
        Ok(w) => w,
        Err(e) => { return Err(e); },
    };
    Ok(
        Reservation {
            wallet: held,
            note: Withdrawal {
                id: withdrawal_id,
                account_id: wallet.account_id,
                currency: wallet.currency,
                amount,
                destination: destination.to_owned(),
                state: WithdrawalState::InFlight,
                requested_at: now,
            },
        },
    )
}

/// Decides what the gateway's answer `outcome` makes of the withdrawal
/// `note`, given the wallet row it was reserved from.
///
/// `recorded` says whether the log already holds a withdrawal of the
/// account under the reference that `outcome` confirms; it is not read for
/// another outcome.
///
/// The wallet has to back the note (see [`backs`]). A note that is resolved
/// stays as it is. For an open note, a confirmed
/// transfer settles it, dropping the reserve and appending its entry,
/// unless its reference is recorded already: the note is then ambiguous. A
/// rejected transfer fails it and gives the reserve back to the balance. An
/// unknown outcome makes it ambiguous.
pub fn resolve(
    note: &Withdrawal,
    wallet: &Wallet,
    outcome: TransferOutcome,
    recorded: bool,
    now: u64,
) -> (r: Resolution)
    requires
        backs(wallet@, note@),
    ensures
        r@ == resolution(note@, wallet@, outcome@, recorded, now),
{
    if !note.state.open() {
        return Resolution { state: note.state, wallet: *wallet, entry: None };
    }
    match outcome {
        TransferOutcome::Confirmed(reference) => {
            if recorded {
                return Resolution {
                    state: WithdrawalState::Ambiguous,
                    wallet: *wallet,
                    entry: None,
                };
            }
            Resolution {
                state: WithdrawalState::Settled,
                wallet: wallet.settle(note.amount, now),
                entry: Some(
                    LedgerTransaction {
                        account_id: note.account_id,
                        amount: note.amount,
                        currency: note.currency,
                        direction: Direction::Withdrawal,
                        external_reference: reference,
                        created_at: now,
                    },
                ),
            }
        },
        TransferOutcome::Rejected => Resolution {
            state: WithdrawalState::Failed,
            wallet: wallet.release(note.amount, now),
            entry: None,
        },
        TransferOutcome::Unknown => Resolution {
            state: WithdrawalState::Ambiguous,
            wallet: *wallet,
            entry: None,
        },
    }
}

/// Decides what the gateway's answer to the one transfer attempt makes of
/// the withdrawal `note`: as [`resolve`], but a note that is ambiguous
/// already is left to reconciliation, whatever `outcome` says.
pub fn complete(
    note: &Withdrawal,
    wallet: &Wallet,
    outcome: TransferOutcome,
    recorded: bool,
    now: u64,
) -> (r: Resolution)
    requires
        backs(wallet@, note@),
    ensures
        r@ == completion(note@, wallet@, outcome@, recorded, now),
{
    match note.state {
        WithdrawalState::Ambiguous => Resolution {
            state: WithdrawalState::Ambiguous,
            wallet: *wallet,
            entry: None,
        },
        _ => resolve(note, wallet, outcome, recorded, now),
    }
}

impl Resolution {
    /// What the requester is told: the wallet where the withdrawal is
    /// settled, `SettlementTransferFailed` where it has failed, and
    /// `SettlementAmbiguous` where its outcome is still open.
    pub fn answer(&self) -> (r: Result<Wallet, LedgerError>)
        ensures
            wallet_answer(r) == answer_for(self.state, self.wallet@),
    {
        match self.state {
            WithdrawalState::Settled => Ok(self.wallet),
            WithdrawalState::Failed => Err(LedgerError::SettlementTransferFailed),
            _ => Err(LedgerError::SettlementAmbiguous),
        }
    }
}

} // verus!
