//! What holds of every ledger, whatever was asked of it.

use crate::consistency::lemma_completed_wf;
use crate::consistency::lemma_deposited_wf;
use crate::consistency::lemma_enrolled_wf;
use crate::consistency::lemma_reconciled_wf;
use crate::consistency::lemma_total_covers;
use crate::consistency::lemma_total_push;
use crate::consistency::lemma_total_zero;
use crate::consistency::lemma_withdrawal_begun_wf;
use crate::model::delta_for;
use crate::model::entry_for;
use crate::model::names;
use crate::model::LedgerView;
use crate::model::Operation;
use crate::types::Currency;
use crate::types::Direction;
use crate::types::LedgerError;
use crate::types::LedgerTransactionView;
use crate::types::TransferOutcomeView;
use crate::types::WalletView;
use crate::types::WithdrawalState;
use vstd::prelude::*;

verus! {

/// Every operation keeps a consistent ledger consistent.
pub proof fn law_operation_keeps_consistency(s: LedgerView, op: Operation)
    requires
        s.wf(),
    ensures
        s.after(op).wf(),
{
    match op {
        Operation::Enroll { identity, display_name, address, now } => {
            lemma_enrolled_wf(s, identity, display_name, address, now);
        },
        Operation::Deposit { account_id, currency, amount, reference, now } => {
            lemma_deposited_wf(s, account_id, currency, amount, reference, now);
        },
        Operation::BeginWithdraw { account_id, currency, amount, destination, now } => {
            lemma_withdrawal_begun_wf(s, account_id, currency, amount, destination, now);
        },
        Operation::CompleteWithdraw { withdrawal_id, outcome, now } => {
            lemma_completed_wf(s, withdrawal_id as int, outcome, now);
        },
        Operation::Reconcile { withdrawal_id, outcome, now } => {
            lemma_reconciled_wf(s, withdrawal_id as int, outcome, now);
        },
    }
}

/// The ledger without accounts is consistent.
pub proof fn law_empty_is_consistent()
    ensures
        LedgerView::empty().wf(),
{
}

/// Every sequence of operations keeps a consistent ledger consistent.
pub proof fn law_history_keeps_consistency(s: LedgerView, ops: Seq<Operation>)
    requires
        s.wf(),
    ensures
        s.after_all(ops).wf(),
    decreases ops.len(),
{
    if ops.len() > 0 {
        law_history_keeps_consistency(s, ops.drop_last());
        law_operation_keeps_consistency(s.after_all(ops.drop_last()), ops.last());
    }
}

/// Non-negativity: after any sequence of deposits, withdrawals and other
/// operations on a consistent ledger, no wallet's balance and no wallet's
/// reserve is negative, and both together fit in a stored balance.
pub proof fn law_balance_never_negative(s: LedgerView, ops: Seq<Operation>, account_id: int)
    requires
        s.wf(),
        0 <= account_id < s.after_all(ops).wallets.len(),
    ensures
        s.after_all(ops).wallets[account_id].balance >= 0,
        s.after_all(ops).wallets[account_id].reserved >= 0,
        s.after_all(ops).wallets[account_id].total() <= u64::MAX,
{
    law_history_keeps_consistency(s, ops);
    assert(s.after_all(ops).wallet_sound(account_id));
}

/// Conservation: in a consistent ledger the signed amounts of an account's
/// log entries add up to what its wallet holds, balance and reserve
/// together; where no withdrawal of the account is in flight, to its
/// balance.
pub proof fn law_conservation(s: LedgerView, account_id: int)
    requires
        s.wf(),
        0 <= account_id < s.wallets.len(),
    ensures
        s.net(account_id) == s.wallets[account_id].balance + s.wallets[account_id].reserved,
        s.wallets[account_id].reserved == s.in_flight(account_id),
        s.in_flight(account_id) == 0 ==> s.net(account_id) == s.wallets[account_id].balance,
{
    assert(s.wallet_sound(account_id));
}

/// One entry per transfer: in a consistent ledger the log records as many
/// withdrawals of an account as the account has settled withdrawals, and
/// for the same sum; a withdrawal that is in flight, ambiguous or failed
/// has no entry.
pub proof fn law_one_entry_per_settled_withdrawal(s: LedgerView, account_id: int)
    requires
        s.wf(),
        0 <= account_id < s.wallets.len(),
    ensures
        s.payout_count(account_id) == s.settled_count(account_id),
        s.paid_out(account_id) == s.settled_amount(account_id),
{
    assert(s.wallet_sound(account_id));
}

/// Conservation from the start: in a ledger that was built from the empty
/// one, where every balance begins at zero, the signed amounts of an
/// account's log entries add up to what its wallet holds.
pub proof fn law_conservation_from_empty(ops: Seq<Operation>, account_id: int)
    requires
        0 <= account_id < LedgerView::empty().after_all(ops).wallets.len(),
    ensures
        ({
            let t = LedgerView::empty().after_all(ops);
            &&& t.net(account_id) == t.wallets[account_id].balance + t.wallets[account_id].reserved
            &&& t.in_flight(account_id) == 0 ==> t.net(account_id) == t.wallets[account_id].balance
        }),
{
    law_empty_is_consistent();
    law_history_keeps_consistency(LedgerView::empty(), ops);
    law_conservation(LedgerView::empty().after_all(ops), account_id);
}

/// Exactly-once deposit: a deposit request that is repeated with the same
/// reference, at whatever time, leaves the ledger as the first request left
/// it, and where the first was answered with a wallet, the repetition is
/// answered with that wallet.
pub proof fn law_deposit_exactly_once(
    s: LedgerView,
    account_id: u64,
    currency: Currency,
    amount: u64,
    reference: Seq<char>,
    now: u64,
    later: u64,
)
    ensures
        s.deposited(account_id, currency, amount, reference, now).deposited(
            account_id,
            currency,
            amount,
            reference,
            later,
        ) == s.deposited(account_id, currency, amount, reference, now),
        s.deposit_answer(account_id, currency, amount, reference, now) is Ok ==> s.deposited(
            account_id,
            currency,
            amount,
            reference,
            now,
        ).deposit_answer(account_id, currency, amount, reference, later) == s.deposit_answer(
            account_id,
            currency,
            amount,
            reference,
            now,
        ),
{
    let t = s.deposited(account_id, currency, amount, reference, now);
    if s.deposit_applies(account_id, currency, amount, reference) {
        assert(names(t.log[t.log.len() - 1], account_id as int, Direction::Deposit, reference));
        assert(t.recorded(account_id as int, Direction::Deposit, reference));
    }
}

/// The ledger after `times` repetitions of one deposit request.
pub open spec fn deposited_times(
    s: LedgerView,
    times: nat,
    account_id: u64,
    currency: Currency,
    amount: u64,
    reference: Seq<char>,
    now: u64,
) -> LedgerView
    decreases times,
{
    if times == 0 {
        s
    } else {
        deposited_times(
            s,
            (times - 1) as nat,
            account_id,
            currency,
            amount,
            reference,
            now,
        ).deposited(account_id, currency, amount, reference, now)
    }
}

/// Exactly-once deposit, any number of times: repeating a deposit request
/// with the same reference once or more leaves the ledger as one request
/// does.
pub proof fn law_deposit_repeated(
    s: LedgerView,
    times: nat,
    account_id: u64,
    currency: Currency,
    amount: u64,
    reference: Seq<char>,
    now: u64,
)
    requires
        times >= 1,
    ensures
        deposited_times(s, times, account_id, currency, amount, reference, now) == s.deposited(
            account_id,
            currency,
            amount,
            reference,
            now,
        ),
    decreases times,
{
    if times > 1 {
        law_deposit_repeated(s, (times - 1) as nat, account_id, currency, amount, reference, now);
        law_deposit_exactly_once(s, account_id, currency, amount, reference, now, now);
    } else {
        assert(deposited_times(s, 0, account_id, currency, amount, reference, now) == s);
    }
}

/// Withdrawal rejection: a request to withdraw more than the balance is
/// answered with `InsufficientBalance`, which asks for no transfer, and
/// leaves accounts, wallets, log and withdrawal notes as they were.
pub proof fn law_overdraft_changes_nothing(
    s: LedgerView,
    account_id: u64,
    currency: Currency,
    amount: u64,
    destination: Seq<char>,
    now: u64,
)
    requires
        s.has_wallet(account_id, currency),
        amount > s.wallets[account_id as int].balance,
    ensures
        s.begin_answer(account_id, currency, amount) == Err::<int, LedgerError>(
            LedgerError::InsufficientBalance,
        ),
        s.withdrawal_begun(account_id, currency, amount, destination, now) == s,
{
}

/// A withdrawal whose transfer is confirmed: where the balance covers the
/// amount, beginning the withdrawal and completing it with a confirmed
/// transfer, under a reference the account has not used for a withdrawal,
/// takes the amount off the balance, leaves the reserve as it was, and
/// appends one entry to the log, which carries the gateway's reference.
pub proof fn law_confirmed_withdrawal(
    s: LedgerView,
    account_id: u64,
    currency: Currency,
    amount: u64,
    destination: Seq<char>,
    reference: Seq<char>,
    now: u64,
    later: u64,
)
    requires
        s.can_withdraw(account_id, currency, amount),
        !s.recorded(account_id as int, Direction::Withdrawal, reference),
    ensures
        ({
            let id = s.withdrawals.len() as int;
            let t = s.withdrawal_begun(account_id, currency, amount, destination, now);
            let u = t.completed(id, TransferOutcomeView::Confirmed(reference), later);
            &&& s.begin_answer(account_id, currency, amount) == Ok::<int, LedgerError>(id)
            &&& t.log == s.log
            &&& t.wallets[account_id as int].balance == s.wallets[account_id as int].balance
                - amount
            &&& t.complete_answer(id, TransferOutcomeView::Confirmed(reference), later) == Ok::<
                WalletView,
                LedgerError,
            >(u.wallets[account_id as int])
            &&& u.wallets[account_id as int].balance == s.wallets[account_id as int].balance
                - amount
            &&& u.wallets[account_id as int].reserved == s.wallets[account_id as int].reserved
            &&& u.log == s.log.push(
                LedgerTransactionView {
                    account_id: account_id as int,
                    amount,
                    currency,
                    direction: Direction::Withdrawal,
                    external_reference: reference,
                    created_at: later,
                },
            )
            &&& u.withdrawals[id].state == WithdrawalState::Settled
        }),
{
    let id = s.withdrawals.len() as int;
    let t = s.withdrawal_begun(account_id, currency, amount, destination, now);
    assert(t.is_open(id));
    if t.recorded(account_id as int, Direction::Withdrawal, reference) {
        let k = choose|k: int|
            0 <= k < t.log.len() && names(
                #[trigger] t.log[k],
                account_id as int,
                Direction::Withdrawal,
                reference,
            );
        assert(names(s.log[k], account_id as int, Direction::Withdrawal, reference));
    }
}

/// A withdrawal whose transfer is rejected: beginning the withdrawal and
/// completing it with a rejected transfer is answered with
/// `SettlementTransferFailed` and leaves balance, reserve and log as they
/// were before the withdrawal began.
pub proof fn law_rejected_withdrawal(
    s: LedgerView,
    account_id: u64,
    currency: Currency,
    amount: u64,
    destination: Seq<char>,
    now: u64,
    later: u64,
)
    requires
        s.can_withdraw(account_id, currency, amount),
    ensures
        ({
            let id = s.withdrawals.len() as int;
            let t = s.withdrawal_begun(account_id, currency, amount, destination, now);
            let u = t.completed(id, TransferOutcomeView::Rejected, later);
            &&& t.complete_answer(id, TransferOutcomeView::Rejected, later) == Err::<
                WalletView,
                LedgerError,
            >(LedgerError::SettlementTransferFailed)
            &&& u.wallets[account_id as int].balance == s.wallets[account_id as int].balance
            &&& u.wallets[account_id as int].reserved == s.wallets[account_id as int].reserved
            &&& u.log == s.log
            &&& u.withdrawals[id].state == WithdrawalState::Failed
        }),
{
    let id = s.withdrawals.len() as int;
    let t = s.withdrawal_begun(account_id, currency, amount, destination, now);
    assert(t.is_open(id));
}

/// A withdrawal whose outcome is unknown: completing it is answered with
/// `SettlementAmbiguous`, keeps the amount in reserve, writes nothing to the
/// log, and leaves the withdrawal open for reconciliation; a later answer to
/// the same attempt changes nothing.
pub proof fn law_unknown_outcome_stays_open(
    s: LedgerView,
    id: int,
    now: u64,
    report: TransferOutcomeView,
    later: u64,
)
    requires
        s.is_open(id),
    ensures
        ({
            let t = s.completed(id, TransferOutcomeView::Unknown, now);
            &&& s.complete_answer(id, TransferOutcomeView::Unknown, now) == Err::<
                WalletView,
                LedgerError,
            >(LedgerError::SettlementAmbiguous)
            &&& t.wallets == s.wallets
            &&& t.log == s.log
            &&& t.is_open(id)
            &&& t.completed(id, report, later) == t
            &&& t.complete_answer(id, report, later) == Err::<WalletView, LedgerError>(
                LedgerError::SettlementAmbiguous,
            )
        }),
{
    let t = s.completed(id, TransferOutcomeView::Unknown, now);
    if s.is_ambiguous(id) {
        assert(t == s);
    } else {
        assert(t.is_ambiguous(id));
    }
}

/// A resolved withdrawal stays resolved: once a withdrawal is settled or
/// has failed, no report about it changes the ledger.
pub proof fn law_resolved_is_final(s: LedgerView, id: int, report: TransferOutcomeView, now: u64)
    requires
        0 <= id < s.withdrawals.len(),
        !s.is_open(id),
    ensures
        s.reconciled(id, report, now) == s,
        s.completed(id, report, now) == s,
        s.reconcile_answer(id, report, now) == s.complete_answer(id, report, now),
        s.reconcile_answer(id, report, now) == match s.withdrawals[id].state {
            WithdrawalState::Settled => Ok::<WalletView, LedgerError>(
                s.wallets[s.withdrawals[id].account_id],
            ),
            _ => Err::<WalletView, LedgerError>(LedgerError::SettlementTransferFailed),
        },
{
}

/// Reconciliation records a transfer once: when the gateway confirms the
/// transfer of an open withdrawal, the log gets exactly one entry for it,
/// what the wallet holds goes down by the amount, and whatever is reported
/// of that withdrawal afterwards changes nothing.
pub proof fn law_reconcile_records_once(
    s: LedgerView,
    id: int,
    reference: Seq<char>,
    now: u64,
    report: TransferOutcomeView,
    later: u64,
)
    requires
        s.wf(),
        s.is_open(id),
        !s.recorded(s.withdrawals[id].account_id, Direction::Withdrawal, reference),
    ensures
        ({
            let w = s.withdrawals[id];
            let t = s.reconciled(id, TransferOutcomeView::Confirmed(reference), now);
            &&& t.log == s.log.push(
                LedgerTransactionView {
                    account_id: w.account_id,
                    amount: w.amount,
                    currency: w.currency,
                    direction: Direction::Withdrawal,
                    external_reference: reference,
                    created_at: now,
                },
            )
            &&& t.entry_count(w.account_id) == s.entry_count(w.account_id) + 1
            &&& t.wallets[w.account_id].balance == s.wallets[w.account_id].balance
            &&& t.wallets[w.account_id].total() == s.wallets[w.account_id].total() - w.amount
            &&& t.withdrawals[id].state == WithdrawalState::Settled
            &&& t.reconciled(id, report, later) == t
            &&& t.completed(id, report, later) == t
            &&& t.reconcile_answer(id, report, later) == Ok::<WalletView, LedgerError>(
                t.wallets[w.account_id],
            )
        }),
{
    let w = s.withdrawals[id];
    let t = s.reconciled(id, TransferOutcomeView::Confirmed(reference), now);
    assert(s.withdrawal_sound(id));
    lemma_total_push(s.log, t.log.last(), entry_for(w.account_id));
}

/// An account without log entries has no recorded reference.
proof fn lemma_no_entries_no_reference(
    s: LedgerView,
    account_id: int,
    direction: Direction,
    reference: Seq<char>,
)
    requires
        s.entry_count(account_id) == 0,
    ensures
        !s.recorded(account_id, direction, reference),
{
    assert forall|i: int| 0 <= i < s.log.len() implies !names(
        #[trigger] s.log[i],
        account_id,
        direction,
        reference,
    ) by {
        lemma_total_covers(s.log, i, entry_for(account_id));
    }
}

/// What a run of deposits with distinct references leaves behind on a
/// wallet that had no entries.
proof fn lemma_deposits_add_up(
    s: LedgerView,
    account_id: u64,
    currency: Currency,
    amount: u64,
    references: Seq<Seq<char>>,
    now: u64,
)
    requires
        s.wf(),
        s.has_wallet(account_id, currency),
        s.entry_count(account_id as int) == 0,
        forall|i: int, j: int|
            0 <= i < j < references.len() ==> #[trigger] references[i] != #[trigger] references[j],
        references.len() * amount <= u64::MAX,
    ensures
        ({
            let t = s.deposited_each(account_id, currency, amount, references, now);
            &&& t.wf()
            &&& t.has_wallet(account_id, currency)
            &&& t.wallets[account_id as int].balance == references.len() * amount
            &&& t.wallets[account_id as int].reserved == 0
            &&& t.entry_count(account_id as int) == references.len()
            &&& forall|r: Seq<char>|
                t.recorded(account_id as int, Direction::Deposit, r) ==> references.contains(r)
        }),
    decreases references.len(),
{
    let a = account_id as int;
    let t = s.deposited_each(account_id, currency, amount, references, now);
    if references.len() == 0 {
        assert(s.wallet_sound(a));
        assert forall|i: int| 0 <= i < s.log.len() implies delta_for(a)(#[trigger] s.log[i])
            == 0 by {
            lemma_total_covers(s.log, i, entry_for(a));
        }
        lemma_total_zero(s.log, delta_for(a));
        assert forall|r: Seq<char>| t.recorded(a, Direction::Deposit, r) implies references.contains(
            r,
        ) by {
            lemma_no_entries_no_reference(s, a, Direction::Deposit, r);
        }
    } else {
        let n = references.len() as int;
        let front = references.drop_last();
        let last = references.last();
        assert((n - 1) * amount + amount == n * amount && (n - 1) * amount <= n * amount)
            by (nonlinear_arith)
            requires
                n >= 1,
                amount >= 0,
        ;
        assert forall|i: int, j: int| 0 <= i < j < front.len() implies #[trigger] front[i]
            != #[trigger] front[j] by {
            assert(front[i] == references[i] && front[j] == references[j]);
        }
        lemma_deposits_add_up(s, account_id, currency, amount, front, now);
        let u = s.deposited_each(account_id, currency, amount, front, now);
        if u.recorded(a, Direction::Deposit, last) {
            assert(front.contains(last));
            let i = choose|i: int| 0 <= i < front.len() && #[trigger] front[i] == last;
            assert(references[i] == front[i]);
            assert(references[n - 1] == last);
        }
        assert(u.deposit_applies(account_id, currency, amount, last));
        lemma_deposited_wf(u, account_id, currency, amount, last, now);
        lemma_total_push(u.log, t.log.last(), entry_for(a));
        assert forall|r: Seq<char>| t.recorded(a, Direction::Deposit, r) implies references.contains(
            r,
        ) by {
            let k = choose|k: int|
                0 <= k < t.log.len() && names(#[trigger] t.log[k], a, Direction::Deposit, r);
            if k < u.log.len() {
                assert(names(u.log[k], a, Direction::Deposit, r));
                assert(u.recorded(a, Direction::Deposit, r));
                assert(front.contains(r));
                let i = choose|i: int| 0 <= i < front.len() && #[trigger] front[i] == r;
                assert(references[i] == r);
            } else {
                assert(references[n - 1] == r);
            }
        }
    }
}

/// Serialization: deposits of `amount` under distinct references, applied
/// one after the other in any order to a wallet that has no entries and
/// therefore a balance of zero, are each answered with a wallet, and leave
/// a balance of as many times `amount` as there were deposits and as many
/// log entries, provided that balance can be represented.
pub proof fn law_deposits_add_up(
    s: LedgerView,
    account_id: u64,
    currency: Currency,
    amount: u64,
    references: Seq<Seq<char>>,
    now: u64,
)
    requires
        s.wf(),
        s.has_wallet(account_id, currency),
        s.entry_count(account_id as int) == 0,
        forall|i: int, j: int|
            0 <= i < j < references.len() ==> #[trigger] references[i] != #[trigger] references[j],
        references.len() * amount <= u64::MAX,
    ensures
        s.wallets[account_id as int].balance == 0,
        s.deposited_each(account_id, currency, amount, references, now).wallets[account_id as int].balance
            == references.len() * amount,
        s.deposited_each(account_id, currency, amount, references, now).entry_count(
            account_id as int,
        ) == references.len(),
        forall|k: int|
            0 <= k < references.len() ==> (#[trigger] s.deposited_each(
                account_id,
                currency,
                amount,
                references.take(k),
                now,
            )).deposit_answer(account_id, currency, amount, references[k], now) is Ok,
{
    let a = account_id as int;
    lemma_deposits_add_up(s, account_id, currency, amount, Seq::empty(), now);
    lemma_deposits_add_up(s, account_id, currency, amount, references, now);
    assert forall|k: int| 0 <= k < references.len() implies (#[trigger] s.deposited_each(
        account_id,
        currency,
        amount,
        references.take(k),
        now,
    )).deposit_answer(account_id, currency, amount, references[k], now) is Ok by {
        let done = references.take(k);
        let n = references.len() as int;
        assert(k * amount + amount <= n * amount) by (nonlinear_arith)
            requires
                0 <= k < n,
                amount >= 0,
        ;
        lemma_deposits_add_up(s, account_id, currency, amount, done, now);
        let u = s.deposited_each(account_id, currency, amount, done, now);
        if u.recorded(a, Direction::Deposit, references[k]) {
            assert(done.contains(references[k]));
            let i = choose|i: int| 0 <= i < done.len() && #[trigger] done[i] == references[k];
            assert(references[i] == done[i]);
        }
    }
}

/// One account per identity: once an account goes by an identity, a
/// request to enroll that identity again, with whatever name and address,
/// changes nothing and is answered with that account, marked as not
/// created.
pub proof fn law_enroll_once(
    s: LedgerView,
    identity: Seq<char>,
    display_name: Seq<char>,
    address: Option<Seq<char>>,
    now: u64,
)
    requires
        s.wf(),
        s.knows(identity),
    ensures
        s.enrolled(identity, display_name, address, now) == s,
        s.enroll_answer(identity, display_name, address, now) is Ok,
        !s.enroll_answer(identity, display_name, address, now)->Ok_0.created,
        s.enroll_answer(identity, display_name, address, now)->Ok_0.account.identity_ref
            == identity,
        forall|i: int|
            0 <= i < s.accounts.len() && (#[trigger] s.accounts[i]).identity_ref == identity
                ==> s.enroll_answer(identity, display_name, address, now)->Ok_0.account
                == s.accounts[i],
{
    let k = s.index_of(identity);
    assert forall|i: int|
        0 <= i < s.accounts.len() && (#[trigger] s.accounts[i]).identity_ref
            == identity implies i == k by {
        if i < k {
            assert(s.accounts[i].identity_ref != s.accounts[k].identity_ref);
        } else if k < i {
            assert(s.accounts[k].identity_ref != s.accounts[i].identity_ref);
        }
    }
}

/// A request to enroll an identity leaves the ledger knowing it, or leaves
/// the ledger as it was.
pub proof fn law_enroll_creates_or_changes_nothing(
    s: LedgerView,
    identity: Seq<char>,
    display_name: Seq<char>,
    address: Option<Seq<char>>,
    now: u64,
)
    ensures
        s.enroll_answer(identity, display_name, address, now) is Ok ==> s.enrolled(
            identity,
            display_name,
            address,
            now,
        ).knows(identity),
        s.enroll_answer(identity, display_name, address, now) is Err ==> s.enrolled(
            identity,
            display_name,
            address,
            now,
        ) == s,
{
    let t = s.enrolled(identity, display_name, address, now);
    if s.can_enroll(identity, address) {
        assert(t.accounts[t.accounts.len() - 1].identity_ref == identity);
    }
}

/// No operation rewrites the log or an account: what the log and the list
/// of accounts held before an operation, they hold after it, in the same
/// places.
pub proof fn law_operation_appends(s: LedgerView, op: Operation)
    ensures
        s.log.is_prefix_of(s.after(op).log),
        s.accounts.is_prefix_of(s.after(op).accounts),
{
    let t = s.after(op);
    assert(s.log =~= t.log.subrange(0, s.log.len() as int));
    assert(s.accounts =~= t.accounts.subrange(0, s.accounts.len() as int));
}

/// The log is append-only and accounts are never reassigned: after any
/// sequence of operations every entry and every account that was there
/// before is still there, unchanged and in its place.
pub proof fn law_history_appends(s: LedgerView, ops: Seq<Operation>)
    ensures
        s.log.is_prefix_of(s.after_all(ops).log),
        s.accounts.is_prefix_of(s.after_all(ops).accounts),
    decreases ops.len(),
{
    let t = s.after_all(ops);
    if ops.len() > 0 {
        let u = s.after_all(ops.drop_last());
        law_history_appends(s, ops.drop_last());
        law_operation_appends(u, ops.last());
        assert(s.log =~= t.log.subrange(0, s.log.len() as int)) by {
            assert(u.log == t.log.subrange(0, u.log.len() as int));
            assert(s.log == u.log.subrange(0, s.log.len() as int));
        }
        assert(s.accounts =~= t.accounts.subrange(0, s.accounts.len() as int)) by {
            assert(u.accounts == t.accounts.subrange(0, u.accounts.len() as int));
            assert(s.accounts == u.accounts.subrange(0, s.accounts.len() as int));
        }
    } else {
        assert(s.log =~= t.log.subrange(0, s.log.len() as int));
        assert(s.accounts =~= t.accounts.subrange(0, s.accounts.len() as int));
    }
}

} // verus!
