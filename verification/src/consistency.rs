//! Proofs that every operation keeps the ledger consistent.

use crate::model::delta_for;
use crate::model::hold_for;
use crate::model::names;
use crate::model::payout_entry_for;
use crate::model::payout_for;
use crate::model::settled_for;
use crate::model::settled_note_for;
use crate::model::total;
use crate::model::LedgerView;
use crate::types::Currency;
use crate::types::Direction;
use crate::types::LedgerTransactionView;
use crate::types::TransferOutcomeView;
use crate::types::WithdrawalState;
use vstd::prelude::*;

verus! {

/// Appending an item adds its weight to the sum.
pub proof fn lemma_total_push<T>(items: Seq<T>, x: T, weight: spec_fn(T) -> int)
    ensures
        total(items.push(x), weight) == total(items, weight) + weight(x),
{
    assert(items.push(x).drop_last() =~= items);
    assert(items.push(x).last() == x);
}

/// Replacing an item exchanges its weight in the sum.
pub proof fn lemma_total_update<T>(items: Seq<T>, i: int, x: T, weight: spec_fn(T) -> int)
    requires
        0 <= i < items.len(),
    ensures
        total(items.update(i, x), weight) == total(items, weight) - weight(items[i]) + weight(x),
    decreases items.len(),
{
    let updated = items.update(i, x);
    if i == items.len() - 1 {
        assert(updated.drop_last() =~= items.drop_last());
    } else {
        lemma_total_update(items.drop_last(), i, x, weight);
        assert(updated.drop_last() =~= items.drop_last().update(i, x));
    }
}

/// A sum of weights that are all zero is zero.
pub proof fn lemma_total_zero<T>(items: Seq<T>, weight: spec_fn(T) -> int)
    requires
        forall|i: int| 0 <= i < items.len() ==> weight(#[trigger] items[i]) == 0,
    ensures
        total(items, weight) == 0,
    decreases items.len(),
{
    if items.len() > 0 {
        let front = items.drop_last();
        assert forall|i: int| 0 <= i < front.len() implies weight(#[trigger] front[i]) == 0 by {
            assert(front[i] == items[i]);
        }
        lemma_total_zero(front, weight);
        assert(items.last() == items[items.len() - 1]);
    }
}

/// A sum of weights none of which is negative is at least each of them.
pub proof fn lemma_total_covers<T>(items: Seq<T>, i: int, weight: spec_fn(T) -> int)
    requires
        0 <= i < items.len(),
        forall|k: int| 0 <= k < items.len() ==> weight(#[trigger] items[k]) >= 0,
    ensures
        total(items, weight) >= weight(items[i]),
        total(items.drop_last(), weight) >= 0,
    decreases items.len(),
{
    let front = items.drop_last();
    assert forall|k: int| 0 <= k < front.len() implies weight(#[trigger] front[k]) >= 0 by {
        assert(front[k] == items[k]);
    }
    assert(items.last() == items[items.len() - 1]);
    if front.len() > 0 {
        lemma_total_covers(front, if i < front.len() { i } else { 0 }, weight);
        assert(front.last() == front[front.len() - 1]);
        if i < front.len() {
            assert(front[i] == items[i]);
        }
    }
}

/// What is reserved for an open withdrawal is part of what is in flight
/// for its account.
pub proof fn lemma_open_withdrawal_is_reserved(s: LedgerView, id: int)
    requires
        s.wf(),
        s.is_open(id),
    ensures
        0 <= s.withdrawals[id].account_id < s.wallets.len(),
        s.withdrawals[id].amount <= s.wallets[s.withdrawals[id].account_id].reserved,
        s.wallets[s.withdrawals[id].account_id].balance + s.withdrawals[id].amount <= u64::MAX,
{
    let w = s.withdrawals[id];
    assert(s.withdrawal_sound(id));
    assert(s.wallet_sound(w.account_id));
    lemma_total_covers(s.withdrawals, id, hold_for(w.account_id));
}

/// Enrolling keeps the ledger consistent.
pub proof fn lemma_enrolled_wf(
    s: LedgerView,
    identity: Seq<char>,
    display_name: Seq<char>,
    address: Option<Seq<char>>,
    now: u64,
)
    requires
        s.wf(),
    ensures
        s.enrolled(identity, display_name, address, now).wf(),
{
    let t = s.enrolled(identity, display_name, address, now);
    if s.can_enroll(identity, address) {
        let n = s.accounts.len() as int;
        assert forall|i: int| 0 <= i < t.wallets.len() implies #[trigger] t.wallet_sound(i) by {
            if i < n {
                assert(s.wallet_sound(i));
            } else {
                assert forall|k: int| 0 <= k < t.log.len() implies delta_for(i)(
                    #[trigger] t.log[k],
                ) == 0 by {
                    assert(s.entry_sound(k));
                }
                lemma_total_zero(t.log, delta_for(i));
                assert forall|k: int| 0 <= k < t.withdrawals.len() implies hold_for(i)(
                    #[trigger] t.withdrawals[k],
                ) == 0 by {
                    assert(s.withdrawal_sound(k));
                }
                lemma_total_zero(t.withdrawals, hold_for(i));
                assert forall|k: int| 0 <= k < t.log.len() implies payout_for(i)(
                    #[trigger] t.log[k],
                ) == 0 && payout_entry_for(i)(t.log[k]) == 0 by {
                    assert(s.entry_sound(k));
                }
                lemma_total_zero(t.log, payout_for(i));
                lemma_total_zero(t.log, payout_entry_for(i));
                assert forall|k: int| 0 <= k < t.withdrawals.len() implies settled_for(i)(
                    #[trigger] t.withdrawals[k],
                ) == 0 && settled_note_for(i)(t.withdrawals[k]) == 0 by {
                    assert(s.withdrawal_sound(k));
                }
                lemma_total_zero(t.withdrawals, settled_for(i));
                lemma_total_zero(t.withdrawals, settled_note_for(i));
            }
        }
        assert forall|i: int| 0 <= i < t.log.len() implies #[trigger] t.entry_sound(i) by {
            assert(s.entry_sound(i));
        }
        assert forall|i: int| 0 <= i < t.withdrawals.len() implies #[trigger] t.withdrawal_sound(
            i,
        ) by {
            assert(s.withdrawal_sound(i));
        }
        assert forall|i: int, j: int| 0 <= i < j < t.accounts.len() implies (
        #[trigger] t.accounts[i]).identity_ref != (#[trigger] t.accounts[j]).identity_ref by {
            if j < n {
                assert(s.accounts[i].identity_ref != s.accounts[j].identity_ref);
            } else {
                assert(t.accounts[i] == s.accounts[i]);
            }
        }
        assert forall|i: int, j: int| 0 <= i < j < t.accounts.len() implies (
        #[trigger] t.accounts[i]).deposit_address != (#[trigger] t.accounts[j]).deposit_address by {
            if j < n {
                assert(s.accounts[i].deposit_address != s.accounts[j].deposit_address);
            } else {
                assert(t.accounts[i] == s.accounts[i]);
            }
        }
    }
}

/// Appending an entry whose reference the account has not used in that
/// direction keeps the log free of repeated references.
proof fn lemma_fresh_reference(s: LedgerView, e: LedgerTransactionView)
    requires
        s.wf(),
        !s.recorded(e.account_id, e.direction, e.external_reference),
    ensures
        forall|i: int, j: int|
            0 <= i < j < s.log.len() + 1 ==> !names(
                #[trigger] s.log.push(e)[j],
                (#[trigger] s.log.push(e)[i]).account_id,
                s.log.push(e)[i].direction,
                s.log.push(e)[i].external_reference,
            ),
{
    let log = s.log.push(e);
    assert forall|i: int, j: int| 0 <= i < j < s.log.len() + 1 implies !names(
        #[trigger] log[j],
        (#[trigger] log[i]).account_id,
        log[i].direction,
        log[i].external_reference,
    ) by {
        assert(log[i] == s.log[i]);
        if j < s.log.len() {
            assert(log[j] == s.log[j]);
        } else {
            if names(log[j], log[i].account_id, log[i].direction, log[i].external_reference) {
                assert(names(s.log[i], e.account_id, e.direction, e.external_reference));
            }
        }
    }
}

/// A deposit keeps the ledger consistent.
pub proof fn lemma_deposited_wf(
    s: LedgerView,
    account_id: u64,
    currency: Currency,
    amount: u64,
    reference: Seq<char>,
    now: u64,
)
    requires
        s.wf(),
    ensures
        s.deposited(account_id, currency, amount, reference, now).wf(),
{
    let t = s.deposited(account_id, currency, amount, reference, now);
    if s.deposit_applies(account_id, currency, amount, reference) {
        let e = t.log.last();
        assert(s.wallet_sound(account_id as int));
        assert forall|i: int| 0 <= i < t.wallets.len() implies #[trigger] t.wallet_sound(i) by {
            assert(s.wallet_sound(i));
            lemma_total_push(s.log, e, delta_for(i));
            lemma_total_push(s.log, e, payout_for(i));
            lemma_total_push(s.log, e, payout_entry_for(i));
        }
        assert forall|i: int| 0 <= i < t.log.len() implies #[trigger] t.entry_sound(i) by {
            if i < s.log.len() {
                assert(s.entry_sound(i));
            }
        }
        assert forall|i: int| 0 <= i < t.withdrawals.len() implies #[trigger] t.withdrawal_sound(
            i,
        ) by {
            assert(s.withdrawal_sound(i));
        }
        lemma_fresh_reference(s, e);
    }
}

/// Beginning a withdrawal keeps the ledger consistent.
pub proof fn lemma_withdrawal_begun_wf(
    s: LedgerView,
    account_id: u64,
    currency: Currency,
    amount: u64,
    destination: Seq<char>,
    now: u64,
)
    requires
        s.wf(),
    ensures
        s.withdrawal_begun(account_id, currency, amount, destination, now).wf(),
{
    let t = s.withdrawal_begun(account_id, currency, amount, destination, now);
    if s.can_withdraw(account_id, currency, amount) {
        let w = t.withdrawals.last();
        assert(s.wallet_sound(account_id as int));
        assert forall|i: int| 0 <= i < t.wallets.len() implies #[trigger] t.wallet_sound(i) by {
            assert(s.wallet_sound(i));
            lemma_total_push(s.withdrawals, w, hold_for(i));
            lemma_total_push(s.withdrawals, w, settled_for(i));
            lemma_total_push(s.withdrawals, w, settled_note_for(i));
        }
        assert forall|i: int| 0 <= i < t.log.len() implies #[trigger] t.entry_sound(i) by {
            assert(s.entry_sound(i));
        }
        assert forall|i: int| 0 <= i < t.withdrawals.len() implies #[trigger] t.withdrawal_sound(
            i,
        ) by {
            if i < s.withdrawals.len() {
                assert(s.withdrawal_sound(i));
            }
        }
    }
}

/// Marking an open withdrawal ambiguous keeps the ledger consistent.
proof fn lemma_marked_ambiguous_wf(s: LedgerView, id: int)
    requires
        s.wf(),
        s.is_open(id),
    ensures
        s.marked(id, WithdrawalState::Ambiguous).wf(),
{
    let t = s.marked(id, WithdrawalState::Ambiguous);
    assert forall|i: int| 0 <= i < t.wallets.len() implies #[trigger] t.wallet_sound(i) by {
        assert(s.wallet_sound(i));
        lemma_total_update(s.withdrawals, id, t.withdrawals[id], hold_for(i));
        lemma_total_update(s.withdrawals, id, t.withdrawals[id], settled_for(i));
        lemma_total_update(s.withdrawals, id, t.withdrawals[id], settled_note_for(i));
    }
    assert forall|i: int| 0 <= i < t.log.len() implies #[trigger] t.entry_sound(i) by {
        assert(s.entry_sound(i));
    }
    assert forall|i: int| 0 <= i < t.withdrawals.len() implies #[trigger] t.withdrawal_sound(
        i,
    ) by {
        assert(s.withdrawal_sound(i));
    }
}

/// Settling an open withdrawal under a reference the account has not used
/// for a withdrawal keeps the ledger consistent.
proof fn lemma_settled_wf(s: LedgerView, id: int, reference: Seq<char>, now: u64)
    requires
        s.wf(),
        s.is_open(id),
        !s.recorded(s.withdrawals[id].account_id, Direction::Withdrawal, reference),
    ensures
        s.settled(id, reference, now).wf(),
{
    let t = s.settled(id, reference, now);
    let e = t.log.last();
    lemma_open_withdrawal_is_reserved(s, id);
    assert(s.withdrawal_sound(id));
    assert forall|i: int| 0 <= i < t.wallets.len() implies #[trigger] t.wallet_sound(i) by {
        assert(s.wallet_sound(i));
        lemma_total_push(s.log, e, delta_for(i));
        lemma_total_push(s.log, e, payout_for(i));
        lemma_total_push(s.log, e, payout_entry_for(i));
        lemma_total_update(s.withdrawals, id, t.withdrawals[id], hold_for(i));
        lemma_total_update(s.withdrawals, id, t.withdrawals[id], settled_for(i));
        lemma_total_update(s.withdrawals, id, t.withdrawals[id], settled_note_for(i));
    }
    assert forall|i: int| 0 <= i < t.log.len() implies #[trigger] t.entry_sound(i) by {
        if i < s.log.len() {
            assert(s.entry_sound(i));
        }
    }
    assert forall|i: int| 0 <= i < t.withdrawals.len() implies #[trigger] t.withdrawal_sound(
        i,
    ) by {
        assert(s.withdrawal_sound(i));
    }
    lemma_fresh_reference(s, e);
}

/// Releasing an open withdrawal keeps the ledger consistent.
proof fn lemma_released_wf(s: LedgerView, id: int, now: u64)
    requires
        s.wf(),
        s.is_open(id),
    ensures
        s.released(id, now).wf(),
{
    let t = s.released(id, now);
    lemma_open_withdrawal_is_reserved(s, id);
    assert(s.withdrawal_sound(id));
    assert forall|i: int| 0 <= i < t.wallets.len() implies #[trigger] t.wallet_sound(i) by {
        assert(s.wallet_sound(i));
        lemma_total_update(s.withdrawals, id, t.withdrawals[id], hold_for(i));
        lemma_total_update(s.withdrawals, id, t.withdrawals[id], settled_for(i));
        lemma_total_update(s.withdrawals, id, t.withdrawals[id], settled_note_for(i));
    }
    assert forall|i: int| 0 <= i < t.log.len() implies #[trigger] t.entry_sound(i) by {
        assert(s.entry_sound(i));
    }
    assert forall|i: int| 0 <= i < t.withdrawals.len() implies #[trigger] t.withdrawal_sound(
        i,
    ) by {
        assert(s.withdrawal_sound(i));
    }
}

/// Reconciling a withdrawal keeps the ledger consistent.
pub proof fn lemma_reconciled_wf(s: LedgerView, id: int, outcome: TransferOutcomeView, now: u64)
    requires
        s.wf(),
    ensures
        s.reconciled(id, outcome, now).wf(),
{
    if s.is_open(id) {
        match outcome {
            TransferOutcomeView::Confirmed(reference) => {
                if s.recorded(s.withdrawals[id].account_id, Direction::Withdrawal, reference) {
                    lemma_marked_ambiguous_wf(s, id);
                } else {
                    lemma_settled_wf(s, id, reference, now);
                }
            },
            TransferOutcomeView::Rejected => {
                lemma_released_wf(s, id, now);
            },
            TransferOutcomeView::Unknown => {
                lemma_marked_ambiguous_wf(s, id);
            },
        }
    }
}

/// Completing a withdrawal keeps the ledger consistent.
pub proof fn lemma_completed_wf(s: LedgerView, id: int, outcome: TransferOutcomeView, now: u64)
    requires
        s.wf(),
    ensures
        s.completed(id, outcome, now).wf(),
{
    if !s.is_ambiguous(id) {
        lemma_reconciled_wf(s, id, outcome, now);
    }
}

} // verus!
