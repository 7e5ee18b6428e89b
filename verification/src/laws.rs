//! What holds of the engine across calls.

use vstd::prelude::*;
use crate::contract::{CallContext, MultisigContract, MultisigError};
use crate::ledger::{committed_total, status_of, Status};
use crate::storage::TransactionStorage;
use crate::types::TransactionView;
use crate::validation::capped_value;

verus! {

/// The counter of identifiers never falls from one state of a history to
/// the next.
pub open spec fn counter_never_falls(history: Seq<MultisigContract>) -> bool {
    forall|i: int|
        0 <= i < history.len() - 1 ==> (#[trigger] history[i]).next_tx_id <= history[i
            + 1].next_tx_id
}

/// The submission at step `at` of a history took the identifier `id`: the
/// counter stood at `id` before it and one higher after it.
pub open spec fn submitted_at(history: Seq<MultisigContract>, at: int, id: u64) -> bool {
    &&& 0 <= at < history.len() - 1
    &&& history[at].next_tx_id == id
    &&& history[at + 1].next_tx_id == id + 1
}

/// In a history in which the counter never falls, it stands at a later
/// state where it stood at an earlier one, or higher.
pub proof fn lemma_counter_grows(history: Seq<MultisigContract>, from: int, to: int)
    requires
        counter_never_falls(history),
        0 <= from <= to < history.len(),
    ensures
        history[from].next_tx_id <= history[to].next_tx_id,
    decreases to - from,
{
    if from < to {
        lemma_counter_grows(history, from, to - 1);
        assert(history[to - 1].next_tx_id <= history[to - 1 + 1].next_tx_id);
    }
}

/// Identifiers are unique and grow: of two submissions in one history the
/// later one takes the higher identifier, and every identifier taken lies
/// below the counter of the last state.
pub proof fn law_identifiers_grow(
    history: Seq<MultisigContract>,
    first: int,
    first_id: u64,
    second: int,
    second_id: u64,
)
    requires
        counter_never_falls(history),
        submitted_at(history, first, first_id),
        submitted_at(history, second, second_id),
        first < second,
    ensures
        first_id < second_id,
        second_id < history.last().next_tx_id,
{
    lemma_counter_grows(history, first + 1, second);
    lemma_counter_grows(history, second + 1, history.len() - 1);
}

/// A confirmation cannot be repeated: once an approver's confirmation of a
/// proposal was accepted, the same approver's next confirmation of it is
/// refused as already made.
pub proof fn law_confirmation_not_repeated(
    before: MultisigContract,
    after: MultisigContract,
    ctx: &CallContext,
    tx_id: u64,
)
    requires
        before.confirm_error(ctx, tx_id) is None,
        after.owner_ids() == before.owner_ids(),
        after.records() == before.records().insert(
            tx_id,
            TransactionView {
                confirmations: before.records()[tx_id].confirmations.push(ctx.predecessor@),
                ..before.records()[tx_id]
            },
        ),
    ensures
        after.confirm_error(ctx, tx_id) == Some(MultisigError::AlreadyConfirmed),
{
    let confirmers = after.records()[tx_id].confirmations;
    assert(confirmers[confirmers.len() - 1] == ctx.predecessor@);
}

/// A proposal marked executed is not executed again, whoever asks.
pub proof fn law_executed_not_executed_again(c: MultisigContract, ctx: &CallContext, tx_id: u64)
    requires
        c.records().contains_key(tx_id),
        c.records()[tx_id].executed,
    ensures
        c.execute_error(ctx, tx_id) is Some,
        c.has_owner(ctx.predecessor@) ==> c.execute_error(ctx, tx_id) == Some(
            MultisigError::AlreadyExecuted,
        ),
{
}

/// A failed execution can be tried again: after an execution was started
/// and reconciled as failed, the record is what it was before but for the
/// mark of the attempt, and an execution is accepted or refused exactly as
/// it would have been then.
pub proof fn law_retry_after_failure(
    before: MultisigContract,
    started: MultisigContract,
    failed: MultisigContract,
    ctx: &CallContext,
    tx_id: u64,
    again: &CallContext,
)
    requires
        before.execute_error(ctx, tx_id) is None,
        started.records() == before.records().insert(
            tx_id,
            TransactionView {
                executed: true,
                execution_attempted: true,
                ..before.records()[tx_id]
            },
        ),
        failed.records() == started.records().insert(
            tx_id,
            TransactionView { executed: false, ..started.records()[tx_id] },
        ),
        failed.owner_ids() == before.owner_ids(),
        failed.num_confirmations == before.num_confirmations,
    ensures
        failed.records() == before.records().insert(
            tx_id,
            TransactionView { execution_attempted: true, ..before.records()[tx_id] },
        ),
        failed.execute_error(again, tx_id) == before.execute_error(again, tx_id),
        before.execute_error(again, tx_id) is None ==> failed.execute_error(again, tx_id) is None,
{
    assert(failed.records() =~= before.records().insert(
        tx_id,
        TransactionView { execution_attempted: true, ..before.records()[tx_id] },
    ));
}

/// The right to cancel ends when an execution is started: neither while
/// the execution is in flight nor after it has failed does anybody's
/// cancellation succeed, the submitter's included.
pub proof fn law_no_cancel_after_attempt(
    before: MultisigContract,
    started: MultisigContract,
    failed: MultisigContract,
    ctx: &CallContext,
    tx_id: u64,
    canceller: &CallContext,
)
    requires
        before.execute_error(ctx, tx_id) is None,
        started.records() == before.records().insert(
            tx_id,
            TransactionView {
                executed: true,
                execution_attempted: true,
                ..before.records()[tx_id]
            },
        ),
        failed.records() == started.records().insert(
            tx_id,
            TransactionView { executed: false, ..started.records()[tx_id] },
        ),
    ensures
        started.cancel_error(canceller, tx_id) is Some,
        failed.cancel_error(canceller, tx_id) is Some,
        failed.has_owner(canceller.predecessor@) ==> failed.cancel_error(canceller, tx_id)
            == Some(MultisigError::ExecutionAttempted),
        status_of(failed.records()[tx_id], false) == Status::FailedRetryable,
{
}

/// The threshold gates execution: of a pending proposal that has not
/// expired, an approver's execution is refused for want of confirmations
/// exactly while fewer approvers have confirmed than the threshold asks.
pub proof fn law_threshold_gates_execution(c: MultisigContract, ctx: &CallContext, tx_id: u64)
    requires
        c.pending_error(ctx, tx_id) is None,
        c.records()[tx_id].expiration is Some ==> ctx.block_timestamp
            < c.records()[tx_id].expiration.unwrap(),
    ensures
        c.execute_error(ctx, tx_id) == Some(MultisigError::NotEnoughConfirmations) <==> (
        c.records()[tx_id].confirmations.len() as u32) < c.num_confirmations,
{
}

/// An expired proposal is not executed, however many have confirmed it.
pub proof fn law_expired_not_executed(c: MultisigContract, ctx: &CallContext, tx_id: u64)
    requires
        c.pending_error(ctx, tx_id) is None,
        c.records()[tx_id].expiration is Some,
        ctx.block_timestamp >= c.records()[tx_id].expiration.unwrap(),
    ensures
        c.execute_error(ctx, tx_id) == Some(MultisigError::Expired),
{
}

/// While an execution is in flight nothing is reclaimed.
pub proof fn law_no_cleanup_in_flight(c: MultisigContract, ctx: &CallContext, before_index: u64)
    requires
        c.pending_callbacks > 0,
    ensures
        c.cleanup_error(ctx, before_index) is Some,
{
}

/// After a cancellation nobody can confirm or execute the proposal.
pub proof fn law_cancelled_is_final(
    before: MultisigContract,
    after: MultisigContract,
    tx_id: u64,
    ctx: &CallContext,
)
    requires
        before.records().contains_key(tx_id),
        after.records() == before.records().insert(
            tx_id,
            TransactionView { cancelled: true, ..before.records()[tx_id] },
        ),
    ensures
        after.confirm_error(ctx, tx_id) is Some,
        after.execute_error(ctx, tx_id) is Some,
        after.revoke_error(ctx, tx_id) is Some,
        after.cancel_error(ctx, tx_id) is Some,
{
}

/// The sum of the values of the pending records of `order`.
pub open spec fn pending_total(order: Seq<u64>, records: Map<u64, TransactionView>) -> nat
    decreases order.len(),
{
    if order.len() == 0 {
        0
    } else {
        pending_total(order.drop_last(), records) + if records.contains_key(order.last())
            && records[order.last()].is_pending() {
            capped_value(records[order.last()].actions) as nat
        } else {
            0
        }
    }
}

/// With no execution in flight, what the records commit is the sum of the
/// values of the pending ones.
pub proof fn lemma_committed_is_pending(order: Seq<u64>, records: Map<u64, TransactionView>)
    ensures
        committed_total(order, records, Set::empty()) == pending_total(order, records),
    decreases order.len(),
{
    if order.len() > 0 {
        lemma_committed_is_pending(order.drop_last(), records);
    }
}

/// The ledger holds the pending value: in a state whose ledger agrees with
/// its store and in which no execution is in flight, the reserved balance
/// is the sum of the values of the records that are neither executed nor
/// cancelled.
pub proof fn law_reserved_is_pending_value(c: MultisigContract)
    requires
        c.reservation_holds(Set::empty()),
    ensures
        c.pending_callbacks == 0,
        c.reserved_balance == pending_total(c.storage.order(), c.records()),
{
    lemma_committed_is_pending(c.storage.order(), c.records());
}

/// The life of a proposal: execution takes a pending proposal, or one
/// whose execution failed, to executing; success takes it on to executed;
/// failure takes it to failed and retryable, never back to pending; and
/// cancellation takes a pending proposal to cancelled.
pub proof fn law_life_of_a_proposal(record: TransactionView)
    requires
        status_of(record, false) == Status::Pending,
    ensures
        status_of(
            TransactionView { executed: true, execution_attempted: true, ..record },
            true,
        ) == Status::Executing,
        status_of(
            TransactionView { executed: true, execution_attempted: true, ..record },
            false,
        ) == Status::Executed,
        status_of(
            TransactionView { executed: false, execution_attempted: true, ..record },
            false,
        ) == Status::FailedRetryable,
        status_of(TransactionView { cancelled: true, ..record }, false) == Status::Cancelled,
{
}

} // verus!
