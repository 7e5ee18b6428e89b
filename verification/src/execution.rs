//! Execution of approved proposals and the reconciliation of its outcome.

use vstd::prelude::*;
use crate::contract::{CallContext, MultisigContract, MultisigError};
use crate::approval::minus_or_zero;
use crate::ledger::{committed, lemma_total_change, lemma_total_covers, lemma_total_same};
use crate::storage::TransactionStorage;
use crate::types::{copy_actions, Action, EventView, MultisigEvent, TransactionView};
use crate::validation::{calculate_transaction_deposit, capped_value, MIN_CONTRACT_BALANCE};

verus! {

/// The chain of outside calls that executes a proposal: one call for each
/// step, in order, all to `receiver_id`, each bound to the success of the
/// one before it, and last the continuation that reports the outcome of the
/// chain for `tx_id` back to the engine.
#[derive(Debug)]
pub struct ExecutionPlan {
    /// The proposal that the chain executes.
    pub tx_id: u64,
    /// The target of every call of the chain.
    pub receiver_id: String,
    /// The calls, in order.
    pub steps: Vec<Action>,
    /// The compute budget of the continuation.
    pub callback_gas: u64,
}

/// What a reconciliation returns.
#[derive(Debug)]
pub enum CallbackOutcome {
    /// No record has the identifier: nothing was changed.
    UnknownTransaction,
    /// The chain succeeded: the anti-spam deposit is to be sent back.
    Succeeded { refund_to: String, refund_amount: u128, events: Vec<MultisigEvent> },
    /// The chain failed: the proposal can be executed again.
    Failed { events: Vec<MultisigEvent> },
}

/// What the continuation of a refund reports.
#[derive(Debug)]
pub struct RefundReport {
    /// The proposal whose deposit was sent back.
    pub tx_id: u64,
    /// Who was to receive it.
    pub recipient: String,
    /// Whether the transfer succeeded.
    pub refunded: bool,
}

/// `a` and one more, held at the largest `u32`.
pub open spec fn one_more(a: u32) -> u32 {
    if a < u32::MAX {
        (a + 1) as u32
    } else {
        a
    }
}

/// `a` less one, held at zero.
pub open spec fn one_less(a: u32) -> u32 {
    if a > 0 {
        (a - 1) as u32
    } else {
        0
    }
}

impl MultisigContract {
    /// The first reason for which an execution is refused, if it is.
    pub open spec fn execute_error(&self, ctx: &CallContext, tx_id: u64) -> Option<MultisigError> {
        if let Some(e) = self.pending_error(ctx, tx_id) {
            Some(e)
        } else if self.records()[tx_id].expiration is Some && ctx.block_timestamp
            >= self.records()[tx_id].expiration.unwrap() {
            Some(MultisigError::Expired)
        } else if (self.records()[tx_id].confirmations.len() as u32) < self.num_confirmations {
            Some(MultisigError::NotEnoughConfirmations)
        } else if minus_or_zero(ctx.account_balance, capped_value(self.records()[tx_id].actions))
            < MIN_CONTRACT_BALANCE {
            Some(MultisigError::BelowMinimumBalance)
        } else {
            None
        }
    }

    /// Starts the execution of a proposal that has enough confirmations and
    /// has not expired: the record is marked executed and attempted, one
    /// more execution is in flight, and the chain of calls to make is
    /// returned. The value stays
    /// in the ledger until the outcome is reconciled. A refused execution
    /// changes nothing.
    pub fn execute_transaction(&mut self, ctx: &CallContext, tx_id: u64) -> (r: Result<
        ExecutionPlan,
        MultisigError,
    >)
        requires
            old(self).wf(),
        ensures
            match r {
                Err(e) => old(self).execute_error(ctx, tx_id) == Some(e) && *final(self) == *old(
                    self,
                ),
                Ok(plan) => {
                    &&& old(self).execute_error(ctx, tx_id) is None
                    &&& plan.tx_id == tx_id
                    &&& plan.receiver_id@ == old(self).records()[tx_id].receiver_id
                    &&& plan.steps.deep_view() == old(self).records()[tx_id].actions
                    &&& plan.callback_gas == old(self).callback_gas
                    &&& final(self).records() == old(self).records().insert(
                        tx_id,
                        TransactionView {
                            executed: true,
                            execution_attempted: true,
                            ..old(self).records()[tx_id]
                        },
                    )
                    &&& final(self).pending_callbacks == one_more(old(self).pending_callbacks)
                    &&& final(self).reserved_balance == old(self).reserved_balance
                    &&& final(self).storage.order() == old(self).storage.order()
                    &&& final(self).storage.positions() == old(self).storage.positions()
                    &&& final(self).next_tx_id == old(self).next_tx_id
                    &&& final(self).same_settings(old(self))
                },
            },
            final(self).wf(),
            forall|f: Set<u64>| #[trigger]
                old(self).reservation_holds(f) ==> final(self).reservation_holds(
                    if r is Ok {
                        f.insert(tx_id)
                    } else {
                        f
                    },
                ),
    {
        let ghost pre = *self;
        match self.check_pending(ctx, tx_id) {
            Err(e) => {
                return Err(e);
            },
            Ok(_) => {},
        }
        let tx = self.storage.get_transaction_or_panic(tx_id);
        match tx.expiration {
            Some(at) => {
                if ctx.block_timestamp >= at {
                    return Err(MultisigError::Expired);
                }
            },
            None => {},
        }
        if (tx.confirmations.len() as u32) < self.num_confirmations {
            return Err(MultisigError::NotEnoughConfirmations);
        }
        let value = calculate_transaction_deposit(tx);
        let balance_after = ctx.account_balance.saturating_sub(value);
        if balance_after < MIN_CONTRACT_BALANCE {
            return Err(MultisigError::BelowMinimumBalance);
        }
        let mut tx = self.take_record(tx_id);
        tx.executed = true;
        tx.execution_attempted = true;
        self.put_record(tx_id, tx);
        self.pending_callbacks = self.pending_callbacks.saturating_add(1);
        proof {
            assert(self.records() =~= pre.records().insert(tx_id, tx@));
            assert(self.records().dom() =~= pre.records().dom());
            let order = pre.storage.order();
            assert forall|f: Set<u64>| #[trigger] pre.reservation_holds(f) implies self.reservation_holds(
                f.insert(tx_id),
            ) by {
                let g = f.insert(tx_id);
                assert(!f.contains(tx_id));
                assert(g.subset_of(order.to_set())) by {
                    assert forall|id: u64| g.contains(id) implies order.to_set().contains(id) by {
                        assert(pre.records().contains_key(id));
                    }
                }
                vstd::seq_lib::seq_to_set_is_finite(order);
                vstd::set_lib::lemma_len_subset(g, order.to_set());
                order.lemma_cardinality_of_set();
                assert forall|i: int| 0 <= i < order.len() implies committed(
                    pre.records(),
                    f,
                    #[trigger] order[i],
                ) == committed(self.records(), g, order[i]) by {}
                lemma_total_same(order, pre.records(), f, self.records(), g);
            }
        }
        let plan = self.execute_transaction_internal(tx_id);
        Ok(plan)
    }

    /// The chain of calls that executes the stored proposal `tx_id`.
    pub fn execute_transaction_internal(&self, tx_id: u64) -> (plan: ExecutionPlan)
        requires
            self.records().contains_key(tx_id),
        ensures
            plan.tx_id == tx_id,
            plan.receiver_id@ == self.records()[tx_id].receiver_id,
            plan.steps.deep_view() == self.records()[tx_id].actions,
            plan.callback_gas == self.callback_gas,
    {
        let tx = self.storage.get_transaction_or_panic(tx_id);
        ExecutionPlan {
            tx_id,
            receiver_id: tx.receiver_id.clone(),
            steps: copy_actions(&tx.actions),
            callback_gas: self.callback_gas,
        }
    }

    /// Reconciles the outcome of the chain that executed `tx_id`.
    ///
    /// Without a record nothing changes. With one, one execution fewer is
    /// in flight. After success the value leaves the ledger and the
    /// anti-spam deposit is to be sent back to who paid it. After failure
    /// the record is no longer marked executed, so that it can be executed
    /// again; it stays marked attempted, and its value stays in the ledger.
    pub fn on_execute_callback(&mut self, tx_id: u64, success: bool) -> (r: CallbackOutcome)
        requires
            old(self).wf(),
        ensures
            match r {
                CallbackOutcome::UnknownTransaction => {
                    &&& !old(self).records().contains_key(tx_id)
                    &&& *final(self) == *old(self)
                },
                CallbackOutcome::Succeeded { refund_to, refund_amount, events } => {
                    &&& success
                    &&& old(self).records().contains_key(tx_id)
                    &&& refund_to@ == old(self).records()[tx_id].storage_depositor
                    &&& refund_amount == old(self).storage_deposit
                    &&& events.deep_view() == seq![
                        EventView::TransactionExecuted { tx_id, success: true },
                    ]
                    &&& final(self).records() == old(self).records()
                    &&& final(self).reserved_balance == minus_or_zero(
                        old(self).reserved_balance,
                        capped_value(old(self).records()[tx_id].actions),
                    )
                },
                CallbackOutcome::Failed { events } => {
                    &&& !success
                    &&& old(self).records().contains_key(tx_id)
                    &&& events.deep_view() == seq![
                        EventView::TransactionExecuted { tx_id, success: false },
                    ]
                    &&& final(self).records() == old(self).records().insert(
                        tx_id,
                        TransactionView { executed: false, ..old(self).records()[tx_id] },
                    )
                    &&& final(self).reserved_balance == old(self).reserved_balance
                },
            },
            old(self).records().contains_key(tx_id) ==> final(self).pending_callbacks == one_less(
                old(self).pending_callbacks,
            ),
            final(self).storage.order() == old(self).storage.order(),
            final(self).storage.positions() == old(self).storage.positions(),
            final(self).next_tx_id == old(self).next_tx_id,
            final(self).same_settings(old(self)),
            final(self).wf(),
            forall|f: Set<u64>| #[trigger]
                old(self).reservation_holds(f) && f.contains(tx_id) ==> final(self).reservation_holds(
                    f.remove(tx_id),
                ),
    {
        let ghost pre = *self;
        let ghost order = pre.storage.order();
        if self.storage.get_transaction(tx_id).is_none() {
            return CallbackOutcome::UnknownTransaction;
        }
        proof {
            assert(order.contains(tx_id)) by {
                assert(order.to_set().contains(tx_id));
            }
        }
        self.pending_callbacks = self.pending_callbacks.saturating_sub(1);
        let mut events: Vec<MultisigEvent> = Vec::new();
        events.push(MultisigEvent::TransactionExecuted { tx_id, success });
        assert(events.deep_view() =~= seq![EventView::TransactionExecuted { tx_id, success }]);
        if success {
            let tx = self.storage.get_transaction_or_panic(tx_id);
            let value = calculate_transaction_deposit(tx);
            let refund_to = tx.storage_depositor.clone();
            self.reserved_balance = self.reserved_balance.saturating_sub(value);
            proof {
                assert forall|f: Set<u64>| #[trigger]
                    pre.reservation_holds(f) && f.contains(tx_id) implies self.reservation_holds(
                    f.remove(tx_id),
                ) by {
                    let g = f.remove(tx_id);
                    lemma_total_covers(order, pre.records(), f, tx_id);
                    lemma_total_change(order, pre.records(), f, self.records(), g, tx_id);
                }
            }
            CallbackOutcome::Succeeded { refund_to, refund_amount: self.storage_deposit, events }
        } else {
            let mut tx = self.take_record(tx_id);
            tx.executed = false;
            self.put_record(tx_id, tx);
            proof {
                assert(self.records() =~= pre.records().insert(tx_id, tx@));
                assert(self.records().dom() =~= pre.records().dom());
                assert forall|f: Set<u64>| #[trigger]
                    pre.reservation_holds(f) && f.contains(tx_id) implies self.reservation_holds(
                    f.remove(tx_id),
                ) by {
                    let g = f.remove(tx_id);
                    assert forall|i: int| 0 <= i < order.len() implies committed(
                        pre.records(),
                        f,
                        #[trigger] order[i],
                    ) == committed(self.records(), g, order[i]) by {}
                    lemma_total_same(order, pre.records(), f, self.records(), g);
                }
            }
            CallbackOutcome::Failed { events }
        }
    }

    /// Takes note of the outcome of a refund. The engine's state does not
    /// depend on it.
    pub fn on_refund_callback(&self, tx_id: u64, recipient: String, success: bool) -> (r:
        RefundReport)
        ensures
            r.tx_id == tx_id,
            r.recipient@ == recipient@,
            r.refunded == success,
    {
        RefundReport { tx_id, recipient, refunded: success }
    }
}

} // verus!
