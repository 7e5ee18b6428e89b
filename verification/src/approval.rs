//! Submission, confirmation, revocation and cancellation of proposals.

use vstd::prelude::*;
use crate::contract::{contains_id, position_of, CallContext, MultisigContract, MultisigError};
use crate::ledger::{
    committed, lemma_total_change, lemma_total_covers, lemma_total_push, lemma_total_same,
};
use crate::storage::TransactionStorage;
use crate::types::{Action, ActionView, EventView, MultisigEvent, Transaction, TransactionView};
use crate::validation::{
    calculate_transaction_deposit, capped_value, validate_actions, validation_outcome,
    MAX_TRANSACTIONS,
};

verus! {

/// The length of one hour on the host's clock.
pub const NANOS_PER_HOUR: u64 = 3_600_000_000_000;

/// The balance that a new proposal may commit: what neither the ledger nor
/// the anti-spam deposit holds.
pub open spec fn available_balance(balance: u128, reserved: u128, deposit: u128) -> nat {
    if balance - reserved - deposit >= 0 {
        (balance - reserved - deposit) as nat
    } else {
        0
    }
}

/// Whether a relative expiration of `hours` leaves the clock's range.
pub open spec fn expiration_overflows(hours: Option<u64>, now: u64) -> bool {
    hours is Some && hours.unwrap() * NANOS_PER_HOUR + now > u64::MAX
}

/// The absolute expiration for a relative one of `hours`.
pub open spec fn expiration_at(hours: Option<u64>, now: u64) -> Option<u64> {
    match hours {
        Some(h) => Some((h * NANOS_PER_HOUR + now) as u64),
        None => None,
    }
}

/// The record that a submission stores.
pub open spec fn submitted_record(
    id: u64,
    ctx: &CallContext,
    receiver: Seq<char>,
    actions: Seq<ActionView>,
    hours: Option<u64>,
) -> TransactionView {
    TransactionView {
        id,
        receiver_id: receiver,
        actions,
        confirmations: seq![ctx.predecessor@],
        executed: false,
        cancelled: false,
        storage_depositor: ctx.predecessor@,
        expiration: expiration_at(hours, ctx.block_timestamp),
        execution_attempted: false,
    }
}

/// What a submission returns.
#[derive(Debug)]
pub struct SubmitOutcome {
    /// The identifier of the new proposal.
    pub tx_id: u64,
    /// What was attached beyond the anti-spam deposit, to be sent back to
    /// the caller.
    pub excess_refund: u128,
    /// What the engine reports.
    pub events: Vec<MultisigEvent>,
}

impl MultisigContract {
    /// Whether `who` is an approver.
    pub open spec fn has_owner(&self, who: Seq<char>) -> bool {
        self.owner_ids().contains(who)
    }

    /// Registry and settings of `self` and `other` are the same.
    pub open spec fn same_settings(&self, other: &Self) -> bool {
        &&& self.state_version == other.state_version
        &&& self.owner_ids() == other.owner_ids()
        &&& self.num_confirmations == other.num_confirmations
        &&& self.callback_gas == other.callback_gas
        &&& self.storage_deposit == other.storage_deposit
    }

    /// The first reason for which a submission is refused, if it is.
    pub open spec fn submit_error(
        &self,
        ctx: &CallContext,
        receiver: Seq<char>,
        actions: Seq<ActionView>,
        hours: Option<u64>,
    ) -> Option<MultisigError> {
        if !self.has_owner(ctx.predecessor@) {
            Some(MultisigError::NotOwner)
        } else if ctx.attached_deposit < self.storage_deposit {
            Some(MultisigError::InsufficientDeposit)
        } else if receiver == ctx.current_account@ {
            Some(MultisigError::SendToSelf)
        } else if let Err(e) = validation_outcome(actions) {
            Some(MultisigError::Validation(e))
        } else if capped_value(actions) > available_balance(
            ctx.account_balance,
            self.reserved_balance,
            self.storage_deposit,
        ) {
            Some(MultisigError::InsufficientBalance)
        } else if self.storage.order().len() >= MAX_TRANSACTIONS {
            Some(MultisigError::TransactionLimitReached)
        } else if self.next_tx_id == u64::MAX {
            Some(MultisigError::IdCounterExhausted)
        } else if expiration_overflows(hours, ctx.block_timestamp) {
            Some(MultisigError::ExpirationOverflow)
        } else {
            None
        }
    }

    /// What a submission reports: that the proposal was submitted and, with
    /// a threshold of one, that it is ready.
    pub open spec fn submit_events(&self, ctx: &CallContext, receiver: Seq<char>) -> Seq<
        EventView,
    > {
        let submitted = EventView::TransactionSubmitted {
            tx_id: self.next_tx_id,
            submitter: ctx.predecessor@,
            receiver_id: receiver,
        };
        if self.num_confirmations == 1 {
            seq![submitted, EventView::TransactionReady { tx_id: self.next_tx_id, confirmations: 1 }]
        } else {
            seq![submitted]
        }
    }

    /// Submits a proposal. The caller confirms it by submitting, its value
    /// is reserved in the ledger, and it gets the next identifier. A refused
    /// submission changes nothing.
    pub fn submit_transaction(
        &mut self,
        ctx: &CallContext,
        receiver_id: String,
        actions: Vec<Action>,
        expiration_hours: Option<u64>,
    ) -> (r: Result<SubmitOutcome, MultisigError>)
        requires
            old(self).wf(),
        ensures
            match r {
                Err(e) => {
                    &&& old(self).submit_error(
                        ctx,
                        receiver_id@,
                        actions.deep_view(),
                        expiration_hours,
                    ) == Some(e)
                    &&& *final(self) == *old(self)
                },
                Ok(out) => {
                    &&& old(self).submit_error(
                        ctx,
                        receiver_id@,
                        actions.deep_view(),
                        expiration_hours,
                    ) is None
                    &&& out.tx_id == old(self).next_tx_id
                    &&& out.excess_refund == ctx.attached_deposit - old(self).storage_deposit
                    &&& out.events.deep_view() == old(self).submit_events(ctx, receiver_id@)
                    &&& final(self).next_tx_id == old(self).next_tx_id + 1
                    &&& final(self).reserved_balance == old(self).reserved_balance + capped_value(
                        actions.deep_view(),
                    )
                    &&& final(self).storage.order() == old(self).storage.order().push(out.tx_id)
                    &&& final(self).storage.positions() == old(self).storage.positions().insert(
                        out.tx_id,
                        old(self).storage.order().len() as u32,
                    )
                    &&& final(self).records() == old(self).records().insert(
                        out.tx_id,
                        submitted_record(
                            out.tx_id,
                            ctx,
                            receiver_id@,
                            actions.deep_view(),
                            expiration_hours,
                        ),
                    )
                    &&& final(self).pending_callbacks == old(self).pending_callbacks
                    &&& final(self).same_settings(old(self))
                },
            },
            final(self).wf(),
            forall|f: Set<u64>| #[trigger]
                old(self).reservation_holds(f) ==> final(self).reservation_holds(f),
    {
        let ghost pre = *self;
        if !contains_id(&self.owners, &ctx.predecessor) {
            return Err(MultisigError::NotOwner);
        }
        if ctx.attached_deposit < self.storage_deposit {
            return Err(MultisigError::InsufficientDeposit);
        }
        let excess = ctx.attached_deposit - self.storage_deposit;
        if receiver_id == ctx.current_account {
            return Err(MultisigError::SendToSelf);
        }
        let total = match validate_actions(&actions) {
            Ok(v) => v,
            Err(e) => {
                return Err(MultisigError::Validation(e));
            },
        };
        let available = ctx.account_balance.saturating_sub(self.reserved_balance).saturating_sub(
            self.storage_deposit,
        );
        if total > available {
            return Err(MultisigError::InsufficientBalance);
        }
        if self.storage.tx_ids.len() >= MAX_TRANSACTIONS as usize {
            return Err(MultisigError::TransactionLimitReached);
        }
        if self.next_tx_id == u64::MAX {
            return Err(MultisigError::IdCounterExhausted);
        }
        let expiration = match expiration_hours {
            None => None,
            Some(hours) => {
                let reached = match hours.checked_mul(NANOS_PER_HOUR) {
                    Some(duration) => ctx.block_timestamp.checked_add(duration),
                    None => None,
                };
                if reached.is_none() {
                    return Err(MultisigError::ExpirationOverflow);
                }
                reached
            },
        };
        let tx_id = self.next_tx_id;
        let mut confirmations: Vec<String> = Vec::new();
        confirmations.push(ctx.predecessor.clone());
        assert(confirmations.deep_view() =~= seq![ctx.predecessor@]);
        let mut events: Vec<MultisigEvent> = Vec::new();
        events.push(
            MultisigEvent::TransactionSubmitted {
                tx_id,
                submitter: ctx.predecessor.clone(),
                receiver_id: receiver_id.clone(),
            },
        );
        if self.num_confirmations == 1 {
            events.push(MultisigEvent::TransactionReady { tx_id, confirmations: 1 });
        }
        assert(events.deep_view() =~= pre.submit_events(ctx, receiver_id@));
        let tx = Transaction {
            id: tx_id,
            receiver_id,
            actions,
            confirmations,
            executed: false,
            cancelled: false,
            storage_depositor: ctx.predecessor.clone(),
            expiration,
            execution_attempted: false,
        };
        proof {
            assert(!pre.records().contains_key(tx_id));
            assert(!pre.storage.positions().contains_key(tx_id)) by {
                assert(pre.storage.positions().dom() =~= pre.records().dom());
            }
            assert(seq![ctx.predecessor@].no_duplicates());
        }
        self.reserved_balance = self.reserved_balance.saturating_add(total);
        self.next_tx_id = self.next_tx_id + 1;
        self.storage.upsert_transaction(tx);
        proof {
            let order = pre.storage.order();
            assert(!order.contains(tx_id)) by {
                if order.contains(tx_id) {
                    assert(order.to_set().contains(tx_id));
                }
            }
            assert forall|f: Set<u64>| #[trigger] pre.reservation_holds(f) implies self.reservation_holds(
                f,
            ) by {
                lemma_total_push(order, self.records(), f, tx_id);
                assert forall|i: int| 0 <= i < order.len() implies committed(
                    pre.records(),
                    f,
                    #[trigger] order[i],
                ) == committed(self.records(), f, order[i]) by {
                    assert(order.contains(order[i]));
                }
                lemma_total_same(order, pre.records(), f, self.records(), f);
            }
        }
        Ok(SubmitOutcome { tx_id, excess_refund: excess, events })
    }
}

/// What a cancellation returns.
#[derive(Debug)]
pub struct CancelOutcome {
    /// Who receives the anti-spam deposit back.
    pub refund_to: String,
    /// The deposit to send back.
    pub refund_amount: u128,
    /// What the engine reports.
    pub events: Vec<MultisigEvent>,
}

/// `a` less `b`, held at zero.
pub open spec fn minus_or_zero(a: u128, b: u128) -> u128 {
    if a >= b {
        (a - b) as u128
    } else {
        0
    }
}

impl MultisigContract {
    /// Why the caller may not act on the record of `tx_id`, if it may not:
    /// it is no approver, there is no such record, or the record is no
    /// longer pending.
    pub open spec fn pending_error(&self, ctx: &CallContext, tx_id: u64) -> Option<MultisigError> {
        if !self.has_owner(ctx.predecessor@) {
            Some(MultisigError::NotOwner)
        } else if !self.records().contains_key(tx_id) {
            Some(MultisigError::TransactionNotFound)
        } else if self.records()[tx_id].executed {
            Some(MultisigError::AlreadyExecuted)
        } else if self.records()[tx_id].cancelled {
            Some(MultisigError::TransactionCancelled)
        } else {
            None
        }
    }

    /// Checks that the caller may act on the record of `tx_id`.
    pub fn check_pending(&self, ctx: &CallContext, tx_id: u64) -> (r: Result<(), MultisigError>)
        ensures
            match r {
                Ok(_) => self.pending_error(ctx, tx_id) is None,
                Err(e) => self.pending_error(ctx, tx_id) == Some(e),
            },
    {
        match self.require_owner(&ctx.predecessor) {
            Err(e) => {
                return Err(e);
            },
            Ok(_) => {},
        }
        match self.get_tx(tx_id) {
            None => Err(MultisigError::TransactionNotFound),
            Some(tx) => Self::require_tx_pending(tx),
        }
    }

    /// Takes the record of `tx_id` out of the store, to be put back changed.
    pub(crate) fn take_record(&mut self, tx_id: u64) -> (tx: Transaction)
        requires
            old(self).records().contains_key(tx_id),
        ensures
            tx@ == old(self).records()[tx_id],
            final(self).storage.tx_by_id@ == old(self).storage.tx_by_id@.remove(tx_id),
            final(self).storage.tx_ids == old(self).storage.tx_ids,
            final(self).storage.tx_index == old(self).storage.tx_index,
            final(self).state_version == old(self).state_version,
            final(self).owners == old(self).owners,
            final(self).num_confirmations == old(self).num_confirmations,
            final(self).pending_callbacks == old(self).pending_callbacks,
            final(self).callback_gas == old(self).callback_gas,
            final(self).storage_deposit == old(self).storage_deposit,
            final(self).next_tx_id == old(self).next_tx_id,
            final(self).reserved_balance == old(self).reserved_balance,
    {
        broadcast use vstd::std_specs::hash::group_hash_axioms;

        match self.storage.tx_by_id.remove(&tx_id) {
            Some(tx) => tx,
            None => {
                proof {
                    assert(false);
                }
                vstd::pervasive::unreached()
            },
        }
    }

    /// Puts a changed record back under `tx_id`.
    pub(crate) fn put_record(&mut self, tx_id: u64, tx: Transaction)
        ensures
            final(self).storage.tx_by_id@ == old(self).storage.tx_by_id@.insert(tx_id, tx),
            final(self).storage.tx_ids == old(self).storage.tx_ids,
            final(self).storage.tx_index == old(self).storage.tx_index,
            final(self).state_version == old(self).state_version,
            final(self).owners == old(self).owners,
            final(self).num_confirmations == old(self).num_confirmations,
            final(self).pending_callbacks == old(self).pending_callbacks,
            final(self).callback_gas == old(self).callback_gas,
            final(self).storage_deposit == old(self).storage_deposit,
            final(self).next_tx_id == old(self).next_tx_id,
            final(self).reserved_balance == old(self).reserved_balance,
    {
        broadcast use vstd::std_specs::hash::group_hash_axioms;

        self.storage.tx_by_id.insert(tx_id, tx);
    }

    /// The first reason for which a confirmation is refused, if it is.
    pub open spec fn confirm_error(&self, ctx: &CallContext, tx_id: u64) -> Option<MultisigError> {
        if let Some(e) = self.pending_error(ctx, tx_id) {
            Some(e)
        } else if self.records()[tx_id].confirmations.contains(ctx.predecessor@) {
            Some(MultisigError::AlreadyConfirmed)
        } else {
            None
        }
    }

    /// What a confirmation reports: the confirmation with the new count
    /// and, where the count has reached the threshold, that the proposal is
    /// ready.
    pub open spec fn confirm_events(&self, ctx: &CallContext, tx_id: u64) -> Seq<EventView> {
        let count = (self.records()[tx_id].confirmations.len() + 1) as u32;
        let confirmed = EventView::TransactionConfirmed {
            tx_id,
            confirmer: ctx.predecessor@,
            confirmations: count,
        };
        if count >= self.num_confirmations {
            seq![confirmed, EventView::TransactionReady { tx_id, confirmations: count }]
        } else {
            seq![confirmed]
        }
    }

    /// Adds the caller to the confirmers of a pending proposal. Nothing is
    /// executed, whatever the count. A refused confirmation changes nothing.
    pub fn confirm_transaction(&mut self, ctx: &CallContext, tx_id: u64) -> (r: Result<
        Vec<MultisigEvent>,
        MultisigError,
    >)
        requires
            old(self).wf(),
        ensures
            match r {
                Err(e) => old(self).confirm_error(ctx, tx_id) == Some(e) && *final(self) == *old(
                    self,
                ),
                Ok(events) => {
                    &&& old(self).confirm_error(ctx, tx_id) is None
                    &&& events.deep_view() == old(self).confirm_events(ctx, tx_id)
                    &&& final(self).records() == old(self).records().insert(
                        tx_id,
                        TransactionView {
                            confirmations: old(self).records()[tx_id].confirmations.push(
                                ctx.predecessor@,
                            ),
                            ..old(self).records()[tx_id]
                        },
                    )
                    &&& final(self).storage.order() == old(self).storage.order()
                    &&& final(self).storage.positions() == old(self).storage.positions()
                    &&& final(self).next_tx_id == old(self).next_tx_id
                    &&& final(self).reserved_balance == old(self).reserved_balance
                    &&& final(self).pending_callbacks == old(self).pending_callbacks
                    &&& final(self).same_settings(old(self))
                },
            },
            final(self).wf(),
            forall|f: Set<u64>| #[trigger]
                old(self).reservation_holds(f) ==> final(self).reservation_holds(f),
    {
        let ghost pre = *self;
        match self.check_pending(ctx, tx_id) {
            Err(e) => {
                return Err(e);
            },
            Ok(_) => {},
        }
        let already = contains_id(&self.storage.get_transaction_or_panic(tx_id).confirmations, &ctx.predecessor);
        if already {
            return Err(MultisigError::AlreadyConfirmed);
        }
        let mut tx = self.take_record(tx_id);
        let ghost before = tx@;
        tx.confirmations.push(ctx.predecessor.clone());
        let count = tx.confirmations.len() as u32;
        proof {
            assert(tx.confirmations.deep_view() =~= before.confirmations.push(ctx.predecessor@));
            assert(tx@ == TransactionView {
                confirmations: before.confirmations.push(ctx.predecessor@),
                ..before
            });
            assert(tx@.confirmations.no_duplicates());
        }
        let mut events: Vec<MultisigEvent> = Vec::new();
        events.push(
            MultisigEvent::TransactionConfirmed {
                tx_id,
                confirmer: ctx.predecessor.clone(),
                confirmations: count,
            },
        );
        if count >= self.num_confirmations {
            events.push(MultisigEvent::TransactionReady { tx_id, confirmations: count });
        }
        assert(events.deep_view() =~= pre.confirm_events(ctx, tx_id));
        self.put_record(tx_id, tx);
        proof {
            assert(self.records() =~= pre.records().insert(tx_id, tx@));
            assert(self.records().dom() =~= pre.records().dom());
            self.lemma_same_commitments(&pre, tx_id);
        }
        Ok(events)
    }

    /// Where only the record of `tx_id` differs, and it commits what it did
    /// and is executed and cancelled as it was, the ledger agrees with the
    /// store as before.
    pub proof fn lemma_same_commitments(&self, pre: &Self, tx_id: u64)
        requires
            self.storage.order() == pre.storage.order(),
            self.reserved_balance == pre.reserved_balance,
            self.pending_callbacks == pre.pending_callbacks,
            self.records().dom() == pre.records().dom(),
            pre.records().contains_key(tx_id),
            forall|id: u64|
                id != tx_id && pre.records().contains_key(id) ==> #[trigger] self.records()[id]
                    == pre.records()[id],
            self.records()[tx_id].executed == pre.records()[tx_id].executed,
            self.records()[tx_id].cancelled == pre.records()[tx_id].cancelled,
            self.records()[tx_id].actions == pre.records()[tx_id].actions,
            self.records()[tx_id].execution_attempted == pre.records()[tx_id].execution_attempted,
        ensures
            forall|f: Set<u64>| #[trigger]
                pre.reservation_holds(f) ==> self.reservation_holds(f),
    {
        let order = pre.storage.order();
        assert forall|f: Set<u64>| #[trigger] pre.reservation_holds(f) implies self.reservation_holds(
            f,
        ) by {
            assert forall|i: int| 0 <= i < order.len() implies committed(
                pre.records(),
                f,
                #[trigger] order[i],
            ) == committed(self.records(), f, order[i]) by {}
            lemma_total_same(order, pre.records(), f, self.records(), f);
        }
    }
}

impl MultisigContract {
    /// The first reason for which a revocation is refused, if it is.
    pub open spec fn revoke_error(&self, ctx: &CallContext, tx_id: u64) -> Option<MultisigError> {
        if let Some(e) = self.pending_error(ctx, tx_id) {
            Some(e)
        } else if !self.records()[tx_id].confirmations.contains(ctx.predecessor@) {
            Some(MultisigError::NotConfirmed)
        } else {
            None
        }
    }

    /// Takes the caller out of the confirmers of a pending proposal. The
    /// ledger stays as it is. A refused revocation changes nothing.
    pub fn revoke_confirmation(&mut self, ctx: &CallContext, tx_id: u64) -> (r: Result<
        Vec<MultisigEvent>,
        MultisigError,
    >)
        requires
            old(self).wf(),
        ensures
            match r {
                Err(e) => old(self).revoke_error(ctx, tx_id) == Some(e) && *final(self) == *old(
                    self,
                ),
                Ok(events) => {
                    &&& old(self).revoke_error(ctx, tx_id) is None
                    &&& events.deep_view() == seq![
                        EventView::ConfirmationRevoked {
                            tx_id,
                            revoker: ctx.predecessor@,
                            confirmations: (old(self).records()[tx_id].confirmations.len()
                                - 1) as u32,
                        },
                    ]
                    &&& final(self).records() == old(self).records().insert(
                        tx_id,
                        TransactionView {
                            confirmations: old(self).records()[tx_id].confirmations.remove(
                                old(self).records()[tx_id].confirmations.index_of(
                                    ctx.predecessor@,
                                ),
                            ),
                            ..old(self).records()[tx_id]
                        },
                    )
                    &&& !final(self).records()[tx_id].confirmations.contains(ctx.predecessor@)
                    &&& final(self).storage.order() == old(self).storage.order()
                    &&& final(self).storage.positions() == old(self).storage.positions()
                    &&& final(self).next_tx_id == old(self).next_tx_id
                    &&& final(self).reserved_balance == old(self).reserved_balance
                    &&& final(self).pending_callbacks == old(self).pending_callbacks
                    &&& final(self).same_settings(old(self))
                },
            },
            final(self).wf(),
            forall|f: Set<u64>| #[trigger]
                old(self).reservation_holds(f) ==> final(self).reservation_holds(f),
    {
        let ghost pre = *self;
        match self.check_pending(ctx, tx_id) {
            Err(e) => {
                return Err(e);
            },
            Ok(_) => {},
        }
        let found = position_of(
            &self.storage.get_transaction_or_panic(tx_id).confirmations,
            &ctx.predecessor,
        );
        let pos = match found {
            None => {
                return Err(MultisigError::NotConfirmed);
            },
            Some(pos) => pos,
        };
        let mut tx = self.take_record(tx_id);
        let ghost before = tx@;
        proof {
            let at = before.confirmations.index_of(ctx.predecessor@);
            assert(before.confirmations.no_duplicates());
            assert(before.confirmations[pos as int] == ctx.predecessor@);
            assert(0 <= at < before.confirmations.len() && before.confirmations[at]
                == ctx.predecessor@);
            assert(at == pos);
        }
        let removed = tx.confirmations.remove(pos);
        let count = tx.confirmations.len() as u32;
        proof {
            let rest = before.confirmations.remove(pos as int);
            assert(tx.confirmations.deep_view() =~= rest);
            assert(tx@ == TransactionView { confirmations: rest, ..before });
            assert(rest.no_duplicates() && !rest.contains(ctx.predecessor@)) by {
                assert forall|a: int, b: int|
                    0 <= a < rest.len() && 0 <= b < rest.len() && a != b implies rest[a]
                    != rest[b] by {
                    let a0 = if a < pos { a } else { a + 1 };
                    let b0 = if b < pos { b } else { b + 1 };
                    assert(rest[a] == before.confirmations[a0]);
                    assert(rest[b] == before.confirmations[b0]);
                }
                if rest.contains(ctx.predecessor@) {
                    let k = choose|k: int| 0 <= k < rest.len() && rest[k] == ctx.predecessor@;
                    let k0 = if k < pos { k } else { k + 1 };
                    assert(rest[k] == before.confirmations[k0]);
                }
            }
        }
        let mut events: Vec<MultisigEvent> = Vec::new();
        events.push(
            MultisigEvent::ConfirmationRevoked {
                tx_id,
                revoker: ctx.predecessor.clone(),
                confirmations: count,
            },
        );
        assert(events.deep_view() =~= seq![
            EventView::ConfirmationRevoked {
                tx_id,
                revoker: ctx.predecessor@,
                confirmations: (before.confirmations.len() - 1) as u32,
            },
        ]);
        self.put_record(tx_id, tx);
        proof {
            assert(self.records() =~= pre.records().insert(tx_id, tx@));
            assert(self.records().dom() =~= pre.records().dom());
            self.lemma_same_commitments(&pre, tx_id);
        }
        Ok(events)
    }

    /// The first reason for which a cancellation is refused, if it is.
    pub open spec fn cancel_error(&self, ctx: &CallContext, tx_id: u64) -> Option<MultisigError> {
        if let Some(e) = self.pending_error(ctx, tx_id) {
            Some(e)
        } else if self.records()[tx_id].execution_attempted {
            Some(MultisigError::ExecutionAttempted)
        } else if self.records()[tx_id].storage_depositor != ctx.predecessor@ {
            Some(MultisigError::NotSubmitter)
        } else {
            None
        }
    }

    /// Cancels a proposal of which no execution was ever started, on behalf
    /// of the approver who submitted it: the record is marked cancelled, its
    /// value leaves the ledger, and the anti-spam deposit is to be sent back
    /// to the submitter. A proposal whose execution failed can be executed
    /// again, but not cancelled. A refused cancellation changes nothing.
    pub fn cancel_transaction(&mut self, ctx: &CallContext, tx_id: u64) -> (r: Result<
        CancelOutcome,
        MultisigError,
    >)
        requires
            old(self).wf(),
        ensures
            match r {
                Err(e) => old(self).cancel_error(ctx, tx_id) == Some(e) && *final(self) == *old(
                    self,
                ),
                Ok(out) => {
                    &&& old(self).cancel_error(ctx, tx_id) is None
                    &&& out.refund_to@ == old(self).records()[tx_id].storage_depositor
                    &&& out.refund_amount == old(self).storage_deposit
                    &&& out.events.deep_view() == seq![
                        EventView::TransactionCancelled { tx_id, canceller: ctx.predecessor@ },
                    ]
                    &&& final(self).records() == old(self).records().insert(
                        tx_id,
                        TransactionView { cancelled: true, ..old(self).records()[tx_id] },
                    )
                    &&& final(self).reserved_balance == minus_or_zero(
                        old(self).reserved_balance,
                        capped_value(old(self).records()[tx_id].actions),
                    )
                    &&& final(self).storage.order() == old(self).storage.order()
                    &&& final(self).storage.positions() == old(self).storage.positions()
                    &&& final(self).next_tx_id == old(self).next_tx_id
                    &&& final(self).pending_callbacks == old(self).pending_callbacks
                    &&& final(self).same_settings(old(self))
                },
            },
            final(self).wf(),
            forall|f: Set<u64>| #[trigger]
                old(self).reservation_holds(f) ==> final(self).reservation_holds(f),
    {
        let ghost pre = *self;
        match self.check_pending(ctx, tx_id) {
            Err(e) => {
                return Err(e);
            },
            Ok(_) => {},
        }
        if self.storage.get_transaction_or_panic(tx_id).execution_attempted {
            return Err(MultisigError::ExecutionAttempted);
        }
        let is_submitter = self.storage.get_transaction_or_panic(tx_id).storage_depositor
            == ctx.predecessor;
        if !is_submitter {
            return Err(MultisigError::NotSubmitter);
        }
        let mut tx = self.take_record(tx_id);
        let ghost before = tx@;
        let value = calculate_transaction_deposit(&tx);
        tx.cancelled = true;
        let refund_to = tx.storage_depositor.clone();
        let mut events: Vec<MultisigEvent> = Vec::new();
        events.push(
            MultisigEvent::TransactionCancelled { tx_id, canceller: ctx.predecessor.clone() },
        );
        assert(events.deep_view() =~= seq![
            EventView::TransactionCancelled { tx_id, canceller: ctx.predecessor@ },
        ]);
        self.put_record(tx_id, tx);
        self.reserved_balance = self.reserved_balance.saturating_sub(value);
        proof {
            assert(self.records() =~= pre.records().insert(tx_id, tx@));
            assert(self.records().dom() =~= pre.records().dom());
            let order = pre.storage.order();
            assert(order.contains(tx_id)) by {
                assert(order.to_set().contains(tx_id));
            }
            assert forall|f: Set<u64>| #[trigger] pre.reservation_holds(f) implies self.reservation_holds(
                f,
            ) by {
                lemma_total_covers(order, pre.records(), f, tx_id);
                lemma_total_change(order, pre.records(), f, self.records(), f, tx_id);
            }
        }
        Ok(CancelOutcome { refund_to, refund_amount: self.storage_deposit, events })
    }
}

} // verus!
