//! The approver registry and the engine's settings.

use vstd::prelude::*;
use crate::contract::{contains_id, position_of, CallContext, MultisigContract, MultisigError};
use crate::types::{EventView, MultisigEvent};
use crate::validation::MAX_OWNERS;

verus! {

/// The least compute budget of reconciliation.
pub const MIN_CALLBACK_GAS: u64 = 5_000_000_000_000;

/// The largest compute budget of reconciliation.
pub const MAX_CALLBACK_GAS: u64 = 100_000_000_000_000;

/// The least anti-spam deposit.
pub const MIN_STORAGE_DEPOSIT: u128 = 1_000_000_000_000_000_000_000;

/// The largest anti-spam deposit.
pub const MAX_STORAGE_DEPOSIT: u128 = 1_000_000_000_000_000_000_000_000;

/// `ids` without the item at `at`, whose place the last item takes.
pub open spec fn without(ids: Seq<Seq<char>>, at: int) -> Seq<Seq<char>> {
    ids.update(at, ids.last()).drop_last()
}

/// Taking one item out of a duplicate-free sequence leaves the others, each
/// once.
pub proof fn lemma_without(ids: Seq<Seq<char>>, at: int)
    requires
        ids.no_duplicates(),
        0 <= at < ids.len(),
    ensures
        without(ids, at).no_duplicates(),
        forall|x: Seq<char>| #[trigger]
            without(ids, at).contains(x) <==> ids.contains(x) && x != ids[at],
{
    let rest = without(ids, at);
    let last = ids.len() - 1;
    assert forall|a: int| 0 <= a < rest.len() implies rest[a] == ids[if a == at {
        last
    } else {
        a
    }] by {}
    assert forall|x: Seq<char>| #[trigger] rest.contains(x) <==> ids.contains(x) && x
        != ids[at] by {
        if rest.contains(x) {
            let a = choose|a: int| 0 <= a < rest.len() && rest[a] == x;
            let a0 = if a == at { last } else { a };
            assert(ids[a0] == x);
        }
        if ids.contains(x) && x != ids[at] {
            let a = choose|a: int| 0 <= a < ids.len() && ids[a] == x;
            if a == last {
                assert(rest[at] == x);
            } else {
                assert(rest[a] == x);
            }
        }
    }
}

impl MultisigContract {
    /// Everything but registry and settings is the same in `self` and
    /// `other`.
    pub open spec fn same_proposals(&self, other: &Self) -> bool {
        &&& self.storage == other.storage
        &&& self.pending_callbacks == other.pending_callbacks
        &&& self.next_tx_id == other.next_tx_id
        &&& self.reserved_balance == other.reserved_balance
    }

    /// The first reason for which a new reconciliation budget is refused,
    /// if it is.
    pub open spec fn callback_gas_error(&self, ctx: &CallContext, gas: u64) -> Option<
        MultisigError,
    > {
        if !self.has_owner(ctx.predecessor@) {
            Some(MultisigError::NotOwner)
        } else if gas < MIN_CALLBACK_GAS {
            Some(MultisigError::CallbackGasTooLow)
        } else if gas > MAX_CALLBACK_GAS {
            Some(MultisigError::CallbackGasTooHigh)
        } else {
            None
        }
    }

    /// Sets the compute budget of reconciliation.
    pub fn set_callback_gas(&mut self, ctx: &CallContext, gas: u64) -> (r: Result<
        Vec<MultisigEvent>,
        MultisigError,
    >)
        requires
            old(self).wf(),
        ensures
            match r {
                Err(e) => old(self).callback_gas_error(ctx, gas) == Some(e) && *final(self)
                    == *old(self),
                Ok(events) => {
                    &&& old(self).callback_gas_error(ctx, gas) is None
                    &&& events.deep_view() == seq![
                        EventView::CallbackGasChanged {
                            old_gas: old(self).callback_gas,
                            new_gas: gas,
                            changer: ctx.predecessor@,
                        },
                    ]
                    &&& *final(self) == (MultisigContract { callback_gas: gas, ..*old(self) })
                },
            },
            final(self).wf(),
            forall|f: Set<u64>| #[trigger]
                old(self).reservation_holds(f) ==> final(self).reservation_holds(f),
    {
        if !contains_id(&self.owners, &ctx.predecessor) {
            return Err(MultisigError::NotOwner);
        }
        if gas < MIN_CALLBACK_GAS {
            return Err(MultisigError::CallbackGasTooLow);
        }
        if gas > MAX_CALLBACK_GAS {
            return Err(MultisigError::CallbackGasTooHigh);
        }
        let old_gas = self.callback_gas;
        self.callback_gas = gas;
        let mut events: Vec<MultisigEvent> = Vec::new();
        events.push(
            MultisigEvent::CallbackGasChanged {
                old_gas,
                new_gas: gas,
                changer: ctx.predecessor.clone(),
            },
        );
        assert(events.deep_view() =~= seq![
            EventView::CallbackGasChanged { old_gas, new_gas: gas, changer: ctx.predecessor@ },
        ]);
        Ok(events)
    }

    /// The first reason for which a new anti-spam deposit is refused, if it
    /// is.
    pub open spec fn storage_deposit_error(&self, ctx: &CallContext, deposit: u128) -> Option<
        MultisigError,
    > {
        if !self.has_owner(ctx.predecessor@) {
            Some(MultisigError::NotOwner)
        } else if deposit < MIN_STORAGE_DEPOSIT {
            Some(MultisigError::StorageDepositTooLow)
        } else if deposit > MAX_STORAGE_DEPOSIT {
            Some(MultisigError::StorageDepositTooHigh)
        } else {
            None
        }
    }

    /// Sets the anti-spam deposit that a submission must attach.
    pub fn set_storage_deposit(&mut self, ctx: &CallContext, deposit: u128) -> (r: Result<
        Vec<MultisigEvent>,
        MultisigError,
    >)
        requires
            old(self).wf(),
        ensures
            match r {
                Err(e) => old(self).storage_deposit_error(ctx, deposit) == Some(e) && *final(self)
                    == *old(self),
                Ok(events) => {
                    &&& old(self).storage_deposit_error(ctx, deposit) is None
                    &&& events.deep_view() == seq![
                        EventView::StorageDepositChanged {
                            old_deposit: old(self).storage_deposit,
                            new_deposit: deposit,
                            changer: ctx.predecessor@,
                        },
                    ]
                    &&& *final(self) == (MultisigContract { storage_deposit: deposit, ..*old(self) })
                },
            },
            final(self).wf(),
            forall|f: Set<u64>| #[trigger]
                old(self).reservation_holds(f) ==> final(self).reservation_holds(f),
    {
        if !contains_id(&self.owners, &ctx.predecessor) {
            return Err(MultisigError::NotOwner);
        }
        if deposit < MIN_STORAGE_DEPOSIT {
            return Err(MultisigError::StorageDepositTooLow);
        }
        if deposit > MAX_STORAGE_DEPOSIT {
            return Err(MultisigError::StorageDepositTooHigh);
        }
        let old_deposit = self.storage_deposit;
        self.storage_deposit = deposit;
        let mut events: Vec<MultisigEvent> = Vec::new();
        events.push(
            MultisigEvent::StorageDepositChanged {
                old_deposit,
                new_deposit: deposit,
                changer: ctx.predecessor.clone(),
            },
        );
        assert(events.deep_view() =~= seq![
            EventView::StorageDepositChanged {
                old_deposit,
                new_deposit: deposit,
                changer: ctx.predecessor@,
            },
        ]);
        Ok(events)
    }

    /// The anti-spam deposit that a submission must attach.
    pub fn get_storage_deposit(&self) -> (r: u128)
        ensures
            r == self.storage_deposit,
    {
        self.storage_deposit
    }

    /// The first reason for which an approver is not added, if it is not.
    pub open spec fn add_owner_error(&self, ctx: &CallContext, new_owner: Seq<char>) -> Option<
        MultisigError,
    > {
        if !self.has_owner(ctx.predecessor@) {
            Some(MultisigError::NotOwner)
        } else if self.has_owner(new_owner) {
            Some(MultisigError::AlreadyOwner)
        } else if self.owner_ids().len() >= MAX_OWNERS {
            Some(MultisigError::OwnerLimitReached)
        } else {
            None
        }
    }

    /// Adds an approver. The threshold stays as it is.
    pub fn add_owner(&mut self, ctx: &CallContext, new_owner: String) -> (r: Result<
        (),
        MultisigError,
    >)
        requires
            old(self).wf(),
        ensures
            match r {
                Err(e) => old(self).add_owner_error(ctx, new_owner@) == Some(e) && *final(self)
                    == *old(self),
                Ok(_) => {
                    &&& old(self).add_owner_error(ctx, new_owner@) is None
                    &&& final(self).owner_ids() == old(self).owner_ids().push(new_owner@)
                    &&& final(self).num_confirmations == old(self).num_confirmations
                    &&& final(self).state_version == old(self).state_version
                    &&& final(self).callback_gas == old(self).callback_gas
                    &&& final(self).storage_deposit == old(self).storage_deposit
                    &&& final(self).same_proposals(old(self))
                },
            },
            final(self).wf(),
            forall|f: Set<u64>| #[trigger]
                old(self).reservation_holds(f) ==> final(self).reservation_holds(f),
    {
        let ghost before = self.owner_ids();
        if !contains_id(&self.owners, &ctx.predecessor) {
            return Err(MultisigError::NotOwner);
        }
        if contains_id(&self.owners, &new_owner) {
            return Err(MultisigError::AlreadyOwner);
        }
        if self.owners.len() >= MAX_OWNERS {
            return Err(MultisigError::OwnerLimitReached);
        }
        self.owners.push(new_owner);
        proof {
            assert(self.owner_ids() =~= before.push(new_owner@));
            assert forall|a: int, b: int|
                0 <= a < self.owner_ids().len() && 0 <= b < self.owner_ids().len() && a
                    != b implies self.owner_ids()[a] != self.owner_ids()[b] by {
                if a < before.len() {
                    assert(before.contains(before[a]));
                }
                if b < before.len() {
                    assert(before.contains(before[b]));
                }
            }
        }
        Ok(())
    }

    /// The first reason for which an approver is not removed, if it is not.
    pub open spec fn remove_owner_error(&self, ctx: &CallContext, owner: Seq<char>) -> Option<
        MultisigError,
    > {
        if !self.has_owner(ctx.predecessor@) {
            Some(MultisigError::NotOwner)
        } else if !self.has_owner(owner) {
            Some(MultisigError::NotCurrentlyOwner)
        } else if ctx.predecessor@ == owner {
            Some(MultisigError::CannotRemoveSelf)
        } else if self.owner_ids().len() <= self.num_confirmations {
            Some(MultisigError::OwnersBelowThreshold)
        } else {
            None
        }
    }

    /// Removes another approver, as long as enough approvers stay to reach
    /// the threshold. The last approver of the list takes the place of the
    /// one removed.
    pub fn remove_owner(&mut self, ctx: &CallContext, owner_to_remove: String) -> (r: Result<
        (),
        MultisigError,
    >)
        requires
            old(self).wf(),
        ensures
            match r {
                Err(e) => old(self).remove_owner_error(ctx, owner_to_remove@) == Some(e)
                    && *final(self) == *old(self),
                Ok(_) => {
                    &&& old(self).remove_owner_error(ctx, owner_to_remove@) is None
                    &&& final(self).owner_ids() == without(
                        old(self).owner_ids(),
                        old(self).owner_ids().index_of(owner_to_remove@),
                    )
                    &&& forall|who: Seq<char>| #[trigger]
                        final(self).has_owner(who) <==> old(self).has_owner(who) && who
                            != owner_to_remove@
                    &&& final(self).num_confirmations == old(self).num_confirmations
                    &&& final(self).state_version == old(self).state_version
                    &&& final(self).callback_gas == old(self).callback_gas
                    &&& final(self).storage_deposit == old(self).storage_deposit
                    &&& final(self).same_proposals(old(self))
                },
            },
            final(self).wf(),
            forall|f: Set<u64>| #[trigger]
                old(self).reservation_holds(f) ==> final(self).reservation_holds(f),
    {
        let ghost before = self.owner_ids();
        if !contains_id(&self.owners, &ctx.predecessor) {
            return Err(MultisigError::NotOwner);
        }
        let at = match position_of(&self.owners, &owner_to_remove) {
            None => {
                return Err(MultisigError::NotCurrentlyOwner);
            },
            Some(at) => at,
        };
        if ctx.predecessor == owner_to_remove {
            return Err(MultisigError::CannotRemoveSelf);
        }
        if self.owners.len() <= self.num_confirmations as usize {
            return Err(MultisigError::OwnersBelowThreshold);
        }
        proof {
            let k = before.index_of(owner_to_remove@);
            assert(0 <= k < before.len() && before[k] == owner_to_remove@);
            assert(k == at);
            lemma_without(before, at as int);
        }
        let gone = self.owners.swap_remove(at);
        proof {
            assert(self.owner_ids() =~= without(before, at as int));
        }
        Ok(())
    }

    /// The first reason for which the threshold is not changed, if it is
    /// not.
    pub open spec fn threshold_error(&self, ctx: &CallContext, new_threshold: u32) -> Option<
        MultisigError,
    > {
        if !self.has_owner(ctx.predecessor@) {
            Some(MultisigError::NotOwner)
        } else if new_threshold == 0 {
            Some(MultisigError::ThresholdZero)
        } else if new_threshold > self.owner_ids().len() {
            Some(MultisigError::ThresholdExceedsOwners)
        } else {
            None
        }
    }

    /// Sets the threshold, between one and the number of approvers.
    pub fn change_threshold(&mut self, ctx: &CallContext, new_threshold: u32) -> (r: Result<
        (),
        MultisigError,
    >)
        requires
            old(self).wf(),
        ensures
            match r {
                Err(e) => old(self).threshold_error(ctx, new_threshold) == Some(e) && *final(self)
                    == *old(self),
                Ok(_) => {
                    &&& old(self).threshold_error(ctx, new_threshold) is None
                    &&& *final(self) == (MultisigContract {
                        num_confirmations: new_threshold,
                        ..*old(self)
                    })
                },
            },
            final(self).wf(),
            forall|f: Set<u64>| #[trigger]
                old(self).reservation_holds(f) ==> final(self).reservation_holds(f),
    {
        if !contains_id(&self.owners, &ctx.predecessor) {
            return Err(MultisigError::NotOwner);
        }
        if new_threshold == 0 {
            return Err(MultisigError::ThresholdZero);
        }
        if new_threshold as usize > self.owners.len() {
            return Err(MultisigError::ThresholdExceedsOwners);
        }
        self.num_confirmations = new_threshold;
        Ok(())
    }
}

} // verus!
