//! The engine's state, what makes it valid, and how it is created.

use vstd::prelude::*;
use crate::ledger::committed_total;
use crate::storage::{MultisigStorage, TransactionStorage};
use crate::types::{TransactionView};
use crate::validation::{
    ValidationError, DEFAULT_CALLBACK_GAS, MAX_OWNERS, STATE_VERSION, TRANSACTION_STORAGE_DEPOSIT,
};

verus! {

/// Why the engine refuses a call.
#[derive(Debug, Clone, Copy, PartialEq, Eq, Structural)]
pub enum MultisigError {
    /// The registry would hold no approver.
    NoOwners,
    /// The registry would hold more than [`MAX_OWNERS`] approvers.
    TooManyOwners,
    /// The threshold is zero or exceeds the number of approvers.
    InvalidThreshold,
    /// An identity is listed twice.
    DuplicateOwner,
    /// The caller is no approver.
    NotOwner,
    /// The caller did not submit the proposal.
    NotSubmitter,
    /// The caller has not confirmed the proposal.
    NotConfirmed,
    /// No record has the identifier.
    TransactionNotFound,
    /// The record is marked executed.
    AlreadyExecuted,
    /// The record is cancelled.
    TransactionCancelled,
    /// An execution of the proposal was started before: it can be executed
    /// again, but not cancelled.
    ExecutionAttempted,
    /// The stored state is in the current layout already.
    AlreadyMigrated,
    /// The stored state carries a layout version that is not known.
    UnknownStateVersion,
    /// The caller has confirmed the proposal before.
    AlreadyConfirmed,
    /// The proposal's expiration has been reached.
    Expired,
    /// Fewer approvers have confirmed than the threshold asks.
    NotEnoughConfirmations,
    /// Less than the anti-spam deposit is attached.
    InsufficientDeposit,
    /// The proposal's target is the engine's own account.
    SendToSelf,
    /// The batch of actions is refused.
    Validation(ValidationError),
    /// The balance that is not reserved does not cover the proposal.
    InsufficientBalance,
    /// Execution would leave less than the operational minimum.
    BelowMinimumBalance,
    /// The expiration does not fit into the clock's range.
    ExpirationOverflow,
    /// The store is at capacity.
    TransactionLimitReached,
    /// No identifier is left.
    IdCounterExhausted,
    /// The cutoff of a reclamation exceeds the range of positions.
    IndexTooLarge,
    /// An execution is in flight.
    CallbacksPending,
    /// The reconciliation budget is under its minimum.
    CallbackGasTooLow,
    /// The reconciliation budget is over its maximum.
    CallbackGasTooHigh,
    /// The anti-spam deposit is under its minimum.
    StorageDepositTooLow,
    /// The anti-spam deposit is over its maximum.
    StorageDepositTooHigh,
    /// The identity is an approver already.
    AlreadyOwner,
    /// The registry is full.
    OwnerLimitReached,
    /// The identity is no approver.
    NotCurrentlyOwner,
    /// An approver may not remove itself.
    CannotRemoveSelf,
    /// Removal would leave fewer approvers than the threshold.
    OwnersBelowThreshold,
    /// The threshold would be zero.
    ThresholdZero,
    /// The threshold would exceed the number of approvers.
    ThresholdExceedsOwners,
    /// Two records of an older state carry one identifier.
    DuplicateTransactionId,
    /// An older state holds more records than positions can number.
    TooManyTransactions,
}

/// What the host tells the engine about one invocation.
#[derive(Debug)]
pub struct CallContext {
    /// Who calls.
    pub predecessor: String,
    /// The engine's own account.
    pub current_account: String,
    /// The value attached to the call.
    pub attached_deposit: u128,
    /// The account's balance.
    pub account_balance: u128,
    /// The host's clock.
    pub block_timestamp: u64,
}

/// The engine: registry, store, ledger and counters.
pub struct MultisigContract {
    /// The layout version of this state.
    pub state_version: u32,
    /// The approvers. A new one is added at the end; when one is removed,
    /// the last one takes its place.
    pub owners: Vec<String>,
    /// The threshold.
    pub num_confirmations: u32,
    /// The transaction store.
    pub storage: MultisigStorage,
    /// The number of executions in flight.
    pub pending_callbacks: u32,
    /// The compute budget of reconciliation.
    pub callback_gas: u64,
    /// The anti-spam deposit.
    pub storage_deposit: u128,
    /// The identifier that the next proposal gets.
    pub next_tx_id: u64,
    /// The value committed to proposals that are not finished.
    pub reserved_balance: u128,
}

/// A record is sound: it lists no confirmer twice, and it is not both
/// executed and cancelled.
pub open spec fn sound_record(record: TransactionView) -> bool {
    &&& record.confirmations.no_duplicates()
    &&& !(record.executed && record.cancelled)
}

impl MultisigContract {
    /// The approvers, as identities.
    pub open spec fn owner_ids(&self) -> Seq<Seq<char>> {
        self.owners.deep_view()
    }

    /// The stored records, by identifier.
    pub open spec fn records(&self) -> Map<u64, TransactionView> {
        self.storage.records()
    }

    /// The state is valid: the store's structures agree, the approvers are
    /// distinct and at most [`MAX_OWNERS`], the threshold lies between one
    /// and their number, every stored identifier is below the counter, and
    /// every record is sound and carries the identifier it is stored under.
    pub open spec fn wf(&self) -> bool {
        &&& self.storage.wf()
        &&& self.owner_ids().no_duplicates()
        &&& 1 <= self.num_confirmations <= self.owners.len() <= MAX_OWNERS
        &&& forall|id: u64| #[trigger]
            self.records().contains_key(id) ==> id < self.next_tx_id && self.records()[id].id
                == id && sound_record(self.records()[id])
    }

    /// The ledger agrees with the store, given the executions in flight:
    /// each of them is a record marked executed, their number is the
    /// counter of pending callbacks, and the reserved balance is the sum of
    /// the values of the records that are pending or in flight.
    ///
    /// With no execution in flight this says that the reserved balance is
    /// the sum of the values of the pending records.
    pub open spec fn reservation_holds(&self, in_flight: Set<u64>) -> bool {
        &&& in_flight.finite()
        &&& in_flight.len() == self.pending_callbacks
        &&& forall|id: u64| #[trigger]
            in_flight.contains(id) ==> self.records().contains_key(id)
                && self.records()[id].executed && !self.records()[id].cancelled
        &&& self.reserved_balance == committed_total(
            self.storage.order(),
            self.records(),
            in_flight,
        )
    }
}

/// Whether `who` stands in `ids`.
pub fn contains_id(ids: &Vec<String>, who: &String) -> (r: bool)
    ensures
        r == ids.deep_view().contains(who@),
{
    position_of(ids, who).is_some()
}

/// The first place at which `who` stands in `ids`.
pub fn position_of(ids: &Vec<String>, who: &String) -> (r: Option<usize>)
    ensures
        r is Some <==> ids.deep_view().contains(who@),
        r is Some ==> r.unwrap() < ids.len() && ids.deep_view()[r.unwrap() as int] == who@
            && forall|j: int| 0 <= j < r.unwrap() ==> ids.deep_view()[j] != who@,
{
    let mut i: usize = 0;
    while i < ids.len()
        invariant
            i <= ids.len(),
            forall|j: int| 0 <= j < i ==> ids.deep_view()[j] != who@,
        decreases ids.len() - i,
    {
        if ids[i] == *who {
            assert(ids.deep_view()[i as int] == who@);
            return Some(i);
        }
        i += 1;
    }
    None
}

/// Whether some identity stands twice in `ids`.
pub fn has_duplicates(ids: &Vec<String>) -> (r: bool)
    ensures
        r == !ids.deep_view().no_duplicates(),
{
    let mut i: usize = 0;
    while i < ids.len()
        invariant
            i <= ids.len(),
            forall|a: int, b: int|
                0 <= a < b < ids.len() && b < i ==> ids.deep_view()[a] != ids.deep_view()[b],
        decreases ids.len() - i,
    {
        let mut j: usize = 0;
        while j < i
            invariant
                j <= i < ids.len(),
                forall|a: int| 0 <= a < j ==> ids.deep_view()[a] != ids.deep_view()[i as int],
            decreases i - j,
        {
            if ids[j] == ids[i] {
                assert(ids.deep_view()[j as int] == ids.deep_view()[i as int]);
                return true;
            }
            j += 1;
        }
        i += 1;
    }
    assert forall|a: int, b: int|
        0 <= a < ids.deep_view().len() && 0 <= b < ids.deep_view().len() && a != b implies ids.deep_view()[a]
        != ids.deep_view()[b] by {
        if a < b {
        } else {
            assert(ids.deep_view()[b] != ids.deep_view()[a]);
        }
    }
    false
}

/// Why a registry of `owners` with threshold `num_confirmations` cannot be
/// created, if it cannot.
pub open spec fn creation_error(owners: Seq<Seq<char>>, num_confirmations: u32) -> Option<
    MultisigError,
> {
    if owners.len() == 0 {
        Some(MultisigError::NoOwners)
    } else if owners.len() > MAX_OWNERS {
        Some(MultisigError::TooManyOwners)
    } else if num_confirmations == 0 || num_confirmations > owners.len() {
        Some(MultisigError::InvalidThreshold)
    } else if !owners.no_duplicates() {
        Some(MultisigError::DuplicateOwner)
    } else {
        None
    }
}

impl MultisigContract {
    /// Creates an engine with the given approvers and threshold, an empty
    /// store and an empty ledger.
    pub fn new(owners: Vec<String>, num_confirmations: u32) -> (r: Result<Self, MultisigError>)
        ensures
            match r {
                Ok(c) => {
                    &&& creation_error(owners.deep_view(), num_confirmations) is None
                    &&& c.owner_ids() == owners.deep_view()
                    &&& c.num_confirmations == num_confirmations
                    &&& c.state_version == STATE_VERSION
                    &&& c.storage.order() == Seq::<u64>::empty()
                    &&& c.records() == Map::<u64, TransactionView>::empty()
                    &&& c.storage.positions() == Map::<u64, u32>::empty()
                    &&& c.pending_callbacks == 0
                    &&& c.callback_gas == DEFAULT_CALLBACK_GAS
                    &&& c.storage_deposit == TRANSACTION_STORAGE_DEPOSIT
                    &&& c.next_tx_id == 0
                    &&& c.reserved_balance == 0
                    &&& c.wf()
                    &&& c.reservation_holds(Set::empty())
                },
                Err(e) => creation_error(owners.deep_view(), num_confirmations) == Some(e),
            },
    {
        if owners.len() == 0 {
            return Err(MultisigError::NoOwners);
        }
        if owners.len() > MAX_OWNERS {
            return Err(MultisigError::TooManyOwners);
        }
        if num_confirmations == 0 || num_confirmations as usize > owners.len() {
            return Err(MultisigError::InvalidThreshold);
        }
        if has_duplicates(&owners) {
            return Err(MultisigError::DuplicateOwner);
        }
        Ok(
            MultisigContract {
                state_version: STATE_VERSION,
                owners,
                num_confirmations,
                storage: MultisigStorage::new(),
                pending_callbacks: 0,
                callback_gas: DEFAULT_CALLBACK_GAS,
                storage_deposit: TRANSACTION_STORAGE_DEPOSIT,
                next_tx_id: 0,
                reserved_balance: 0,
            },
        )
    }
}

impl MultisigContract {
    /// Whether the state is valid.
    pub fn is_valid(&self) -> (r: bool)
        ensures
            r == self.wf(),
    {
        if !self.storage.is_consistent() {
            return false;
        }
        if has_duplicates(&self.owners) {
            return false;
        }
        if self.num_confirmations == 0 || self.num_confirmations as usize > self.owners.len()
            || self.owners.len() > MAX_OWNERS {
            return false;
        }
        let ghost order = self.storage.order();
        let n = self.storage.tx_ids.len();
        let mut i: usize = 0;
        while i < n
            invariant
                i <= n,
                n == self.storage.tx_ids.len(),
                order == self.storage.order(),
                self.storage.wf(),
                forall|k: int|
                    0 <= k < i ==> (#[trigger] order[k]) < self.next_tx_id
                        && self.records()[order[k]].id == order[k] && sound_record(
                        self.records()[order[k]],
                    ),
            decreases n - i,
        {
            let id = self.storage.tx_ids[i];
            assert(order.to_set().contains(order[i as int]));
            if id >= self.next_tx_id {
                return false;
            }
            let tx = self.storage.get_transaction_or_panic(id);
            if tx.id != id || has_duplicates(&tx.confirmations) || (tx.executed && tx.cancelled) {
                return false;
            }
            i += 1;
        }
        proof {
            assert forall|id: u64| #[trigger] self.records().contains_key(id) implies id
                < self.next_tx_id && self.records()[id].id == id && sound_record(
                self.records()[id],
            ) by {
                assert(order.to_set().contains(id));
                let k = choose|k: int| 0 <= k < order.len() && order[k] == id;
                assert(order[k] < self.next_tx_id);
            }
        }
        true
    }
}

} // verus!
