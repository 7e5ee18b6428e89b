//! Records, actions and events of the approval engine, with their
//! mathematical views.

use vstd::prelude::*;

verus! {

/// One step of a proposal: a value transfer or a delegated call.
#[derive(Debug)]
pub enum Action {
    Transfer { amount: u128 },
    FunctionCall { method_name: String, args: Vec<u8>, gas: u64, deposit: u128 },
}

/// What an [`Action`] is, as plain mathematical data.
pub ghost enum ActionView {
    Transfer { amount: u128 },
    FunctionCall { method_name: Seq<char>, args: Seq<u8>, gas: u64, deposit: u128 },
}

impl View for Action {
    type V = ActionView;

    open spec fn view(&self) -> ActionView {
        match *self {
            Action::Transfer { amount } => ActionView::Transfer { amount },
            Action::FunctionCall { method_name, args, gas, deposit } => ActionView::FunctionCall {
                method_name: method_name@,
                args: args@,
                gas,
                deposit,
            },
        }
    }
}

impl DeepView for Action {
    type V = ActionView;

    open spec fn deep_view(&self) -> ActionView {
        self@
    }
}

impl ActionView {
    /// The value that the step moves out of the account.
    pub open spec fn value(self) -> nat {
        match self {
            ActionView::Transfer { amount } => amount as nat,
            ActionView::FunctionCall { deposit, .. } => deposit as nat,
        }
    }

    /// The compute budget that the step asks for.
    pub open spec fn gas(self) -> nat {
        match self {
            ActionView::Transfer { .. } => 0,
            ActionView::FunctionCall { gas, .. } => gas as nat,
        }
    }
}

impl Clone for Action {
    fn clone(&self) -> (r: Self)
        ensures
            r@ == self@,
    {
        match self {
            Action::Transfer { amount } => Action::Transfer { amount: *amount },
            Action::FunctionCall { method_name, args, gas, deposit } => {
                let copied = copy_bytes(args);
                Action::FunctionCall {
                    method_name: method_name.clone(),
                    args: copied,
                    gas: *gas,
                    deposit: *deposit,
                }
            },
        }
    }
}

/// A fresh vector with the same bytes.
pub fn copy_bytes(bytes: &Vec<u8>) -> (r: Vec<u8>)
    ensures
        r@ == bytes@,
{
    let mut out: Vec<u8> = Vec::new();
    let mut i: usize = 0;
    while i < bytes.len()
        invariant
            i <= bytes.len(),
            out@ == bytes@.take(i as int),
        decreases bytes.len() - i,
    {
        out.push(bytes[i]);
        assert(bytes@.take(i + 1) =~= bytes@.take(i as int).push(bytes@[i as int]));
        i += 1;
    }
    assert(bytes@.take(bytes.len() as int) =~= bytes@);
    out
}

/// A stored proposal.
#[derive(Debug)]
pub struct Transaction {
    pub id: u64,
    pub receiver_id: String,
    pub actions: Vec<Action>,
    pub confirmations: Vec<String>,
    pub executed: bool,
    pub cancelled: bool,
    /// Who paid the anti-spam deposit and receives its refund.
    pub storage_depositor: String,
    /// The moment from which the proposal can no longer be executed.
    pub expiration: Option<u64>,
    /// Whether an execution of the proposal was ever started. It stays set
    /// when the execution fails: the proposal can then be executed again,
    /// but no longer cancelled.
    pub execution_attempted: bool,
}

/// What a [`Transaction`] is, as plain mathematical data.
pub ghost struct TransactionView {
    pub id: u64,
    pub receiver_id: Seq<char>,
    pub actions: Seq<ActionView>,
    pub confirmations: Seq<Seq<char>>,
    pub executed: bool,
    pub cancelled: bool,
    pub storage_depositor: Seq<char>,
    pub expiration: Option<u64>,
    pub execution_attempted: bool,
}

impl View for Transaction {
    type V = TransactionView;

    open spec fn view(&self) -> TransactionView {
        TransactionView {
            id: self.id,
            receiver_id: self.receiver_id@,
            actions: self.actions.deep_view(),
            confirmations: self.confirmations.deep_view(),
            executed: self.executed,
            cancelled: self.cancelled,
            storage_depositor: self.storage_depositor@,
            expiration: self.expiration,
            execution_attempted: self.execution_attempted,
        }
    }
}

impl DeepView for Transaction {
    type V = TransactionView;

    open spec fn deep_view(&self) -> TransactionView {
        self@
    }
}

impl TransactionView {
    /// Neither executed nor cancelled.
    pub open spec fn is_pending(self) -> bool {
        !self.executed && !self.cancelled
    }
}

/// A fresh vector with the same identities.
pub fn copy_ids(ids: &Vec<String>) -> (r: Vec<String>)
    ensures
        r.deep_view() == ids.deep_view(),
{
    let mut out: Vec<String> = Vec::new();
    let mut i: usize = 0;
    while i < ids.len()
        invariant
            i <= ids.len(),
            out.deep_view() == ids.deep_view().take(i as int),
        decreases ids.len() - i,
    {
        let ghost before = out.deep_view();
        out.push(ids[i].clone());
        assert(out.deep_view() =~= before.push(ids[i as int]@));
        assert(ids.deep_view().take(i + 1) =~= ids.deep_view().take(i as int).push(
            ids[i as int]@,
        ));
        i += 1;
    }
    assert(ids.deep_view().take(ids.len() as int) =~= ids.deep_view());
    out
}

/// A fresh vector with the same actions.
pub fn copy_actions(actions: &Vec<Action>) -> (r: Vec<Action>)
    ensures
        r.deep_view() == actions.deep_view(),
{
    let mut out: Vec<Action> = Vec::new();
    let mut i: usize = 0;
    while i < actions.len()
        invariant
            i <= actions.len(),
            out.deep_view() == actions.deep_view().take(i as int),
        decreases actions.len() - i,
    {
        let ghost before = out.deep_view();
        out.push(actions[i].clone());
        assert(out.deep_view() =~= before.push(actions[i as int]@));
        assert(actions.deep_view().take(i + 1) =~= actions.deep_view().take(i as int).push(
            actions[i as int]@,
        ));
        i += 1;
    }
    assert(actions.deep_view().take(actions.len() as int) =~= actions.deep_view());
    out
}

impl Clone for Transaction {
    fn clone(&self) -> (r: Self)
        ensures
            r@ == self@,
    {
        Transaction {
            id: self.id,
            receiver_id: self.receiver_id.clone(),
            actions: copy_actions(&self.actions),
            confirmations: copy_ids(&self.confirmations),
            executed: self.executed,
            cancelled: self.cancelled,
            storage_depositor: self.storage_depositor.clone(),
            expiration: self.expiration,
            execution_attempted: self.execution_attempted,
        }
    }
}

/// What the engine reports to observers.
#[derive(Debug)]
pub enum MultisigEvent {
    TransactionSubmitted { tx_id: u64, submitter: String, receiver_id: String },
    TransactionConfirmed { tx_id: u64, confirmer: String, confirmations: u32 },
    TransactionExecuted { tx_id: u64, success: bool },
    TransactionCancelled { tx_id: u64, canceller: String },
    ConfirmationRevoked { tx_id: u64, revoker: String, confirmations: u32 },
    CallbackGasChanged { old_gas: u64, new_gas: u64, changer: String },
    StorageDepositChanged { old_deposit: u128, new_deposit: u128, changer: String },
    TransactionReady { tx_id: u64, confirmations: u32 },
    TransactionsCleanedUp { count: u64, from_index: u64, to_index: u64, cleaner: String },
}

/// What a [`MultisigEvent`] is, as plain mathematical data.
pub ghost enum EventView {
    TransactionSubmitted { tx_id: u64, submitter: Seq<char>, receiver_id: Seq<char> },
    TransactionConfirmed { tx_id: u64, confirmer: Seq<char>, confirmations: u32 },
    TransactionExecuted { tx_id: u64, success: bool },
    TransactionCancelled { tx_id: u64, canceller: Seq<char> },
    ConfirmationRevoked { tx_id: u64, revoker: Seq<char>, confirmations: u32 },
    CallbackGasChanged { old_gas: u64, new_gas: u64, changer: Seq<char> },
    StorageDepositChanged { old_deposit: u128, new_deposit: u128, changer: Seq<char> },
    TransactionReady { tx_id: u64, confirmations: u32 },
    TransactionsCleanedUp { count: u64, from_index: u64, to_index: u64, cleaner: Seq<char> },
}

impl View for MultisigEvent {
    type V = EventView;

    open spec fn view(&self) -> EventView {
        match *self {
            MultisigEvent::TransactionSubmitted { tx_id, submitter, receiver_id } => {
                EventView::TransactionSubmitted {
                    tx_id,
                    submitter: submitter@,
                    receiver_id: receiver_id@,
                }
            },
            MultisigEvent::TransactionConfirmed { tx_id, confirmer, confirmations } => {
                EventView::TransactionConfirmed { tx_id, confirmer: confirmer@, confirmations }
            },
            MultisigEvent::TransactionExecuted { tx_id, success } => {
                EventView::TransactionExecuted { tx_id, success }
            },
            MultisigEvent::TransactionCancelled { tx_id, canceller } => {
                EventView::TransactionCancelled { tx_id, canceller: canceller@ }
            },
            MultisigEvent::ConfirmationRevoked { tx_id, revoker, confirmations } => {
                EventView::ConfirmationRevoked { tx_id, revoker: revoker@, confirmations }
            },
            MultisigEvent::CallbackGasChanged { old_gas, new_gas, changer } => {
                EventView::CallbackGasChanged { old_gas, new_gas, changer: changer@ }
            },
            MultisigEvent::StorageDepositChanged { old_deposit, new_deposit, changer } => {
                EventView::StorageDepositChanged { old_deposit, new_deposit, changer: changer@ }
            },
            MultisigEvent::TransactionReady { tx_id, confirmations } => {
                EventView::TransactionReady { tx_id, confirmations }
            },
            MultisigEvent::TransactionsCleanedUp { count, from_index, to_index, cleaner } => {
                EventView::TransactionsCleanedUp { count, from_index, to_index, cleaner: cleaner@ }
            },
        }
    }
}

impl DeepView for MultisigEvent {
    type V = EventView;

    open spec fn deep_view(&self) -> EventView {
        self@
    }
}

} // verus!
