//! Limits of the engine and the validation of a batch of actions.

use vstd::prelude::*;
use crate::types::{Action, ActionView, Transaction};

verus! {

/// Most actions one proposal may hold.
pub const MAX_ACTIONS: usize = 10;

/// Largest payload of a delegated call, in bytes.
pub const MAX_ARGS_LEN: usize = 32768;

/// Longest method name of a delegated call, in bytes.
pub const MAX_METHOD_NAME_LEN: usize = 256;

/// Largest compute budget of one action.
pub const MAX_GAS_PER_ACTION: u64 = 100_000_000_000_000;

/// Largest compute budget of all actions of one proposal together.
pub const MAX_TOTAL_GAS: u64 = 250_000_000_000_000;

/// Most approvers a registry may hold.
pub const MAX_OWNERS: usize = 50;

/// Most records that one reclamation call scans.
pub const MAX_CLEANUP_BATCH: u32 = 100;

/// The anti-spam deposit a new engine asks for.
pub const TRANSACTION_STORAGE_DEPOSIT: u128 = 10_000_000_000_000_000_000_000;

/// The compute budget a new engine gives to reconciliation.
pub const DEFAULT_CALLBACK_GAS: u64 = 20_000_000_000_000;

/// The balance that execution must leave in the account.
pub const MIN_CONTRACT_BALANCE: u128 = 100_000_000_000_000_000_000_000;

/// Most records the store may hold when a proposal is submitted.
pub const MAX_TRANSACTIONS: u32 = 1000;

/// The layout version that the current state carries.
pub const STATE_VERSION: u32 = 2;

/// Why a batch of actions is refused.
#[derive(Debug, Clone, Copy, PartialEq, Eq, Structural)]
pub enum ValidationError {
    /// The batch holds no action.
    EmptyActions,
    /// The batch holds more than [`MAX_ACTIONS`] actions.
    TooManyActions,
    /// A transfer moves nothing.
    ZeroTransferAmount,
    /// A payload is longer than [`MAX_ARGS_LEN`].
    ArgsTooLarge,
    /// A method name is longer than [`MAX_METHOD_NAME_LEN`].
    MethodNameTooLong,
    /// A method name is empty.
    EmptyMethodName,
    /// A delegated call has no compute budget.
    ZeroGas,
    /// A delegated call asks for more than [`MAX_GAS_PER_ACTION`].
    GasPerActionExceeded,
    /// The calls together ask for more than [`MAX_TOTAL_GAS`].
    TotalGasExceeded,
}

/// The first rule that one action breaks, if it breaks any.
pub open spec fn action_error(a: ActionView) -> Option<ValidationError> {
    match a {
        ActionView::Transfer { amount } => if amount == 0 {
            Some(ValidationError::ZeroTransferAmount)
        } else {
            None
        },
        ActionView::FunctionCall { method_name, args, gas, deposit } => if args.len()
            > MAX_ARGS_LEN {
            Some(ValidationError::ArgsTooLarge)
        } else if vstd::utf8::encode_utf8(method_name).len() > MAX_METHOD_NAME_LEN {
            Some(ValidationError::MethodNameTooLong)
        } else if method_name.len() == 0 {
            Some(ValidationError::EmptyMethodName)
        } else if gas == 0 {
            Some(ValidationError::ZeroGas)
        } else if gas > MAX_GAS_PER_ACTION {
            Some(ValidationError::GasPerActionExceeded)
        } else {
            None
        },
    }
}

/// The error of the earliest action that breaks a rule.
pub open spec fn first_action_error(actions: Seq<ActionView>) -> Option<ValidationError>
    decreases actions.len(),
{
    if actions.len() == 0 {
        None
    } else {
        match first_action_error(actions.drop_last()) {
            Some(e) => Some(e),
            None => action_error(actions.last()),
        }
    }
}

/// The sum of the values that the actions move.
pub open spec fn total_value(actions: Seq<ActionView>) -> nat
    decreases actions.len(),
{
    if actions.len() == 0 {
        0
    } else {
        total_value(actions.drop_last()) + actions.last().value()
    }
}

/// The sum of the compute budgets that the actions ask for.
pub open spec fn total_gas(actions: Seq<ActionView>) -> nat
    decreases actions.len(),
{
    if actions.len() == 0 {
        0
    } else {
        total_gas(actions.drop_last()) + actions.last().gas()
    }
}

/// The value a batch commits: its total, held at the largest `u128`.
pub open spec fn capped_value(actions: Seq<ActionView>) -> u128 {
    if total_value(actions) > u128::MAX {
        u128::MAX
    } else {
        total_value(actions) as u128
    }
}

/// What validation answers for a batch.
pub open spec fn validation_outcome(actions: Seq<ActionView>) -> Result<u128, ValidationError> {
    if actions.len() == 0 {
        Err(ValidationError::EmptyActions)
    } else if actions.len() > MAX_ACTIONS {
        Err(ValidationError::TooManyActions)
    } else if let Some(e) = first_action_error(actions) {
        Err(e)
    } else if total_gas(actions) > MAX_TOTAL_GAS {
        Err(ValidationError::TotalGasExceeded)
    } else {
        Ok(capped_value(actions))
    }
}

/// An action error is found exactly where some action breaks a rule, and it
/// is the error of the earliest such action.
pub proof fn law_first_error_is_earliest(actions: Seq<ActionView>)
    ensures
        first_action_error(actions) is None <==> forall|i: int|
            0 <= i < actions.len() ==> action_error(#[trigger] actions[i]) is None,
        first_action_error(actions) is Some ==> exists|i: int|
            0 <= i < actions.len() && action_error(#[trigger] actions[i]) == first_action_error(
                actions,
            ) && forall|j: int| 0 <= j < i ==> action_error(#[trigger] actions[j]) is None,
    decreases actions.len(),
{
    if actions.len() > 0 {
        let front = actions.drop_last();
        law_first_error_is_earliest(front);
        assert forall|i: int| 0 <= i < front.len() implies front[i] == actions[i] by {}
        if first_action_error(front) is Some {
            let i = choose|i: int|
                0 <= i < front.len() && action_error(#[trigger] front[i]) == first_action_error(
                    front,
                ) && forall|j: int| 0 <= j < i ==> action_error(#[trigger] front[j]) is None;
            assert(actions[i] == front[i]);
            assert forall|j: int| 0 <= j < i implies action_error(#[trigger] actions[j])
                is None by {
                assert(actions[j] == front[j]);
            }
        } else if action_error(actions.last()) is Some {
            let i = actions.len() - 1;
            assert(actions[i] == actions.last());
            assert forall|j: int| 0 <= j < i implies action_error(#[trigger] actions[j])
                is None by {
                assert(actions[j] == front[j]);
            }
        } else {
            assert forall|i: int| 0 <= i < actions.len() implies action_error(
                #[trigger] actions[i],
            ) is None by {
                if i < front.len() {
                    assert(actions[i] == front[i]);
                }
            }
        }
    }
}

/// Each action that passes asks for at most [`MAX_GAS_PER_ACTION`].
pub proof fn lemma_total_gas_bound(actions: Seq<ActionView>)
    requires
        first_action_error(actions) is None,
    ensures
        total_gas(actions) <= actions.len() * MAX_GAS_PER_ACTION,
    decreases actions.len(),
{
    if actions.len() > 0 {
        lemma_total_gas_bound(actions.drop_last());
        assert(actions.last().gas() <= MAX_GAS_PER_ACTION);
        assert(actions.len() * MAX_GAS_PER_ACTION == actions.drop_last().len()
            * MAX_GAS_PER_ACTION + MAX_GAS_PER_ACTION) by (nonlinear_arith)
            requires
                actions.drop_last().len() == actions.len() - 1,
        ;
    }
}

/// Checks one action against the rules.
pub fn check_action(action: &Action) -> (r: Option<ValidationError>)
    ensures
        r == action_error(action@),
{
    match action {
        Action::Transfer { amount } => {
            if *amount == 0 {
                Some(ValidationError::ZeroTransferAmount)
            } else {
                None
            }
        },
        Action::FunctionCall { method_name, args, gas, deposit } => {
            if args.len() > MAX_ARGS_LEN {
                Some(ValidationError::ArgsTooLarge)
            } else if method_name.as_str().as_bytes().len() > MAX_METHOD_NAME_LEN {
                Some(ValidationError::MethodNameTooLong)
            } else if method_name.as_str().is_empty() {
                Some(ValidationError::EmptyMethodName)
            } else if *gas == 0 {
                Some(ValidationError::ZeroGas)
            } else if *gas > MAX_GAS_PER_ACTION {
                Some(ValidationError::GasPerActionExceeded)
            } else {
                None
            }
        },
    }
}

/// Validates a batch of actions and returns the value it commits.
///
/// The batch is refused with the first rule it breaks: the batch rules come
/// first, then the actions in order, then the total compute budget.
pub fn validate_actions(actions: &Vec<Action>) -> (r: Result<u128, ValidationError>)
    ensures
        r == validation_outcome(actions.deep_view()),
{
    let ghost all = actions.deep_view();
    if actions.len() == 0 {
        return Err(ValidationError::EmptyActions);
    }
    if actions.len() > MAX_ACTIONS {
        return Err(ValidationError::TooManyActions);
    }
    let mut gas_sum: u64 = 0;
    let mut value_sum: u128 = 0;
    let mut i: usize = 0;
    while i < actions.len()
        invariant
            i <= actions.len() <= MAX_ACTIONS,
            all == actions.deep_view(),
            first_action_error(all.take(i as int)) is None,
            gas_sum == total_gas(all.take(i as int)),
            value_sum == capped_value(all.take(i as int)),
        decreases actions.len() - i,
    {
        let ghost front = all.take(i as int);
        let ghost next = all.take(i + 1);
        proof {
            assert(next.drop_last() =~= front);
            assert(next.last() == actions[i as int]@);
            lemma_total_gas_bound(front);
            assert(front.len() * MAX_GAS_PER_ACTION <= 10 * MAX_GAS_PER_ACTION)
                by (nonlinear_arith)
                requires
                    front.len() <= 10,
            ;
        }
        match check_action(&actions[i]) {
            Some(e) => {
                proof {
                    lemma_error_stays(all, i + 1);
                    assert(all.take(all.len() as int) =~= all);
                }
                return Err(e);
            },
            None => {},
        }
        match &actions[i] {
            Action::Transfer { amount } => {
                value_sum = value_sum.saturating_add(*amount);
            },
            Action::FunctionCall { method_name, args, gas, deposit } => {
                gas_sum = gas_sum + *gas;
                value_sum = value_sum.saturating_add(*deposit);
            },
        }
        i += 1;
    }
    proof {
        assert(all.take(all.len() as int) =~= all);
    }
    if gas_sum > MAX_TOTAL_GAS {
        return Err(ValidationError::TotalGasExceeded);
    }
    Ok(value_sum)
}

/// An error found in a prefix is the error of every longer prefix.
pub proof fn lemma_error_stays(actions: Seq<ActionView>, n: int)
    requires
        0 <= n <= actions.len(),
        first_action_error(actions.take(n)) is Some,
    ensures
        first_action_error(actions) == first_action_error(actions.take(n)),
    decreases actions.len() - n,
{
    if n < actions.len() {
        assert(actions.take(n + 1).drop_last() =~= actions.take(n));
        lemma_error_stays(actions, n + 1);
    } else {
        assert(actions.take(n) =~= actions);
    }
}

/// The value that a record commits: the sum over its actions, held at the
/// largest `u128`.
pub fn calculate_transaction_deposit(tx: &Transaction) -> (r: u128)
    ensures
        r == capped_value(tx@.actions),
{
    let ghost all = tx.actions.deep_view();
    let mut acc: u128 = 0;
    let mut i: usize = 0;
    while i < tx.actions.len()
        invariant
            i <= tx.actions.len(),
            all == tx.actions.deep_view(),
            acc == capped_value(all.take(i as int)),
        decreases tx.actions.len() - i,
    {
        proof {
            assert(all.take(i + 1).drop_last() =~= all.take(i as int));
            assert(all.take(i + 1).last() == tx.actions[i as int]@);
        }
        match &tx.actions[i] {
            Action::Transfer { amount } => {
                acc = acc.saturating_add(*amount);
            },
            Action::FunctionCall { method_name, args, gas, deposit } => {
                acc = acc.saturating_add(*deposit);
            },
        }
        i += 1;
    }
    proof {
        assert(all.take(all.len() as int) =~= all);
    }
    acc
}

} // verus!
