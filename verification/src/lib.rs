//! A multi-party transaction-approval engine with machine-checked contracts,
//! together with the release tooling that checks artifact digests.
//!
//! The engine is one value, [`MultisigContract`], that each operation takes
//! by reference together with what the host knows of the call. An operation
//! answers with the events to report and the outside calls to make, or with
//! the reason for which it is refused; a refused operation changes nothing.

pub mod approval;
pub mod build_manifest;
pub mod checksum;
pub mod cleanup;
pub mod contract;
pub mod digest;
pub mod execution;
pub mod laws;
pub mod ledger;
pub mod migration;
pub mod project;
pub mod queries;
pub mod registry;
pub mod storage;
pub mod text;
pub mod types;
pub mod validation;

pub use contract::{CallContext, MultisigContract, MultisigError};
pub use storage::{MultisigStorage, TransactionStorage};
pub use types::{Action, MultisigEvent, Transaction};
pub use validation::{calculate_transaction_deposit, validate_actions};
