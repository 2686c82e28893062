//! Building blocks for preparing, simulating, confirming and reporting a
//! signed transaction ("extrinsic") sent to a Substrate contracts node.
//!
//! The crate holds the decision logic of the workflow — denominating balance
//! amounts, classifying dry-run outcomes, gating submission on operator
//! confirmation, and rendering aligned reports — as verified functions.
//! Network transport, key signing and terminal output sit behind narrow
//! trusted boundaries or outside the library entirely.

pub mod balance;
pub mod confirm;
pub mod deposit;
pub mod error;
pub mod opts;
pub mod pipeline;
pub mod report;
pub mod text;

pub use balance::{BalanceVariant, TokenMetadata};
pub use deposit::StorageDeposit;
pub use error::{ErrorVariant, ModuleErrorData};
pub use opts::ExtrinsicOpts;
pub use report::{
    display_contract_exec_result, display_contract_exec_result_debug, ExecutionResult,
    MAX_KEY_COL_WIDTH,
};
pub use text::u128_to_string;
