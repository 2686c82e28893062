//! The error taxonomy of the transaction pipeline. Every failure travels to
//! the top of the pipeline as one of these variants and is rendered as a
//! single terminal message; nothing is retried internally.

use vstd::prelude::*;

use crate::text::{spec_digits, u128_to_string};

verus! {

/// An error raised by on-chain logic, identified only by its numeric pallet
/// and error indices; no human-readable resolution is attempted because the
/// runtime metadata needed for it is not modelled here.
#[derive(Clone, Copy, Debug, PartialEq, Eq, Structural)]
pub struct ModuleErrorData {
    /// Index of the pallet that raised the error.
    pub pallet_index: u8,
    /// Index of the error within that pallet.
    pub error_index: u8,
}

/// A terminal failure of the transaction pipeline.
#[derive(Clone, Debug, PartialEq, Eq)]
pub enum ErrorVariant {
    /// A balance string could not be denominated; carries the offending text.
    InvalidAmount(String),
    /// The secret URI did not yield a signing key pair.
    InvalidSecret,
    /// The RPC connection or I/O failed; carries the transport's own text.
    TransportError(String),
    /// A binary response did not match the expected shape.
    DecodeError,
    /// Debug-message bytes were not valid text.
    EncodingError,
    /// The dry-run reverted on-chain; submission is never attempted.
    SimulationFailure(ModuleErrorData),
    /// The submitted extrinsic failed inside its block.
    ModuleError(ModuleErrorData),
    /// The operator declined to submit the transaction.
    Declined,
    /// The confirmation input was neither empty, `y` nor `n`; carries the
    /// offending text verbatim.
    InvalidInput(String),
    /// The node never reported inclusion of the transaction.
    Timeout,
}

/// The rendering of a module error: `pallet index P, error index E`.
pub open spec fn spec_module_error_text(m: ModuleErrorData) -> Seq<char> {
    seq!['p', 'a', 'l', 'l', 'e', 't', ' ', 'i', 'n', 'd', 'e', 'x', ' '] + spec_digits(
        m.pallet_index as nat,
    ) + seq![',', ' ', 'e', 'r', 'r', 'o', 'r', ' ', 'i', 'n', 'd', 'e', 'x', ' '] + spec_digits(
        m.error_index as nat,
    )
}

/// The single terminal message each error variant is rendered as.
pub open spec fn spec_error_message(e: ErrorVariant) -> Seq<char> {
    match e {
        ErrorVariant::InvalidAmount(s) => "Invalid amount '"@ + s@ + "'"@,
        ErrorVariant::InvalidSecret => "Secret string error"@,
        ErrorVariant::TransportError(s) => s@,
        ErrorVariant::DecodeError => "Error decoding binary response"@,
        ErrorVariant::EncodingError => "Error decoding UTF8 debug message bytes"@,
        ErrorVariant::SimulationFailure(m) => "Pre-submission dry-run failed: "@
            + spec_module_error_text(m),
        ErrorVariant::ModuleError(m) => "Module error: "@ + spec_module_error_text(m),
        ErrorVariant::Declined => "Transaction not submitted"@,
        ErrorVariant::InvalidInput(s) => "Expected either 'y' or 'n', got '"@ + s@ + "'"@,
        ErrorVariant::Timeout => "Transaction was not included in a block"@,
    }
}

/// Renders a module error's indices.
pub fn module_error_text(m: &ModuleErrorData) -> (r: String)
    ensures
        r@ == spec_module_error_text(*m),
{
    proof {
        reveal_strlit("pallet index ");
        reveal_strlit(", error index ");
        assert("pallet index "@ =~= seq![
            'p', 'a', 'l', 'l', 'e', 't', ' ', 'i', 'n', 'd', 'e', 'x', ' ',
        ]);
        assert(", error index "@ =~= seq![
            ',', ' ', 'e', 'r', 'r', 'o', 'r', ' ', 'i', 'n', 'd', 'e', 'x', ' ',
        ]);
    }
    let mut out = String::from_str("pallet index ");
    let pallet = u128_to_string(m.pallet_index as u128);
    out.append(pallet.as_str());
    out.append(", error index ");
    let error = u128_to_string(m.error_index as u128);
    out.append(error.as_str());
    out
}

impl ErrorVariant {
    /// The terminal message for this failure, as printed before the process
    /// exits non-zero.
    pub fn message(&self) -> (r: String)
        ensures
            r@ == spec_error_message(*self),
    {
        match self {
            ErrorVariant::InvalidAmount(s) => {
                let mut out = String::from_str("Invalid amount '");
                out.append(s.as_str());
                out.append("'");
                out
            },
            ErrorVariant::InvalidSecret => String::from_str("Secret string error"),
            ErrorVariant::TransportError(s) => s.clone(),
            ErrorVariant::DecodeError => String::from_str("Error decoding binary response"),
            ErrorVariant::EncodingError => String::from_str(
                "Error decoding UTF8 debug message bytes",
            ),
            ErrorVariant::SimulationFailure(m) => {
                let mut out = String::from_str("Pre-submission dry-run failed: ");
                let tail = module_error_text(m);
                out.append(tail.as_str());
                out
            },
            ErrorVariant::ModuleError(m) => {
                let mut out = String::from_str("Module error: ");
                let tail = module_error_text(m);
                out.append(tail.as_str());
                out
            },
            ErrorVariant::Declined => String::from_str("Transaction not submitted"),
            ErrorVariant::InvalidInput(s) => {
                let mut out = String::from_str("Expected either 'y' or 'n', got '");
                out.append(s.as_str());
                out.append("'");
                out
            },
            ErrorVariant::Timeout => String::from_str("Transaction was not included in a block"),
        }
    }
}

} // verus!
