use vstd::prelude::*;

verus! {

/// The error taxonomy of the protocol core. Every fallible operation reports
/// one of these kinds; transport-level wrapping is left to the caller.
#[derive(Clone, Copy, PartialEq, Eq, Structural, Debug)]
pub enum ProtocolError {
    /// Malformed input, rejected before any state change.
    Validation,
    /// Seal construction or verification failure.
    Seal,
    /// No covering set of owned seals reaches the requested amount.
    InsufficientFunds,
    /// The invoice was already consumed by an earlier transfer.
    InvoiceAlreadyUsed,
    /// A required input key is unavailable for signing.
    Signing,
    /// A blob or contract lookup missed.
    NotFound,
    /// A key failed to parse or is not a valid curve point.
    InvalidKey,
}

} // verus!
