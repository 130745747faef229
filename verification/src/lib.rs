//! Seal-based confidential-asset transfer protocol core.
//!
//! The library orchestrates a five-stage transfer lifecycle over Bitcoin
//! outputs — issue, invoice, psbt, pay, accept — together with the single-use
//! seal blinding primitive, Diffie–Hellman identity key derivation, and a
//! blob store used to exchange artifacts between counterparties.

pub mod blob;
pub mod contract;
pub mod errors;
pub mod hexenc;
pub mod keys;
pub mod ledger;
pub mod seal;
pub mod util;
