//! Core logic of a mobile Bitcoin wallet that takes part in several
//! value-transfer protocols at once: an off-chain Ark protocol whose funds are
//! virtual transaction outputs (VTXOs), Lightning payments through submarine
//! swaps, cross-chain atomic swaps against EVM stablecoins, and a
//! Bitcoin-collateralized lending platform.
//!
//! The crate covers the pieces that keep those protocols consistent: key
//! derivation from a single seed phrase with one path per subsystem, selection
//! of spendable funds under the protocol's minimum-expiry rule, the status
//! state machine of an atomic swap, and the per-swap persistence model with
//! idempotent upsert.

pub mod calldata;
pub mod collateral;
pub mod errors;
pub mod hexutil;
pub mod keys;
pub mod lendasat;
pub mod market;
pub mod provider;
pub mod psbt;
pub mod strutil;
pub mod swap_status;
pub mod swap_store;
pub mod uri;
pub mod wallet;
