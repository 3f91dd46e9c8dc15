use vstd::prelude::*;

verus! {

/// Failure taxonomy shared by the wallet core.
///
/// `NotInitialized` marks use of a subsystem before setup, `InvalidInput` a
/// malformed address, network name, derivation path or hex string,
/// `InsufficientFunds` and `FundsNotYetEligible` the two distinct shortfall
/// cases of collateral selection (the latter means settling first would make
/// enough funds eligible), `SigningFailure` a failure in the signature
/// library, and `StateConflict` a claim or refund attempted outside the
/// permitted swap status.
#[derive(Clone, Copy, Debug, PartialEq, Eq, Structural)]
pub enum WalletError {
    NotInitialized,
    InvalidInput,
    InsufficientFunds { needed_sats: u64, available_sats: u64 },
    FundsNotYetEligible { needed_sats: u64, eligible_sats: u64, total_sats: u64 },
    SigningFailure,
    StateConflict,
}

} // verus!
