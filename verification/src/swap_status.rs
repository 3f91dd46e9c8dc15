use vstd::prelude::*;
use crate::errors::WalletError;
use crate::strutil::str_eq;

verus! {

/// Status of an atomic swap, shared by the three swap directions
/// (BTC to EVM, EVM to BTC, EVM to Lightning).
///
/// The happy path runs `Pending`, `ClientFundingSeen`, `ClientFunded`,
/// `ServerFunded`, `ClientRedeeming`, `ClientRedeemed`, `ServerRedeemed`.
/// The alternate exits are `Expired`, the refunded family, the two invalid
/// funding outcomes, and the terminal failure
/// `ClientRedeemedAndClientRefunded`.
#[derive(Clone, Copy, Debug, PartialEq, Eq, Structural)]
pub enum SwapStatus {
    Pending,
    ClientFundingSeen,
    ClientFunded,
    ServerFunded,
    ClientRedeeming,
    ClientRedeemed,
    ServerRedeemed,
    Expired,
    ClientRefunded,
    ClientFundedServerRefunded,
    ClientRefundedServerFunded,
    ClientRefundedServerRefunded,
    ClientInvalidFunded,
    ClientFundedTooLate,
    ClientRedeemedAndClientRefunded,
}

/// The swap may be claimed only while the counterparty server has locked its
/// funds, which is exactly the `ServerFunded` status.
pub open spec fn spec_can_claim(s: SwapStatus) -> bool {
    s is ServerFunded
}

/// The swap may be refunded only in the three states where the client funded
/// but the server did not cooperate.
pub open spec fn spec_can_refund(s: SwapStatus) -> bool {
    s is ClientRefundedServerFunded || s is ClientInvalidFunded || s is ClientFundedTooLate
}

/// A terminal status: the engine treats further claim or refund attempts as
/// no-ops once one of these is reached.
pub open spec fn spec_is_terminal(s: SwapStatus) -> bool {
    ||| s is ServerRedeemed
    ||| s is Expired
    ||| s is ClientRefunded
    ||| s is ClientFundedServerRefunded
    ||| s is ClientRefundedServerRefunded
    ||| s is ClientRedeemedAndClientRefunded
}

impl SwapStatus {
    /// True exactly when the user interface may offer a claim: the
    /// counterparty has locked funds on its side, so redeeming is safe.
    pub fn can_claim(&self) -> (r: bool)
        ensures
            r == spec_can_claim(*self),
    {
        matches!(self, SwapStatus::ServerFunded)
    }

    /// True exactly when the user interface may offer a refund: the client
    /// funded but the server did not cooperate.
    pub fn can_refund(&self) -> (r: bool)
        ensures
            r == spec_can_refund(*self),
    {
        matches!(
            self,
            SwapStatus::ClientRefundedServerFunded
                | SwapStatus::ClientInvalidFunded
                | SwapStatus::ClientFundedTooLate
        )
    }

    /// True exactly for the terminal statuses.
    pub fn is_terminal(&self) -> (r: bool)
        ensures
            r == spec_is_terminal(*self),
    {
        matches!(
            self,
            SwapStatus::ServerRedeemed
                | SwapStatus::Expired
                | SwapStatus::ClientRefunded
                | SwapStatus::ClientFundedServerRefunded
                | SwapStatus::ClientRefundedServerRefunded
                | SwapStatus::ClientRedeemedAndClientRefunded
        )
    }

    /// The wire name of the status, as the counterparty server and the
    /// storage rows spell it.
    pub fn name(&self) -> (r: &'static str)
        ensures
            r@ == spec_status_name(*self),
    {
        match self {
            SwapStatus::Pending => "Pending",
            SwapStatus::ClientFundingSeen => "ClientFundingSeen",
            SwapStatus::ClientFunded => "ClientFunded",
            SwapStatus::ServerFunded => "ServerFunded",
            SwapStatus::ClientRedeeming => "ClientRedeeming",
            SwapStatus::ClientRedeemed => "ClientRedeemed",
            SwapStatus::ServerRedeemed => "ServerRedeemed",
            SwapStatus::Expired => "Expired",
            SwapStatus::ClientRefunded => "ClientRefunded",
            SwapStatus::ClientFundedServerRefunded => "ClientFundedServerRefunded",
            SwapStatus::ClientRefundedServerFunded => "ClientRefundedServerFunded",
            SwapStatus::ClientRefundedServerRefunded => "ClientRefundedServerRefunded",
            SwapStatus::ClientInvalidFunded => "ClientInvalidFunded",
            SwapStatus::ClientFundedTooLate => "ClientFundedTooLate",
            SwapStatus::ClientRedeemedAndClientRefunded => "ClientRedeemedAndClientRefunded",
        }
    }
}

/// Wire name of each status.
pub open spec fn spec_status_name(s: SwapStatus) -> Seq<char> {
    match s {
        SwapStatus::Pending => "Pending"@,
        SwapStatus::ClientFundingSeen => "ClientFundingSeen"@,
        SwapStatus::ClientFunded => "ClientFunded"@,
        SwapStatus::ServerFunded => "ServerFunded"@,
        SwapStatus::ClientRedeeming => "ClientRedeeming"@,
        SwapStatus::ClientRedeemed => "ClientRedeemed"@,
        SwapStatus::ServerRedeemed => "ServerRedeemed"@,
        SwapStatus::Expired => "Expired"@,
        SwapStatus::ClientRefunded => "ClientRefunded"@,
        SwapStatus::ClientFundedServerRefunded => "ClientFundedServerRefunded"@,
        SwapStatus::ClientRefundedServerFunded => "ClientRefundedServerFunded"@,
        SwapStatus::ClientRefundedServerRefunded => "ClientRefundedServerRefunded"@,
        SwapStatus::ClientInvalidFunded => "ClientInvalidFunded"@,
        SwapStatus::ClientFundedTooLate => "ClientFundedTooLate"@,
        SwapStatus::ClientRedeemedAndClientRefunded => "ClientRedeemedAndClientRefunded"@,
    }
}

/// The status whose wire name is `s`, if any.
pub open spec fn spec_status_of_name(s: Seq<char>) -> Option<SwapStatus> {
    if s == "Pending"@ {
        Some(SwapStatus::Pending)
    } else if s == "ClientFundingSeen"@ {
        Some(SwapStatus::ClientFundingSeen)
    } else if s == "ClientFunded"@ {
        Some(SwapStatus::ClientFunded)
    } else if s == "ServerFunded"@ {
        Some(SwapStatus::ServerFunded)
    } else if s == "ClientRedeeming"@ {
        Some(SwapStatus::ClientRedeeming)
    } else if s == "ClientRedeemed"@ {
        Some(SwapStatus::ClientRedeemed)
    } else if s == "ServerRedeemed"@ {
        Some(SwapStatus::ServerRedeemed)
    } else if s == "Expired"@ {
        Some(SwapStatus::Expired)
    } else if s == "ClientRefunded"@ {
        Some(SwapStatus::ClientRefunded)
    } else if s == "ClientFundedServerRefunded"@ {
        Some(SwapStatus::ClientFundedServerRefunded)
    } else if s == "ClientRefundedServerFunded"@ {
        Some(SwapStatus::ClientRefundedServerFunded)
    } else if s == "ClientRefundedServerRefunded"@ {
        Some(SwapStatus::ClientRefundedServerRefunded)
    } else if s == "ClientInvalidFunded"@ {
        Some(SwapStatus::ClientInvalidFunded)
    } else if s == "ClientFundedTooLate"@ {
        Some(SwapStatus::ClientFundedTooLate)
    } else if s == "ClientRedeemedAndClientRefunded"@ {
        Some(SwapStatus::ClientRedeemedAndClientRefunded)
    } else {
        None
    }
}

/// Parse a status from its wire name; rejects anything outside the fifteen
/// defined names, so a newly added wire status cannot silently fall through.
pub fn parse_swap_status(s: &str) -> (r: Result<SwapStatus, WalletError>)
    ensures
        r is Ok <==> spec_status_of_name(s@) is Some,
        r is Ok ==> Some(r->Ok_0) == spec_status_of_name(s@),
        r is Err ==> r->Err_0 == WalletError::InvalidInput,
{
    if str_eq(s, "Pending") {
        Ok(SwapStatus::Pending)
    } else if str_eq(s, "ClientFundingSeen") {
        Ok(SwapStatus::ClientFundingSeen)
    } else if str_eq(s, "ClientFunded") {
        Ok(SwapStatus::ClientFunded)
    } else if str_eq(s, "ServerFunded") {
        Ok(SwapStatus::ServerFunded)
    } else if str_eq(s, "ClientRedeeming") {
        Ok(SwapStatus::ClientRedeeming)
    } else if str_eq(s, "ClientRedeemed") {
        Ok(SwapStatus::ClientRedeemed)
    } else if str_eq(s, "ServerRedeemed") {
        Ok(SwapStatus::ServerRedeemed)
    } else if str_eq(s, "Expired") {
        Ok(SwapStatus::Expired)
    } else if str_eq(s, "ClientRefunded") {
        Ok(SwapStatus::ClientRefunded)
    } else if str_eq(s, "ClientFundedServerRefunded") {
        Ok(SwapStatus::ClientFundedServerRefunded)
    } else if str_eq(s, "ClientRefundedServerFunded") {
        Ok(SwapStatus::ClientRefundedServerFunded)
    } else if str_eq(s, "ClientRefundedServerRefunded") {
        Ok(SwapStatus::ClientRefundedServerRefunded)
    } else if str_eq(s, "ClientInvalidFunded") {
        Ok(SwapStatus::ClientInvalidFunded)
    } else if str_eq(s, "ClientFundedTooLate") {
        Ok(SwapStatus::ClientFundedTooLate)
    } else if str_eq(s, "ClientRedeemedAndClientRefunded") {
        Ok(SwapStatus::ClientRedeemedAndClientRefunded)
    } else {
        Err(WalletError::InvalidInput)
    }
}

/// A claim may be offered if and only if the status is `ServerFunded`, and a
/// refund if and only if the status is one of the three refundable variants;
/// the two predicates are never both true, and a terminal status allows
/// neither.
pub proof fn lemma_claim_refund_exclusive(s: SwapStatus)
    ensures
        spec_can_claim(s) <==> s is ServerFunded,
        spec_can_refund(s) <==> (s is ClientRefundedServerFunded || s is ClientInvalidFunded
            || s is ClientFundedTooLate),
        !(spec_can_claim(s) && spec_can_refund(s)),
        spec_is_terminal(s) ==> !spec_can_claim(s) && !spec_can_refund(s),
{
}

/// Simplified swap status shown by the user interface.
#[derive(Clone, Copy, Debug, PartialEq, Eq, Structural)]
pub enum SwapStatusSimple {
    /// Waiting for the user to deposit funds.
    WaitingForDeposit,
    /// The user deposited and the swap is processing.
    Processing,
    /// The swap completed.
    Completed,
    /// The swap expired without a deposit.
    Expired,
    /// The swap can be refunded.
    Refundable,
    /// The swap has been refunded.
    Refunded,
    /// The terminal failure state.
    Failed,
}

/// The exhaustive mapping from a wire status to the simplified status.
pub open spec fn spec_simple_status(s: SwapStatus) -> SwapStatusSimple {
    match s {
        SwapStatus::Pending => SwapStatusSimple::WaitingForDeposit,
        SwapStatus::ClientFundingSeen => SwapStatusSimple::Processing,
        SwapStatus::ClientFunded => SwapStatusSimple::Processing,
        SwapStatus::ServerFunded => SwapStatusSimple::Processing,
        SwapStatus::ClientRedeeming => SwapStatusSimple::Processing,
        SwapStatus::ClientRedeemed => SwapStatusSimple::Processing,
        SwapStatus::ServerRedeemed => SwapStatusSimple::Completed,
        SwapStatus::Expired => SwapStatusSimple::Expired,
        SwapStatus::ClientRefunded => SwapStatusSimple::Refunded,
        SwapStatus::ClientFundedServerRefunded => SwapStatusSimple::Refunded,
        SwapStatus::ClientRefundedServerFunded => SwapStatusSimple::Refundable,
        SwapStatus::ClientRefundedServerRefunded => SwapStatusSimple::Refunded,
        SwapStatus::ClientInvalidFunded => SwapStatusSimple::Refundable,
        SwapStatus::ClientFundedTooLate => SwapStatusSimple::Refundable,
        SwapStatus::ClientRedeemedAndClientRefunded => SwapStatusSimple::Failed,
    }
}

impl SwapStatusSimple {
    /// Map a wire status to the simplified status shown by the user
    /// interface, exhaustively over all fifteen variants.
    pub fn from_status(status: SwapStatus) -> (r: SwapStatusSimple)
        ensures
            r == spec_simple_status(status),
    {
        match status {
            SwapStatus::Pending => SwapStatusSimple::WaitingForDeposit,
            SwapStatus::ClientFundingSeen => SwapStatusSimple::Processing,
            SwapStatus::ClientFunded => SwapStatusSimple::Processing,
            SwapStatus::ServerFunded => SwapStatusSimple::Processing,
            SwapStatus::ClientRedeeming => SwapStatusSimple::Processing,
            SwapStatus::ClientRedeemed => SwapStatusSimple::Processing,
            SwapStatus::ServerRedeemed => SwapStatusSimple::Completed,
            SwapStatus::Expired => SwapStatusSimple::Expired,
            SwapStatus::ClientRefunded => SwapStatusSimple::Refunded,
            SwapStatus::ClientFundedServerRefunded => SwapStatusSimple::Refunded,
            SwapStatus::ClientRefundedServerFunded => SwapStatusSimple::Refundable,
            SwapStatus::ClientRefundedServerRefunded => SwapStatusSimple::Refunded,
            SwapStatus::ClientInvalidFunded => SwapStatusSimple::Refundable,
            SwapStatus::ClientFundedTooLate => SwapStatusSimple::Refundable,
            SwapStatus::ClientRedeemedAndClientRefunded => SwapStatusSimple::Failed,
        }
    }
}

/// Status of a VTXO-to-VTXO swap, a smaller machine with the same reading.
#[derive(Clone, Copy, Debug, PartialEq, Eq, Structural)]
pub enum VtxoSwapStatus {
    Pending,
    ClientFunded,
    ServerFunded,
    ClientRedeemed,
    ServerRedeemed,
    ClientRefunded,
    ClientFundedServerRefunded,
    Expired,
}

/// The VTXO swap status whose wire name is `s`, if any.
pub open spec fn spec_vtxo_status_of_name(s: Seq<char>) -> Option<VtxoSwapStatus> {
    if s == "Pending"@ {
        Some(VtxoSwapStatus::Pending)
    } else if s == "ClientFunded"@ {
        Some(VtxoSwapStatus::ClientFunded)
    } else if s == "ServerFunded"@ {
        Some(VtxoSwapStatus::ServerFunded)
    } else if s == "ClientRedeemed"@ {
        Some(VtxoSwapStatus::ClientRedeemed)
    } else if s == "ServerRedeemed"@ {
        Some(VtxoSwapStatus::ServerRedeemed)
    } else if s == "ClientRefunded"@ {
        Some(VtxoSwapStatus::ClientRefunded)
    } else if s == "ClientFundedServerRefunded"@ {
        Some(VtxoSwapStatus::ClientFundedServerRefunded)
    } else if s == "Expired"@ {
        Some(VtxoSwapStatus::Expired)
    } else {
        None
    }
}

/// Parse a VTXO swap status from its wire name.
pub fn parse_vtxo_swap_status(s: &str) -> (r: Result<VtxoSwapStatus, WalletError>)
    ensures
        r is Ok <==> spec_vtxo_status_of_name(s@) is Some,
        r is Ok ==> Some(r->Ok_0) == spec_vtxo_status_of_name(s@),
        r is Err ==> r->Err_0 == WalletError::InvalidInput,
{
    if str_eq(s, "Pending") {
        Ok(VtxoSwapStatus::Pending)
    } else if str_eq(s, "ClientFunded") {
        Ok(VtxoSwapStatus::ClientFunded)
    } else if str_eq(s, "ServerFunded") {
        Ok(VtxoSwapStatus::ServerFunded)
    } else if str_eq(s, "ClientRedeemed") {
        Ok(VtxoSwapStatus::ClientRedeemed)
    } else if str_eq(s, "ServerRedeemed") {
        Ok(VtxoSwapStatus::ServerRedeemed)
    } else if str_eq(s, "ClientRefunded") {
        Ok(VtxoSwapStatus::ClientRefunded)
    } else if str_eq(s, "ClientFundedServerRefunded") {
        Ok(VtxoSwapStatus::ClientFundedServerRefunded)
    } else if str_eq(s, "Expired") {
        Ok(VtxoSwapStatus::Expired)
    } else {
        Err(WalletError::InvalidInput)
    }
}

} // verus!
