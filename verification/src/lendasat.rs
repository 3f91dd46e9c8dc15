use vstd::prelude::*;
use crate::strutil::{contains, str_contains};

verus! {

/// Loan assets offered by the lending platform: stablecoins on several
/// chains, and fiat currencies.
#[derive(Clone, Copy, Debug, PartialEq, Eq, Structural)]
pub enum LoanAsset {
    UsdcPol,
    UsdtPol,
    UsdcEth,
    UsdtEth,
    UsdcStrk,
    UsdtStrk,
    UsdcSol,
    UsdtSol,
    UsdtLiquid,
    Usd,
    Eur,
    Chf,
    Mxn,
}

/// The fiat loan assets.
pub open spec fn spec_is_fiat(a: LoanAsset) -> bool {
    a is Usd || a is Eur || a is Chf || a is Mxn
}

impl LoanAsset {
    /// True exactly for the fiat currencies.
    pub fn is_fiat(&self) -> (r: bool)
        ensures
            r == spec_is_fiat(*self),
    {
        matches!(self, LoanAsset::Usd | LoanAsset::Eur | LoanAsset::Chf | LoanAsset::Mxn)
    }

    /// True exactly for the stablecoins: every asset that is not fiat.
    pub fn is_stablecoin(&self) -> (r: bool)
        ensures
            r == !spec_is_fiat(*self),
    {
        !self.is_fiat()
    }

    /// Human-readable name of the asset.
    pub fn display_name(&self) -> (r: &'static str)
        ensures
            r@ == spec_loan_asset_name(*self),
    {
        match self {
            LoanAsset::UsdcPol => "USDC on Polygon",
            LoanAsset::UsdtPol => "USDT on Polygon",
            LoanAsset::UsdcEth => "USDC on Ethereum",
            LoanAsset::UsdtEth => "USDT on Ethereum",
            LoanAsset::UsdcStrk => "USDC on Starknet",
            LoanAsset::UsdtStrk => "USDT on Starknet",
            LoanAsset::UsdcSol => "USDC on Solana",
            LoanAsset::UsdtSol => "USDT on Solana",
            LoanAsset::UsdtLiquid => "USDT on Liquid",
            LoanAsset::Usd => "USD",
            LoanAsset::Eur => "EUR",
            LoanAsset::Chf => "CHF",
            LoanAsset::Mxn => "MXN",
        }
    }
}

/// Human-readable name of each loan asset.
pub open spec fn spec_loan_asset_name(a: LoanAsset) -> Seq<char> {
    match a {
        LoanAsset::UsdcPol => "USDC on Polygon"@,
        LoanAsset::UsdtPol => "USDT on Polygon"@,
        LoanAsset::UsdcEth => "USDC on Ethereum"@,
        LoanAsset::UsdtEth => "USDT on Ethereum"@,
        LoanAsset::UsdcStrk => "USDC on Starknet"@,
        LoanAsset::UsdtStrk => "USDT on Starknet"@,
        LoanAsset::UsdcSol => "USDC on Solana"@,
        LoanAsset::UsdtSol => "USDT on Solana"@,
        LoanAsset::UsdtLiquid => "USDT on Liquid"@,
        LoanAsset::Usd => "USD"@,
        LoanAsset::Eur => "EUR"@,
        LoanAsset::Chf => "CHF"@,
        LoanAsset::Mxn => "MXN"@,
    }
}

/// What the loan collateral is held as: on-chain Bitcoin or an Ark VTXO.
#[derive(Clone, Copy, Debug, PartialEq, Eq, Structural)]
pub enum CollateralAsset {
    BitcoinBtc,
    ArkadeBtc,
}

impl CollateralAsset {
    /// Human-readable name of the collateral kind.
    pub fn display_name(&self) -> (r: &'static str)
        ensures
            *self is BitcoinBtc ==> r@ == "Bitcoin"@,
            *self is ArkadeBtc ==> r@ == "Arkade"@,
    {
        match self {
            CollateralAsset::BitcoinBtc => "Bitcoin",
            CollateralAsset::ArkadeBtc => "Arkade",
        }
    }
}

/// Status of a loan contract over its whole lifecycle.
#[derive(Clone, Copy, Debug, PartialEq, Eq, Structural)]
pub enum ContractStatus {
    Requested,
    Approved,
    CollateralSeen,
    CollateralConfirmed,
    PrincipalGiven,
    RepaymentProvided,
    RepaymentConfirmed,
    Undercollateralized,
    Defaulted,
    ClosingByClaim,
    Closed,
    Closing,
    ClosingByLiquidation,
    ClosedByLiquidation,
    ClosingByDefaulting,
    ClosedByDefaulting,
    Extended,
    Rejected,
    DisputeBorrowerStarted,
    DisputeLenderStarted,
    Cancelled,
    RequestExpired,
    ApprovalExpired,
    CollateralRecoverable,
    ClosingByRecovery,
    ClosedByRecovery,
}

/// The statuses in which the loan is ongoing.
pub open spec fn spec_contract_is_active(s: ContractStatus) -> bool {
    ||| s is CollateralConfirmed
    ||| s is PrincipalGiven
    ||| s is RepaymentProvided
    ||| s is Undercollateralized
}

/// The statuses in which the contract is finished.
pub open spec fn spec_contract_is_closed(s: ContractStatus) -> bool {
    ||| s is Closed
    ||| s is ClosedByLiquidation
    ||| s is ClosedByDefaulting
    ||| s is ClosedByRecovery
    ||| s is Cancelled
    ||| s is RequestExpired
    ||| s is ApprovalExpired
    ||| s is Rejected
}

impl ContractStatus {
    /// True exactly while the loan is ongoing.
    pub fn is_active(&self) -> (r: bool)
        ensures
            r == spec_contract_is_active(*self),
    {
        matches!(
            self,
            ContractStatus::CollateralConfirmed
                | ContractStatus::PrincipalGiven
                | ContractStatus::RepaymentProvided
                | ContractStatus::Undercollateralized
        )
    }

    /// The collateral may be claimed back if and only if the repayment has
    /// been confirmed.
    pub fn can_claim(&self) -> (r: bool)
        ensures
            r == (*self is RepaymentConfirmed),
    {
        matches!(self, ContractStatus::RepaymentConfirmed)
    }

    /// The collateral may be recovered if and only if the contract's
    /// timelock has expired and the platform marked it recoverable.
    pub fn can_recover(&self) -> (r: bool)
        ensures
            r == (*self is CollateralRecoverable),
    {
        matches!(self, ContractStatus::CollateralRecoverable)
    }

    /// True exactly for the finished statuses.
    pub fn is_closed(&self) -> (r: bool)
        ensures
            r == spec_contract_is_closed(*self),
    {
        matches!(
            self,
            ContractStatus::Closed
                | ContractStatus::ClosedByLiquidation
                | ContractStatus::ClosedByDefaulting
                | ContractStatus::ClosedByRecovery
                | ContractStatus::Cancelled
                | ContractStatus::RequestExpired
                | ContractStatus::ApprovalExpired
                | ContractStatus::Rejected
        )
    }

    /// Human-readable name of the status.
    pub fn display_name(&self) -> (r: &'static str)
        ensures
            r@ == spec_contract_status_name(*self),
    {
        match self {
            ContractStatus::Requested => "Requested",
            ContractStatus::Approved => "Approved",
            ContractStatus::CollateralSeen => "Collateral Seen",
            ContractStatus::CollateralConfirmed => "Collateral Confirmed",
            ContractStatus::PrincipalGiven => "Principal Given",
            ContractStatus::RepaymentProvided => "Repayment Provided",
            ContractStatus::RepaymentConfirmed => "Repayment Confirmed",
            ContractStatus::Undercollateralized => "Undercollateralized",
            ContractStatus::Defaulted => "Defaulted",
            ContractStatus::ClosingByClaim => "Closing (Claim)",
            ContractStatus::Closed => "Closed",
            ContractStatus::Closing => "Closing",
            ContractStatus::ClosingByLiquidation => "Closing (Liquidation)",
            ContractStatus::ClosedByLiquidation => "Closed (Liquidation)",
            ContractStatus::ClosingByDefaulting => "Closing (Default)",
            ContractStatus::ClosedByDefaulting => "Closed (Default)",
            ContractStatus::Extended => "Extended",
            ContractStatus::Rejected => "Rejected",
            ContractStatus::DisputeBorrowerStarted => "Dispute (Borrower)",
            ContractStatus::DisputeLenderStarted => "Dispute (Lender)",
            ContractStatus::Cancelled => "Cancelled",
            ContractStatus::RequestExpired => "Request Expired",
            ContractStatus::ApprovalExpired => "Approval Expired",
            ContractStatus::CollateralRecoverable => "Collateral Recoverable",
            ContractStatus::ClosingByRecovery => "Closing (Recovery)",
            ContractStatus::ClosedByRecovery => "Closed (Recovery)",
        }
    }
}

/// Human-readable name of each contract status.
pub open spec fn spec_contract_status_name(s: ContractStatus) -> Seq<char> {
    match s {
        ContractStatus::Requested => "Requested"@,
        ContractStatus::Approved => "Approved"@,
        ContractStatus::CollateralSeen => "Collateral Seen"@,
        ContractStatus::CollateralConfirmed => "Collateral Confirmed"@,
        ContractStatus::PrincipalGiven => "Principal Given"@,
        ContractStatus::RepaymentProvided => "Repayment Provided"@,
        ContractStatus::RepaymentConfirmed => "Repayment Confirmed"@,
        ContractStatus::Undercollateralized => "Undercollateralized"@,
        ContractStatus::Defaulted => "Defaulted"@,
        ContractStatus::ClosingByClaim => "Closing (Claim)"@,
        ContractStatus::Closed => "Closed"@,
        ContractStatus::Closing => "Closing"@,
        ContractStatus::ClosingByLiquidation => "Closing (Liquidation)"@,
        ContractStatus::ClosedByLiquidation => "Closed (Liquidation)"@,
        ContractStatus::ClosingByDefaulting => "Closing (Default)"@,
        ContractStatus::ClosedByDefaulting => "Closed (Default)"@,
        ContractStatus::Extended => "Extended"@,
        ContractStatus::Rejected => "Rejected"@,
        ContractStatus::DisputeBorrowerStarted => "Dispute (Borrower)"@,
        ContractStatus::DisputeLenderStarted => "Dispute (Lender)"@,
        ContractStatus::Cancelled => "Cancelled"@,
        ContractStatus::RequestExpired => "Request Expired"@,
        ContractStatus::ApprovalExpired => "Approval Expired"@,
        ContractStatus::CollateralRecoverable => "Collateral Recoverable"@,
        ContractStatus::ClosingByRecovery => "Closing (Recovery)"@,
        ContractStatus::ClosedByRecovery => "Closed (Recovery)"@,
    }
}

/// Availability of a loan offer.
#[derive(Clone, Copy, Debug, PartialEq, Eq, Structural)]
pub enum LoanOfferStatus {
    Available,
    Unavailable,
    Deleted,
}

/// How the loan principal is paid out.
#[derive(Clone, Copy, Debug, PartialEq, Eq, Structural)]
pub enum LoanPayout {
    Direct,
    Indirect,
    MoonCardInstant,
}

/// Shape of the repayment schedule.
#[derive(Clone, Copy, Debug, PartialEq, Eq, Structural)]
pub enum RepaymentPlan {
    Bullet,
    InterestOnlyWeekly,
    InterestOnlyMonthly,
}

impl RepaymentPlan {
    /// Human-readable name of the plan.
    pub fn display_name(&self) -> (r: &'static str)
        ensures
            *self is Bullet ==> r@ == "Bullet (Full at end)"@,
            *self is InterestOnlyWeekly ==> r@ == "Interest Only (Weekly)"@,
            *self is InterestOnlyMonthly ==> r@ == "Interest Only (Monthly)"@,
    {
        match self {
            RepaymentPlan::Bullet => "Bullet (Full at end)",
            RepaymentPlan::InterestOnlyWeekly => "Interest Only (Weekly)",
            RepaymentPlan::InterestOnlyMonthly => "Interest Only (Monthly)",
        }
    }
}

/// Status of a single repayment installment.
#[derive(Clone, Copy, Debug, PartialEq, Eq, Structural)]
pub enum InstallmentStatus {
    Pending,
    Paid,
    Confirmed,
    Late,
    Cancelled,
}

/// Public statistics of a lender.
pub struct LenderStats {
    pub id: String,
    pub name: String,
    pub joined_at: String,
    pub successful_contracts: i32,
    pub vetted: bool,
    pub timezone: Option<String>,
}

/// One recorded on-chain transaction of a loan contract.
pub struct LoanTransaction {
    pub id: i64,
    pub contract_id: String,
    pub transaction_type: String,
    pub txid: String,
    pub timestamp: String,
}

/// Response of the authentication challenge request.
pub struct PubkeyChallengeResponse {
    pub challenge: String,
}

/// Request body of the signature verification step.
pub struct PubkeyVerifyRequest {
    pub pubkey: String,
    pub challenge: String,
    pub signature: String,
}

/// User record returned by the authentication endpoints.
pub struct User {
    pub id: String,
    pub name: String,
    pub email: Option<String>,
    pub verified: bool,
    pub totp_enabled: bool,
    pub created_at: String,
    pub updated_at: String,
}

/// Response of a successful login.
pub struct PubkeyVerifyResponse {
    pub token: String,
    pub user: User,
    pub enabled_features: Vec<LoanFeature>,
}

/// A feature flag of the lending platform.
pub struct LoanFeature {
    pub id: String,
    pub name: String,
}

/// Request body of user registration.
pub struct PubkeyRegisterRequest {
    pub pubkey: String,
    pub email: String,
    pub name: String,
    pub invite_code: Option<String>,
}

/// Response of user registration.
pub struct PubkeyRegisterResponse {
    pub user_id: String,
}

/// Response carrying the collateral claim PSBT.
pub struct ClaimPsbtResponse {
    pub psbt: String,
    pub collateral_descriptor: String,
    pub borrower_pk: String,
}

/// Response carrying the Ark collateral claim PSBTs.
pub struct ArkClaimPsbtResponse {
    pub ark_psbt: String,
    pub checkpoint_psbts: Vec<String>,
}

/// Response carrying the Ark settlement intent and forfeit PSBTs.
pub struct ArkSettlePsbtResponse {
    pub intent_message: String,
    pub intent_proof: String,
    pub forfeit_psbts: Vec<String>,
    pub delegate_cosigner_pk: String,
    pub user_pk: String,
    pub derivation_path: Option<String>,
}

/// Request body that finishes an Ark settlement.
pub struct FinishArkSettleRequest {
    pub intent_psbt: String,
    pub forfeit_psbts: Vec<String>,
}

/// Response of a finished Ark settlement.
pub struct FinishArkSettleResponse {
    pub commitment_txid: String,
}

/// Request body for broadcasting a signed claim or recovery transaction.
pub struct BroadcastTxRequest {
    pub tx: String,
}

/// Request body for broadcasting signed Ark claim transactions.
pub struct BroadcastArkClaimRequest {
    pub ark_psbt: String,
    pub checkpoint_psbts: Vec<String>,
}

/// Response of a broadcast: the transaction id.
pub struct BroadcastTxResponse {
    pub txid: String,
}

/// Response of the settle-ark endpoint, used when the contract's VTXOs are
/// recoverable.
pub struct SettleArkPsbtResponse {
    pub intent_message: String,
    pub intent_proof: String,
    pub forfeit_psbts: Vec<String>,
    pub delegate_cosigner_pk: String,
    pub user_pk: String,
    pub derivation_path: Option<String>,
}

/// Request body of the finish-settle-ark endpoint.
pub struct FinishSettleArkRequest {
    pub intent_psbt: String,
    pub forfeit_psbts: Vec<String>,
}

/// Response of the finish-settle-ark endpoint.
pub struct FinishSettleArkResponse {
    pub commitment_txid: String,
}

/// Query filters for the contract listing.
pub struct ContractFilters {
    pub page: Option<i32>,
    pub limit: Option<i32>,
    pub status: Option<Vec<ContractStatus>>,
    pub sort_by: Option<String>,
    pub sort_order: Option<String>,
}

/// How long a stored token is trusted when the server gave no expiry.
pub const DEFAULT_AUTH_LIFETIME_SECONDS: i64 = 24 * 60 * 60;

/// Authentication data cached on disk after a successful login. It is a
/// soft-expiring cache: the server remains the judge of token validity.
pub struct StoredAuth {
    pub jwt_token: String,
    pub user_id: String,
    pub user_name: String,
    pub user_email: Option<String>,
    pub pubkey: String,
    pub created_at: i64,
    pub expires_at: Option<i64>,
}

/// The stored token counts as expired at time `now` when its recorded expiry
/// has passed, or, with no recorded expiry, one day after it was issued.
pub open spec fn spec_auth_expired_at(auth: StoredAuth, now: i64) -> bool {
    match auth.expires_at {
        Some(e) => now >= e,
        None => now >= auth.created_at + DEFAULT_AUTH_LIFETIME_SECONDS,
    }
}

impl StoredAuth {
    /// Whether the token counts as expired at the given Unix time.
    pub fn is_expired_at(&self, now: i64) -> (r: bool)
        ensures
            r == spec_auth_expired_at(*self, now),
    {
        match self.expires_at {
            Some(e) => now >= e,
            None => {
                match self.created_at.checked_add(DEFAULT_AUTH_LIFETIME_SECONDS) {
                    Some(deadline) => now >= deadline,
                    None => false,
                }
            },
        }
    }

    /// Whether the token is potentially expired now. The clock is read once;
    /// the decision on the value read is `is_expired_at`.
    pub fn is_potentially_expired(&self) -> (r: bool)
        ensures
            exists|now: i64| r == spec_auth_expired_at(*self, now),
    {
        let now = unix_time_now();
        self.is_expired_at(now)
    }
}

/// Relies on std::time::SystemTime::now: seconds since the Unix epoch, or 0
/// when the clock reads before the epoch. Nothing is promised of the value.
#[verifier::external_body]
fn unix_time_now() -> i64 {
    match std::time::SystemTime::now().duration_since(std::time::UNIX_EPOCH) {
        Ok(d) => d.as_secs() as i64,
        Err(_) => 0,
    }
}

/// Result of an authentication attempt against the lending platform.
pub enum AuthResult {
    Success { user_id: String, user_name: String, user_email: Option<String> },
    NeedsRegistration { pubkey: String },
}

/// What the signature-verification response means for the login flow.
#[derive(Clone, Copy, Debug, PartialEq, Eq, Structural)]
pub enum VerifyClassification {
    /// The server accepted the signature; the body carries token and user.
    Accepted,
    /// The user is unknown to the platform and must register first.
    NeedsRegistration,
    /// Any other failure; it is surfaced to the caller.
    Failed,
}

/// An HTTP status in the success range.
pub open spec fn spec_http_success(status: u16) -> bool {
    200 <= status < 300
}

/// A failed verification that means "register first": the server answered
/// 401, or its body says the user was not found or not registered.
pub open spec fn spec_needs_registration(status: u16, body: &str) -> bool {
    !spec_http_success(status) && (status == 401 || str_contains(body, "not found")
        || str_contains(body, "not registered"))
}

/// Classify the signature-verification response of the login flow: accepted
/// on any success status; needs-registration on a 401 or an unknown-user
/// body; failed otherwise.
pub fn classify_verify_response(status: u16, body: &str) -> (r: VerifyClassification)
    ensures
        r is Accepted <==> spec_http_success(status),
        r is NeedsRegistration <==> spec_needs_registration(status, body),
{
    if status >= 200 && status < 300 {
        VerifyClassification::Accepted
    } else if status == 401 || contains(body, "not found") || contains(body, "not registered") {
        VerifyClassification::NeedsRegistration
    } else {
        VerifyClassification::Failed
    }
}

/// Build the record that is cached on disk after a successful login. The
/// expiry is left empty: the server handles token expiry, and readers fall
/// back to the one-day soft lifetime.
pub fn make_stored_auth(token: String, user: &User, pubkey: String, now: i64) -> (r: StoredAuth)
    ensures
        r.jwt_token == token,
        r.user_id == user.id,
        r.user_name == user.name,
        r.user_email == user.email,
        r.pubkey == pubkey,
        r.created_at == now,
        r.expires_at is None,
{
    StoredAuth {
        jwt_token: token,
        user_id: clone_string(&user.id),
        user_name: clone_string(&user.name),
        user_email: clone_opt_string(&user.email),
        pubkey,
        created_at: now,
        expires_at: None,
    }
}

/// Clone a string, keeping its view.
pub fn clone_string(s: &String) -> (r: String)
    ensures
        r == *s,
{
    s.clone()
}

/// Clone an optional string, keeping its view.
pub fn clone_opt_string(s: &Option<String>) -> (r: Option<String>)
    ensures
        r == *s,
{
    match s {
        Some(v) => Some(v.clone()),
        None => None,
    }
}


/// The first installment still owed: the first of the schedule whose status
/// is pending or late, if any.
pub open spec fn spec_next_installment(s: Seq<InstallmentStatus>) -> Option<int> {
    if exists|i: int| 0 <= i < s.len() && ((#[trigger] s[i]) is Pending || s[i] is Late) {
        Some(
            choose|i: int|
                0 <= i < s.len() && ((#[trigger] s[i]) is Pending || s[i] is Late) && (forall|
                    j: int,
                |
                    0 <= j < i ==> !((#[trigger] s[j]) is Pending || s[j] is Late)),
        )
    } else {
        None
    }
}

/// The index of the next installment still owed: the first pending or late
/// entry of the repayment schedule.
pub fn next_installment_index(statuses: &Vec<InstallmentStatus>) -> (r: Option<usize>)
    ensures
        match r {
            Some(i) => i < statuses@.len() && (statuses@[i as int] is Pending || statuses@[
                i as int
            ] is Late) && (forall|j: int|
                0 <= j < i ==> !((#[trigger] statuses@[j]) is Pending || statuses@[j] is Late)),
            None => forall|j: int|
                0 <= j < statuses@.len() ==> !((#[trigger] statuses@[j]) is Pending || statuses@[
                    j
                ] is Late),
        },
{
    let mut i: usize = 0;
    while i < statuses.len()
        invariant
            i <= statuses@.len(),
            forall|j: int|
                0 <= j < i ==> !((#[trigger] statuses@[j]) is Pending || statuses@[j] is Late),
        decreases statuses@.len() - i,
    {
        match statuses[i] {
            InstallmentStatus::Pending => {
                return Some(i);
            },
            InstallmentStatus::Late => {
                return Some(i);
            },
            _ => {
            },
        }
        i += 1;
    }
    None
}

/// Whether the loan is fully repaid: every installment of the schedule is
/// confirmed or cancelled.
pub fn is_fully_repaid(statuses: &Vec<InstallmentStatus>) -> (r: bool)
    ensures
        r == (forall|j: int|
            0 <= j < statuses@.len() ==> ((#[trigger] statuses@[j]) is Confirmed || statuses@[
                j
            ] is Cancelled)),
{
    let mut i: usize = 0;
    while i < statuses.len()
        invariant
            i <= statuses@.len(),
            forall|j: int|
                0 <= j < i ==> ((#[trigger] statuses@[j]) is Confirmed || statuses@[
                    j
                ] is Cancelled),
        decreases statuses@.len() - i,
    {
        match statuses[i] {
            InstallmentStatus::Confirmed => {
            },
            InstallmentStatus::Cancelled => {
            },
            _ => {
                return false;
            },
        }
        i += 1;
    }
    true
}

} // verus!
