use vstd::prelude::*;

use crate::{Address, Symbol};

verus! {

/// Largest shortfall or excess (in the token's smallest unit) still accepted as an exact payment
/// when the token's precision is not known.
pub const PAYMENT_TOLERANCE: i128 = 1;
/// Lifetime, in ledgers, of records still in progress (about a week).
pub const SHORT_LIVE_TTL: u32 = 120_960;
/// Lifetime, in ledgers, of finished records (about three years).
pub const LONG_LIVE_TTL: u32 = 18_921_600;
/// A record's lifetime is extended once it falls below this fraction of its target.
pub const TTL_BUMP_THRESHOLD_DIVISOR: u32 = 5;
/// Length of the window over which payment creation is rate limited.
pub const CREATE_PAYMENT_WINDOW_SECS: u64 = 60;
/// Payments a merchant may create within one window.
pub const CREATE_PAYMENT_MAX_PER_WINDOW: u32 = 30;
/// Lifetime of a payment created with neither an expiry nor a duration.
pub const DEFAULT_PAYMENT_DURATION_SECS: u64 = 3_600;
/// Refund fee, in basis points, when the merchant's tier is unknown or unverified.
pub const REFUND_FEE_BPS: i128 = 100;
/// Refund fee for merchants of the basic tier.
pub const REFUND_FEE_BPS_BASIC: i128 = 100;
/// Refund fee for merchants of the full tier.
pub const REFUND_FEE_BPS_FULL: i128 = 80;
/// Refund fee for merchants of the business tier.
pub const REFUND_FEE_BPS_BUSINESS: i128 = 50;
/// Failed charges after which a subscription is cancelled.
pub const SUBSCRIPTION_MAX_RETRIES: u32 = 3;
/// Delay between charge retries (two days).
pub const SUBSCRIPTION_RETRY_INTERVAL_SECS: u64 = 172_800;
/// The text of the all-zero contract address.
pub open spec fn spec_zero_address() -> Seq<char> {
    "CAAAAAAAAAAAAAAAAAAAAAAAAAAAAAAAAAAAAAAAAAAAAAAAAAAAD2KM"@
}

/// The all-zero contract address, refused wherever an administrator or token is set up.
pub fn zero_contract_address() -> (r: String)
    ensures
        r@ == spec_zero_address(),
{
    String::from_str("CAAAAAAAAAAAAAAAAAAAAAAAAAAAAAAAAAAAAAAAAAAAAAAAAAAAD2KM")
}

/// A copy of an optional text.
pub fn clone_opt_str(o: &Option<String>) -> (r: Option<String>)
    ensures
        r == *o,
{
    match o {
        Some(s) => Some(s.clone()),
        None => None,
    }
}

/// Lifecycle of a payment charge.
#[derive(Clone, Copy, Debug, PartialEq, Eq, Structural)]
pub enum PaymentStatus {
    Pending,
    Confirmed,
    Settled,
    Expired,
    Failed,
    /// The customer sent meaningfully less than the amount due.
    PartiallyPaid,
    /// The customer sent meaningfully more than the amount due.
    Overpaid,
}

/// A payment request created by a merchant.
#[derive(Debug, PartialEq, Eq)]
pub struct PaymentCharge {
    pub payment_id: String,
    pub merchant_id: Address,
    pub amount: i128,
    pub currency: Symbol,
    pub deposit_address: Address,
    pub status: PaymentStatus,
    pub payer_address: Option<Address>,
    pub transaction_hash: Option<[u8; 32]>,
    pub created_at: u64,
    pub confirmed_at: Option<u64>,
    pub expires_at: u64,
    /// The amount actually received, recorded when the payment is verified.
    pub amount_received: Option<i128>,
    /// Optional memo for payment routing.
    pub memo: Option<String>,
    /// Optional memo type: Text, Id, Hash or Return.
    pub memo_type: Option<String>,
    /// Token used for the payment (none means the default USDC token).
    pub token_address: Option<Address>,
    /// Optional hash tying the payment to an order or customer.
    pub metadata_hash: Option<[u8; 32]>,
}

impl Clone for PaymentCharge {
    fn clone(&self) -> (r: Self)
        ensures
            r == *self,
    {
        PaymentCharge {
            payment_id: self.payment_id.clone(),
            merchant_id: self.merchant_id.clone(),
            amount: self.amount,
            currency: self.currency.clone(),
            deposit_address: self.deposit_address.clone(),
            status: self.status,
            payer_address: clone_opt_str(&self.payer_address),
            transaction_hash: self.transaction_hash,
            created_at: self.created_at,
            confirmed_at: self.confirmed_at,
            expires_at: self.expires_at,
            amount_received: self.amount_received,
            memo: clone_opt_str(&self.memo),
            memo_type: clone_opt_str(&self.memo_type),
            token_address: clone_opt_str(&self.token_address),
            metadata_hash: self.metadata_hash,
        }
    }
}

/// Lifecycle of a refund request.
#[derive(Clone, Copy, Debug, PartialEq, Eq, Structural)]
pub enum RefundStatus {
    Pending,
    Completed,
    Rejected,
}

/// A request to return (part of) a payment.
#[derive(Debug, PartialEq, Eq)]
pub struct Refund {
    pub refund_id: String,
    pub payment_id: String,
    pub amount: i128,
    pub reason: String,
    pub status: RefundStatus,
    pub requester: Address,
    pub created_at: u64,
    pub processed_at: Option<u64>,
}

impl Clone for Refund {
    fn clone(&self) -> (r: Self)
        ensures
            r == *self,
    {
        Refund {
            refund_id: self.refund_id.clone(),
            payment_id: self.payment_id.clone(),
            amount: self.amount,
            reason: self.reason.clone(),
            status: self.status,
            requester: self.requester.clone(),
            created_at: self.created_at,
            processed_at: self.processed_at,
        }
    }
}

/// Lifecycle of a dispute.
#[derive(Clone, Copy, Debug, PartialEq, Eq, Structural)]
pub enum DisputeStatus {
    Open,
    UnderReview,
    Resolved,
    Rejected,
}

/// A customer's challenge of a payment.
#[derive(Debug, PartialEq, Eq)]
pub struct Dispute {
    pub dispute_id: String,
    pub payment_id: String,
    pub refund_id: Option<String>,
    pub amount: i128,
    pub reason: String,
    pub evidence: String,
    pub status: DisputeStatus,
    pub disputer: Address,
    pub created_at: u64,
    pub resolved_at: Option<u64>,
    pub resolution_notes: Option<String>,
    /// Deadline, set by an operator, for resolving the dispute.
    pub review_deadline: Option<u64>,
    /// Set once the deadline has passed without a resolution.
    pub escalated: bool,
}

impl Clone for Dispute {
    fn clone(&self) -> (r: Self)
        ensures
            r == *self,
    {
        Dispute {
            dispute_id: self.dispute_id.clone(),
            payment_id: self.payment_id.clone(),
            refund_id: clone_opt_str(&self.refund_id),
            amount: self.amount,
            reason: self.reason.clone(),
            evidence: self.evidence.clone(),
            status: self.status,
            disputer: self.disputer.clone(),
            created_at: self.created_at,
            resolved_at: self.resolved_at,
            resolution_notes: clone_opt_str(&self.resolution_notes),
            review_deadline: self.review_deadline,
            escalated: self.escalated,
        }
    }
}

/// Errors of the payment processor and refund manager.
#[derive(Clone, Copy, Debug, PartialEq, Eq, Structural)]
pub enum Error {
    PaymentNotFound,
    RefundNotFound,
    InvalidAmount,
    Unauthorized,
    PaymentAlreadyExists,
    PaymentExpired,
    InvalidPaymentId,
    RefundAlreadyProcessed,
    DisputeNotFound,
    DisputeAlreadyResolved,
    PaymentAlreadyProcessed,
    AccessControlError,
    RefundExceedsPayment,
    ContractPaused,
    RateLimitExceeded,
    RefundCancelled,
    UnsupportedToken,
    AmountBelowMin,
    AmountAboveMax,
    InvalidExpiry,
    InvalidSettlement,
    DuplicateIdempotencyKey,
    InvalidAddress,
    /// The swap path is circular, which is how arbitrage exploits look.
    ArbitrageDetected,
    /// The swap path or its quoted returns are not acceptable.
    SwapPathInvalid,
    /// The quoted swap output strays too far from the oracle's price.
    OraclePriceDeviation,
    /// The charge failed; it will be retried.
    SubscriptionInGracePeriod,
    /// The charge failed for the last time; the subscription is cancelled.
    SubscriptionRetryExhausted,
    /// The resume time is not in the future.
    InvalidResumeTimestamp,
    /// A merchant pre-authorization was refused.
    MerchantAuthError,
}

impl Error {
    /// The code of each error.
    pub open spec fn code_of(self) -> u32 {
        match self {
            Error::PaymentNotFound => 404,
            Error::RefundNotFound => 405,
            Error::InvalidAmount => 406,
            Error::Unauthorized => 1,
            Error::PaymentAlreadyExists => 2,
            Error::PaymentExpired => 3,
            Error::InvalidPaymentId => 4,
            Error::RefundAlreadyProcessed => 8,
            Error::DisputeNotFound => 9,
            Error::DisputeAlreadyResolved => 12,
            Error::PaymentAlreadyProcessed => 14,
            Error::AccessControlError => 15,
            Error::RefundExceedsPayment => 16,
            Error::ContractPaused => 17,
            Error::RateLimitExceeded => 18,
            Error::RefundCancelled => 19,
            Error::UnsupportedToken => 20,
            Error::AmountBelowMin => 21,
            Error::AmountAboveMax => 22,
            Error::InvalidExpiry => 23,
            Error::InvalidSettlement => 24,
            Error::DuplicateIdempotencyKey => 25,
            Error::InvalidAddress => 26,
            Error::ArbitrageDetected => 27,
            Error::SwapPathInvalid => 28,
            Error::OraclePriceDeviation => 29,
            Error::SubscriptionInGracePeriod => 30,
            Error::SubscriptionRetryExhausted => 31,
            Error::InvalidResumeTimestamp => 32,
            Error::MerchantAuthError => 33,
        }
    }

    /// The numeric code under which the error is reported on chain.
    pub fn code(&self) -> (r: u32)
        ensures
            r == self.code_of(),
    {
        match self {
            Error::PaymentNotFound => 404,
            Error::RefundNotFound => 405,
            Error::InvalidAmount => 406,
            Error::Unauthorized => 1,
            Error::PaymentAlreadyExists => 2,
            Error::PaymentExpired => 3,
            Error::InvalidPaymentId => 4,
            Error::RefundAlreadyProcessed => 8,
            Error::DisputeNotFound => 9,
            Error::DisputeAlreadyResolved => 12,
            Error::PaymentAlreadyProcessed => 14,
            Error::AccessControlError => 15,
            Error::RefundExceedsPayment => 16,
            Error::ContractPaused => 17,
            Error::RateLimitExceeded => 18,
            Error::RefundCancelled => 19,
            Error::UnsupportedToken => 20,
            Error::AmountBelowMin => 21,
            Error::AmountAboveMax => 22,
            Error::InvalidExpiry => 23,
            Error::InvalidSettlement => 24,
            Error::DuplicateIdempotencyKey => 25,
            Error::InvalidAddress => 26,
            Error::ArbitrageDetected => 27,
            Error::SwapPathInvalid => 28,
            Error::OraclePriceDeviation => 29,
            Error::SubscriptionInGracePeriod => 30,
            Error::SubscriptionRetryExhausted => 31,
            Error::InvalidResumeTimestamp => 32,
            Error::MerchantAuthError => 33,
        }
    }
}

/// What a merchant supplies to create a payment.
#[derive(Debug, PartialEq, Eq)]
pub struct CreatePaymentArgs {
    pub payment_id: String,
    pub merchant_id: Address,
    pub amount: i128,
    pub currency: Symbol,
    pub deposit_address: Address,
    pub expires_at: Option<u64>,
    pub duration_secs: Option<u64>,
    pub memo: Option<String>,
    pub memo_type: Option<String>,
    pub token_address: Option<Address>,
    /// Optional idempotency key: a retry with the same key and payment id returns the
    /// existing payment; the same key with another payment id is refused.
    pub client_token: Option<String>,
    pub metadata_hash: Option<[u8; 32]>,
}

impl Clone for CreatePaymentArgs {
    fn clone(&self) -> (r: Self)
        ensures
            r == *self,
    {
        CreatePaymentArgs {
            payment_id: self.payment_id.clone(),
            merchant_id: self.merchant_id.clone(),
            amount: self.amount,
            currency: self.currency.clone(),
            deposit_address: self.deposit_address.clone(),
            expires_at: self.expires_at,
            duration_secs: self.duration_secs,
            memo: clone_opt_str(&self.memo),
            memo_type: clone_opt_str(&self.memo_type),
            token_address: clone_opt_str(&self.token_address),
            client_token: clone_opt_str(&self.client_token),
            metadata_hash: self.metadata_hash,
        }
    }
}

/// What a payer supplies to swap one token into the merchant's and pay in one step.
#[derive(Debug, PartialEq, Eq)]
pub struct SwapAndPayArgs {
    pub payer: Address,
    pub payment_id: String,
    pub merchant_id: Address,
    pub amount: i128,
    pub currency: Symbol,
    pub deposit_address: Address,
    pub token_in: Address,
    pub amount_in: i128,
    pub amount_out_min: i128,
    pub path: Vec<Address>,
    pub expires_at: Option<u64>,
    pub dex_router: Address,
    /// Optional price oracle used to sanity-check the swap quote.
    pub fx_oracle: Option<Address>,
    /// Rate pair to ask the oracle for (needed when `fx_oracle` is set).
    pub oracle_pair: Option<Symbol>,
    /// Largest tolerated deviation from the oracle price, in basis points.
    pub max_deviation_bps: u32,
}

/// State of one pause switch.
#[derive(Debug, PartialEq, Eq)]
pub struct PauseState {
    pub paused: bool,
    pub reason: String,
    pub admin: Option<Address>,
    pub timestamp: u64,
}

impl Clone for PauseState {
    fn clone(&self) -> (r: Self)
        ensures
            r == *self,
    {
        PauseState {
            paused: self.paused,
            reason: self.reason.clone(),
            admin: clone_opt_str(&self.admin),
            timestamp: self.timestamp,
        }
    }
}

/// Both pause switches.
#[derive(Debug, PartialEq, Eq)]
pub struct PauseInfo {
    pub global: PauseState,
    pub creation: PauseState,
}

/// Per-merchant counter behind the payment-creation rate limit: the creations counted in the
/// window that began at `window_start`.
#[derive(Clone, Copy, Debug, PartialEq, Eq, Structural)]
pub struct MerchantCreateRateLimit {
    pub last_payment_at: u64,
    pub count: u32,
    /// When the current counting window began.
    pub window_start: u64,
}

/// Optional lower and upper bounds on payment amounts.
#[derive(Clone, Copy, Debug, PartialEq, Eq, Structural)]
pub struct AmountLimits {
    pub min: Option<i128>,
    pub max: Option<i128>,
}

/// One recipient in a split settlement.
#[derive(Debug, PartialEq, Eq)]
pub struct SettlementSplit {
    pub recipient: Address,
    pub amount: i128,
}

impl Clone for SettlementSplit {
    fn clone(&self) -> (r: Self)
        ensures
            r == *self,
    {
        SettlementSplit { recipient: self.recipient.clone(), amount: self.amount }
    }
}

/// A vote in stake-weighted dispute arbitration.
#[derive(Clone, Copy, Debug, PartialEq, Eq, Structural)]
pub enum VoteChoice {
    /// In favour of the disputer: the refund should be issued.
    Favour,
    /// Against the disputer: the dispute should be rejected.
    Against,
}

/// Running tally of a dispute's votes.
#[derive(Clone, Copy, Debug, PartialEq, Eq, Structural)]
pub struct VoteTally {
    /// Stake voting in favour.
    pub favour_weight: i128,
    /// Stake voting against.
    pub against_weight: i128,
    /// Number of arbitrators who voted.
    pub vote_count: u32,
}

/// Operator note kept on chain for a dispute's resolution.
#[derive(Debug, PartialEq, Eq)]
pub struct DisputeOperatorNote {
    pub dispute_id: String,
    pub operator: Address,
    pub resolution_notes: String,
    pub operator_signature: String,
    pub recorded_at: u64,
}

impl Clone for DisputeOperatorNote {
    fn clone(&self) -> (r: Self)
        ensures
            r == *self,
    {
        DisputeOperatorNote {
            dispute_id: self.dispute_id.clone(),
            operator: self.operator.clone(),
            resolution_notes: self.resolution_notes.clone(),
            operator_signature: self.operator_signature.clone(),
            recorded_at: self.recorded_at,
        }
    }
}

/// Optional settings for creating a payment.
#[derive(Debug, PartialEq, Eq)]
pub struct PaymentConfig {
    pub memo: Option<String>,
    pub memo_type: Option<String>,
    pub token_address: Option<Address>,
    pub client_token: Option<String>,
}

/// Lifecycle of a subscription.
#[derive(Clone, Copy, Debug, PartialEq, Eq, Structural)]
pub enum SubscriptionStatus {
    Active,
    Paused,
    Cancelled,
    Expired,
}

/// A payer's recurring payment under a plan.
#[derive(Debug, PartialEq, Eq)]
pub struct Subscription {
    pub subscription_id: String,
    pub merchant_id: Address,
    pub payer_address: Address,
    pub plan_id: String,
    pub amount: i128,
    pub currency: Symbol,
    pub interval_secs: u64,
    pub next_payment_at: u64,
    pub status: SubscriptionStatus,
    pub created_at: u64,
    pub last_payment_at: Option<u64>,
    pub total_payments: u32,
    pub max_payments: Option<u32>,
    /// Consecutive failed charges in the current grace period.
    pub retry_count: u32,
    /// When the next retry is due, during a grace period.
    pub next_retry_at: Option<u64>,
    /// When a paused subscription resumes by itself.
    pub resume_at: Option<u64>,
    /// Optional affiliate paid a share of each charge.
    pub affiliate: Option<Address>,
    /// The affiliate's share, in basis points.
    pub affiliate_fee_bps: Option<u32>,
}

impl Clone for Subscription {
    fn clone(&self) -> (r: Self)
        ensures
            r == *self,
    {
        Subscription {
            subscription_id: self.subscription_id.clone(),
            merchant_id: self.merchant_id.clone(),
            payer_address: self.payer_address.clone(),
            plan_id: self.plan_id.clone(),
            amount: self.amount,
            currency: self.currency.clone(),
            interval_secs: self.interval_secs,
            next_payment_at: self.next_payment_at,
            status: self.status,
            created_at: self.created_at,
            last_payment_at: self.last_payment_at,
            total_payments: self.total_payments,
            max_payments: self.max_payments,
            retry_count: self.retry_count,
            next_retry_at: self.next_retry_at,
            resume_at: self.resume_at,
            affiliate: clone_opt_str(&self.affiliate),
            affiliate_fee_bps: self.affiliate_fee_bps,
        }
    }
}

/// How often a plan charges.
#[derive(Clone, Copy, Debug, PartialEq, Eq, Structural)]
pub enum BillingInterval {
    Daily,
    Weekly,
    Monthly,
    Annually,
}

/// The length of a billing interval in seconds (a month is thirty days, a year 365).
pub open spec fn spec_interval_secs(b: BillingInterval) -> u64 {
    match b {
        BillingInterval::Daily => 86_400,
        BillingInterval::Weekly => 604_800,
        BillingInterval::Monthly => 2_592_000,
        BillingInterval::Annually => 31_536_000,
    }
}

impl BillingInterval {
    /// Returns the approximate duration in seconds of the interval.
    pub fn to_secs(&self) -> (r: u64)
        ensures
            r == spec_interval_secs(*self),
    {
        match self {
            BillingInterval::Daily => 86_400,
            BillingInterval::Weekly => 604_800,
            BillingInterval::Monthly => 2_592_000,
            BillingInterval::Annually => 31_536_000,
        }
    }
}

/// A merchant's subscription offer.
#[derive(Debug, PartialEq, Eq)]
pub struct SubscriptionPlan {
    pub plan_id: String,
    pub merchant_id: Address,
    pub name: String,
    pub description: String,
    pub amount: i128,
    pub currency: Symbol,
    pub interval_secs: u64,
    pub billing_interval: BillingInterval,
    pub active: bool,
    /// Recipients that share each charge of a bundled plan (empty for a plain plan).
    pub payout_splits: Vec<SettlementSplit>,
}

/// Whether two plans agree field by field (their payout splits by content).
pub open spec fn same_plan(a: SubscriptionPlan, b: SubscriptionPlan) -> bool {
    &&& a.plan_id == b.plan_id
    &&& a.merchant_id == b.merchant_id
    &&& a.name == b.name
    &&& a.description == b.description
    &&& a.amount == b.amount
    &&& a.currency == b.currency
    &&& a.interval_secs == b.interval_secs
    &&& a.billing_interval == b.billing_interval
    &&& a.active == b.active
    &&& a.payout_splits@ == b.payout_splits@
}

/// A copy of a list of settlement splits.
pub fn clone_splits(v: &Vec<SettlementSplit>) -> (r: Vec<SettlementSplit>)
    ensures
        r@ == v@,
{
    let mut out: Vec<SettlementSplit> = Vec::new();
    let mut i: usize = 0;
    while i < v.len()
        invariant
            i <= v@.len(),
            out@ == v@.take(i as int),
        decreases v.len() - i,
    {
        out.push(v[i].clone());
        i = i + 1;
        assert(out@ =~= v@.take(i as int));
    }
    assert(v@.take(v@.len() as int) =~= v@);
    out
}

impl Clone for SubscriptionPlan {
    fn clone(&self) -> (r: Self)
        ensures
            same_plan(r, *self),
    {
        SubscriptionPlan {
            plan_id: self.plan_id.clone(),
            merchant_id: self.merchant_id.clone(),
            name: self.name.clone(),
            description: self.description.clone(),
            amount: self.amount,
            currency: self.currency.clone(),
            interval_secs: self.interval_secs,
            billing_interval: self.billing_interval,
            active: self.active,
            payout_splits: clone_splits(&self.payout_splits),
        }
    }
}

/// One withdrawal of a batch: which stream, to where, and at most how much.
#[derive(Debug, PartialEq, Eq)]
pub struct WithdrawalRecipient {
    pub stream_id: String,
    pub destination: Address,
    pub amount: i128,
}

/// Target lifetime of a refund record in a given state.
pub fn refund_ttl(status: RefundStatus) -> (r: u32)
    ensures
        r == (if status == RefundStatus::Pending {
            SHORT_LIVE_TTL
        } else {
            LONG_LIVE_TTL
        }),
{
    match status {
        RefundStatus::Pending => SHORT_LIVE_TTL,
        RefundStatus::Completed | RefundStatus::Rejected => LONG_LIVE_TTL,
    }
}

/// Target lifetime of a dispute record in a given state.
pub fn dispute_ttl(status: DisputeStatus) -> (r: u32)
    ensures
        r == (if status == DisputeStatus::Open || status == DisputeStatus::UnderReview {
            SHORT_LIVE_TTL
        } else {
            LONG_LIVE_TTL
        }),
{
    match status {
        DisputeStatus::Open | DisputeStatus::UnderReview => SHORT_LIVE_TTL,
        DisputeStatus::Resolved | DisputeStatus::Rejected => LONG_LIVE_TTL,
    }
}

/// Target lifetime of a payment record in a given state.
pub fn payment_ttl(status: PaymentStatus) -> (r: u32)
    ensures
        r == (if status == PaymentStatus::Pending {
            SHORT_LIVE_TTL
        } else {
            LONG_LIVE_TTL
        }),
{
    match status {
        PaymentStatus::Pending => SHORT_LIVE_TTL,
        PaymentStatus::Confirmed
        | PaymentStatus::Settled
        | PaymentStatus::Expired
        | PaymentStatus::Failed
        | PaymentStatus::PartiallyPaid
        | PaymentStatus::Overpaid => LONG_LIVE_TTL,
    }
}

/// The remaining lifetime below which a record's lifetime is extended to `ttl`.
pub fn ttl_threshold(ttl: u32) -> (r: u32)
    ensures
        r == (if ttl / TTL_BUMP_THRESHOLD_DIVISOR > 1 {
            ttl / TTL_BUMP_THRESHOLD_DIVISOR
        } else {
            1
        }),
{
    let t = ttl / TTL_BUMP_THRESHOLD_DIVISOR;
    if t > 1 {
        t
    } else {
        1
    }
}

} // verus!
