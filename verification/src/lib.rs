use vstd::prelude::*;

pub mod util;
pub mod table;
pub mod access_control;
pub mod types;
pub mod effects;
pub mod merchant_registry;
pub mod fx_oracle;
pub mod payment_processor;
pub mod ledger;
pub mod refund_manager;
pub mod disputes;
pub mod arbitration;
pub mod subscriptions;
pub mod stream;
pub mod payment_link;
pub mod dex_router;
pub mod laws;

pub use util::format_id;
pub use payment_processor::PaymentProcessor;
pub use refund_manager::RefundManager;
pub use fx_oracle::{FXOracle, FXOracleError, RateData};
pub use merchant_registry::{FeeConfig, KycTier, Merchant, MerchantError, MerchantRegistry};
pub use stream::{PaymentStream, PaymentStreaming, StreamError, StreamStatus};
pub use payment_link::{PaymentLink, PaymentLinkManager};
pub use dex_router::DexRouter;
pub use types::{
    AmountLimits, BillingInterval, CreatePaymentArgs, Dispute, DisputeOperatorNote, DisputeStatus,
    Error, MerchantCreateRateLimit, PaymentCharge, PaymentConfig, PaymentStatus, PauseInfo,
    PauseState, Refund, RefundStatus, SettlementSplit, Subscription, SubscriptionPlan,
    SubscriptionStatus, SwapAndPayArgs, VoteChoice, VoteTally, WithdrawalRecipient,
    DEFAULT_PAYMENT_DURATION_SECS, PAYMENT_TOLERANCE, SUBSCRIPTION_MAX_RETRIES,
    SUBSCRIPTION_RETRY_INTERVAL_SECS,
};
pub use effects::{Effect, Event, PauseScope, TokenTransfer, TransferMode};

verus! {

/// An account or contract, written as its strkey text (such as `G…` or `C…`).
pub type Address = String;

/// A short symbolic name such as a currency code or a rate pair.
pub type Symbol = String;

} // verus!
