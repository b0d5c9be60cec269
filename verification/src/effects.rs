use vstd::prelude::*;

use crate::{Address, Symbol};
use crate::types::PaymentStatus;

verus! {

/// Which pause switch an event reports on.
#[derive(Clone, Copy, Debug, PartialEq, Eq, Structural)]
pub enum PauseScope {
    /// The switch that blocks creation, verification and cancellation of payments.
    Global,
    /// The switch that blocks only payment creation.
    Creation,
}

/// An event published by one of the contracts, for off-chain listeners.
#[derive(Debug, PartialEq, Eq)]
pub enum Event {
    PaymentCreated { payment_id: String, merchant_id: Address, amount: i128 },
    PaymentBatchCreated { count: u32 },
    /// Reported under VERIFIED, OVERPAID, PARTIALLY_PAID or FAILED after the new status.
    PaymentVerified {
        payment_id: String,
        merchant_id: Address,
        amount: i128,
        amount_received: i128,
        status: PaymentStatus,
    },
    PaymentCancelled { payment_id: String, merchant_id: Address, amount: i128 },
    PaymentExpired { payment_id: String, merchant_id: Address, amount: i128 },
    PaymentSettled { payment_id: String, merchant_id: Address, amount: i128 },
    PauseChanged { scope: PauseScope, paused: bool, admin: Address, reason: String },
    SwapAndPay {
        payment_id: String,
        payer: Address,
        amount_in: i128,
        token_in: Address,
        amount: i128,
    },
    RefundCreated { payment_id: String, refund_id: String, amount: i128 },
    RefundCompleted { payment_id: String, refund_id: String, amount: i128 },
    RefundRejected { payment_id: String, refund_id: String, amount: i128 },
    RefundCancelled { payment_id: String, refund_id: String, amount: i128 },
    DisputeCreated { dispute_id: String, payment_id: String },
    DisputeReviewed { dispute_id: String, payment_id: String },
    DisputeEscalated { payment_id: String, dispute_id: String, amount: i128 },
    DisputeDeadlineSet { payment_id: String, dispute_id: String, deadline: u64 },
    DisputeOperatorNote {
        dispute_id: String,
        operator: Address,
        resolution_notes: String,
        operator_signature: String,
    },
    DisputeResolved { dispute_id: String, payment_id: String },
    DisputeRejected { dispute_id: String, payment_id: String },
    StakeLocked { dispute_id: String, arbitrator: Address, amount: i128 },
    VoteCast { dispute_id: String, arbitrator: Address, stake: i128 },
    VoteFinalized {
        dispute_id: String,
        favour_weight: i128,
        against_weight: i128,
        favour_wins: bool,
    },
    SubscriptionCreated { subscription_id: String, payer: Address, plan_id: String },
    SubscriptionPaused { subscription_id: String, payer: Address, resume_at: u64 },
    SubscriptionResumed { subscription_id: String, payer: Address },
    SubscriptionCharged {
        subscription_id: String,
        payer: Address,
        merchant: Address,
        amount: i128,
        total_payments: u32,
    },
    SubscriptionExpired { subscription_id: String, payer: Address },
    /// The subscription was cancelled after its last retry failed.
    SubscriptionRetriesExhausted { subscription_id: String, payer: Address, retry_count: u32 },
    /// Single-topic cancellation notice for indexers.
    SubscriptionCancelled { subscription: Option<String>, payer: Address },
    SubscriptionPaymentFailed {
        subscription_id: String,
        payer: Address,
        retry_count: u32,
        next_retry: u64,
    },
    UsageRecorded {
        subscription_id: String,
        units_used: i128,
        unit_price: i128,
        metered_amount: i128,
    },
    MerchantUpdated { merchant_id: Address },
    MerchantVerified { merchant_id: Address },
    MerchantSuspended { merchant_id: Address },
    MerchantReinstated { merchant_id: Address },
    LinkCreated { link_id: String, merchant_id: Address },
    LinkUsed { link_id: String, payer: Address, amount: i128, payment_id: String },
    LinkDeactivated { link_id: String },
    RateUpdated { pair: Symbol },
    StreamCreated { stream_id: String, sender: Address, receiver: Address, deposit: i128 },
    StreamDestinationSet { stream_id: String, recipient: Address, destination: Address },
    StreamMilestoneApproved { stream_id: String, sender: Address },
    StreamRateDecreased {
        stream_id: String,
        sender: Address,
        old_rate: i128,
        new_rate: i128,
        surplus: i128,
    },
    StreamRateUpdated {
        stream_id: String,
        sender: Address,
        old_rate: i128,
        new_rate: i128,
        surplus: i128,
    },
    StreamWithdrawn { stream_id: String, receiver: Address, destination: Address, amount: i128 },
    StreamToppedUp { stream_id: String, sender: Address, amount: i128 },
    StreamCancelled { stream_id: String, sender: Address, accrued: i128, refund: i128 },
    StreamClosed { stream_id: String, sender: Address, receiver: Address, residual: i128 },
}

/// How the host must treat a token transfer that fails.
#[derive(Clone, Copy, Debug, PartialEq, Eq, Structural)]
pub enum TransferMode {
    /// A failed transfer aborts the whole call, undoing every change it made.
    Required,
    /// A failed transfer is ignored.
    BestEffort,
    /// A failed transfer is ignored, and the given number of effects right after it are dropped.
    SkipOnFailure(u32),
}

/// A token transfer that the host performs on the contract's behalf.
#[derive(Debug, PartialEq, Eq)]
pub struct TokenTransfer {
    pub token: Address,
    pub from: Address,
    pub to: Address,
    pub amount: i128,
    pub mode: TransferMode,
}

/// Something a contract call asks its host to do once the call returns, in order.
#[derive(Debug, PartialEq, Eq)]
pub enum Effect {
    /// Move tokens.
    Transfer(TokenTransfer),
    /// Publish an event.
    Emit(Event),
    /// Ask another contract to grant a role; a refusal is ignored.
    GrantRole { contract: Address, admin: Address, role: String, account: Address },
}

/// A token transfer effect.
pub open spec fn transfer_effect(token: Address, from: Address, to: Address, amount: i128, mode: TransferMode) -> Effect {
    Effect::Transfer(TokenTransfer { token, from, to, amount, mode })
}

/// Builds a token transfer effect.
pub fn make_transfer(token: Address, from: Address, to: Address, amount: i128, mode: TransferMode) -> (r: Effect)
    ensures
        r == transfer_effect(token, from, to, amount, mode),
{
    Effect::Transfer(TokenTransfer { token, from, to, amount, mode })
}

} // verus!
