use vstd::prelude::*;

use crate::arbitration::{majority_of, stake_return, stake_settlement, SLASH_BPS};
use crate::effects::{transfer_effect, Effect, Event, TransferMode};
use crate::fx_oracle::{lemma_pow10_monotone, pow10, FXOracle, FXOracleError, RateData, DEFAULT_STALENESS_SECS};
use crate::merchant_registry::{reinstated_record, spec_fee, suspended_record, FeeConfig, MerchantRegistry};
use crate::payment_processor::{
    classify_payment, list_or_empty, new_payment, rate_limit_step, tolerance_for, PaymentProcessor,
};
use crate::refund_manager::{refund_fee, RefundManager};
use crate::stream::{
    accrued_at, cancelled, checkpoint, id_key, lookup, paid_out, rate_changed, run_batch, stream_ok, sweep_step, BatchState, PaymentStream, PaymentStreaming,
    StepOut, StreamError, StreamStatus,
};
use crate::subscriptions::{charge_outcome, charge_payouts, due_at, resumed};
use crate::types::{
    CreatePaymentArgs, Error, MerchantCreateRateLimit, PaymentStatus, Refund, Subscription, SubscriptionPlan, SubscriptionStatus,
    VoteChoice, VoteTally, CREATE_PAYMENT_MAX_PER_WINDOW, CREATE_PAYMENT_WINDOW_SECS, SUBSCRIPTION_MAX_RETRIES,
    SUBSCRIPTION_RETRY_INTERVAL_SECS,
};
use crate::util::{clamp_i128, clamp_u64, spec_format_id, trunc_div, lemma_format_id_unique_and_readable};
use crate::{Address, Symbol};

verus! {

/// No payment is ever refunded beyond its amount: in every state the refund manager reaches,
/// the refunds of a payment that were not rejected add up to at most the payment's amount (or
/// to nothing).
pub proof fn law_refunds_within_payment(rm: &RefundManager, payment_id: Seq<char>)
    requires
        rm.wf(),
        rm.payments@.contains_key(payment_id),
    ensures
        0 <= rm.refund_total(payment_id),
        rm.refund_total(payment_id) == 0 || rm.refund_total(payment_id) <= rm.payments@[payment_id].amount,
{
    rm.lemma_refund_total_nonneg(payment_id);
}

/// No payment is ever disputed beyond its amount: the disputes of a payment that were not
/// rejected add up to at most the payment's amount (or to nothing).
pub proof fn law_disputes_within_payment(rm: &RefundManager, payment_id: Seq<char>)
    requires
        rm.wf(),
        rm.payments@.contains_key(payment_id),
    ensures
        0 <= rm.dispute_total(payment_id),
        rm.dispute_total(payment_id) == 0 || rm.dispute_total(payment_id) <= rm.payments@[payment_id].amount,
{
    rm.lemma_dispute_total_nonneg(payment_id);
}

/// Two refunds created one after the other get different ids.
pub proof fn law_refund_ids_unique(
    s0: &RefundManager,
    s1: &RefundManager,
    s2: &RefundManager,
    id1: String,
    id2: String,
    p1: String,
    p2: String,
    a1: i128,
    a2: i128,
    r1: String,
    r2: String,
    q1: Address,
    q2: Address,
    t1: u64,
    t2: u64,
)
    requires
        s0.refund_added(s1, id1, p1, a1, r1, q1, t1),
        s1.refund_added(s2, id2, p2, a2, r2, q2, t2),
    ensures
        id1@ != id2@,
{
    lemma_format_id_unique_and_readable("refund_"@, (s0.refund_counter + 1) as nat, (s1.refund_counter + 1) as nat);
}

/// A payment created with an idempotency key is what a read, and a retry with the same key and
/// payment id, give back.
pub proof fn law_create_then_read_and_retry(p0: &PaymentProcessor, p1: &PaymentProcessor, args: CreatePaymentArgs, now: u64)
    requires
        p0.created(p1, args, now),
    ensures
        p1.spec_lookup(args.payment_id@) == Ok::<crate::types::PaymentCharge, Error>(new_payment(args, now)),
        args.client_token is Some ==> p1.idempotency_hit(args) && p1.idempotency@[args.client_token->Some_0@]@
            == args.payment_id@,
{
}

/// A merchant creates at most thirty payments per sixty-second window: the counter never
/// passes the maximum; within a window each creation adds one and the thirty-first is refused;
/// once sixty seconds have passed since the window began, the next creation opens a new window.
pub proof fn law_rate_limit_bounded(prev: Option<MerchantCreateRateLimit>, now: u64)
    ensures
        rate_limit_step(prev, now) matches Some(st) ==> 1 <= st.count <= CREATE_PAYMENT_MAX_PER_WINDOW,
        rate_limit_step(prev, now) matches Some(st) ==> st.last_payment_at == now,
        prev matches Some(p) && clamp_u64(now - p.window_start) >= CREATE_PAYMENT_WINDOW_SECS ==> rate_limit_step(prev, now)
            == Some(MerchantCreateRateLimit { last_payment_at: now, count: 1, window_start: now }),
        prev is Some && clamp_u64(now - prev->Some_0.window_start) < CREATE_PAYMENT_WINDOW_SECS ==> {
            let p = prev->Some_0;
            &&& (rate_limit_step(prev, now) is Some <==> p.count < CREATE_PAYMENT_MAX_PER_WINDOW)
            &&& p.count < CREATE_PAYMENT_MAX_PER_WINDOW ==> rate_limit_step(prev, now) == Some(
                MerchantCreateRateLimit { last_payment_at: now, count: (p.count + 1) as u32, window_start: p.window_start },
            )
        },
{
}

/// The fee kept from a refund is never negative and never more than the refund, so the amount
/// paid to the requester and the fee add up to the refund.
pub proof fn law_refund_fee_bounds(amount: i128, bps: i128)
    requires
        amount > 0,
        0 <= bps <= 10_000,
    ensures
        0 <= refund_fee(amount, bps) <= amount,
        (amount - refund_fee(amount, bps)) + refund_fee(amount, bps) == amount,
{
    assert(0 <= amount * bps <= amount * 10_000) by (nonlinear_arith)
        requires
            amount > 0,
            0 <= bps <= 10_000,
    ;
    assert((amount * bps) / 10_000 <= amount) by (nonlinear_arith)
        requires
            0 <= amount * bps <= amount * 10_000,
            amount > 0,
    ;
}

/// A vote adds the voter's whole stake to the chosen side: every locked stake is positive and
/// every tally non-negative, so the side's weight grows by exactly the stake (it saturates only
/// at `i128::MAX`).
pub proof fn law_vote_adds_stake(rm: &RefundManager, dispute_id: Seq<char>, arbitrator: Seq<char>)
    requires
        rm.wf(),
        rm.stake_map(dispute_id).contains_key(arbitrator),
    ensures
        rm.stake_map(dispute_id)[arbitrator] > 0,
        rm.tally_of(dispute_id).favour_weight >= 0,
        rm.tally_of(dispute_id).against_weight >= 0,
        rm.tally_of(dispute_id).favour_weight + rm.stake_map(dispute_id)[arbitrator] <= i128::MAX ==> clamp_i128(
            rm.tally_of(dispute_id).favour_weight + rm.stake_map(dispute_id)[arbitrator],
        ) == rm.tally_of(dispute_id).favour_weight + rm.stake_map(dispute_id)[arbitrator],
        rm.tally_of(dispute_id).against_weight + rm.stake_map(dispute_id)[arbitrator] <= i128::MAX ==> clamp_i128(
            rm.tally_of(dispute_id).against_weight + rm.stake_map(dispute_id)[arbitrator],
        ) == rm.tally_of(dispute_id).against_weight + rm.stake_map(dispute_id)[arbitrator],
        clamp_i128(rm.tally_of(dispute_id).favour_weight + rm.stake_map(dispute_id)[arbitrator]) >= rm.tally_of(
            dispute_id,
        ).favour_weight,
        clamp_i128(rm.tally_of(dispute_id).against_weight + rm.stake_map(dispute_id)[arbitrator]) >= rm.tally_of(
            dispute_id,
        ).against_weight,
{
    assert(rm.stakes@[dispute_id]@[arbitrator] > 0);
}

/// Suspending a merchant and then reinstating it gives the registry back its records as they
/// were, for a merchant that was active with no suspension on record.
pub proof fn law_suspend_then_reinstate(
    r0: &MerchantRegistry,
    r1: &MerchantRegistry,
    r2: &MerchantRegistry,
    merchant_id: Seq<char>,
    reason: String,
    now: u64,
)
    requires
        r0.merchants_view().contains_key(merchant_id),
        r0.merchants_view()[merchant_id].active,
        r0.merchants_view()[merchant_id].suspension_reason is None,
        r0.merchants_view()[merchant_id].suspended_at is None,
        r1.merchants_view() == r0.merchants_view().insert(
            merchant_id,
            suspended_record(r0.merchants_view()[merchant_id], reason, now),
        ),
        r2.merchants_view() == r1.merchants_view().insert(merchant_id, reinstated_record(r1.merchants_view()[merchant_id])),
    ensures
        r2.merchants_view() == r0.merchants_view(),
{
    assert(r2.merchants_view() =~= r0.merchants_view());
}

/// A losing arbitrator's slash and what is returned add up to the stake.
pub proof fn law_slash_splits_stake(stake: i128)
    requires
        0 <= stake,
        stake * SLASH_BPS <= i128::MAX,
    ensures
        0 <= trunc_div(stake * SLASH_BPS, 10_000) <= stake,
        trunc_div(stake * SLASH_BPS, 10_000) + clamp_i128(stake - trunc_div(stake * SLASH_BPS, 10_000)) == stake,
{
    assert((stake * 1_000) / 10_000 <= stake) by (nonlinear_arith)
        requires
            0 <= stake,
    ;
}

/// A stream never owes more than it holds: checkpointing, paying out what accrued and
/// changing the rate keep what accrued between zero and the deposit, and a rate change only
/// ever gives back deposit that had not accrued.
pub proof fn law_stream_books_balance(s: PaymentStream, now: u64, wd: i128, new_rate: i128)
    requires
        stream_ok(s),
    ensures
        stream_ok(checkpoint(s, now)),
        checkpoint(s, now).accrued_at_checkpoint >= s.accrued_at_checkpoint,
        0 < wd <= checkpoint(s, now).accrued_at_checkpoint ==> stream_ok(paid_out(checkpoint(s, now), wd)),
        new_rate > 0 ==> stream_ok(rate_changed(s, new_rate, now).0),
        new_rate > 0 ==> rate_changed(s, new_rate, now).0.remaining_deposit + rate_changed(s, new_rate, now).1
            == checkpoint(s, now).remaining_deposit,
{
    let c = checkpoint(s, now);
    let owed = clamp_i128(crate::util::clamp_u64(now - s.last_checkpoint_at) * s.rate_per_second);
    assert(owed >= 0) by (nonlinear_arith)
        requires
            owed == clamp_i128(crate::util::clamp_u64(now - s.last_checkpoint_at) * s.rate_per_second),
            crate::util::clamp_u64(now - s.last_checkpoint_at) >= 0,
            s.rate_per_second > 0,
    ;
    if new_rate > 0 && new_rate < s.rate_per_second {
        let unlocked = clamp_i128(c.remaining_deposit - c.accrued_at_checkpoint);
        if unlocked > 0 {
            let secs = unlocked / (s.rate_per_second as int);
            assert(0 <= secs * new_rate <= unlocked) by (nonlinear_arith)
                requires
                    secs == unlocked / (s.rate_per_second as int),
                    unlocked > 0,
                    s.rate_per_second > 0,
                    0 < new_rate < s.rate_per_second,
            ;
        }
    }
}

/// A charge whose transfer went through ends any grace period and sets the schedule going
/// again: no retry is pending, the next payment falls one interval after the charge, the
/// payment is counted once, and the charge is the last payment. Until that next payment is
/// due, a further attempt asks the payer for nothing, pays no one and leaves the
/// subscription as it is, whatever the payer's transfer would have done.
pub proof fn law_collected_charge_schedules_next(
    rm0: &RefundManager,
    rm1: &RefundManager,
    id: String,
    token: Address,
    now: u64,
    later: u64,
    collected_later: bool,
)
    requires
        rm0.charge_attempted(id@, now),
        rm1.subscriptions@ == rm0.subscriptions@.insert(
            id@,
            charge_outcome(
                id,
                rm0.subscriptions@[id@],
                rm0.plan_of(rm0.subscriptions@[id@].plan_id@),
                now,
                true,
                token,
                rm0.contract_address,
            ).0,
        ),
        now + rm0.subscriptions@[id@].interval_secs <= u64::MAX,
        rm0.subscriptions@[id@].total_payments < u32::MAX,
    ensures
        ({
            let s0 = rm0.subscriptions@[id@];
            let s1 = rm1.subscriptions@[id@];
            &&& s1.next_retry_at is None
            &&& s1.retry_count == 0
            &&& s1.next_payment_at == now + s0.interval_secs
            &&& s1.last_payment_at == Some(now)
            &&& s1.total_payments == s0.total_payments + 1
            &&& (s0.max_payments matches Some(m) && s0.total_payments + 1 >= m ==> s1.status == SubscriptionStatus::Expired)
            &&& (!(s0.max_payments matches Some(m) && s0.total_payments + 1 >= m) ==> s1.status == SubscriptionStatus::Active)
            &&& (now <= later < now + s0.interval_secs ==> !rm1.charge_attempted(id@, later))
            &&& (now <= later < now + s0.interval_secs ==> charge_outcome(
                id,
                s1,
                rm1.plan_of(s1.plan_id@),
                later,
                collected_later,
                token,
                rm1.contract_address,
            ) == (s1, Seq::<Effect>::empty(), Ok::<SubscriptionStatus, Error>(s1.status)))
        }),
{
    let s0 = rm0.subscriptions@[id@];
    let s = resumed(s0, now).0;
    assert(s.interval_secs == s0.interval_secs);
    assert(s.total_payments == s0.total_payments);
    assert(s.status == SubscriptionStatus::Active);
}

/// What a collected charge pays on adds up to the amount charged when no splits are set: the
/// merchant alone gets the whole amount, or, with an affiliate, the affiliate gets its share
/// (rounded toward zero) and the merchant the rest.
pub proof fn law_charge_payouts_add_up(s: Subscription, plan: Option<SubscriptionPlan>, token: Address, from: Address)
    requires
        plan matches Some(p) ==> p.payout_splits@.len() == 0,
        0 <= s.amount,
        s.affiliate_fee_bps matches Some(b) ==> b <= 10_000 && s.amount * b <= i128::MAX,
    ensures
        !(s.affiliate is Some && s.affiliate_fee_bps is Some && plan is Some) ==> charge_payouts(s, plan, token, from)
            == seq![transfer_effect(token, from, s.merchant_id, s.amount, TransferMode::BestEffort)],
        s.affiliate is Some && s.affiliate_fee_bps is Some && plan is Some ==> {
            let fee = s.amount * s.affiliate_fee_bps->Some_0 / 10_000;
            let to_merchant = transfer_effect(token, from, s.merchant_id, (s.amount - fee) as i128, TransferMode::BestEffort);
            &&& 0 <= fee <= s.amount
            &&& fee > 0 ==> charge_payouts(s, plan, token, from) == seq![
                transfer_effect(token, from, s.affiliate->Some_0, fee as i128, TransferMode::BestEffort),
                to_merchant,
            ]
            &&& fee == 0 ==> charge_payouts(s, plan, token, from) == seq![to_merchant]
        },
{
    if s.affiliate is Some && s.affiliate_fee_bps is Some && plan is Some {
        let b = s.affiliate_fee_bps->Some_0;
        assert(0 <= s.amount * b <= s.amount * 10_000) by (nonlinear_arith)
            requires
                0 <= s.amount,
                0 <= b <= 10_000,
        ;
        assert(s.amount * b / 10_000 <= s.amount) by (nonlinear_arith)
            requires
                0 <= s.amount * b <= s.amount * 10_000,
                0 <= s.amount,
        ;
    }
}

/// A paused subscription comes back by itself: an attempt at or after its resume time finds it
/// active again, with no resume time left and its next payment one interval after the resume
/// time, and says so; before its resume time an attempt leaves it paused and does nothing. An
/// attempt on a subscription that is not active, or not yet due, pays no one and answers its
/// status.
pub proof fn law_paused_subscription_resumes(
    id: String,
    s0: Subscription,
    plan: Option<SubscriptionPlan>,
    now: u64,
    collected: bool,
    token: Address,
    contract: Address,
)
    ensures
        s0.status == SubscriptionStatus::Paused && s0.resume_at is Some && now >= s0.resume_at->Some_0
            && s0.resume_at->Some_0 + s0.interval_secs <= u64::MAX ==> {
            let s = resumed(s0, now).0;
            &&& s.status == SubscriptionStatus::Active
            &&& s.resume_at is None
            &&& s.next_payment_at == s0.resume_at->Some_0 + s0.interval_secs
            &&& charge_outcome(id, s0, plan, now, collected, token, contract).1[0] == Effect::Emit(
                Event::SubscriptionResumed { subscription_id: id, payer: s0.payer_address },
            )
        },
        s0.status == SubscriptionStatus::Paused && !(s0.resume_at is Some && now >= s0.resume_at->Some_0) ==> charge_outcome(
            id,
            s0,
            plan,
            now,
            collected,
            token,
            contract,
        ) == (s0, Seq::<Effect>::empty(), Ok::<SubscriptionStatus, Error>(SubscriptionStatus::Paused)),
        s0.status != SubscriptionStatus::Paused && (s0.status != SubscriptionStatus::Active || now < due_at(s0))
            ==> charge_outcome(id, s0, plan, now, collected, token, contract) == (s0, Seq::<Effect>::empty(), Ok::<
            SubscriptionStatus,
            Error,
        >(s0.status)),
{
}

/// A stream accrues its rate for every second since its last checkpoint, never beyond its
/// deposit (no time passes before the checkpoint); while it is active that is what it owes the
/// receiver. Cancelling it splits the deposit: what accrued goes to the receiver, the rest back
/// to the sender, and the two add up to the deposit.
pub proof fn law_stream_accrues_and_cancel_splits(s: PaymentStream, now: u64)
    requires
        stream_ok(s),
    ensures
        ({
            let elapsed: int = if now >= s.last_checkpoint_at {
                now - s.last_checkpoint_at
            } else {
                0
            };
            let due: int = if s.accrued_at_checkpoint + elapsed * s.rate_per_second < s.remaining_deposit {
                s.accrued_at_checkpoint + elapsed * s.rate_per_second
            } else {
                s.remaining_deposit as int
            };
            &&& checkpoint(s, now).accrued_at_checkpoint == due
            &&& checkpoint(s, now).last_checkpoint_at == now
            &&& checkpoint(s, now).remaining_deposit == s.remaining_deposit
            &&& (s.status == StreamStatus::Active ==> accrued_at(s, now) == due)
            &&& cancelled(s, now).1 == due
            &&& cancelled(s, now).2 == s.remaining_deposit - due
            &&& cancelled(s, now).1 + cancelled(s, now).2 == s.remaining_deposit
            &&& cancelled(s, now).0.status == StreamStatus::Cancelled
            &&& cancelled(s, now).0.remaining_deposit == due
        }),
{
    let elapsed: int = if now >= s.last_checkpoint_at {
        now - s.last_checkpoint_at
    } else {
        0
    };
    assert(elapsed == clamp_u64(now - s.last_checkpoint_at));
    assert(elapsed * s.rate_per_second >= 0) by (nonlinear_arith)
        requires
            elapsed >= 0,
            s.rate_per_second > 0,
    ;
}

/// A verified payment is confirmed when what arrived is within the tolerance of what was due
/// either way, overpaid when more arrived, and partially paid when less did. The tolerance is
/// one unit for the default token, and for a token of `d >= 6` decimals `10^(d-6)` units
/// (one unit below six decimals).
pub proof fn law_payment_classified_by_tolerance(diff: int, token: Option<Address>, decimals: u32)
    ensures
        ({
            let tol = tolerance_for(token, decimals);
            &&& tol >= 1
            &&& (classify_payment(diff, tol) == PaymentStatus::Confirmed) <==> (-tol <= diff <= tol)
            &&& (classify_payment(diff, tol) == PaymentStatus::Overpaid) <==> diff > tol
            &&& (classify_payment(diff, tol) == PaymentStatus::PartiallyPaid) <==> diff < -tol
        }),
        token is None ==> tolerance_for(token, decimals) == 1,
        token is Some && decimals < 6 ==> tolerance_for(token, decimals) == 1,
        token is Some && decimals >= 6 ==> tolerance_for(token, decimals) == pow10((decimals - 6) as nat),
{
    if token is Some && decimals >= 6 {
        lemma_pow10_monotone(0, (decimals - 6) as nat);
    }
}

/// A refund request is accepted exactly when it asks for a positive amount of a confirmed
/// payment that, added to what was already refunded (refunds not rejected), stays within the
/// payment's amount; a request that would refund beyond the payment is refused as such.
pub proof fn law_refund_accepted_within_payment(rm: &RefundManager, payment_id: Seq<char>, amount: i128)
    ensures
        (rm.refund_error(payment_id, amount) is None) <==> (amount > 0 && rm.payments@.contains_key(payment_id)
            && rm.payments@[payment_id].status == PaymentStatus::Confirmed && rm.refund_total(payment_id) + amount
            <= rm.payments@[payment_id].amount),
        amount > 0 && rm.payments@.contains_key(payment_id) && rm.payments@[payment_id].status == PaymentStatus::Confirmed
            && rm.refund_total(payment_id) + amount > rm.payments@[payment_id].amount ==> rm.refund_error(payment_id, amount)
            == Some(Error::RefundExceedsPayment),
{
}

/// A charge whose transfer failed puts the subscription in a grace period: each failure in a
/// row is counted and the next attempt falls the retry interval later, with nothing paid to
/// anyone, until the failure that reaches the retry limit cancels the subscription.
pub proof fn law_failed_charge_retries_then_cancels(
    id: String,
    s0: Subscription,
    plan: Option<SubscriptionPlan>,
    now: u64,
    token: Address,
    contract: Address,
)
    requires
        resumed(s0, now).0.status == SubscriptionStatus::Active,
        now >= due_at(resumed(s0, now).0),
        s0.retry_count < u32::MAX,
        now + SUBSCRIPTION_RETRY_INTERVAL_SECS <= u64::MAX,
    ensures
        ({
            let out = charge_outcome(id, s0, plan, now, false, token, contract);
            let s = resumed(s0, now).0;
            &&& out.0.retry_count == s0.retry_count + 1
            &&& out.0.total_payments == s0.total_payments
            &&& out.0.next_payment_at == s.next_payment_at
            &&& (s0.retry_count + 1 < SUBSCRIPTION_MAX_RETRIES ==> {
                &&& out.0.status == SubscriptionStatus::Active
                &&& out.0.next_retry_at == Some((now + SUBSCRIPTION_RETRY_INTERVAL_SECS) as u64)
                &&& out.2 == Err::<SubscriptionStatus, Error>(Error::SubscriptionInGracePeriod)
            })
            &&& (s0.retry_count + 1 >= SUBSCRIPTION_MAX_RETRIES ==> {
                &&& out.0.status == SubscriptionStatus::Cancelled
                &&& out.0.next_retry_at is None
                &&& out.2 == Err::<SubscriptionStatus, Error>(Error::SubscriptionRetryExhausted)
            })
            &&& forall|i: int| 0 <= i < out.1.len() ==> !(#[trigger] out.1[i] is Transfer)
        }),
{
    let out = charge_outcome(id, s0, plan, now, false, token, contract);
    assert forall|i: int| 0 <= i < out.1.len() implies !(#[trigger] out.1[i] is Transfer) by {}
}

/// The side with more stake wins an arbitration vote, a tie going to the disputer: the
/// disputer's side wins exactly when the weight in favour is at least the weight against, and
/// the dispute is rejected exactly when the weight against is greater. The arbitrators on the
/// losing side are the ones slashed: settling an arbitrator who voted in favour when the
/// weight against is greater returns the stake less the slash (the slash to the
/// administrator), and one who voted against gets the whole stake back; the other way round
/// when the weight in favour is at least the weight against.
pub proof fn law_vote_majority_decides(
    t: VoteTally,
    stakes: Map<Seq<char>, i128>,
    votes: Map<Seq<char>, VoteChoice>,
    arbitrator: String,
    admin: Option<Address>,
    token: Address,
    contract: Address,
)
    ensures
        (majority_of(t) == VoteChoice::Favour) <==> t.favour_weight >= t.against_weight,
        (majority_of(t) == VoteChoice::Against) <==> t.against_weight > t.favour_weight,
        forall|stake: i128|
            #![trigger stake_return(stake, true, arbitrator, admin, token, contract)]
            stake_return(stake, true, arbitrator, admin, token, contract) == seq![
                transfer_effect(token, contract, arbitrator, stake, TransferMode::Required),
            ],
        forall|stake: i128, a: Address|
            10 <= stake ==> #[trigger] stake_return(stake, false, arbitrator, Some(a), token, contract) == seq![
                transfer_effect(token, contract, arbitrator, (stake - stake / 10) as i128, TransferMode::Required),
                transfer_effect(token, contract, a, (stake / 10) as i128, TransferMode::Required),
            ],
        stakes.contains_key(arbitrator@) && votes.contains_key(arbitrator@) ==> stake_settlement(
            stakes,
            votes,
            seq![arbitrator],
            majority_of(t),
            admin,
            token,
            contract,
        ) == (
            stakes.remove(arbitrator@),
            stake_return(
                stakes[arbitrator@],
                (votes[arbitrator@] == VoteChoice::Favour) == (t.favour_weight >= t.against_weight),
                arbitrator,
                admin,
                token,
                contract,
            ),
        ),
{
    assert forall|stake: i128, a: Address|
        10 <= stake implies #[trigger] stake_return(stake, false, arbitrator, Some(a), token, contract) == seq![
            transfer_effect(token, contract, arbitrator, (stake - stake / 10) as i128, TransferMode::Required),
            transfer_effect(token, contract, a, (stake / 10) as i128, TransferMode::Required),
        ] by {
        assert(stake * SLASH_BPS / 10_000 == stake / 10) by (nonlinear_arith)
            requires
                10 <= stake,
        ;
        assert(stake * SLASH_BPS >= 0) by (nonlinear_arith)
            requires
                10 <= stake,
        ;
        assert(stake / 10 >= 1);
    }
    let arbs = seq![arbitrator];
    if stakes.contains_key(arbitrator@) && votes.contains_key(arbitrator@) {
        let ret = stake_return(stakes[arbitrator@], votes[arbitrator@] == majority_of(t), arbitrator, admin, token, contract);
        assert(arbs.drop_last() =~= Seq::<String>::empty());
        assert(arbs.last() == arbitrator);
        assert(stake_settlement(stakes, votes, arbs.drop_last(), majority_of(t), admin, token, contract) == (
            stakes,
            Seq::<Effect>::empty(),
        ));
        assert(Seq::<Effect>::empty() + ret =~= ret);
        assert((votes[arbitrator@] == majority_of(t)) == ((votes[arbitrator@] == VoteChoice::Favour) == (t.favour_weight
            >= t.against_weight)));
    }
}

/// The platform fee of a configuration that charges anything (a percentage, a fixed fee, or
/// both) is the percentage of the amount, rounded toward zero, plus the fixed fee, capped at
/// the amount; the merchant nets the rest. Only a configuration with neither, or none at all,
/// is free. For an ordinary configuration (a rate of at most one hundred percent, no negative
/// fixed fee) and a non-negative amount, the fee lies between zero and the amount.
pub proof fn law_fee_charges_rate_and_fixed_fee(config: FeeConfig, amount: i128)
    requires
        i128::MIN <= amount * config.platform_fee_bps <= i128::MAX,
        amount - clamp_i128(trunc_div(amount * config.platform_fee_bps, 10_000) + config.fixed_fee) <= i128::MAX,
    ensures
        spec_fee(None, amount) == (0i128, amount),
        config.platform_fee_bps == 0 && config.fixed_fee == 0 ==> spec_fee(Some(config), amount) == (0i128, amount),
        config.platform_fee_bps != 0 || config.fixed_fee != 0 ==> {
            let charged = clamp_i128(trunc_div(amount * config.platform_fee_bps, 10_000) + config.fixed_fee);
            let fee = if charged >= amount {
                amount as int
            } else {
                charged
            };
            &&& spec_fee(Some(config), amount).0 == fee
            &&& spec_fee(Some(config), amount).1 == amount - fee
        },
        (config.platform_fee_bps != 0 || config.fixed_fee != 0) && 0 <= amount && 0 <= config.platform_fee_bps <= 10_000
            && 0 <= config.fixed_fee ==> {
            let sum = amount * config.platform_fee_bps / 10_000 + config.fixed_fee;
            &&& spec_fee(Some(config), amount).0 == (if sum >= amount {
                amount as int
            } else {
                sum
            })
            &&& 0 <= spec_fee(Some(config), amount).0 <= amount
            &&& spec_fee(Some(config), amount).0 + spec_fee(Some(config), amount).1 == amount
        },
{
    if 0 <= amount && 0 <= config.platform_fee_bps <= 10_000 {
        assert(0 <= amount * config.platform_fee_bps) by (nonlinear_arith)
            requires
                0 <= amount,
                0 <= config.platform_fee_bps,
        ;
    }
}

/// The staleness threshold in force decides when a rate is stale: a published rate is served
/// while no more than the threshold has passed since it was stamped, and refused as stale
/// after; the threshold is the one last configured (by initialization or by the
/// administrator), one day only when none was. A missing rate is refused as missing.
pub proof fn law_threshold_governs_staleness(o: &FXOracle, pair: Seq<char>, now: u64)
    ensures
        o.spec_threshold() == (match o.staleness_threshold {
            Some(t) => t,
            None => DEFAULT_STALENESS_SECS,
        }),
        (o.spec_get_rate(pair, now) == Err::<RateData, FXOracleError>(FXOracleError::RateStale)) <==> (
        o.rates@.contains_key(pair) && now > o.rates@[pair].updated_at + o.spec_threshold()),
        (o.spec_get_rate(pair, now) == Err::<RateData, FXOracleError>(FXOracleError::RateNotFound)) <==> !o.rates@.contains_key(pair),
        (o.spec_get_rate(pair, now) is Ok) <==> (o.rates@.contains_key(pair) && now <= o.rates@[pair].updated_at
            + o.spec_threshold()),
        o.spec_get_rate(pair, now) matches Ok(d) ==> d == o.rates@[pair],
        o.staleness_threshold matches Some(t) ==> ((o.spec_get_rate(pair, now) == Err::<RateData, FXOracleError>(
            FXOracleError::RateStale)) <==> (o.rates@.contains_key(pair) && now > o.rates@[pair].updated_at + t)),
{
}

/// Once the administrator sets a threshold, the oracle's rates are judged by it: a rate is
/// stale exactly when more than that threshold has passed since it was stamped.
pub proof fn law_set_threshold_then_read(o0: &FXOracle, o1: &FXOracle, threshold: u64, pair: Seq<char>, now: u64)
    requires
        o1.staleness_threshold == Some(threshold),
        o1.rates == o0.rates,
    ensures
        (o1.spec_get_rate(pair, now) == Err::<RateData, FXOracleError>(FXOracleError::RateStale)) <==> (
        o0.rates@.contains_key(pair) && now > o0.rates@[pair].updated_at + threshold),
        (o1.spec_get_rate(pair, now) is Ok) <==> (o0.rates@.contains_key(pair) && now <= o0.rates@[pair].updated_at
            + threshold),
{
}

/// A published rate is what a read gives back: after an oracle operator publishes a rate for a
/// pair at `now`, a read of that pair up to the staleness threshold later answers exactly the
/// published rate, stamped `now`, and a read after that refuses it as stale.
pub proof fn law_published_rate_is_read_back(
    o0: &FXOracle,
    o1: &FXOracle,
    pair: Symbol,
    rate: i128,
    decimals: u32,
    now: u64,
    later: u64,
)
    requires
        o1.rates@ == o0.rates@.insert(pair@, RateData { pair, rate, decimals, updated_at: now }),
        o1.staleness_threshold == o0.staleness_threshold,
    ensures
        now <= later <= now + o0.spec_threshold() ==> o1.spec_get_rate(pair@, later) == Ok::<RateData, FXOracleError>(
            RateData { pair, rate, decimals, updated_at: now },
        ),
        later > now + o0.spec_threshold() ==> o1.spec_get_rate(pair@, later) == Err::<RateData, FXOracleError>(
            FXOracleError::RateStale,
        ),
{
}

/// The streams a receiver's sweep passes over without failing: those that are active, or
/// that have no record (which fail the sweep as missing).
pub open spec fn active_or_unknown(streams: Map<Seq<char>, PaymentStream>) -> spec_fn(String) -> bool {
    |id: String| !(streams.contains_key(id@) && streams[id@].status != StreamStatus::Active)
}

/// Every stream of `before` that is not active is stored in `after` unchanged.
pub open spec fn keeps_inactive(before: Map<Seq<char>, PaymentStream>, after: Map<Seq<char>, PaymentStream>) -> bool {
    forall|k: Seq<char>|
        #![trigger after.contains_key(k)]
        #![trigger after[k]]
        #![trigger before[k]]
        before.contains_key(k) && before[k].status != StreamStatus::Active ==> after.contains_key(k) && after[k] == before[k]
}

/// What [`keeps_inactive`] says of one stream.
proof fn lemma_keeps_inactive_at(before: Map<Seq<char>, PaymentStream>, after: Map<Seq<char>, PaymentStream>, k: Seq<char>)
    requires
        keeps_inactive(before, after),
        before.contains_key(k),
        before[k].status != StreamStatus::Active,
    ensures
        after.contains_key(k),
        after[k] == before[k],
{
    assert(after.contains_key(k) && after[k] == before[k]);
}

/// A sweep neither fails on nor changes the streams that were not active when it began: its
/// run over a list of ids is its run over the same list with those streams left out, and
/// whatever it stores keeps them as they were.
proof fn lemma_sweep_skips_inactive(
    st: BatchState,
    ids: Seq<String>,
    recipient: Address,
    max_streams: u32,
    now: u64,
    contract: Address,
    locks: Map<Seq<char>, bool>,
)
    ensures
        run_batch(st, ids, id_key(), sweep_step(recipient, max_streams, now, contract, locks)) == run_batch(
            st,
            ids.filter(active_or_unknown(st.0)),
            id_key(),
            sweep_step(recipient, max_streams, now, contract, locks),
        ),
        run_batch(st, ids, id_key(), sweep_step(recipient, max_streams, now, contract, locks)) is Ok ==> keeps_inactive(
            st.0,
            run_batch(st, ids, id_key(), sweep_step(recipient, max_streams, now, contract, locks))->Ok_0.0,
        ),
    decreases ids.len(),
{
    reveal(Seq::filter);
    let step = sweep_step(recipient, max_streams, now, contract, locks);
    let p = active_or_unknown(st.0);
    if ids.len() == 0 {
        assert(ids.filter(p) =~= ids);
    } else {
        let init = ids.drop_last();
        let last = ids.last();
        lemma_sweep_skips_inactive(st, init, recipient, max_streams, now, contract, locks);
        let f0 = init.filter(p);
        assert(ids.filter(p) == (if p(last) {
            f0.push(last)
        } else {
            f0
        }));
        if p(last) {
            assert(f0.push(last).drop_last() =~= f0);
            assert(f0.push(last).last() == last);
        }
        match run_batch(st, init, id_key(), step) {
            Err(e) => {},
            Ok(s1) => {
                let cur = lookup(s1.0, last@);
                assert(keeps_inactive(st.0, s1.0));
                if !p(last) {
                    assert(st.0.contains_key(last@) && st.0[last@].status != StreamStatus::Active);
                    lemma_keeps_inactive_at(st.0, s1.0, last@);
                    assert(cur == Some(st.0[last@]));
                    assert(step(cur, s1.2, last) == Ok::<StepOut, StreamError>(
                        (None, Seq::<Effect>::empty(), Seq::<String>::empty()),
                    ));
                    assert(s1.1 + Seq::<Effect>::empty() =~= s1.1);
                    assert(s1.2 + Seq::<String>::empty() =~= s1.2);
                } else {
                    match step(cur, s1.2, last) {
                        Err(e) => {},
                        Ok(o) => {
                            let m = match o.0 {
                                Some(rec) => s1.0.insert(last@, rec),
                                None => s1.0,
                            };
                            assert(run_batch(st, ids, id_key(), step) == Ok::<BatchState, StreamError>(
                                (m, s1.1 + o.1, s1.2 + o.2),
                            ));
                            assert forall|k: Seq<char>|
                                #![trigger m[k]]
                                st.0.contains_key(k) && st.0[k].status != StreamStatus::Active implies m.contains_key(k)
                                    && m[k] == st.0[k] by {
                                assert(k != last@);
                                lemma_keeps_inactive_at(st.0, s1.0, k);
                            }
                            assert(keeps_inactive(st.0, m));
                        },
                    }
                }
            },
        }
    }
}

/// A sweep answers no more streams than its limit.
proof fn lemma_sweep_answers_at_most(
    st: BatchState,
    ids: Seq<String>,
    recipient: Address,
    max_streams: u32,
    now: u64,
    contract: Address,
    locks: Map<Seq<char>, bool>,
)
    requires
        st.2.len() <= max_streams,
    ensures
        run_batch(st, ids, id_key(), sweep_step(recipient, max_streams, now, contract, locks)) is Ok ==> run_batch(
            st,
            ids,
            id_key(),
            sweep_step(recipient, max_streams, now, contract, locks),
        )->Ok_0.2.len() <= max_streams,
    decreases ids.len(),
{
    if ids.len() > 0 {
        lemma_sweep_answers_at_most(st, ids.drop_last(), recipient, max_streams, now, contract, locks);
    }
}

/// A receiver's sweep passes over the streams in its list that are not active: a stream that
/// is not active adds nothing to the sweep and never fails it, so the sweep answers, pays and
/// stores exactly what it would with those streams taken out of the receiver's list.
pub proof fn law_sweep_passes_over_inactive_streams(
    ps: &PaymentStreaming,
    recipient: Address,
    max_streams: u32,
    now: u64,
)
    ensures
        run_batch(
            (ps.streams@, Seq::<Effect>::empty(), Seq::<String>::empty()),
            list_or_empty(ps.recipient_index@, recipient@),
            id_key(),
            sweep_step(recipient, max_streams, now, ps.contract_address, ps.locks@),
        ) == run_batch(
            (ps.streams@, Seq::<Effect>::empty(), Seq::<String>::empty()),
            list_or_empty(ps.recipient_index@, recipient@).filter(active_or_unknown(ps.streams@)),
            id_key(),
            sweep_step(recipient, max_streams, now, ps.contract_address, ps.locks@),
        ),
        forall|s: PaymentStream, done: Seq<String>, id: String|
            s.status != StreamStatus::Active || s.receiver@ != recipient@ || !s.milestones_approved
                ==> #[trigger] sweep_step(recipient, max_streams, now, ps.contract_address, ps.locks@)(Some(s), done, id)
                == Ok::<StepOut, StreamError>((None, Seq::<Effect>::empty(), Seq::<String>::empty())),
        forall|cur: Option<PaymentStream>, done: Seq<String>, id: String|
            done.len() >= max_streams ==> #[trigger] sweep_step(recipient, max_streams, now, ps.contract_address, ps.locks@)(
                cur,
                done,
                id,
            ) == Ok::<StepOut, StreamError>((None, Seq::<Effect>::empty(), Seq::<String>::empty())),
        run_batch(
            (ps.streams@, Seq::<Effect>::empty(), Seq::<String>::empty()),
            list_or_empty(ps.recipient_index@, recipient@),
            id_key(),
            sweep_step(recipient, max_streams, now, ps.contract_address, ps.locks@),
        ) matches Ok(st) ==> st.2.len() <= max_streams,
{
    lemma_sweep_answers_at_most(
        (ps.streams@, Seq::<Effect>::empty(), Seq::<String>::empty()),
        list_or_empty(ps.recipient_index@, recipient@),
        recipient,
        max_streams,
        now,
        ps.contract_address,
        ps.locks@,
    );
    lemma_sweep_skips_inactive(
        (ps.streams@, Seq::<Effect>::empty(), Seq::<String>::empty()),
        list_or_empty(ps.recipient_index@, recipient@),
        recipient,
        max_streams,
        now,
        ps.contract_address,
        ps.locks@,
    );
}

} // verus!
