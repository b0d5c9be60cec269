use fluxapay::access_control::{role_merchant, role_settlement_operator};
use fluxapay::{
    BillingInterval, DisputeStatus, Effect, Error, Event, KycTier, Merchant, PaymentCharge, PaymentStatus,
    RefundManager, RefundStatus, SubscriptionStatus, TokenTransfer, TransferMode, VoteChoice,
    SUBSCRIPTION_RETRY_INTERVAL_SECS,
};

const CONTRACT: &str = "CREFUNDS";
const USDC: &str = "CUSDC";
const ADMIN: &str = "GADMIN";
const OPERATOR: &str = "GOPERATOR";

fn s(x: &str) -> String {
    x.to_string()
}

fn manager() -> RefundManager {
    let mut rm = RefundManager::new(s(CONTRACT));
    rm.initialize_refund_manager(s(ADMIN), s(USDC)).unwrap();
    rm.grant_role(&s(ADMIN), role_settlement_operator(), s(OPERATOR)).unwrap();
    rm
}

fn net(effects: &[Effect], token: &str, account: &str) -> i128 {
    effects
        .iter()
        .map(|e| match e {
            Effect::Transfer(t) if t.token == token && t.to == account => t.amount,
            Effect::Transfer(t) if t.token == token && t.from == account => -t.amount,
            _ => 0,
        })
        .sum()
}

fn with_payment(amount: i128) -> RefundManager {
    let mut rm = manager();
    rm.register_payment(s("pay_1"), s("GMERCHANT"), amount, s("USDC"), 0);
    rm
}

#[test]
fn dispute_ids_count_up_and_lists_follow_creation() {
    let mut rm = with_payment(1000);
    let d1 = rm.create_dispute(s("pay_1"), 100, s("r"), s("e"), s("GCUSTOMER"), 5).unwrap();
    let d2 = rm.create_dispute(s("pay_1"), 200, s("r"), s("e"), s("GCUSTOMER"), 6).unwrap();
    assert_eq!(d1, s("dispute_1"));
    assert_eq!(d2, s("dispute_2"));
    let all = rm.get_payment_disputes(&s("pay_1")).unwrap();
    assert_eq!(all.iter().map(|d| d.amount).collect::<Vec<_>>(), vec![100, 200]);
    assert_eq!(all[0].status, DisputeStatus::Open);
    assert_eq!(all[0].created_at, 5);
}

#[test]
fn dispute_errors() {
    let mut rm = with_payment(1000);
    assert_eq!(rm.create_dispute(s("pay_1"), 0, s("r"), s("e"), s("G1"), 0), Err(Error::InvalidAmount));
    assert_eq!(rm.create_dispute(s("nope"), 5, s("r"), s("e"), s("G1"), 0), Err(Error::PaymentNotFound));
    assert_eq!(rm.create_dispute(s("pay_1"), 1001, s("r"), s("e"), s("G1"), 0), Err(Error::InvalidAmount));
    rm.create_dispute(s("pay_1"), 600, s("r"), s("e"), s("G1"), 0).unwrap();
    rm.create_refund(s("pay_1"), 300, s("r"), s("G1"), 0).unwrap();
    // 600 disputed + 300 refunded + 101 > 1000
    assert_eq!(rm.create_dispute(s("pay_1"), 101, s("r"), s("e"), s("G1"), 0), Err(Error::RefundExceedsPayment));
    assert!(rm.create_dispute(s("pay_1"), 100, s("r"), s("e"), s("G1"), 0).is_ok());
}

#[test]
fn review_then_reject_keeps_the_operator_note() {
    let mut rm = with_payment(1000);
    let d = rm.create_dispute(s("pay_1"), 400, s("r"), s("e"), s("G1"), 0).unwrap();
    assert_eq!(rm.review_dispute(&s("GSTRANGER"), &d), Err(Error::Unauthorized));
    rm.review_dispute(&s(OPERATOR), &d).unwrap();
    assert_eq!(rm.get_dispute(&d, 0).unwrap().status, DisputeStatus::UnderReview);
    assert_eq!(rm.review_dispute(&s(OPERATOR), &d), Err(Error::DisputeAlreadyResolved));

    rm.reject_dispute(&s(OPERATOR), &d, s("no proof"), s("sig-1"), 50).unwrap();
    let note = rm.get_dispute_operator_note(&d).unwrap();
    assert_eq!(note.operator, s(OPERATOR));
    assert_eq!(note.resolution_notes, s("no proof"));
    assert_eq!(note.operator_signature, s("sig-1"));
    assert_eq!(note.recorded_at, 50);
    let dispute = rm.get_dispute(&d, 50).unwrap();
    assert_eq!(dispute.status, DisputeStatus::Rejected);
    assert_eq!(dispute.resolved_at, Some(50));
    assert_eq!(rm.reject_dispute(&s(OPERATOR), &d, s("again"), s("x"), 51), Err(Error::DisputeAlreadyResolved));
    // a rejected dispute frees its amount again
    assert!(rm.create_dispute(s("pay_1"), 1000, s("r"), s("e"), s("G1"), 0).is_ok());
}

#[test]
fn resolving_a_dispute_pays_the_disputer_less_the_fee() {
    let mut rm = with_payment(10_000);
    let d = rm.create_dispute(s("pay_1"), 10_000, s("r"), s("e"), s("GCUSTOMER"), 0).unwrap();
    let refund_id = rm.resolve_dispute_with_refund(&s(OPERATOR), &d, s("ok"), s("sig"), 9, &None).unwrap();
    assert_eq!(refund_id, s("refund_1"));
    let refund = rm.get_refund(&refund_id).unwrap();
    assert_eq!(refund.status, RefundStatus::Completed);
    assert_eq!(refund.requester, s("GCUSTOMER"));
    assert_eq!(net(&rm.effects, USDC, "GCUSTOMER"), 9_900);
    assert_eq!(net(&rm.effects, USDC, ADMIN), 100);
    let dispute = rm.get_dispute(&d, 9).unwrap();
    assert_eq!(dispute.refund_id, Some(refund_id));
    assert_eq!(dispute.status, DisputeStatus::Resolved);
}

#[test]
fn passed_deadline_escalates_once() {
    let mut rm = with_payment(1000);
    let d = rm.create_dispute(s("pay_1"), 400, s("r"), s("e"), s("G1"), 0).unwrap();
    rm.set_dispute_deadline(&s(OPERATOR), &d, 100, 10).unwrap();
    assert!(!rm.get_dispute(&d, 100).unwrap().escalated);
    let before = rm.effects.len();
    assert!(rm.get_dispute(&d, 101).unwrap().escalated);
    assert_eq!(rm.effects.len(), before + 1);
    assert!(rm.get_dispute(&d, 200).unwrap().escalated);
    assert_eq!(rm.effects.len(), before + 1);
}

#[test]
fn arbitration_majority_refunds_and_slashes_the_minority() {
    let mut rm = with_payment(1000);
    let d = rm.create_dispute(s("pay_1"), 1000, s("r"), s("e"), s("GCUSTOMER"), 0).unwrap();
    let gov = s("CGOV");
    rm.lock_stake(s("GA"), &d, gov.clone(), 300).unwrap();
    rm.lock_stake(s("GB"), &d, gov.clone(), 100).unwrap();
    assert_eq!(rm.lock_stake(s("GA"), &d, gov.clone(), 5), Err(Error::Unauthorized));
    assert_eq!(rm.lock_stake(s("GC"), &d, gov.clone(), 0), Err(Error::InvalidAmount));
    assert_eq!(rm.cast_vote(s("GC"), &d, VoteChoice::Favour), Err(Error::Unauthorized));
    rm.cast_vote(s("GA"), &d, VoteChoice::Favour).unwrap();
    rm.cast_vote(s("GB"), &d, VoteChoice::Against).unwrap();
    assert_eq!(rm.cast_vote(s("GB"), &d, VoteChoice::Favour), Err(Error::Unauthorized));

    let tally = rm.get_vote_tally(&d);
    assert_eq!((tally.favour_weight, tally.against_weight, tally.vote_count), (300, 100, 2));

    let arbs = vec![s("GA"), s("GB")];
    rm.finalize_dispute_vote(&s(OPERATOR), &d, gov.clone(), &arbs, 7, &None).unwrap();

    // stakes: GA gets 300 back, GB 90 and the 10 slashed go to the administrator
    assert_eq!(net(&rm.effects, &gov, "GA"), 0);
    assert_eq!(net(&rm.effects, &gov, "GB"), -10);
    assert_eq!(net(&rm.effects, &gov, ADMIN), 10);
    assert_eq!(net(&rm.effects, &gov, CONTRACT), 0);
    // the disputer wins: 1000 refunded less the fee
    assert_eq!(net(&rm.effects, USDC, "GCUSTOMER"), 990);
    assert_eq!(rm.get_dispute(&d, 7).unwrap().status, DisputeStatus::Resolved);
}

#[test]
fn arbitration_against_rejects_the_dispute() {
    let mut rm = with_payment(1000);
    let d = rm.create_dispute(s("pay_1"), 500, s("r"), s("e"), s("GCUSTOMER"), 0).unwrap();
    let gov = s("CGOV");
    rm.lock_stake(s("GA"), &d, gov.clone(), 50).unwrap();
    rm.cast_vote(s("GA"), &d, VoteChoice::Against).unwrap();
    rm.finalize_dispute_vote(&s(OPERATOR), &d, gov.clone(), &vec![s("GA")], 3, &None).unwrap();
    assert_eq!(rm.get_dispute(&d, 3).unwrap().status, DisputeStatus::Rejected);
    assert_eq!(net(&rm.effects, USDC, "GCUSTOMER"), 0);
    assert_eq!(net(&rm.effects, &gov, "GA"), 0);
    assert!(rm.effects.iter().any(|e| matches!(e, Effect::Emit(Event::VoteFinalized { favour_wins: false, .. }))));
}

fn trusted(tier: KycTier) -> Option<Merchant> {
    Some(Merchant {
        merchant_id: s("GMERCHANT"),
        business_name: s("Shop"),
        settlement_currency: s("USDC"),
        payout_address: None,
        bank_account: None,
        kyc_tier: tier,
        active: true,
        created_at: 1,
        suspension_reason: None,
        suspended_at: None,
        fee_config: None,
    })
}

fn paid_charge(amount: i128) -> PaymentCharge {
    PaymentCharge {
        payment_id: s("pay_paid"),
        merchant_id: s("GMERCHANT"),
        amount,
        currency: s("USDC"),
        deposit_address: s(CONTRACT),
        status: PaymentStatus::Confirmed,
        payer_address: Some(s("GPAYER")),
        transaction_hash: None,
        created_at: 0,
        confirmed_at: Some(0),
        expires_at: 0,
        amount_received: Some(amount),
        memo: None,
        memo_type: None,
        token_address: None,
        metadata_hash: None,
    }
}

#[test]
fn instant_refund_needs_a_trusted_merchant_and_a_known_payer() {
    let mut rm = with_payment(1000);
    assert_eq!(
        rm.refund_instantly(&s("GMERCHANT"), s("pay_1"), 10, s("r"), &trusted(KycTier::Basic), 0),
        Err(Error::Unauthorized)
    );
    // registered payments carry no payer
    assert_eq!(
        rm.refund_instantly(&s("GMERCHANT"), s("pay_1"), 10, s("r"), &trusted(KycTier::Full), 0),
        Err(Error::Unauthorized)
    );
    rm.payments.set(s("pay_paid"), paid_charge(2_000));
    assert_eq!(
        rm.refund_instantly(&s("GOTHER"), s("pay_paid"), 10, s("r"), &trusted(KycTier::Full), 0),
        Err(Error::Unauthorized)
    );
    let id = rm.refund_instantly(&s("GMERCHANT"), s("pay_paid"), 2_000, s("r"), &trusted(KycTier::Business), 4).unwrap();
    let refund = rm.get_refund(&id).unwrap();
    assert_eq!(refund.status, RefundStatus::Completed);
    assert_eq!(refund.processed_at, Some(4));
    assert_eq!(net(&rm.effects, USDC, "GPAYER"), 1_980);
    assert_eq!(
        rm.refund_instantly(&s("GMERCHANT"), s("pay_paid"), 1, s("r"), &trusted(KycTier::Business), 4),
        Err(Error::RefundExceedsPayment)
    );
}

#[test]
fn registry_tier_sets_the_refund_fee() {
    for (tier, fee) in [(KycTier::Business, 50i128), (KycTier::Full, 80), (KycTier::Basic, 100), (KycTier::Unverified, 100)] {
        let mut rm = with_payment(10_000);
        rm.merchant_registry = Some(s("CREGISTRY"));
        let id = rm.create_refund(s("pay_1"), 10_000, s("r"), s("GREQ"), 0).unwrap();
        rm.process_refund(&s(OPERATOR), &id, 0, &trusted(tier)).unwrap();
        assert_eq!(net(&rm.effects, USDC, ADMIN), fee);
        assert_eq!(net(&rm.effects, USDC, "GREQ"), 10_000 - fee);
    }
}

fn plan_manager() -> RefundManager {
    let mut rm = manager();
    assert_eq!(
        rm.create_subscription_plan(s("GMERCHANT"), s("gold"), s("Gold"), s("Box"), 500, s("USDC"), BillingInterval::Monthly),
        Err(Error::Unauthorized)
    );
    rm.grant_role(&s(ADMIN), role_merchant(), s("GMERCHANT")).unwrap();
    rm.create_subscription_plan(s("GMERCHANT"), s("gold"), s("Gold"), s("Monthly box"), 500, s("USDC"), BillingInterval::Monthly)
        .unwrap();
    rm
}

#[test]
fn subscription_lifecycle() {
    let mut rm = plan_manager();
    let plan = rm.get_subscription_plan(&s("gold")).unwrap();
    assert_eq!(plan.interval_secs, 2_592_000);
    let id = rm.subscribe(s("GPAYER"), s("gold"), Some(2), None, None, 100).unwrap();
    assert_eq!(id, s("sub_1"));
    let sub = rm.get_subscription(&id).unwrap();
    assert_eq!(sub.next_payment_at, 100 + 2_592_000);
    assert_eq!(rm.get_payer_subscriptions(&s("GPAYER")).len(), 1);

    // not yet due
    assert_eq!(rm.due_charge(&id, 100), None);
    assert_eq!(rm.charge_subscription(&s(OPERATOR), &id, s(USDC), 100, true), Ok(SubscriptionStatus::Active));
    assert_eq!(rm.get_subscription(&id).unwrap().total_payments, 0);

    let t1 = 100 + 2_592_000;
    assert_eq!(rm.due_charge(&id, t1), Some(500));
    assert_eq!(rm.charge_subscription(&s(OPERATOR), &id, s(USDC), t1, true), Ok(SubscriptionStatus::Active));
    assert_eq!(net(&rm.effects, USDC, "GMERCHANT"), 500);

    let t2 = t1 + 2_592_000;
    assert_eq!(rm.charge_subscription(&s(OPERATOR), &id, s(USDC), t2, true), Ok(SubscriptionStatus::Expired));
    let sub = rm.get_subscription(&id).unwrap();
    assert_eq!(sub.total_payments, 2);
    assert_eq!(sub.status, SubscriptionStatus::Expired);
    assert_eq!(rm.due_charge(&id, t2 + 10_000_000), None);
}

#[test]
fn failed_charges_retry_then_cancel() {
    let mut rm = plan_manager();
    let id = rm.subscribe(s("GPAYER"), s("gold"), None, None, None, 0).unwrap();
    let due = 2_592_000u64;
    assert_eq!(rm.charge_subscription(&s(OPERATOR), &id, s(USDC), due, false), Err(Error::SubscriptionInGracePeriod));
    let sub = rm.get_subscription(&id).unwrap();
    assert_eq!(sub.retry_count, 1);
    assert_eq!(sub.next_retry_at, Some(due + SUBSCRIPTION_RETRY_INTERVAL_SECS));
    // the retry is not due before its time
    assert_eq!(rm.due_charge(&id, due + 1), None);
    let r2 = due + SUBSCRIPTION_RETRY_INTERVAL_SECS;
    assert_eq!(rm.charge_subscription(&s(OPERATOR), &id, s(USDC), r2, false), Err(Error::SubscriptionInGracePeriod));
    let r3 = r2 + SUBSCRIPTION_RETRY_INTERVAL_SECS;
    assert_eq!(rm.charge_subscription(&s(OPERATOR), &id, s(USDC), r3, false), Err(Error::SubscriptionRetryExhausted));
    assert_eq!(rm.get_subscription(&id).unwrap().status, SubscriptionStatus::Cancelled);
}

#[test]
fn pause_with_resume_date_resumes_on_the_next_attempt() {
    let mut rm = plan_manager();
    let id = rm.subscribe(s("GPAYER"), s("gold"), None, None, None, 0).unwrap();
    assert_eq!(rm.pause_subscription_with_resume_date(&s("GPAYER"), &id, 10, 10), Err(Error::InvalidResumeTimestamp));
    assert_eq!(rm.pause_subscription_with_resume_date(&s("GOTHER"), &id, 50, 10), Err(Error::Unauthorized));
    rm.pause_subscription_with_resume_date(&s("GPAYER"), &id, 50, 10).unwrap();
    assert_eq!(rm.get_subscription(&id).unwrap().status, SubscriptionStatus::Paused);
    assert_eq!(rm.due_charge(&id, 49), None);
    // resumed at 50, next payment one interval later
    assert_eq!(rm.charge_subscription(&s(OPERATOR), &id, s(USDC), 60, true), Ok(SubscriptionStatus::Active));
    let sub = rm.get_subscription(&id).unwrap();
    assert_eq!(sub.status, SubscriptionStatus::Active);
    assert_eq!(sub.next_payment_at, 50 + 2_592_000);
    assert_eq!(sub.resume_at, None);
}

#[test]
fn affiliate_takes_its_share() {
    let mut rm = plan_manager();
    let id = rm.subscribe(s("GPAYER"), s("gold"), None, Some(s("GAFFILIATE")), Some(1_000), 0).unwrap();
    rm.charge_subscription(&s(OPERATOR), &id, s(USDC), 2_592_000, true).unwrap();
    assert_eq!(net(&rm.effects, USDC, "GAFFILIATE"), 50);
    assert_eq!(net(&rm.effects, USDC, "GMERCHANT"), 450);
}

#[test]
fn usage_metrics_set_the_amount_and_charge() {
    let mut rm = plan_manager();
    let id = rm.subscribe(s("GPAYER"), s("gold"), None, None, None, 0).unwrap();
    let status = rm.submit_usage_metrics(&s(OPERATOR), &id, 12, 25, s(USDC), 2_592_000, true).unwrap();
    assert_eq!(status, SubscriptionStatus::Active);
    assert_eq!(rm.get_subscription(&id).unwrap().amount, 300);
    assert_eq!(net(&rm.effects, USDC, "GMERCHANT"), 300);
}

#[test]
fn plan_controls() {
    let mut rm = plan_manager();
    assert_eq!(rm.deactivate_subscription_plan(&s("GOTHER"), &s("gold")), Err(Error::Unauthorized));
    rm.deactivate_subscription_plan(&s("GMERCHANT"), &s("gold")).unwrap();
    assert!(!rm.get_subscription_plan(&s("gold")).unwrap().active);
    assert_eq!(rm.subscribe(s("GPAYER"), s("gold"), None, None, None, 0), Err(Error::PaymentAlreadyProcessed));
    assert_eq!(rm.subscribe(s("GPAYER"), s("none"), None, None, None, 0), Err(Error::PaymentNotFound));
    assert_eq!(rm.process_due_subscriptions(&s(OPERATOR)), Ok(0));
    assert_eq!(rm.process_due_subscriptions(&s("GSTRANGER")), Err(Error::Unauthorized));
}

#[test]
fn pause_resume_cancel() {
    let mut rm = plan_manager();
    let id = rm.subscribe(s("GPAYER"), s("gold"), None, None, None, 0).unwrap();
    rm.pause_subscription(&s("GPAYER"), &id).unwrap();
    assert_eq!(rm.pause_subscription(&s("GPAYER"), &id), Err(Error::PaymentAlreadyProcessed));
    rm.resume_subscription(&s("GPAYER"), &id, 1_000).unwrap();
    let sub = rm.get_subscription(&id).unwrap();
    assert_eq!(sub.status, SubscriptionStatus::Active);
    assert_eq!(sub.next_payment_at, 1_000 + 2_592_000);
    rm.cancel_subscription(&s("GPAYER"), &id).unwrap();
    assert_eq!(rm.get_subscription(&id).unwrap().status, SubscriptionStatus::Cancelled);
    assert_eq!(
        rm.effects.last(),
        Some(&Effect::Emit(Event::SubscriptionCancelled { subscription: None, payer: s("GPAYER") }))
    );
}

#[test]
fn refund_payout_effects_are_ordered() {
    let mut rm = with_payment(10_000);
    let id = rm.create_refund(s("pay_1"), 5_000, s("r"), s("GREQ"), 0).unwrap();
    let before = rm.effects.len();
    rm.process_refund(&s(OPERATOR), &id, 3, &None).unwrap();
    assert_eq!(
        &rm.effects[before..],
        &[
            Effect::Transfer(TokenTransfer {
                token: s(USDC),
                from: s(CONTRACT),
                to: s("GREQ"),
                amount: 4_950,
                mode: TransferMode::SkipOnFailure(2),
            }),
            Effect::Transfer(TokenTransfer {
                token: s(USDC),
                from: s(CONTRACT),
                to: s(ADMIN),
                amount: 50,
                mode: TransferMode::BestEffort,
            }),
            Effect::Emit(Event::RefundCompleted { payment_id: s("pay_1"), refund_id: id.clone(), amount: 5_000 }),
        ]
    );
}
