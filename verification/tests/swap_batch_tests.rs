use fluxapay::access_control::role_merchant;
use fluxapay::payment_processor::{
    has_repeated_address, saturating_pow10, swap_deadline, validate_oracle_swap_rate, validate_path,
    validate_path_returns,
};
use fluxapay::{
    CreatePaymentArgs, DexRouter, Effect, Error, Event, PaymentProcessor, PaymentStatus, RateData, SwapAndPayArgs,
};

fn s(x: &str) -> String {
    x.to_string()
}

fn processor() -> (PaymentProcessor, String) {
    let mut p = PaymentProcessor::new(s("CPROCESSOR"));
    let admin = s("GADMIN");
    p.initialize_payment_processor(admin.clone(), 0).unwrap();
    p.grant_role(&admin, role_merchant(), s("GMERCHANT")).unwrap();
    p.grant_role(&admin, role_merchant(), s("GSHOP")).unwrap();
    (p, admin)
}

fn swap_args(path: &[&str], amount_in: i128, amount: i128, min_out: i128) -> SwapAndPayArgs {
    SwapAndPayArgs {
        payer: s("GPAYER"),
        payment_id: s("swap_1"),
        merchant_id: s("GMERCHANT"),
        amount,
        currency: s("USDC"),
        deposit_address: s("GDEPOSIT"),
        token_in: s(path[0]),
        amount_in,
        amount_out_min: min_out,
        path: path.iter().map(|x| s(x)).collect(),
        expires_at: Some(3_600),
        dex_router: s("CROUTER"),
        fx_oracle: None,
        oracle_pair: None,
        max_deviation_bps: 0,
    }
}

#[test]
fn path_checks() {
    assert!(!has_repeated_address(&vec![s("A"), s("B"), s("C")]));
    assert!(has_repeated_address(&vec![s("A"), s("B"), s("A")]));
    assert_eq!(validate_path(&s("A"), &vec![s("A")]), Err(Error::SwapPathInvalid));
    assert_eq!(validate_path(&s("A"), &vec![s("B"), s("C")]), Err(Error::SwapPathInvalid));
    assert_eq!(validate_path(&s("A"), &vec![s("A"), s("B"), s("A")]), Err(Error::ArbitrageDetected));
    assert_eq!(validate_path(&s("A"), &vec![s("A"), s("B")]), Ok(()));
}

#[test]
fn quote_checks() {
    let path = vec![s("A"), s("B")];
    assert_eq!(validate_path_returns(&s("A"), 100, 90, &path, &vec![100, 95]), Ok(()));
    assert_eq!(validate_path_returns(&s("A"), 100, 90, &path, &vec![100]), Err(Error::SwapPathInvalid));
    assert_eq!(validate_path_returns(&s("A"), 100, 90, &path, &vec![99, 95]), Err(Error::SwapPathInvalid));
    assert_eq!(validate_path_returns(&s("A"), 100, 96, &path, &vec![100, 95]), Err(Error::SwapPathInvalid));
}

#[test]
fn oracle_rate_checks() {
    assert_eq!(saturating_pow10(0), 1);
    assert_eq!(saturating_pow10(7), 10_000_000);
    assert_eq!(saturating_pow10(60), i128::MAX);
    let rate = Some(RateData { pair: s("XLM_USDC"), rate: 2_000_000, decimals: 7, updated_at: 0 });
    // 1000 in at 0.2 → 200 expected; 210 is 5% off
    assert_eq!(validate_oracle_swap_rate(&rate, 1000, 210, 500), Ok(()));
    assert_eq!(validate_oracle_swap_rate(&rate, 1000, 211, 500), Err(Error::OraclePriceDeviation));
    assert_eq!(validate_oracle_swap_rate(&None, 1000, 200, 500), Err(Error::OraclePriceDeviation));
    assert_eq!(swap_deadline(10), 3_610);
    assert_eq!(swap_deadline(u64::MAX - 1), u64::MAX);
}

#[test]
fn swap_and_pay_creates_a_payment_in_the_last_token() {
    let (mut p, admin) = processor();
    p.allow_token(&admin, s("CUSDC")).unwrap();
    let args = swap_args(&["CXLM", "CUSDC"], 5_000, 1_000, 1_000);
    let payment = p.swap_and_pay(args, 0, vec![5_000, 1_050], None, vec![5_000, 1_060], None).unwrap();
    assert_eq!(payment.status, PaymentStatus::Pending);
    assert_eq!(payment.token_address, Some(s("CUSDC")));
    assert_eq!(p.get_payment(&s("swap_1")).unwrap().amount, 1_000);
    let effects = p.take_effects();
    assert!(matches!(effects.last(), Some(Effect::Emit(Event::SwapAndPay { amount_in: 5_000, .. }))));
}

#[test]
fn swap_and_pay_refusals() {
    let (mut p, admin) = processor();
    p.allow_token(&admin, s("CUSDC")).unwrap();
    // minimum out below the amount due
    let args = swap_args(&["CXLM", "CUSDC"], 5_000, 1_000, 900);
    assert_eq!(p.swap_and_pay(args, 0, vec![5_000, 1_050], None, vec![5_000, 1_060], None), Err(Error::SwapPathInvalid));
    // circular route
    let args = swap_args(&["CXLM", "CUSDC", "CXLM"], 5_000, 1_000, 1_000);
    assert_eq!(
        p.swap_and_pay(args, 0, vec![5_000, 1_050, 5_000], None, vec![5_000, 1_060, 5_000], None),
        Err(Error::ArbitrageDetected)
    );
    // the swap gave less than quoted
    let args = swap_args(&["CXLM", "CUSDC"], 5_000, 1_000, 1_000);
    assert_eq!(p.swap_and_pay(args, 0, vec![5_000, 1_050], None, vec![5_000, 1_040], None), Err(Error::ArbitrageDetected));
    // the settlement token is not allowed
    let args = swap_args(&["CXLM", "CEURC"], 5_000, 1_000, 1_000);
    assert_eq!(p.swap_and_pay(args, 0, vec![5_000, 1_050], None, vec![5_000, 1_050], None), Err(Error::UnsupportedToken));
    assert!(p.get_payment(&s("swap_1")).is_err());
    // an oracle far from the quote
    let mut args = swap_args(&["CXLM", "CUSDC"], 5_000, 1_000, 1_000);
    args.fx_oracle = Some(s("CORACLE"));
    args.oracle_pair = Some(s("XLM_USDC"));
    args.max_deviation_bps = 100;
    let rate = Some(RateData { pair: s("XLM_USDC"), rate: 1, decimals: 0, updated_at: 0 });
    assert_eq!(
        p.swap_and_pay(args, 0, vec![5_000, 1_050], rate, vec![5_000, 1_050], None),
        Err(Error::OraclePriceDeviation)
    );
}

#[test]
fn router_answers_one_amount_per_token() {
    let router = DexRouter::new(s("CROUTER"));
    assert_eq!(router.factory(), s("CROUTER"));
    let path = vec![s("A"), s("B"), s("C")];
    assert_eq!(router.get_amounts_out(70, &path), vec![70, 70, 70]);
    assert_eq!(router.swap_exact_tokens_for_tokens(70, 1, &path, &s("GTO"), 5), vec![70, 70, 70]);
    assert_eq!(router.swap_tokens_for_exact_tokens(40, 100, &path, &s("GTO"), 5), vec![40, 40, 40]);
}

fn batch_entry(id: &str, merchant: &str, amount: i128) -> CreatePaymentArgs {
    CreatePaymentArgs {
        payment_id: s(id),
        merchant_id: s(merchant),
        amount,
        currency: s("USDC"),
        deposit_address: s("GDEPOSIT"),
        expires_at: Some(3_600),
        duration_secs: None,
        memo: None,
        memo_type: None,
        token_address: None,
        client_token: None,
        metadata_hash: None,
    }
}

#[test]
fn batch_creates_all_or_nothing() {
    let (mut p, _admin) = processor();
    let ok = vec![batch_entry("b1", "GMERCHANT", 10), batch_entry("b2", "GSHOP", 20), batch_entry("b3", "GMERCHANT", 30)];
    let ids = p.create_payments_batch(ok, 0, vec![None, None, None]).unwrap();
    assert_eq!(ids, vec![s("b1"), s("b2"), s("b3")]);
    assert_eq!(p.get_merchant_payments(&s("GMERCHANT")), vec![s("b1"), s("b3")]);
    let effects = p.take_effects();
    assert_eq!(effects.last(), Some(&Effect::Emit(Event::PaymentBatchCreated { count: 3 })));

    let bad = vec![batch_entry("b4", "GMERCHANT", 10), batch_entry("b5", "GSTRANGER", 20)];
    assert_eq!(p.create_payments_batch(bad, 0, vec![None, None]), Err(Error::Unauthorized));
    assert!(p.get_payment(&s("b4")).is_err());

    let dup = vec![batch_entry("b6", "GMERCHANT", 10), batch_entry("b1", "GMERCHANT", 10)];
    assert_eq!(p.create_payments_batch(dup, 0, vec![None, None]), Err(Error::PaymentAlreadyExists));
    assert!(p.get_payment(&s("b6")).is_err());

    assert_eq!(p.create_payments_batch(vec![], 0, vec![]), Ok(vec![]));
}

#[test]
fn pause_switches_and_version() {
    let (mut p, admin) = processor();
    assert_eq!(PaymentProcessor::version(), 1);
    assert_eq!(p.set_paused(s("GSTRANGER"), true, 0), Err(Error::Unauthorized));
    p.set_paused(admin.clone(), true, 5).unwrap();
    assert!(p.is_paused());
    assert_eq!(p.cancel_payment(&s("GMERCHANT"), &s("x"), 5), Err(Error::ContractPaused));
    assert_eq!(p.create_payment(batch_entry("p", "GMERCHANT", 5), 5, None), Err(Error::ContractPaused));
    p.set_paused(admin.clone(), false, 6).unwrap();
    assert!(!p.is_paused());
    assert!(p.create_payment(batch_entry("p", "GMERCHANT", 5), 6, None).is_ok());
}

#[test]
fn rate_limit_window_reopens() {
    let (mut p, _admin) = processor();
    for i in 0..30u64 {
        p.create_payment(batch_entry(&format!("w{}", i), "GMERCHANT", 5), 100, None).unwrap();
    }
    assert_eq!(p.create_payment(batch_entry("w30", "GMERCHANT", 5), 159, None), Err(Error::RateLimitExceeded));
    // another merchant is not limited
    assert!(p.create_payment(batch_entry("other", "GSHOP", 5), 159, None).is_ok());
    // a new window opens sixty seconds after the first creation of the last one
    assert!(p.create_payment(batch_entry("w30", "GMERCHANT", 5), 160, None).is_ok());
}

#[test]
fn rate_limit_window_counts_from_its_first_creation() {
    let (mut p, _admin) = processor();
    p.create_payment(batch_entry("f0", "GMERCHANT", 5), 0, None).unwrap();
    for i in 1..30u64 {
        p.create_payment(batch_entry(&format!("f{}", i), "GMERCHANT", 5), 50, None).unwrap();
    }
    assert_eq!(p.create_payment(batch_entry("f30", "GMERCHANT", 5), 59, None), Err(Error::RateLimitExceeded));
    // creations every few seconds do not keep the window shut
    assert!(p.create_payment(batch_entry("f30", "GMERCHANT", 5), 60, None).is_ok());
}

#[test]
fn oracle_may_cancel_and_verification_is_idempotent() {
    let (mut p, admin) = processor();
    p.grant_role(&admin, s("ORACLE"), s("GORACLE")).unwrap();
    p.create_payment(batch_entry("c1", "GMERCHANT", 100), 0, None).unwrap();
    p.cancel_payment(&s("GORACLE"), &s("c1"), 10).unwrap();
    assert_eq!(p.get_payment(&s("c1")).unwrap().status, PaymentStatus::Failed);

    p.create_payment(batch_entry("v1", "GMERCHANT", 100), 0, None).unwrap();
    assert_eq!(p.verify_payment(&s("GSTRANGER"), &s("v1"), [0; 32], s("GP"), 100, 0, 7), Err(Error::Unauthorized));
    assert_eq!(p.verify_payment(&s("GORACLE"), &s("v1"), [0; 32], s("GP"), 100, 0, 7), Ok(PaymentStatus::Confirmed));
    assert_eq!(p.verify_payment(&s("GORACLE"), &s("v1"), [1; 32], s("GQ"), 5, 9, 7), Ok(PaymentStatus::Confirmed));
    let v1 = p.get_payment(&s("v1")).unwrap();
    assert_eq!(v1.payer_address, Some(s("GP")));
    assert_eq!(v1.confirmed_at, Some(0));
    assert_eq!(p.expire_payment(&s("v1"), 99_999), Err(Error::PaymentAlreadyProcessed));
}

fn registry_answer(tier: fluxapay::KycTier, active: bool) -> Option<fluxapay::Merchant> {
    Some(fluxapay::Merchant {
        merchant_id: s("GMERCHANT"),
        business_name: s("Shop"),
        settlement_currency: s("USDC"),
        payout_address: None,
        bank_account: None,
        kyc_tier: tier,
        active,
        created_at: 0,
        suspension_reason: None,
        suspended_at: None,
        fee_config: None,
    })
}

#[test]
fn a_configured_registry_must_vouch_for_the_merchant() {
    let (mut p, admin) = processor();
    assert_eq!(p.set_merchant_registry_address(&s("GSTRANGER"), s("CREGISTRY")), Err(Error::Unauthorized));
    p.set_merchant_registry_address(&admin, s("CREGISTRY")).unwrap();
    assert_eq!(p.create_payment(batch_entry("r1", "GMERCHANT", 5), 0, None), Err(Error::Unauthorized));
    assert_eq!(
        p.create_payment(batch_entry("r1", "GMERCHANT", 5), 0, registry_answer(fluxapay::KycTier::Unverified, true)),
        Err(Error::Unauthorized)
    );
    assert_eq!(
        p.create_payment(batch_entry("r1", "GMERCHANT", 5), 0, registry_answer(fluxapay::KycTier::Basic, false)),
        Err(Error::Unauthorized)
    );
    assert!(p.create_payment(batch_entry("r1", "GMERCHANT", 5), 0, registry_answer(fluxapay::KycTier::Basic, true)).is_ok());
}

#[test]
fn processor_streams_follow_the_pause_switch() {
    let (mut p, admin) = processor();
    p.create_stream(s("GS"), s("GR"), s("CT"), 10, 1_000, s("ps"), 0).unwrap();
    p.set_global_pause(admin.clone(), true, s("maintenance"), 1).unwrap();
    assert_eq!(
        p.update_stream_rate(&s("GS"), &s("ps"), 5, 2),
        Err(fluxapay::StreamError::ContractPaused)
    );
    assert_eq!(p.withdraw_all_for_recipient(&s("GR"), 5, 2), Err(fluxapay::StreamError::ContractPaused));
    p.set_global_pause(admin, false, s(""), 3).unwrap();
    p.update_stream_rate(&s("GS"), &s("ps"), 5, 10).unwrap();
    let st = p.get_stream(&s("ps")).unwrap();
    assert_eq!(st.accrued_at_checkpoint, 100);
    assert_eq!(st.rate_per_second, 5);
    assert_eq!(p.get_sender_streams(&s("GS"), 0, 10).len(), 1);
}

#[test]
fn batch_refuses_an_id_repeated_within_it() {
    let (mut p, _admin) = processor();
    let dup = vec![batch_entry("d1", "GMERCHANT", 10), batch_entry("d2", "GSHOP", 20), batch_entry("d1", "GSHOP", 30)];
    assert_eq!(p.create_payments_batch(dup, 0, vec![None, None, None]), Err(Error::PaymentAlreadyExists));
    assert!(p.get_payment(&s("d1")).is_err());
    assert!(p.get_payment(&s("d2")).is_err());
    assert!(p.get_merchant_payments(&s("GMERCHANT")).is_empty());
    assert!(p.take_effects().is_empty());
}

#[test]
fn reverifying_a_confirmed_payment_changes_nothing_whatever_the_amount() {
    let (mut p, admin) = processor();
    p.grant_role(&admin, s("ORACLE"), s("GORACLE")).unwrap();
    p.create_payment(batch_entry("once", "GMERCHANT", 1), 0, None).unwrap();
    p.verify_payment(&s("GORACLE"), &s("once"), [1; 32], s("GP"), 1, 0, 7).unwrap();
    let before = p.get_payment(&s("once")).unwrap();
    assert_eq!(p.verify_payment(&s("GORACLE"), &s("once"), [2; 32], s("GQ"), i128::MIN, 10, 99), Ok(PaymentStatus::Confirmed));
    assert_eq!(p.get_payment(&s("once")).unwrap(), before);
}

#[test]
fn a_fresh_processor_holds_nothing() {
    let p = PaymentProcessor::new(s("CFRESH"));
    assert_eq!(p.get_global_amount_limits(), None);
    assert_eq!(p.get_merchant_amount_limits(&s("GM")), None);
    assert!(!p.is_token_allowed(&s("CTOKEN")));
    assert!(p.get_merchant_payments(&s("GM")).is_empty());
    assert!(p.get_sender_streams(&s("GS"), 0, 10).is_empty());
    assert!(p.merchant_registry.is_none());
}

#[test]
fn an_idempotency_key_repeated_in_a_batch_names_the_later_entry() {
    let (mut p, _admin) = processor();
    let mut a = batch_entry("k1", "GMERCHANT", 10);
    a.client_token = Some(s("tok"));
    let mut b = batch_entry("k2", "GMERCHANT", 10);
    b.client_token = Some(s("tok"));
    assert_eq!(p.create_payments_batch(vec![a, b], 0, vec![None, None]), Ok(vec![s("k1"), s("k2")]));
    let mut retry = batch_entry("k2", "GMERCHANT", 10);
    retry.client_token = Some(s("tok"));
    assert_eq!(p.create_payment(retry, 1, None).unwrap().payment_id, s("k2"));
    let mut other = batch_entry("k1", "GMERCHANT", 10);
    other.client_token = Some(s("tok"));
    assert_eq!(p.create_payment(other, 1, None), Err(Error::DuplicateIdempotencyKey));
}
