use fluxapay::access_control::{role_merchant, role_oracle, role_settlement_operator};
use fluxapay::types::CREATE_PAYMENT_MAX_PER_WINDOW;
use fluxapay::{
    format_id, CreatePaymentArgs, Effect, Error, Event, PaymentProcessor, PaymentStatus, SettlementSplit,
    StreamStatus, WithdrawalRecipient, DEFAULT_PAYMENT_DURATION_SECS,
};

/// Hands out distinct account addresses.
struct Accounts {
    n: u32,
}

impl Accounts {
    fn new() -> Self {
        Accounts { n: 0 }
    }

    fn next(&mut self) -> String {
        self.n += 1;
        format!("G{:055}", self.n)
    }

    fn contract(&mut self) -> String {
        self.n += 1;
        format!("C{:055}", self.n)
    }
}

fn setup_payment_processor(acc: &mut Accounts) -> (String, PaymentProcessor) {
    let mut p = PaymentProcessor::new(acc.contract());
    let admin = acc.next();
    p.initialize_payment_processor(admin.clone(), 0).unwrap();
    (admin, p)
}

fn create_payment_args(acc: &mut Accounts, payment_id: &str, merchant_id: &String, amount: i128, now: u64) -> CreatePaymentArgs {
    CreatePaymentArgs {
        payment_id: payment_id.to_string(),
        merchant_id: merchant_id.clone(),
        amount,
        currency: "USDC".to_string(),
        deposit_address: acc.next(),
        expires_at: Some(now + 3600),
        duration_secs: None,
        memo: None,
        memo_type: None,
        token_address: None,
        client_token: None,
        metadata_hash: None,
    }
}

fn merchant(acc: &mut Accounts, p: &mut PaymentProcessor, admin: &String) -> String {
    let m = acc.next();
    p.grant_role(admin, role_merchant(), m.clone()).unwrap();
    m
}

fn oracle(acc: &mut Accounts, p: &mut PaymentProcessor, admin: &String) -> String {
    let o = acc.next();
    p.grant_role(admin, role_oracle(), o.clone()).unwrap();
    o
}

/// Net token movements, per (token, account), of the transfers among `effects`.
fn balance(effects: &[Effect], token: &str, account: &str) -> i128 {
    let mut total = 0i128;
    for e in effects {
        if let Effect::Transfer(t) = e {
            if t.token == token && t.to == account {
                total += t.amount;
            }
            if t.token == token && t.from == account {
                total -= t.amount;
            }
        }
    }
    total
}

#[test]
fn test_create_payment() {
    let mut acc = Accounts::new();
    let (admin, mut client) = setup_payment_processor(&mut acc);

    let payment_id = "payment_123".to_string();
    let merchant_id = acc.next();
    let amount = 1000000000i128;
    client.grant_role(&admin, role_merchant(), merchant_id.clone()).unwrap();

    let args = create_payment_args(&mut acc, "payment_123", &merchant_id, amount, 0);
    let deposit_address = args.deposit_address.clone();
    let payment = client.create_payment(args, 0, None).unwrap();

    assert_eq!(payment.payment_id, payment_id);
    assert_eq!(payment.merchant_id, merchant_id);
    assert_eq!(payment.amount, amount);
    assert_eq!(payment.currency, "USDC".to_string());
    assert_eq!(payment.deposit_address, deposit_address);
    assert_eq!(payment.status, PaymentStatus::Pending);
    assert_eq!(payment.memo, None);
    assert_eq!(payment.memo_type, None);
}

#[test]
fn test_create_payment_rate_limit_enforced() {
    let mut acc = Accounts::new();
    let (admin, mut client) = setup_payment_processor(&mut acc);
    let merchant_id = merchant(&mut acc, &mut client, &admin);

    for i in 0..CREATE_PAYMENT_MAX_PER_WINDOW {
        let payment_id = format_id("rate_limit_", i as u64);
        let args = create_payment_args(&mut acc, &payment_id, &merchant_id, 100i128, 0);
        client.create_payment(args, 0, None).unwrap();
    }

    let args = create_payment_args(&mut acc, "rate_limit_overflow", &merchant_id, 100i128, 0);
    let overflow = client.create_payment(args, 0, None);
    assert_eq!(overflow, Err(Error::RateLimitExceeded));
}

#[test]
fn test_cancel_multiple_streams_for_sender() {
    let mut acc = Accounts::new();
    let (_admin, mut client) = setup_payment_processor(&mut acc);
    let token = acc.contract();
    let sender = acc.next();
    let recipient = acc.next();

    client.create_stream(sender.clone(), recipient.clone(), token.clone(), 100, 1_000, "stream_1".to_string(), 0).unwrap();
    client.create_stream(sender.clone(), recipient.clone(), token.clone(), 200, 2_000, "stream_2".to_string(), 0).unwrap();

    let stream_ids = vec!["stream_1".to_string(), "stream_2".to_string()];
    let cancelled = client.cancel_multiple_streams(&sender, &stream_ids, 0).unwrap();

    assert_eq!(cancelled.len(), 2);
    let stream1 = client.get_stream(&"stream_1".to_string()).unwrap();
    let stream2 = client.get_stream(&"stream_2".to_string()).unwrap();
    assert_eq!(stream1.status, StreamStatus::Cancelled);
    assert_eq!(stream2.status, StreamStatus::Cancelled);
}

#[test]
fn test_batch_withdraw_to_custom_routing() {
    let mut acc = Accounts::new();
    let (_admin, mut client) = setup_payment_processor(&mut acc);
    let token = acc.contract();
    let sender = acc.next();
    let recipient = acc.next();
    let destination1 = acc.next();
    let destination2 = acc.next();

    client.create_stream(sender.clone(), recipient.clone(), token.clone(), 100, 1_000, "stream_a".to_string(), 0).unwrap();
    client.create_stream(sender.clone(), recipient.clone(), token.clone(), 200, 2_000, "stream_b".to_string(), 0).unwrap();

    let withdrawals = vec![
        WithdrawalRecipient { stream_id: "stream_a".to_string(), destination: destination1.clone(), amount: 40 },
        WithdrawalRecipient { stream_id: "stream_b".to_string(), destination: destination2.clone(), amount: 150 },
    ];
    let success = client.batch_withdraw_to(&recipient, &withdrawals, 1).unwrap();
    assert_eq!(success.len(), 2);

    let effects = client.take_effects();
    assert_eq!(balance(&effects, &token, &destination1), 40);
    assert_eq!(balance(&effects, &token, &destination2), 150);
}

fn verify_case(payment_id: &str, received_delta: i128, expected: PaymentStatus) {
    let mut acc = Accounts::new();
    let (admin, mut client) = setup_payment_processor(&mut acc);
    let merchant_id = merchant(&mut acc, &mut client, &admin);
    let amount = 1000000000i128;
    let args = create_payment_args(&mut acc, payment_id, &merchant_id, amount, 0);
    client.create_payment(args, 0, None).unwrap();
    let oracle = oracle(&mut acc, &mut client, &admin);

    let amount_received = amount + received_delta;
    let payer = acc.next();
    let status = client
        .verify_payment(&oracle, &payment_id.to_string(), [7u8; 32], payer, amount_received, 0, 7)
        .unwrap();
    assert_eq!(status, expected);
    let payment = client.get_payment(&payment_id.to_string()).unwrap();
    assert_eq!(payment.status, expected);
    assert_eq!(payment.amount_received, Some(amount_received));
}

#[test]
fn test_verify_payment_success() {
    verify_case("payment_123", 0, PaymentStatus::Confirmed);
}

#[test]
fn test_verify_payment_partially_paid() {
    verify_case("partial_pay", -100, PaymentStatus::PartiallyPaid);
}

#[test]
fn test_verify_payment_overpaid() {
    verify_case("over_pay", 100, PaymentStatus::Overpaid);
}

#[test]
fn test_verify_payment_within_tolerance() {
    verify_case("tol_pay", -1, PaymentStatus::Confirmed);
}

#[test]
fn test_get_merchant_payments_index_and_pagination() {
    let mut acc = Accounts::new();
    let (admin, mut client) = setup_payment_processor(&mut acc);
    let merchant_id = merchant(&mut acc, &mut client, &admin);

    for (id, amount) in [("merchant_pay_1", 100i128), ("merchant_pay_2", 200), ("merchant_pay_3", 300)] {
        let args = create_payment_args(&mut acc, id, &merchant_id, amount, 0);
        client.create_payment(args, 0, None).unwrap();
    }

    let all = client.get_merchant_payments(&merchant_id);
    assert_eq!(all.len(), 3);
    assert_eq!(all.get(0), Some(&"merchant_pay_1".to_string()));
    assert_eq!(all.get(1), Some(&"merchant_pay_2".to_string()));
    assert_eq!(all.get(2), Some(&"merchant_pay_3".to_string()));

    let page = client.get_merchant_payments_paginated(&merchant_id, 1, 2);
    assert_eq!(page.len(), 2);
    assert_eq!(page.get(0), Some(&"merchant_pay_2".to_string()));
    assert_eq!(page.get(1), Some(&"merchant_pay_3".to_string()));
}

#[test]
fn test_cancel_pending_success() {
    let mut acc = Accounts::new();
    let (admin, mut client) = setup_payment_processor(&mut acc);
    let merchant_id = merchant(&mut acc, &mut client, &admin);
    let expires_at = 3600u64;
    let args = create_payment_args(&mut acc, "cancel_pending_success", &merchant_id, 500, 0);
    client.create_payment(args, 0, None).unwrap();

    client.cancel_payment(&merchant_id, &"cancel_pending_success".to_string(), expires_at - 1).unwrap();

    let payment = client.get_payment(&"cancel_pending_success".to_string()).unwrap();
    assert_eq!(payment.status, PaymentStatus::Failed);
}

#[test]
fn test_cancel_fails_when_confirmed() {
    let mut acc = Accounts::new();
    let (admin, mut client) = setup_payment_processor(&mut acc);
    let merchant_id = merchant(&mut acc, &mut client, &admin);
    let pid = "cancel_fails_confirmed".to_string();
    let args = create_payment_args(&mut acc, &pid, &merchant_id, 500, 0);
    client.create_payment(args, 0, None).unwrap();
    let oracle = oracle(&mut acc, &mut client, &admin);
    let payer = acc.next();
    client.verify_payment(&oracle, &pid, [1u8; 32], payer, 500, 0, 7).unwrap();

    let res = client.cancel_payment(&merchant_id, &pid, 0);
    assert_eq!(res.unwrap_err(), Error::PaymentAlreadyProcessed);
}

#[test]
fn test_expiry_logic() {
    let mut acc = Accounts::new();
    let (admin, mut client) = setup_payment_processor(&mut acc);
    let merchant_id = merchant(&mut acc, &mut client, &admin);
    let pid = "cancel_past_expiry".to_string();
    let expires_at = 3600u64;
    let args = create_payment_args(&mut acc, &pid, &merchant_id, 500, 0);
    client.create_payment(args, 0, None).unwrap();

    let res = client.cancel_payment(&merchant_id, &pid, expires_at + 1);
    assert!(res.is_ok());

    let payment = client.get_payment(&pid).unwrap();
    assert_eq!(payment.status, PaymentStatus::Expired);
}

#[test]
fn test_unauthorized_cancel() {
    let mut acc = Accounts::new();
    let (admin, mut client) = setup_payment_processor(&mut acc);
    let merchant_id = merchant(&mut acc, &mut client, &admin);
    let pid = "unauth_cancel".to_string();
    let args = create_payment_args(&mut acc, &pid, &merchant_id, 500, 0);
    client.create_payment(args, 0, None).unwrap();

    let random_addr = acc.next();
    let res = client.cancel_payment(&random_addr, &pid, 0);
    assert_eq!(res.unwrap_err(), Error::Unauthorized);
}

#[test]
fn test_expire_payment_after_deadline() {
    let mut acc = Accounts::new();
    let (admin, mut client) = setup_payment_processor(&mut acc);
    let merchant_id = merchant(&mut acc, &mut client, &admin);
    let pid = "expire_after_deadline".to_string();
    let expires_at = 10u64;
    let mut args = create_payment_args(&mut acc, &pid, &merchant_id, 500, 0);
    args.expires_at = Some(expires_at);
    client.create_payment(args, 0, None).unwrap();

    client.expire_payment(&pid, expires_at + 1).unwrap();

    let payment = client.get_payment(&pid).unwrap();
    assert_eq!(payment.status, PaymentStatus::Expired);
}

fn create_with(f: impl FnOnce(&mut CreatePaymentArgs)) -> Result<fluxapay::PaymentCharge, Error> {
    let mut acc = Accounts::new();
    let (admin, mut client) = setup_payment_processor(&mut acc);
    let merchant_id = merchant(&mut acc, &mut client, &admin);
    let mut args = create_payment_args(&mut acc, "pay_expiry", &merchant_id, 1000, 0);
    f(&mut args);
    client.create_payment(args, 0, None)
}

#[test]
fn test_create_payment_with_explicit_expires_at() {
    let expires_at = 7200u64;
    let payment = create_with(|a| a.expires_at = Some(expires_at)).unwrap();
    assert_eq!(payment.expires_at, expires_at);
}

#[test]
fn test_create_payment_with_duration_secs() {
    let now = 0u64;
    let duration = 1800u64;
    let payment = create_with(|a| {
        a.expires_at = None;
        a.duration_secs = Some(duration);
    })
    .unwrap();
    assert_eq!(payment.expires_at, now + duration);
}

#[test]
fn test_create_payment_defaults_to_one_hour() {
    let now = 0u64;
    let payment = create_with(|a| a.expires_at = None).unwrap();
    assert_eq!(payment.expires_at, now + DEFAULT_PAYMENT_DURATION_SECS);
}

#[test]
fn test_create_payment_explicit_expires_at_overrides_duration() {
    let explicit_ts = 9999u64;
    let payment = create_with(|a| {
        a.expires_at = Some(explicit_ts);
        a.duration_secs = Some(60);
    })
    .unwrap();
    assert_eq!(payment.expires_at, explicit_ts);
}

#[test]
fn test_create_payment_past_expires_at_fails() {
    let now = 0u64;
    let result = create_with(|a| a.expires_at = Some(now));
    assert_eq!(result, Err(Error::InvalidExpiry));
}

#[test]
fn test_create_payment_zero_duration_fails() {
    let result = create_with(|a| {
        a.expires_at = None;
        a.duration_secs = Some(0);
    });
    assert_eq!(result, Err(Error::InvalidExpiry));
}

#[test]
fn test_global_min_limit_blocks_payment() {
    let mut acc = Accounts::new();
    let (admin, mut client) = setup_payment_processor(&mut acc);
    client.set_global_amount_limits(&admin, Some(500), None).unwrap();
    let merchant_id = merchant(&mut acc, &mut client, &admin);
    let args = create_payment_args(&mut acc, "pay_below_global_min", &merchant_id, 499, 0);
    assert_eq!(client.create_payment(args, 0, None), Err(Error::AmountBelowMin));
}

#[test]
fn test_global_max_limit_blocks_payment() {
    let mut acc = Accounts::new();
    let (admin, mut client) = setup_payment_processor(&mut acc);
    client.set_global_amount_limits(&admin, None, Some(1000)).unwrap();
    let merchant_id = merchant(&mut acc, &mut client, &admin);
    let args = create_payment_args(&mut acc, "pay_above_global_max", &merchant_id, 1001, 0);
    assert_eq!(client.create_payment(args, 0, None), Err(Error::AmountAboveMax));
}

#[test]
fn test_global_limits_allow_payment_within_range() {
    let mut acc = Accounts::new();
    let (admin, mut client) = setup_payment_processor(&mut acc);
    client.set_global_amount_limits(&admin, Some(100), Some(10_000)).unwrap();
    let merchant_id = merchant(&mut acc, &mut client, &admin);
    let args = create_payment_args(&mut acc, "pay_within_global", &merchant_id, 5_000, 0);
    let payment = client.create_payment(args, 0, None).unwrap();
    assert_eq!(payment.status, PaymentStatus::Pending);
}

#[test]
fn test_merchant_limits_override_global_limits() {
    let mut acc = Accounts::new();
    let (admin, mut client) = setup_payment_processor(&mut acc);
    client.set_global_amount_limits(&admin, Some(1000), None).unwrap();
    let merchant_id = merchant(&mut acc, &mut client, &admin);
    client.set_merchant_amount_limits(merchant_id.clone(), Some(10), None).unwrap();
    let args = create_payment_args(&mut acc, "pay_merchant_override", &merchant_id, 500, 0);
    let payment = client.create_payment(args, 0, None).unwrap();
    assert_eq!(payment.status, PaymentStatus::Pending);
}

#[test]
fn test_merchant_max_limit_blocks_payment() {
    let mut acc = Accounts::new();
    let (admin, mut client) = setup_payment_processor(&mut acc);
    let merchant_id = merchant(&mut acc, &mut client, &admin);
    client.set_merchant_amount_limits(merchant_id.clone(), None, Some(200)).unwrap();
    let args = create_payment_args(&mut acc, "pay_above_merchant_max", &merchant_id, 201, 0);
    assert_eq!(client.create_payment(args, 0, None), Err(Error::AmountAboveMax));
}

#[test]
fn test_set_merchant_limits_invalid_range_fails() {
    let mut acc = Accounts::new();
    let (admin, mut client) = setup_payment_processor(&mut acc);
    let merchant_id = merchant(&mut acc, &mut client, &admin);
    let result = client.set_merchant_amount_limits(merchant_id, Some(1000), Some(500));
    assert_eq!(result, Err(Error::InvalidAmount));
}

#[test]
fn test_get_merchant_and_global_limits() {
    let mut acc = Accounts::new();
    let (admin, mut client) = setup_payment_processor(&mut acc);
    let merchant_id = merchant(&mut acc, &mut client, &admin);

    assert_eq!(client.get_global_amount_limits(), None);
    assert_eq!(client.get_merchant_amount_limits(&merchant_id), None);

    client.set_global_amount_limits(&admin, Some(50), Some(5000)).unwrap();
    client.set_merchant_amount_limits(merchant_id.clone(), Some(100), Some(2000)).unwrap();

    let global = client.get_global_amount_limits().unwrap();
    assert_eq!(global.min, Some(50));
    assert_eq!(global.max, Some(5000));

    let m = client.get_merchant_amount_limits(&merchant_id).unwrap();
    assert_eq!(m.min, Some(100));
    assert_eq!(m.max, Some(2000));
}

#[test]
fn test_create_payment_with_allowed_token() {
    let mut acc = Accounts::new();
    let (admin, mut client) = setup_payment_processor(&mut acc);
    let alt_token = acc.contract();
    client.allow_token(&admin, alt_token.clone()).unwrap();
    assert!(client.is_token_allowed(&alt_token));

    let merchant_id = merchant(&mut acc, &mut client, &admin);
    let mut args = create_payment_args(&mut acc, "pay_alt_token", &merchant_id, 1000, 0);
    args.currency = "EURC".to_string();
    args.token_address = Some(alt_token.clone());
    let payment = client.create_payment(args, 0, None).unwrap();

    assert_eq!(payment.token_address, Some(alt_token));
    assert_eq!(payment.status, PaymentStatus::Pending);
}

#[test]
fn test_create_payment_with_unlisted_token_fails() {
    let mut acc = Accounts::new();
    let (admin, mut client) = setup_payment_processor(&mut acc);
    let unknown_token = acc.contract();
    let merchant_id = merchant(&mut acc, &mut client, &admin);
    let mut args = create_payment_args(&mut acc, "pay_bad_token", &merchant_id, 1000, 0);
    args.currency = "RAND".to_string();
    args.token_address = Some(unknown_token);
    assert_eq!(client.create_payment(args, 0, None), Err(Error::UnsupportedToken));
}

#[test]
fn test_create_payment_no_token_address_uses_default() {
    let mut acc = Accounts::new();
    let (admin, mut client) = setup_payment_processor(&mut acc);
    let merchant_id = merchant(&mut acc, &mut client, &admin);
    let args = create_payment_args(&mut acc, "pay_default_token", &merchant_id, 500, 0);
    let payment = client.create_payment(args, 0, None).unwrap();
    assert_eq!(payment.token_address, None);
    assert_eq!(payment.status, PaymentStatus::Pending);
}

fn seven_decimal_case(payment_id: &str, shortfall: i128) -> PaymentStatus {
    let mut acc = Accounts::new();
    let (admin, mut client) = setup_payment_processor(&mut acc);
    let alt_token = acc.contract();
    client.allow_token(&admin, alt_token.clone()).unwrap();
    let merchant_id = merchant(&mut acc, &mut client, &admin);
    let oracle = oracle(&mut acc, &mut client, &admin);

    let amount = 1_000_000_0i128;
    let mut args = create_payment_args(&mut acc, payment_id, &merchant_id, amount, 0);
    args.currency = "EURC".to_string();
    args.token_address = Some(alt_token);
    client.create_payment(args, 0, None).unwrap();

    let payer = acc.next();
    client.verify_payment(&oracle, &payment_id.to_string(), [3u8; 32], payer, amount - shortfall, 0, 7).unwrap()
}

#[test]
fn test_verify_payment_decimal_aware_tolerance_7_decimals() {
    assert_eq!(seven_decimal_case("pay_7dec", 10), PaymentStatus::Confirmed);
}

#[test]
fn test_verify_payment_decimal_aware_tolerance_7_decimals_overpay() {
    assert_eq!(seven_decimal_case("pay_7dec_partial", 11), PaymentStatus::PartiallyPaid);
}

fn make_confirmed_payment(acc: &mut Accounts, client: &mut PaymentProcessor, admin: &String, payment_id: &str, amount: i128) {
    let m = merchant(acc, client, admin);
    let o = oracle(acc, client, admin);
    let args = create_payment_args(acc, payment_id, &m, amount, 0);
    client.create_payment(args, 0, None).unwrap();
    let payer = acc.next();
    client.verify_payment(&o, &payment_id.to_string(), [9u8; 32], payer, amount, 0, 7).unwrap();
}

fn settlement_operator(acc: &mut Accounts, client: &mut PaymentProcessor, admin: &String) -> String {
    let op = acc.next();
    client.grant_role(admin, role_settlement_operator(), op.clone()).unwrap();
    op
}

#[test]
fn test_settle_payment_single_split() {
    let mut acc = Accounts::new();
    let (admin, mut client) = setup_payment_processor(&mut acc);
    let pid = "settle_single".to_string();
    let amount = 1000i128;
    make_confirmed_payment(&mut acc, &mut client, &admin, &pid, amount);
    let operator = settlement_operator(&mut acc, &mut client, &admin);

    let recipient = acc.next();
    let splits = vec![SettlementSplit { recipient, amount }];
    client.settle_payment(&operator, &pid, &splits).unwrap();

    assert_eq!(client.get_payment(&pid).unwrap().status, PaymentStatus::Settled);
}

#[test]
fn test_settle_payment_multi_split() {
    let mut acc = Accounts::new();
    let (admin, mut client) = setup_payment_processor(&mut acc);
    let pid = "settle_multi".to_string();
    make_confirmed_payment(&mut acc, &mut client, &admin, &pid, 1000);
    let operator = settlement_operator(&mut acc, &mut client, &admin);

    let splits = vec![
        SettlementSplit { recipient: acc.next(), amount: 600 },
        SettlementSplit { recipient: acc.next(), amount: 400 },
    ];
    client.settle_payment(&operator, &pid, &splits).unwrap();

    assert_eq!(client.get_payment(&pid).unwrap().status, PaymentStatus::Settled);
}

fn idem_args(acc: &mut Accounts, payment_id: &str, merchant_id: &String, client_token: Option<String>) -> CreatePaymentArgs {
    CreatePaymentArgs {
        payment_id: payment_id.to_string(),
        merchant_id: merchant_id.clone(),
        amount: 1000,
        currency: "USDC".to_string(),
        deposit_address: acc.next(),
        expires_at: Some(3600),
        duration_secs: None,
        memo: None,
        memo_type: None,
        token_address: None,
        client_token,
        metadata_hash: None,
    }
}

#[test]
fn test_create_payment_idempotency_retry_returns_same_payment() {
    let mut acc = Accounts::new();
    let (admin, mut client) = setup_payment_processor(&mut acc);
    let merchant_id = merchant(&mut acc, &mut client, &admin);
    let args = idem_args(&mut acc, "idem_pay_1", &merchant_id, Some("tok_abc123".to_string()));

    let first = client.create_payment(args.clone(), 0, None).unwrap();
    let retry = client.create_payment(args, 5, None).unwrap();

    assert_eq!(first.payment_id, retry.payment_id);
    assert_eq!(first.created_at, retry.created_at);
}

#[test]
fn test_create_payment_idempotency_different_payment_id_fails() {
    let mut acc = Accounts::new();
    let (admin, mut client) = setup_payment_processor(&mut acc);
    let merchant_id = merchant(&mut acc, &mut client, &admin);
    let args_a = idem_args(&mut acc, "idem_pay_a", &merchant_id, Some("tok_conflict".to_string()));

    client.create_payment(args_a.clone(), 0, None).unwrap();

    let mut args_b = args_a.clone();
    args_b.payment_id = "idem_pay_b".to_string();
    assert_eq!(client.create_payment(args_b, 0, None), Err(Error::DuplicateIdempotencyKey));
}

#[test]
fn test_create_payment_without_idempotency_token_fails_on_retry() {
    let mut acc = Accounts::new();
    let (admin, mut client) = setup_payment_processor(&mut acc);
    let merchant_id = merchant(&mut acc, &mut client, &admin);
    let args = idem_args(&mut acc, "idem_pay_no_tok", &merchant_id, None);

    client.create_payment(args.clone(), 0, None).unwrap();
    assert_eq!(client.create_payment(args, 0, None), Err(Error::PaymentAlreadyExists));
}

#[test]
fn test_settle_payment_empty_splits_fails() {
    let mut acc = Accounts::new();
    let (admin, mut client) = setup_payment_processor(&mut acc);
    let pid = "settle_empty".to_string();
    make_confirmed_payment(&mut acc, &mut client, &admin, &pid, 1000);
    let operator = settlement_operator(&mut acc, &mut client, &admin);

    let splits: Vec<SettlementSplit> = vec![];
    assert_eq!(client.settle_payment(&operator, &pid, &splits), Err(Error::InvalidSettlement));
}

#[test]
fn test_settle_payment_split_total_mismatch_fails() {
    let mut acc = Accounts::new();
    let (admin, mut client) = setup_payment_processor(&mut acc);
    let pid = "settle_mismatch".to_string();
    make_confirmed_payment(&mut acc, &mut client, &admin, &pid, 1000);
    let operator = settlement_operator(&mut acc, &mut client, &admin);

    let splits = vec![
        SettlementSplit { recipient: acc.next(), amount: 500 },
        SettlementSplit { recipient: acc.next(), amount: 400 },
    ];
    assert_eq!(client.settle_payment(&operator, &pid, &splits), Err(Error::InvalidSettlement));
}

fn memo_case(payment_id: &str, amount: i128, memo: Option<&str>, memo_type: Option<&str>) -> fluxapay::PaymentCharge {
    let mut acc = Accounts::new();
    let (admin, mut client) = setup_payment_processor(&mut acc);
    let merchant_id = merchant(&mut acc, &mut client, &admin);
    let mut args = create_payment_args(&mut acc, payment_id, &merchant_id, amount, 0);
    args.memo = memo.map(|s| s.to_string());
    args.memo_type = memo_type.map(|s| s.to_string());
    client.create_payment(args, 0, None).unwrap()
}

#[test]
fn test_create_payment_with_memo() {
    let payment = memo_case("payment_with_memo", 1000, Some("ORDER-12345"), Some("Text"));
    assert_eq!(payment.payment_id, "payment_with_memo".to_string());
    assert_eq!(payment.memo, Some("ORDER-12345".to_string()));
    assert_eq!(payment.memo_type, Some("Text".to_string()));
}

#[test]
fn test_create_payment_without_memo() {
    let payment = memo_case("payment_no_memo", 1000, None, None);
    assert_eq!(payment.payment_id, "payment_no_memo".to_string());
    assert_eq!(payment.memo, None);
    assert_eq!(payment.memo_type, None);
}

#[test]
fn test_create_payment_with_id_memo() {
    let payment = memo_case("payment_id_memo", 2000, Some("123456789"), Some("Id"));
    assert_eq!(payment.memo, Some("123456789".to_string()));
    assert_eq!(payment.memo_type, Some("Id".to_string()));
}

#[test]
fn test_create_payment_with_hash_memo() {
    let payment = memo_case("payment_hash_memo", 3000, Some("abcdef1234567890"), Some("Hash"));
    assert_eq!(payment.memo, Some("abcdef1234567890".to_string()));
    assert_eq!(payment.memo_type, Some("Hash".to_string()));
}

#[test]
fn test_memo_persists_after_verification() {
    let mut acc = Accounts::new();
    let (admin, mut client) = setup_payment_processor(&mut acc);
    let merchant_id = merchant(&mut acc, &mut client, &admin);
    let pid = "payment_memo_persist".to_string();
    let mut args = create_payment_args(&mut acc, &pid, &merchant_id, 1500, 0);
    args.memo = Some("INVOICE-999".to_string());
    args.memo_type = Some("Text".to_string());
    client.create_payment(args, 0, None).unwrap();

    let oracle = oracle(&mut acc, &mut client, &admin);
    let payer = acc.next();
    client.verify_payment(&oracle, &pid, [5u8; 32], payer, 1500, 0, 7).unwrap();

    let payment = client.get_payment(&pid).unwrap();
    assert_eq!(payment.status, PaymentStatus::Confirmed);
    assert_eq!(payment.memo, Some("INVOICE-999".to_string()));
    assert_eq!(payment.memo_type, Some("Text".to_string()));
}

fn bare_args(acc: &mut Accounts, merchant: &String) -> CreatePaymentArgs {
    CreatePaymentArgs {
        payment_id: "p1".to_string(),
        merchant_id: merchant.clone(),
        amount: 100,
        currency: "USDC".to_string(),
        deposit_address: acc.next(),
        expires_at: None,
        duration_secs: None,
        memo: None,
        memo_type: None,
        token_address: None,
        client_token: None,
        metadata_hash: None,
    }
}

#[test]
fn test_pause_initial_state() {
    let mut acc = Accounts::new();
    let (_admin, client) = setup_payment_processor(&mut acc);
    let info = client.get_pause_info();
    assert!(!info.global.paused);
    assert!(!info.creation.paused);
    assert_eq!(info.global.reason, "".to_string());
    assert_eq!(info.creation.reason, "".to_string());
}

#[test]
fn test_global_pause_blocks_creation() {
    let mut acc = Accounts::new();
    let (admin, mut client) = setup_payment_processor(&mut acc);
    let m = acc.next();
    client.grant_role(&admin, "MERCHANT".to_string(), m.clone()).unwrap();

    let reason = "Global maintenance".to_string();
    client.set_global_pause(admin.clone(), true, reason.clone(), 0).unwrap();

    let info = client.get_pause_info();
    assert!(info.global.paused);
    assert_eq!(info.global.reason, reason);
    assert_eq!(info.global.admin, Some(admin.clone()));

    let args = bare_args(&mut acc, &m);
    let res = client.create_payment(args, 0, None);
    assert!(res.is_err());
}

#[test]
fn test_creation_pause_blocks_only_creation() {
    let mut acc = Accounts::new();
    let (admin, mut client) = setup_payment_processor(&mut acc);
    let m = acc.next();
    let o = acc.next();
    client.grant_role(&admin, "MERCHANT".to_string(), m.clone()).unwrap();
    client.grant_role(&admin, "ORACLE".to_string(), o.clone()).unwrap();

    let reason = "High load".to_string();
    client.set_creation_pause(admin.clone(), true, reason.clone(), 0).unwrap();

    let info = client.get_pause_info();
    assert!(!info.global.paused);
    assert!(info.creation.paused);
    assert_eq!(info.creation.reason, reason);

    let args = bare_args(&mut acc, &m);
    assert!(client.create_payment(args, 0, None).is_err());

    let payer = acc.next();
    let res_verify = client.verify_payment(&o, &"p1".to_string(), [0u8; 32], payer, 100, 0, 7);
    if let Err(e) = res_verify {
        if e == Error::ContractPaused {
            panic!("Should not be blocked by pause");
        }
    }
}
