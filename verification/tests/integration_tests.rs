use fluxapay::{
    CreatePaymentArgs, DisputeStatus, KycTier, MerchantRegistry, PaymentProcessor, PaymentStatus, RefundManager,
    RefundStatus, SettlementSplit,
};

struct Accounts {
    n: u32,
}

impl Accounts {
    fn new() -> Self {
        Accounts { n: 900 }
    }

    fn next(&mut self) -> String {
        self.n += 1;
        format!("G{:055}", self.n)
    }

    fn contract(&mut self) -> String {
        self.n += 1;
        format!("C{:055}", self.n)
    }
}

fn setup_integration(acc: &mut Accounts) -> (String, PaymentProcessor, RefundManager, MerchantRegistry) {
    let mut payment_client = PaymentProcessor::new(acc.contract());
    let mut refund_client = RefundManager::new(acc.contract());
    let mut merchant_client = MerchantRegistry::new();
    let admin = acc.next();
    let usdc_token = acc.contract();
    refund_client.initialize_refund_manager(admin.clone(), usdc_token).unwrap();
    payment_client.initialize_payment_processor(admin.clone(), 0).unwrap();
    merchant_client.initialize(admin.clone()).unwrap();
    (admin, payment_client, refund_client, merchant_client)
}

fn args(acc: &mut Accounts, payment_id: &str, merchant: &String, amount: i128, expires_at: u64) -> CreatePaymentArgs {
    CreatePaymentArgs {
        payment_id: payment_id.to_string(),
        merchant_id: merchant.clone(),
        amount,
        currency: "USDC".to_string(),
        deposit_address: acc.next(),
        expires_at: Some(expires_at),
        duration_secs: None,
        memo: None,
        memo_type: None,
        token_address: None,
        client_token: None,
        metadata_hash: None,
    }
}

#[test]
fn test_happy_path_flow() {
    let mut acc = Accounts::new();
    let (admin, mut payment_client, mut refund_client, mut merchant_client) = setup_integration(&mut acc);
    let merchant = acc.next();
    let customer = acc.next();

    merchant_client
        .register_merchant(merchant.clone(), "Flux Merchant".to_string(), "USD".to_string(), None, None, None, 0)
        .unwrap();
    merchant_client.verify_merchant(admin.clone(), merchant.clone()).unwrap();
    assert_eq!(merchant_client.get_merchant(&merchant).unwrap().kyc_tier, KycTier::Basic);

    let payment_id = "PAY_01".to_string();
    let amount = 1000i128;
    payment_client.grant_role(&admin, "MERCHANT".to_string(), merchant.clone()).unwrap();
    let a = args(&mut acc, "PAY_01", &merchant, amount, 3600);
    payment_client.create_payment(a, 0, None).unwrap();

    let oracle = acc.next();
    payment_client.grant_role(&admin, "ORACLE".to_string(), oracle.clone()).unwrap();
    payment_client.verify_payment(&oracle, &payment_id, [42u8; 32], customer.clone(), amount, 0, 7).unwrap();
    assert_eq!(payment_client.get_payment(&payment_id).unwrap().status, PaymentStatus::Confirmed);

    refund_client.register_payment(payment_id.clone(), merchant.clone(), amount, "USDC".to_string(), 0);

    let dispute_id = refund_client
        .create_dispute(payment_id.clone(), amount, "Product Damaged".to_string(), "Video evidence".to_string(), customer, 0)
        .unwrap();

    let operator = acc.next();
    refund_client.grant_role(&admin, "SETTLEMENT_OPERATOR".to_string(), operator.clone()).unwrap();

    let refund_id = refund_client
        .resolve_dispute_with_refund(&operator, &dispute_id, "Refund approved".to_string(), String::new(), 0, &None)
        .unwrap();

    let dispute_info = refund_client.get_dispute(&dispute_id, 0).unwrap();
    assert_eq!(dispute_info.status, DisputeStatus::Resolved);
    assert!(dispute_info.refund_id.is_some());

    assert_eq!(refund_client.get_refund(&refund_id).unwrap().status, RefundStatus::Completed);
}

#[test]
fn test_settlement_path() {
    let mut acc = Accounts::new();
    let (admin, mut payment_client, _refund_client, _merchant_client) = setup_integration(&mut acc);
    let merchant = acc.next();
    let customer = acc.next();
    let treasury = acc.next();
    let operator = acc.next();

    payment_client.grant_role(&admin, "SETTLEMENT_OPERATOR".to_string(), operator.clone()).unwrap();

    let payment_id = "PAY_SETTLE".to_string();
    let amount = 2000i128;
    payment_client.grant_role(&admin, "MERCHANT".to_string(), merchant.clone()).unwrap();
    let a = args(&mut acc, "PAY_SETTLE", &merchant, amount, 3600);
    payment_client.create_payment(a, 0, None).unwrap();

    let oracle = acc.next();
    payment_client.grant_role(&admin, "ORACLE".to_string(), oracle.clone()).unwrap();
    payment_client.verify_payment(&oracle, &payment_id, [8u8; 32], customer, amount, 0, 7).unwrap();

    let splits = vec![SettlementSplit { recipient: treasury.clone(), amount }];
    payment_client.settle_payment(&operator, &payment_id, &splits).unwrap();

    assert_eq!(payment_client.get_payment(&payment_id).unwrap().status, PaymentStatus::Settled);
}

#[test]
fn test_failure_and_expiration_path() {
    let mut acc = Accounts::new();
    let (admin, mut payment_client, mut refund_client, _merchant_client) = setup_integration(&mut acc);
    let merchant = acc.next();
    let payment_id = "PAY_EXPIRE".to_string();
    let amount = 500i128;
    let expires_at = 100u64;

    payment_client.grant_role(&admin, "MERCHANT".to_string(), merchant.clone()).unwrap();
    let a = args(&mut acc, "PAY_EXPIRE", &merchant, amount, expires_at);
    payment_client.create_payment(a, 0, None).unwrap();

    payment_client.expire_payment(&payment_id, expires_at + 1).unwrap();
    assert_eq!(payment_client.get_payment(&payment_id).unwrap().status, PaymentStatus::Expired);

    refund_client.register_payment(payment_id.clone(), merchant, amount, "USDC".to_string(), expires_at + 1);

    let customer = acc.next();
    let dispute_id = refund_client
        .create_dispute(payment_id, amount, "Late but flawed".to_string(), "N/A".to_string(), customer, expires_at + 1)
        .unwrap();

    let operator = acc.next();
    refund_client.grant_role(&admin, "ORACLE".to_string(), operator.clone()).unwrap();
    refund_client
        .reject_dispute(
            &operator,
            &dispute_id,
            "Payment already expired and cancelled".to_string(),
            String::new(),
            expires_at + 1,
        )
        .unwrap();

    assert_eq!(refund_client.get_dispute(&dispute_id, expires_at + 1).unwrap().status, DisputeStatus::Rejected);
}
