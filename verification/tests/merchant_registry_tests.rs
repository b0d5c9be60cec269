use fluxapay::access_control::role_merchant;
use fluxapay::{
    CreatePaymentArgs, Effect, FeeConfig, KycTier, MerchantError, MerchantRegistry, PaymentProcessor, RefundManager,
};

struct Accounts {
    n: u32,
}

impl Accounts {
    fn new() -> Self {
        Accounts { n: 100 }
    }

    fn next(&mut self) -> String {
        self.n += 1;
        format!("G{:055}", self.n)
    }

    fn contract(&mut self) -> String {
        self.n += 1;
        format!("C{:055}", self.n)
    }
}

/// Fails the way the contract host reports a contract error.
fn host<T>(r: Result<T, MerchantError>) -> T {
    match r {
        Ok(v) => v,
        Err(e) => panic!("HostError: Error(Contract, #{})", e.code()),
    }
}

fn register(client: &mut MerchantRegistry, merchant_id: &String, name: &str, now: u64) {
    client
        .register_merchant(merchant_id.clone(), name.to_string(), "USDC".to_string(), None, None, None, now)
        .unwrap();
}

#[test]
fn test_merchant_registration() {
    let mut acc = Accounts::new();
    let mut client = MerchantRegistry::new();
    let now = 1000u64;

    let merchant_id = acc.next();
    let business_name = "Test Merchant".to_string();
    let settlement_currency = "USDC".to_string();
    let payout_addr = acc.next();
    client
        .register_merchant(
            merchant_id.clone(),
            business_name.clone(),
            settlement_currency.clone(),
            Some(payout_addr.clone()),
            Some("BANK-001".to_string()),
            None,
            now,
        )
        .unwrap();

    let merchant = client.get_merchant(&merchant_id).unwrap();
    assert_eq!(merchant.merchant_id, merchant_id);
    assert_eq!(merchant.business_name, business_name);
    assert_eq!(merchant.settlement_currency, settlement_currency);
    assert_eq!(merchant.payout_address, Some(payout_addr));
    assert_eq!(merchant.bank_account, Some("BANK-001".to_string()));
    assert_eq!(merchant.kyc_tier, KycTier::Unverified);
    assert!(merchant.active);
    assert!(merchant.created_at > 0);
}

#[test]
fn test_merchant_update() {
    let mut acc = Accounts::new();
    let mut client = MerchantRegistry::new();
    let merchant_id = acc.next();
    client
        .register_merchant(merchant_id.clone(), "Initial name".to_string(), "USD".to_string(), None, None, None, 0)
        .unwrap();

    let new_name = "New name".to_string();
    let new_currency = "EUR".to_string();
    let new_payout = acc.next();
    client
        .update_merchant(
            merchant_id.clone(),
            Some(new_name.clone()),
            Some(new_currency.clone()),
            Some(false),
            Some(new_payout.clone()),
            Some("BANK-002".to_string()),
            None,
        )
        .unwrap();

    let updated = client.get_merchant(&merchant_id).unwrap();
    assert_eq!(updated.business_name, new_name);
    assert_eq!(updated.settlement_currency, new_currency);
    assert!(!updated.active);
    assert_eq!(updated.payout_address, Some(new_payout));
    assert_eq!(updated.bank_account, Some("BANK-002".to_string()));
}

#[test]
fn test_merchant_verification() {
    let mut acc = Accounts::new();
    let mut client = MerchantRegistry::new();
    let admin = acc.next();
    let merchant_id = acc.next();
    client.initialize(admin.clone()).unwrap();
    register(&mut client, &merchant_id, "Merchant", 0);

    client.verify_merchant(admin, merchant_id.clone()).unwrap();
    assert_eq!(client.get_merchant(&merchant_id).unwrap().kyc_tier, KycTier::Basic);
}

#[test]
#[should_panic(expected = "HostError: Error(Contract, #3)")]
fn test_unauthorized_verification() {
    let mut acc = Accounts::new();
    let mut client = MerchantRegistry::new();
    let admin = acc.next();
    let attacker = acc.next();
    let merchant_id = acc.next();
    client.initialize(admin).unwrap();
    register(&mut client, &merchant_id, "Merchant", 0);

    host(client.verify_merchant(attacker, merchant_id));
}

#[test]
fn test_set_kyc_tier() {
    let mut acc = Accounts::new();
    let mut client = MerchantRegistry::new();
    let admin = acc.next();
    let merchant_id = acc.next();
    client.initialize(admin.clone()).unwrap();
    register(&mut client, &merchant_id, "BigCorp", 0);

    client.set_kyc_tier(admin.clone(), merchant_id.clone(), KycTier::Full).unwrap();
    assert_eq!(client.get_merchant(&merchant_id).unwrap().kyc_tier, KycTier::Full);

    client.set_kyc_tier(admin, merchant_id.clone(), KycTier::Business).unwrap();
    assert_eq!(client.get_merchant(&merchant_id).unwrap().kyc_tier, KycTier::Business);
}

#[test]
#[should_panic(expected = "HostError: Error(Contract, #3)")]
fn test_set_kyc_tier_unauthorized() {
    let mut acc = Accounts::new();
    let mut client = MerchantRegistry::new();
    let admin = acc.next();
    let attacker = acc.next();
    let merchant_id = acc.next();
    client.initialize(admin).unwrap();
    register(&mut client, &merchant_id, "Merchant", 0);

    host(client.set_kyc_tier(attacker, merchant_id, KycTier::Business));
}

#[test]
fn test_merchant_enumeration() {
    let mut acc = Accounts::new();
    let mut client = MerchantRegistry::new();
    let admin = acc.next();
    client.initialize(admin).unwrap();
    for name in ["Merchant 1", "Merchant 2", "Merchant 3"] {
        let m = acc.next();
        register(&mut client, &m, name, 0);
    }

    assert_eq!(client.get_all_merchants(0, 10).len(), 3);
    assert_eq!(client.get_all_merchants(0, 2).len(), 2);
    assert_eq!(client.get_all_merchants(2, 10).len(), 1);
}

#[test]
fn test_verified_merchants_filter() {
    let mut acc = Accounts::new();
    let mut client = MerchantRegistry::new();
    let admin = acc.next();
    client.initialize(admin.clone()).unwrap();
    let merchant1 = acc.next();
    let merchant2 = acc.next();
    let merchant3 = acc.next();
    register(&mut client, &merchant1, "Merchant 1", 0);
    register(&mut client, &merchant2, "Merchant 2", 0);
    register(&mut client, &merchant3, "Merchant 3", 0);

    client.verify_merchant(admin, merchant2.clone()).unwrap();

    let verified = client.get_verified_merchants();
    assert_eq!(verified.len(), 1);
    assert_eq!(verified[0].merchant_id, merchant2);
    assert_eq!(verified[0].kyc_tier, KycTier::Basic);
}

fn three_contracts(acc: &mut Accounts) -> (String, PaymentProcessor, RefundManager, MerchantRegistry) {
    let mut payment_client = PaymentProcessor::new(acc.contract());
    let mut refund_client = RefundManager::new(acc.contract());
    let mut merchant_client = MerchantRegistry::new();
    let admin = acc.next();
    let usdc_token = acc.contract();
    refund_client.initialize_refund_manager(admin.clone(), usdc_token).unwrap();
    payment_client.initialize_payment_processor(admin.clone(), 0).unwrap();
    merchant_client.initialize(admin.clone()).unwrap();
    (admin, payment_client, refund_client, merchant_client)
}

fn pay_args(acc: &mut Accounts, merchant: &String) -> CreatePaymentArgs {
    CreatePaymentArgs {
        payment_id: "PAY_01".to_string(),
        merchant_id: merchant.clone(),
        amount: 1000,
        currency: "USDC".to_string(),
        deposit_address: acc.next(),
        expires_at: Some(3600),
        duration_secs: None,
        memo: None,
        memo_type: None,
        token_address: None,
        client_token: None,
        metadata_hash: None,
    }
}

#[test]
#[should_panic(expected = "HostError: Error(Contract, #1)")]
fn test_unverified_merchant_cannot_create_payment() {
    let mut acc = Accounts::new();
    let (_admin, mut payment_client, _refund_client, mut merchant_client) = three_contracts(&mut acc);
    let merchant = acc.next();
    register(&mut merchant_client, &merchant, "Unverified Merchant", 0);

    let args = pay_args(&mut acc, &merchant);
    match payment_client.create_payment(args, 0, None) {
        Ok(_) => {}
        Err(e) => panic!("HostError: Error(Contract, #{})", e.code()),
    }
}

#[test]
fn test_verified_merchant_can_create_payment() {
    let mut acc = Accounts::new();
    let (admin, mut payment_client, _refund_client, mut merchant_client) = three_contracts(&mut acc);
    let merchant = acc.next();
    register(&mut merchant_client, &merchant, "Verified Merchant", 0);
    payment_client.grant_role(&admin, role_merchant(), merchant.clone()).unwrap();

    let args = pay_args(&mut acc, &merchant);
    let payment = payment_client.create_payment(args, 0, None).unwrap();
    assert_eq!(payment.payment_id, "PAY_01".to_string());
    assert_eq!(payment.merchant_id, merchant);
    assert_eq!(payment.amount, 1000);
}

#[test]
fn test_suspend_merchant() {
    let mut acc = Accounts::new();
    let mut client = MerchantRegistry::new();
    let admin = acc.next();
    let merchant_id = acc.next();
    client.initialize(admin.clone()).unwrap();
    register(&mut client, &merchant_id, "Merchant", 0);

    let reason = "Fraudulent activity".to_string();
    client.suspend_merchant(admin, merchant_id.clone(), reason.clone(), 0).unwrap();

    let merchant = client.get_merchant(&merchant_id).unwrap();
    assert!(!merchant.active);
    assert_eq!(merchant.suspension_reason, Some(reason));
    assert!(merchant.suspended_at.is_some());
}

#[test]
fn test_reinstate_merchant() {
    let mut acc = Accounts::new();
    let mut client = MerchantRegistry::new();
    let admin = acc.next();
    let merchant_id = acc.next();
    client.initialize(admin.clone()).unwrap();
    register(&mut client, &merchant_id, "Merchant", 0);

    client.suspend_merchant(admin.clone(), merchant_id.clone(), "Fraudulent activity".to_string(), 0).unwrap();
    assert!(!client.get_merchant(&merchant_id).unwrap().active);

    client.reinstate_merchant(admin, merchant_id.clone()).unwrap();
    let reinstated = client.get_merchant(&merchant_id).unwrap();
    assert!(reinstated.active);
    assert_eq!(reinstated.suspension_reason, None);
    assert_eq!(reinstated.suspended_at, None);
}

#[test]
#[should_panic(expected = "HostError: Error(Contract, #3)")]
fn test_suspend_merchant_unauthorized() {
    let mut acc = Accounts::new();
    let mut client = MerchantRegistry::new();
    let admin = acc.next();
    let attacker = acc.next();
    let merchant_id = acc.next();
    client.initialize(admin).unwrap();
    register(&mut client, &merchant_id, "Merchant", 0);

    host(client.suspend_merchant(attacker, merchant_id, "Reason".to_string(), 0));
}

#[test]
#[should_panic(expected = "Error(Contract, #3)")]
fn test_verify_merchant_called_by_non_admin() {
    let mut acc = Accounts::new();
    let (_admin, _payment_client, _refund_client, mut merchant_client) = three_contracts(&mut acc);
    let non_admin = acc.next();
    let merchant = acc.next();
    merchant_client
        .register_merchant(merchant.clone(), "M".to_string(), "USD".to_string(), None, None, None, 0)
        .unwrap();
    host(merchant_client.verify_merchant(non_admin, merchant));
}

#[test]
fn fees_follow_the_merchant_settings() {
    let mut acc = Accounts::new();
    let mut client = MerchantRegistry::new();
    let admin = acc.next();
    client.initialize(admin.clone()).unwrap();
    let plain = acc.next();
    let priced = acc.next();
    let recipient = acc.next();
    register(&mut client, &plain, "Plain", 1);
    client
        .register_merchant(
            priced.clone(),
            "Priced".to_string(),
            "USDC".to_string(),
            None,
            None,
            Some(FeeConfig { platform_fee_bps: 250, fixed_fee: 10, fee_recipient: Some(recipient.clone()) }),
            1,
        )
        .unwrap();

    assert_eq!(client.calculate_fee(&plain, 1_000), Ok((0, 1_000)));
    // 2.5% of 1000 plus 10
    assert_eq!(client.calculate_fee(&priced, 1_000), Ok((35, 965)));
    // the fee never exceeds the amount
    assert_eq!(client.calculate_fee(&priced, 5), Ok((5, 0)));
    assert_eq!(client.get_fee_recipient(&priced), Ok(recipient));
    assert_eq!(client.get_fee_recipient(&plain), Ok(admin));
    let unknown = acc.next();
    assert_eq!(client.calculate_fee(&unknown, 1), Err(MerchantError::MerchantNotFound));
}

#[test]
fn registry_refusals() {
    let mut acc = Accounts::new();
    let mut client = MerchantRegistry::new();
    let admin = acc.next();
    client.initialize(admin.clone()).unwrap();
    assert_eq!(client.initialize(acc.next()), Err(MerchantError::AdminAlreadySet));
    let m = acc.next();
    register(&mut client, &m, "M", 0);
    assert_eq!(
        client.register_merchant(m.clone(), "M".to_string(), "USDC".to_string(), None, None, None, 0),
        Err(MerchantError::MerchantAlreadyExists)
    );
    let missing = acc.next();
    assert_eq!(client.verify_merchant(admin.clone(), missing.clone()), Err(MerchantError::MerchantNotFound));
    assert_eq!(client.get_merchant(&missing), Err(MerchantError::MerchantNotFound));
    assert_eq!(MerchantError::NotVerified.code(), 4);
}

#[test]
fn verification_grants_the_merchant_role_through_the_refund_manager() {
    let mut acc = Accounts::new();
    let mut client = MerchantRegistry::new();
    let admin = acc.next();
    client.initialize(admin.clone()).unwrap();
    let refund_manager = acc.contract();
    assert_eq!(client.set_refund_manager_address(acc.next(), refund_manager.clone()), Err(MerchantError::Unauthorized));
    client.set_refund_manager_address(admin.clone(), refund_manager.clone()).unwrap();
    let m = acc.next();
    register(&mut client, &m, "M", 0);
    client.take_effects();
    client.verify_merchant(admin.clone(), m.clone()).unwrap();
    let effects = client.take_effects();
    assert!(effects.contains(&Effect::GrantRole {
        contract: refund_manager,
        admin,
        role: role_merchant(),
        account: m,
    }));
}
