use fluxapay::access_control::{role_admin, role_oracle, role_settlement_operator};
use fluxapay::{Effect, Error, Event, RefundManager, RefundStatus};

struct Accounts {
    n: u32,
}

impl Accounts {
    fn new() -> Self {
        Accounts { n: 500 }
    }

    fn next(&mut self) -> String {
        self.n += 1;
        format!("G{:055}", self.n)
    }

    fn contract(&mut self) -> String {
        self.n += 1;
        format!("C{:055}", self.n)
    }
}

fn setup_refund_manager(acc: &mut Accounts) -> (String, RefundManager) {
    let (admin, rm, _) = setup_refund_manager_with_token(acc);
    (admin, rm)
}

fn setup_refund_manager_with_token(acc: &mut Accounts) -> (String, RefundManager, String) {
    let mut client = RefundManager::new(acc.contract());
    let admin = acc.next();
    let usdc_token = acc.contract();
    client.initialize_refund_manager(admin.clone(), usdc_token.clone()).unwrap();
    (admin, client, usdc_token)
}

/// Fails the way the contract host reports a contract error.
fn host<T>(r: Result<T, Error>) -> T {
    match r {
        Ok(v) => v,
        Err(e) => panic!("Error(Contract, #{})", e.code()),
    }
}

fn balance(effects: &[Effect], token: &str, account: &str) -> i128 {
    effects
        .iter()
        .map(|e| match e {
            Effect::Transfer(t) if t.token == token && t.to == account => t.amount,
            Effect::Transfer(t) if t.token == token && t.from == account => -t.amount,
            _ => 0,
        })
        .sum()
}

fn operator(acc: &mut Accounts, client: &mut RefundManager, admin: &String) -> String {
    let op = acc.next();
    client.grant_role(admin, role_settlement_operator(), op.clone()).unwrap();
    op
}

fn s(x: &str) -> String {
    x.to_string()
}

#[test]
fn test_create_and_get_refund() {
    let mut acc = Accounts::new();
    let (_, mut client) = setup_refund_manager(&mut acc);
    let payment_id = s("payment_123");
    let merchant_id = acc.next();
    let requester = acc.next();
    client.register_payment(payment_id.clone(), merchant_id, 5000, s("USDC"), 0);

    let refund_id = client.create_refund(payment_id.clone(), 1000, s("Reason"), requester, 0).unwrap();
    let refund = client.get_refund(&refund_id).unwrap();

    assert_eq!(refund.payment_id, payment_id);
    assert_eq!(refund.amount, 1000);
    assert_eq!(refund.status, RefundStatus::Pending);
}

#[test]
fn test_process_refund() {
    let mut acc = Accounts::new();
    let (admin, mut client) = setup_refund_manager(&mut acc);
    let payment_id = s("payment_123");
    let merchant_id = acc.next();
    let requester = acc.next();
    client.register_payment(payment_id.clone(), merchant_id, 5000, s("USDC"), 0);
    let refund_id = client.create_refund(payment_id, 1000, s("Reason"), requester, 0).unwrap();

    let op = operator(&mut acc, &mut client, &admin);
    client.process_refund(&op, &refund_id, 0, &None).unwrap();

    assert_eq!(client.get_refund(&refund_id).unwrap().status, RefundStatus::Completed);
}

#[test]
fn test_initialize_contract() {
    let mut acc = Accounts::new();
    let admin = acc.next();
    let usdc_token = acc.contract();
    let mut client = RefundManager::new(acc.contract());
    client.initialize_refund_manager(admin.clone(), usdc_token).unwrap();

    assert_eq!(client.get_admin(), Some(admin.clone()));
    assert!(client.has_role(&role_admin(), &admin));
}

#[test]
fn test_grant_role() {
    let mut acc = Accounts::new();
    let (admin, mut client) = setup_refund_manager(&mut acc);
    let account = acc.next();
    let role = role_oracle();
    client.grant_role(&admin, role.clone(), account.clone()).unwrap();
    assert!(client.has_role(&role, &account));
}

#[test]
fn test_transfer_admin() {
    let mut acc = Accounts::new();
    let (current_admin, mut client) = setup_refund_manager(&mut acc);
    let new_admin = acc.next();
    client.transfer_admin(&current_admin, new_admin.clone()).unwrap();
    assert!(client.has_role(&role_admin(), &new_admin));
    assert_eq!(client.get_admin(), Some(new_admin));
}

#[test]
fn test_multiple_refunds_unique_ids() {
    let mut acc = Accounts::new();
    let (_, mut client) = setup_refund_manager(&mut acc);
    let payment_id = s("payment_123");
    let merchant_id = acc.next();
    let requester = acc.next();
    client.register_payment(payment_id.clone(), merchant_id, 5000, s("USDC"), 0);

    let refund_id_1 = client.create_refund(payment_id.clone(), 1000, s("First refund"), requester.clone(), 0).unwrap();
    let refund_id_2 = client.create_refund(payment_id.clone(), 500, s("Second refund"), requester.clone(), 0).unwrap();
    let refund_id_3 = client.create_refund(payment_id.clone(), 250, s("Third refund"), requester.clone(), 0).unwrap();

    assert_ne!(refund_id_1, refund_id_2);
    assert_ne!(refund_id_2, refund_id_3);
    assert_ne!(refund_id_1, refund_id_3);

    assert_eq!(client.get_refund(&refund_id_1).unwrap().amount, 1000);
    assert_eq!(client.get_refund(&refund_id_2).unwrap().amount, 500);
    assert_eq!(client.get_refund(&refund_id_3).unwrap().amount, 250);

    assert_eq!(refund_id_1, s("refund_1"));
    assert_eq!(refund_id_2, s("refund_2"));
    assert_eq!(refund_id_3, s("refund_3"));
}

#[test]
fn test_get_role_members() {
    let mut acc = Accounts::new();
    let (admin, mut client) = setup_refund_manager(&mut acc);
    let oracle1 = acc.next();
    let oracle2 = acc.next();
    let oracle_role = role_oracle();

    assert_eq!(client.get_role_members(&oracle_role).len(), 0);

    client.grant_role(&admin, oracle_role.clone(), oracle1.clone()).unwrap();
    let members = client.get_role_members(&oracle_role);
    assert_eq!(members.len(), 1);
    assert_eq!(members.get(0), Some(&oracle1));

    client.grant_role(&admin, oracle_role.clone(), oracle2.clone()).unwrap();
    assert_eq!(client.get_role_members(&oracle_role).len(), 2);

    client.revoke_role(&admin, &oracle_role, &oracle1).unwrap();
    let members = client.get_role_members(&oracle_role);
    assert_eq!(members.len(), 1);
    assert_eq!(members.get(0), Some(&oracle2));
}

#[test]
fn test_admin_in_role_members_after_init() {
    let mut acc = Accounts::new();
    let (admin, client) = setup_refund_manager(&mut acc);
    let members = client.get_role_members(&role_admin());
    assert_eq!(members.len(), 1);
    assert_eq!(members.get(0), Some(&admin));
}

fn processed_fee_case(payment_id: &str) -> (String, String, String, Vec<Effect>) {
    let mut acc = Accounts::new();
    let (admin, mut client, usdc_token) = setup_refund_manager_with_token(&mut acc);
    let merchant_id = acc.next();
    let requester = acc.next();
    let refund_amount = 10_000i128;
    client.register_payment(s(payment_id), merchant_id, refund_amount, s("USDC"), 0);
    let refund_id = client.create_refund(s(payment_id), refund_amount, s("fee test"), requester.clone(), 0).unwrap();
    let op = operator(&mut acc, &mut client, &admin);
    client.process_refund(&op, &refund_id, 0, &None).unwrap();
    (admin, requester, usdc_token, client.take_effects())
}

#[test]
fn test_process_refund_deducts_fee_from_requester() {
    let (_admin, requester, usdc_token, effects) = processed_fee_case("payment_fee_1");
    let refund_amount = 10_000i128;
    let fee = refund_amount * 100 / 10_000;
    let net = refund_amount - fee;
    assert_eq!(balance(&effects, &usdc_token, &requester), net);
}

#[test]
fn test_process_refund_sends_fee_to_admin() {
    let (admin, _requester, usdc_token, effects) = processed_fee_case("payment_fee_2");
    let refund_amount = 10_000i128;
    let fee = refund_amount * 100 / 10_000;
    assert_eq!(balance(&effects, &usdc_token, &admin), fee);
}

fn one_pending_refund(acc: &mut Accounts, payment_id: &str, amount: i128) -> (String, RefundManager, String, String) {
    let (admin, mut client) = setup_refund_manager(acc);
    let merchant_id = acc.next();
    let requester = acc.next();
    client.register_payment(s(payment_id), merchant_id, 5000, s("USDC"), 0);
    let refund_id = client.create_refund(s(payment_id), amount, s("reason"), requester.clone(), 0).unwrap();
    (admin, client, requester, refund_id)
}

#[test]
fn test_cancel_refund_by_requester() {
    let mut acc = Accounts::new();
    let (_admin, mut client, requester, refund_id) = one_pending_refund(&mut acc, "payment_cancel_1", 1000);

    client.cancel_refund(&requester, &refund_id).unwrap();

    assert_eq!(client.get_refund(&refund_id), Err(Error::RefundNotFound));
    assert_eq!(client.get_payment_refunds(&s("payment_cancel_1")).unwrap().len(), 0);
}

#[test]
fn test_cancel_refund_by_admin() {
    let mut acc = Accounts::new();
    let (admin, mut client, _requester, refund_id) = one_pending_refund(&mut acc, "payment_cancel_2", 500);
    client.cancel_refund(&admin, &refund_id).unwrap();
    assert_eq!(client.get_refund(&refund_id), Err(Error::RefundNotFound));
}

#[test]
fn test_cancel_refund_unauthorized() {
    let mut acc = Accounts::new();
    let (_admin, mut client, _requester, refund_id) = one_pending_refund(&mut acc, "payment_cancel_3", 500);
    let random = acc.next();
    assert_eq!(client.cancel_refund(&random, &refund_id), Err(Error::Unauthorized));
}

#[test]
fn test_cancel_refund_already_processed() {
    let mut acc = Accounts::new();
    let (admin, mut client, requester, refund_id) = one_pending_refund(&mut acc, "payment_cancel_4", 500);
    let op = operator(&mut acc, &mut client, &admin);
    client.process_refund(&op, &refund_id, 0, &None).unwrap();
    assert_eq!(client.cancel_refund(&requester, &refund_id), Err(Error::RefundAlreadyProcessed));
}

#[test]
fn test_cancel_refund_emits_event() {
    let mut acc = Accounts::new();
    let (_admin, mut client, requester, refund_id) = one_pending_refund(&mut acc, "payment_cancel_5", 750);
    client.cancel_refund(&requester, &refund_id).unwrap();
    assert!(!client.effects.is_empty());
    assert_eq!(
        client.effects.last(),
        Some(&Effect::Emit(Event::RefundCancelled {
            payment_id: s("payment_cancel_5"),
            refund_id: refund_id.clone(),
            amount: 750,
        }))
    );
}

#[test]
fn test_refund_total_equals_payment_amount_succeeds() {
    let mut acc = Accounts::new();
    let (_, mut client) = setup_refund_manager(&mut acc);
    let merchant_id = acc.next();
    let requester = acc.next();
    client.register_payment(s("pay_exact"), merchant_id, 1000, s("USDC"), 0);
    let refund_id = client.create_refund(s("pay_exact"), 1000, s("full refund"), requester, 0).unwrap();
    assert_eq!(client.get_refund(&refund_id).unwrap().amount, 1000);
}

#[test]
#[should_panic(expected = "Error(Contract, #16)")]
fn test_refund_exceeds_payment_amount_rejected() {
    let mut acc = Accounts::new();
    let (_, mut client) = setup_refund_manager(&mut acc);
    let merchant_id = acc.next();
    let requester = acc.next();
    client.register_payment(s("pay_over"), merchant_id, 500, s("USDC"), 0);
    host(client.create_refund(s("pay_over"), 501, s("over refund"), requester, 0));
}

#[test]
#[should_panic(expected = "Error(Contract, #16)")]
fn test_cumulative_refunds_exceed_payment_amount_rejected() {
    let mut acc = Accounts::new();
    let (_, mut client) = setup_refund_manager(&mut acc);
    let merchant_id = acc.next();
    let requester = acc.next();
    client.register_payment(s("pay_cumulative"), merchant_id, 1000, s("USDC"), 0);
    host(client.create_refund(s("pay_cumulative"), 600, s("partial 1"), requester.clone(), 0));
    host(client.create_refund(s("pay_cumulative"), 401, s("partial 2 over"), requester, 0));
}

#[test]
fn test_partial_refunds_tracked_in_payment_refunds_list() {
    let mut acc = Accounts::new();
    let (_, mut client) = setup_refund_manager(&mut acc);
    let merchant_id = acc.next();
    let requester = acc.next();
    let pid = s("pay_partial");
    client.register_payment(pid.clone(), merchant_id, 1000, s("USDC"), 0);

    let r1 = client.create_refund(pid.clone(), 300, s("partial 1"), requester.clone(), 0).unwrap();
    let r2 = client.create_refund(pid.clone(), 400, s("partial 2"), requester.clone(), 0).unwrap();
    let r3 = client.create_refund(pid.clone(), 300, s("partial 3"), requester.clone(), 0).unwrap();

    assert_eq!(client.get_payment_refunds(&pid).unwrap().len(), 3);
    assert_eq!(client.get_refund(&r1).unwrap().amount, 300);
    assert_eq!(client.get_refund(&r2).unwrap().amount, 400);
    assert_eq!(client.get_refund(&r3).unwrap().amount, 300);
}

fn rejected_then_new(payment_id: &str, second: i128) {
    let mut acc = Accounts::new();
    let (admin, mut client) = setup_refund_manager(&mut acc);
    let merchant_id = acc.next();
    let requester = acc.next();
    let pid = s(payment_id);
    client.register_payment(pid.clone(), merchant_id, 1000, s("USDC"), 0);

    let refund_id = client.create_refund(pid.clone(), 800, s("will be rejected"), requester.clone(), 0).unwrap();
    let op = operator(&mut acc, &mut client, &admin);
    client.reject_refund(&op, &refund_id, 0).unwrap();

    let new_refund_id = client.create_refund(pid, second, s("replacement"), requester, 0).unwrap();
    let new_refund = client.get_refund(&new_refund_id).unwrap();
    assert_eq!(new_refund.amount, second);
    assert_eq!(new_refund.status, RefundStatus::Pending);
}

#[test]
fn test_rejected_refund_does_not_count_toward_total() {
    rejected_then_new("pay_rejected", 800);
}

#[test]
fn test_rejected_refunds_not_counted_in_cumulative_total() {
    rejected_then_new("pay_rejected_refund", 1000);
}

#[test]
fn test_cumulative_refunds_exceed_payment_amount_fails() {
    let mut acc = Accounts::new();
    let (_, mut client) = setup_refund_manager(&mut acc);
    let merchant_id = acc.next();
    let requester = acc.next();
    let pid = s("pay_cumulative_1");
    client.register_payment(pid.clone(), merchant_id, 1000, s("USDC"), 0);
    client.create_refund(pid.clone(), 600, s("partial 1"), requester.clone(), 0).unwrap();
    assert_eq!(client.create_refund(pid, 500, s("partial 2"), requester, 0), Err(Error::RefundExceedsPayment));
}

#[test]
fn test_refund_exactly_equal_to_payment_amount_succeeds() {
    let mut acc = Accounts::new();
    let (_, mut client) = setup_refund_manager(&mut acc);
    let merchant_id = acc.next();
    let requester = acc.next();
    let pid = s("pay_exact_1");
    client.register_payment(pid.clone(), merchant_id, 1000, s("USDC"), 0);
    let refund_id = client.create_refund(pid, 1000, s("full refund"), requester, 0).unwrap();
    let refund = client.get_refund(&refund_id).unwrap();
    assert_eq!(refund.amount, 1000);
    assert_eq!(refund.status, RefundStatus::Pending);
}

#[test]
fn test_second_refund_after_full_refund_fails() {
    let mut acc = Accounts::new();
    let (_, mut client) = setup_refund_manager(&mut acc);
    let merchant_id = acc.next();
    let requester = acc.next();
    let pid = s("pay_full_then_extra");
    client.register_payment(pid.clone(), merchant_id, 1000, s("USDC"), 0);
    client.create_refund(pid.clone(), 1000, s("full"), requester.clone(), 0).unwrap();
    assert_eq!(client.create_refund(pid, 1, s("extra"), requester, 0), Err(Error::RefundExceedsPayment));
}

#[test]
#[should_panic(expected = "Error(Contract, #1)")]
fn test_process_refund_without_operator_role() {
    let mut acc = Accounts::new();
    let (_admin, mut client) = setup_refund_manager(&mut acc);
    let non_operator = acc.next();
    host(client.process_refund(&non_operator, &s("refund_1"), 0, &None));
}

#[test]
fn initialization_refuses_bad_addresses() {
    let zero = s("CAAAAAAAAAAAAAAAAAAAAAAAAAAAAAAAAAAAAAAAAAAAAAAAAAAAD2KM");
    let mut rm = RefundManager::new(s("CRM"));
    assert_eq!(rm.initialize_refund_manager(s("GA"), s("GA")), Err(Error::InvalidAddress));
    assert_eq!(rm.initialize_refund_manager(zero.clone(), s("CT")), Err(Error::InvalidAddress));
    assert_eq!(rm.initialize_refund_manager(s("GA"), zero.clone()), Err(Error::InvalidAddress));
    assert_eq!(rm.get_admin(), None);
    let mut p = fluxapay::PaymentProcessor::new(s("CPP"));
    assert_eq!(p.initialize_payment_processor(zero, 0), Err(Error::InvalidAddress));
    assert_eq!(RefundManager::version(), 1);
}

#[test]
fn renouncing_a_role_drops_it() {
    let mut acc = Accounts::new();
    let (admin, mut client) = setup_refund_manager(&mut acc);
    let account = acc.next();
    client.grant_role(&admin, role_oracle(), account.clone()).unwrap();
    client.renounce_role(&account, &role_oracle()).unwrap();
    assert!(!client.has_role(&role_oracle(), &account));
    assert_eq!(client.grant_role(&account, role_oracle(), account.clone()), Err(Error::AccessControlError));
}
