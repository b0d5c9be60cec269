use fluxapay::{Effect, Error, Event, PaymentLinkManager, TokenTransfer, TransferMode};

fn setup_payment_link() -> (String, PaymentLinkManager) {
    ("GMERCHANT".to_string(), PaymentLinkManager::new())
}

/// Fails the way the contract host reports a contract error.
fn host<T>(r: Result<T, Error>) -> T {
    match r {
        Ok(v) => v,
        Err(e) => panic!("Error(Contract, #{})", e.code()),
    }
}

fn create(client: &mut PaymentLinkManager, merchant: &String, link_id: &str, amount: Option<i128>, description: &str,
    expires_at: Option<u64>, max_uses: Option<u32>, direct: bool) -> String {
    client.create_link(
        merchant.clone(),
        link_id.to_string(),
        amount,
        "USDC".to_string(),
        description.to_string(),
        expires_at,
        max_uses,
        direct,
        None,
    )
}

#[test]
fn test_create_link() {
    let (merchant, mut client) = setup_payment_link();
    let link_id = "link_123".to_string();
    let amount = Some(1000i128);

    let id = create(&mut client, &merchant, "link_123", amount, "Test Link", None, None, false);

    assert_eq!(id, link_id);
    let link = client.get_link(&link_id).unwrap();
    assert_eq!(link.merchant_id, merchant);
    assert_eq!(link.amount, amount);
    assert!(link.active);
    assert!(!link.direct_transfer);
}

#[test]
fn test_use_link_fixed_amount() {
    let (merchant, mut client) = setup_payment_link();
    let payer = "GPAYER".to_string();
    let link_id = "fixed_link".to_string();
    let amount = 1000i128;
    create(&mut client, &merchant, "fixed_link", Some(amount), "Fixed", None, None, false);

    let payment_id = client.use_link(payer, &link_id, amount, None, 0).unwrap();
    assert!(!payment_id.is_empty());

    let link = client.get_link(&link_id).unwrap();
    assert_eq!(link.use_count, 1);
}

#[test]
#[should_panic(expected = "Error(Contract, #406)")]
fn test_use_link_wrong_amount() {
    let (merchant, mut client) = setup_payment_link();
    create(&mut client, &merchant, "fixed_link_wrong", Some(1000), "Fixed", None, None, false);
    host(client.use_link("GPAYER".to_string(), &"fixed_link_wrong".to_string(), 500, None, 0));
}

#[test]
fn test_use_link_open_amount() {
    let (merchant, mut client) = setup_payment_link();
    create(&mut client, &merchant, "open_link", None, "Open", None, None, false);
    client.use_link("GPAYER".to_string(), &"open_link".to_string(), 1500, None, 0).unwrap();
    assert_eq!(client.get_link(&"open_link".to_string()).unwrap().use_count, 1);
}

#[test]
fn test_deactivate_link() {
    let (merchant, mut client) = setup_payment_link();
    create(&mut client, &merchant, "deactivate_me", None, "Bye", None, None, false);
    client.deactivate_link(&merchant, &"deactivate_me".to_string()).unwrap();
    assert!(!client.get_link(&"deactivate_me".to_string()).unwrap().active);
}

#[test]
#[should_panic(expected = "Error(Contract, #3)")]
fn test_link_expired() {
    let (merchant, mut client) = setup_payment_link();
    let expiry = 1000u64;
    create(&mut client, &merchant, "expired_link", None, "Old", Some(expiry), None, false);
    host(client.use_link("GPAYER".to_string(), &"expired_link".to_string(), 100, None, expiry + 1));
}

#[test]
#[should_panic(expected = "Error(Contract, #14)")]
fn test_max_uses() {
    let (merchant, mut client) = setup_payment_link();
    create(&mut client, &merchant, "limited_link", None, "Limit", None, Some(1), false);
    let link_id = "limited_link".to_string();
    host(client.use_link("GPAYER".to_string(), &link_id, 100, None, 0));
    host(client.use_link("GPAYER".to_string(), &link_id, 100, None, 0));
}

#[test]
fn test_direct_transfer_link_transfers_to_merchant() {
    let usdc_token = "CUSDC".to_string();
    let (merchant, mut client) = setup_payment_link();
    let payer = "GPAYER".to_string();
    let link_id = "direct_link".to_string();
    let amount = 1000i128;
    create(&mut client, &merchant, "direct_link", Some(amount), "Direct", None, None, true);
    assert!(client.get_link(&link_id).unwrap().direct_transfer);
    client.take_effects();

    client.use_link(payer.clone(), &link_id, amount, Some(usdc_token.clone()), 0).unwrap();

    let received: i128 = client
        .take_effects()
        .iter()
        .map(|e| match e {
            Effect::Transfer(t) if t.token == usdc_token && t.to == merchant => t.amount,
            _ => 0,
        })
        .sum();
    assert_eq!(received, amount);
}

#[test]
#[should_panic(expected = "Error(Contract, #1)")]
fn test_direct_transfer_without_token_address_fails() {
    let (merchant, mut client) = setup_payment_link();
    create(&mut client, &merchant, "direct_no_token", Some(500), "Direct no token", None, None, true);
    host(client.use_link("GPAYER".to_string(), &"direct_no_token".to_string(), 500, None, 0));
}

#[test]
fn link_payment_id_is_built_from_the_time() {
    let (merchant, mut client) = setup_payment_link();
    create(&mut client, &merchant, "timed", None, "Timed", None, None, false);
    let id = client.use_link("GPAYER".to_string(), &"timed".to_string(), 25, None, 1234).unwrap();
    assert_eq!(id, "lnk_pay_1234".to_string());
}

#[test]
fn unknown_or_inactive_links_refuse_payment() {
    let (merchant, mut client) = setup_payment_link();
    assert_eq!(client.use_link("GPAYER".to_string(), &"nope".to_string(), 5, None, 0), Err(Error::PaymentNotFound));
    create(&mut client, &merchant, "gone", None, "Gone", None, None, false);
    assert_eq!(client.deactivate_link(&"GOTHER".to_string(), &"gone".to_string()), Err(Error::Unauthorized));
    client.deactivate_link(&merchant, &"gone".to_string()).unwrap();
    assert_eq!(client.use_link("GPAYER".to_string(), &"gone".to_string(), 5, None, 0), Err(Error::Unauthorized));
}

#[test]
fn open_link_refuses_non_positive_amount() {
    let (merchant, mut client) = setup_payment_link();
    create(&mut client, &merchant, "open", None, "Open", None, None, false);
    assert_eq!(client.use_link("GPAYER".to_string(), &"open".to_string(), 0, None, 0), Err(Error::InvalidAmount));
    assert_eq!(client.get_link(&"open".to_string()).unwrap().use_count, 0);
}

#[test]
fn direct_use_emits_transfer_then_usage() {
    let (merchant, mut client) = setup_payment_link();
    create(&mut client, &merchant, "d", Some(70), "D", None, None, true);
    client.take_effects();
    client.use_link("GPAYER".to_string(), &"d".to_string(), 70, Some("CTOK".to_string()), 9).unwrap();
    assert_eq!(
        client.take_effects(),
        vec![
            Effect::Transfer(TokenTransfer {
                token: "CTOK".to_string(),
                from: "GPAYER".to_string(),
                to: merchant.clone(),
                amount: 70,
                mode: TransferMode::Required,
            }),
            Effect::Emit(Event::LinkUsed {
                link_id: "d".to_string(),
                payer: "GPAYER".to_string(),
                amount: 70,
                payment_id: "lnk_pay_9".to_string(),
            }),
        ]
    );
}
