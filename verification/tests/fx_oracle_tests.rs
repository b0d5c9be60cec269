use fluxapay::{Effect, Event, FXOracle, FXOracleError};

fn setup_oracle() -> (String, FXOracle) {
    let mut client = FXOracle::new();
    let admin = "GADMIN".to_string();
    client.oracle_initialize(admin.clone(), 86400);
    (admin, client)
}

fn oracle_account(admin: &String, client: &mut FXOracle) -> String {
    let oracle = "GORACLE".to_string();
    client.oracle_grant_role(admin, "ORACLE".to_string(), oracle.clone()).unwrap();
    oracle
}

#[test]
fn test_set_and_get_rate() {
    let (admin, mut client) = setup_oracle();
    let oracle = oracle_account(&admin, &mut client);
    let now = 0u64;

    let pair = "USDC_NGN".to_string();
    let rate = 1500_0000000i128;
    let decimals = 7;
    client.set_rate(&oracle, pair.clone(), rate, decimals, now).unwrap();

    let rate_data = client.get_rate(&pair, now).unwrap();
    assert_eq!(rate_data.rate, rate);
    assert_eq!(rate_data.decimals, decimals);
    assert_eq!(rate_data.pair, pair);
    assert_eq!(rate_data.updated_at, now);
}

#[test]
fn test_unauthorized_set_rate() {
    let (_admin, mut client) = setup_oracle();
    let result = client.set_rate(&"GSTRANGER".to_string(), "USDC_NGN".to_string(), 1000, 2, 0);
    assert_eq!(result, Err(FXOracleError::Unauthorized));
}

#[test]
fn test_staleness_check() {
    let (admin, mut client) = setup_oracle();
    let oracle = oracle_account(&admin, &mut client);
    let pair = "USDC_NGN".to_string();
    client.set_rate(&oracle, pair.clone(), 1500, 0, 0).unwrap();

    let result = client.get_rate(&pair, 25 * 3600);
    assert_eq!(result, Err(FXOracleError::RateStale));
}

#[test]
fn test_settlement_amount_calculation() {
    let (admin, mut client) = setup_oracle();
    let oracle = oracle_account(&admin, &mut client);
    let pair = "NGN".to_string();
    client.set_rate(&oracle, pair.clone(), 150050, 2, 0).unwrap();

    let usdc_amount = 100i128;
    let expected_fiat = 150050i128;
    assert_eq!(client.get_settlement_amount(usdc_amount, &pair, 0).unwrap(), expected_fiat);
}

#[test]
fn test_update_staleness_threshold() {
    let (admin, mut client) = setup_oracle();
    client.set_staleness_threshold(&admin, 3600).unwrap();
    assert_eq!(client.get_staleness_threshold(), 3600);
}

#[test]
fn rate_at_the_threshold_is_still_fresh() {
    let (admin, mut client) = setup_oracle();
    let oracle = oracle_account(&admin, &mut client);
    let pair = "USDC_EUR".to_string();
    client.set_rate(&oracle, pair.clone(), 92, 2, 100).unwrap();
    assert!(client.get_rate(&pair, 100 + 86400).is_ok());
    assert_eq!(client.get_rate(&pair, 100 + 86401), Err(FXOracleError::RateStale));
}

#[test]
fn unknown_pair_is_not_found() {
    let (_admin, client) = setup_oracle();
    assert_eq!(client.get_rate(&"XYZ".to_string(), 0), Err(FXOracleError::RateNotFound));
    assert_eq!(client.get_settlement_amount(5, &"XYZ".to_string(), 0), Err(FXOracleError::RateNotFound));
}

#[test]
fn settlement_amount_truncates_toward_zero() {
    let (admin, mut client) = setup_oracle();
    let oracle = oracle_account(&admin, &mut client);
    let pair = "KES".to_string();
    client.set_rate(&oracle, pair.clone(), 12_345, 3, 0).unwrap();
    // 7 * 12345 / 1000 = 86.415
    assert_eq!(client.get_settlement_amount(7, &pair, 0).unwrap(), 86);
    assert_eq!(client.get_settlement_amount(-7, &pair, 0).unwrap(), -86);
}

#[test]
fn non_admin_cannot_change_threshold() {
    let (_admin, mut client) = setup_oracle();
    assert_eq!(client.set_staleness_threshold(&"GSTRANGER".to_string(), 10), Err(FXOracleError::Unauthorized));
    assert_eq!(client.get_staleness_threshold(), 86400);
}

#[test]
fn setting_a_rate_announces_it() {
    let (admin, mut client) = setup_oracle();
    let oracle = oracle_account(&admin, &mut client);
    client.set_rate(&oracle, "USDC_GHS".to_string(), 15, 0, 0).unwrap();
    let effects = client.take_effects();
    assert_eq!(effects, vec![Effect::Emit(Event::RateUpdated { pair: "USDC_GHS".to_string() })]);
    assert!(client.take_effects().is_empty());
}

#[test]
fn roles_and_admin_of_the_oracle() {
    let (admin, mut client) = setup_oracle();
    assert_eq!(client.get_fx_admin(), Some(admin.clone()));
    assert!(!client.oracle_has_role(&"ORACLE".to_string(), &"GORACLE".to_string()));
    assert_eq!(
        client.oracle_grant_role(&"GSTRANGER".to_string(), "ORACLE".to_string(), "GORACLE".to_string()),
        Err(FXOracleError::Unauthorized)
    );
    oracle_account(&admin, &mut client);
    assert!(client.oracle_has_role(&"ORACLE".to_string(), &"GORACLE".to_string()));
    assert_eq!(FXOracle::version(), 1);
    assert_eq!(FXOracleError::RateStale.code(), 2);
}
