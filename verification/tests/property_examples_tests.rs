use fluxapay::access_control::{role_merchant, role_oracle};
use fluxapay::{format_id, CreatePaymentArgs, Error, PaymentProcessor, PaymentStatus, PAYMENT_TOLERANCE};

const SAMPLES: [u64; 8] = [0, 1, 9, 10, 99, 12_345, 4_294_967_296, u64::MAX - 1];

#[test]
fn format_id_starts_with_prefix() {
    for n in SAMPLES {
        assert!(format_id("refund_", n).starts_with("refund_"));
    }
}

#[test]
fn format_id_uniqueness() {
    for a in SAMPLES {
        for b in SAMPLES {
            if a != b {
                assert_ne!(format_id("id_", a), format_id("id_", b));
            }
        }
    }
}

#[test]
fn format_id_round_trip() {
    for n in SAMPLES {
        let id = format_id("dispute_", n);
        let parsed: u64 = id["dispute_".len()..].parse().unwrap();
        assert_eq!(parsed, n);
    }
}

fn processor_with_roles() -> (PaymentProcessor, String, String) {
    let mut p = PaymentProcessor::new("CPROCESSOR".to_string());
    let admin = "GADMIN".to_string();
    p.initialize_payment_processor(admin.clone(), 0).unwrap();
    let merchant = "GMERCHANT".to_string();
    let oracle = "GORACLE".to_string();
    p.grant_role(&admin, role_merchant(), merchant.clone()).unwrap();
    p.grant_role(&admin, role_oracle(), oracle.clone()).unwrap();
    (p, merchant, oracle)
}

fn args(payment_id: &str, merchant: &String, amount: i128, expires_at: u64) -> CreatePaymentArgs {
    CreatePaymentArgs {
        payment_id: payment_id.to_string(),
        merchant_id: merchant.clone(),
        amount,
        currency: "USDC".to_string(),
        deposit_address: "GDEPOSIT".to_string(),
        expires_at: Some(expires_at),
        duration_secs: None,
        memo: None,
        memo_type: None,
        token_address: None,
        client_token: None,
        metadata_hash: None,
    }
}

#[test]
fn verify_payment_fails_after_expiry() {
    for (expires_in, after_expiry, amount) in [(1u64, 1u64, 1i128), (299, 299, 999_999), (60, 7, 12_345)] {
        let (mut p, merchant, oracle) = processor_with_roles();
        let pid = format_id("exp_prop_", expires_in * 1000 + after_expiry);
        p.create_payment(args(&pid, &merchant, amount, expires_in), 0, None).unwrap();
        let result = p.verify_payment(&oracle, &pid, [1u8; 32], "GPAYER".to_string(), amount, expires_in + after_expiry, 7);
        assert_eq!(result, Err(Error::PaymentExpired));
    }
}

#[test]
fn verify_payment_amount_boundaries() {
    for amount in [5i128, 1_000, 999_999] {
        for delta in [-200i128, -2, -1, 0, 1, 2, 199] {
            if amount + delta <= 0 {
                continue;
            }
            let (mut p, merchant, oracle) = processor_with_roles();
            let pid = format_id("amt_prop_", (amount * 1000 + delta + 500) as u64);
            p.create_payment(args(&pid, &merchant, amount, 3600), 0, None).unwrap();
            let status = p.verify_payment(&oracle, &pid, [2u8; 32], "GPAYER".to_string(), amount + delta, 0, 7).unwrap();
            let expected = if delta > PAYMENT_TOLERANCE {
                PaymentStatus::Overpaid
            } else if delta < -PAYMENT_TOLERANCE {
                PaymentStatus::PartiallyPaid
            } else {
                PaymentStatus::Confirmed
            };
            assert_eq!(status, expected);
        }
    }
}
