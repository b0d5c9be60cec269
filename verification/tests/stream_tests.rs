use fluxapay::{Effect, PaymentStreaming, StreamError, StreamStatus};

fn setup() -> (PaymentStreaming, String, String, String) {
    let client = PaymentStreaming::new("CSTREAMS".to_string());
    (client, "GSENDER".to_string(), "GRECEIVER".to_string(), "CTOKEN".to_string())
}

fn received(effects: &[Effect], token: &str, account: &str) -> i128 {
    effects
        .iter()
        .map(|e| match e {
            Effect::Transfer(t) if t.token == token && t.to == account => t.amount,
            Effect::Transfer(t) if t.token == token && t.from == account => -t.amount,
            _ => 0,
        })
        .sum()
}

fn id(s: &str) -> String {
    s.to_string()
}

#[test]
fn test_create_stream_success() {
    let (mut client, sender, receiver, token) = setup();
    let stream_id = id("stream_01");
    let rate = 10i128;
    let deposit = 1_000i128;

    let stream = client.create_stream(sender.clone(), receiver.clone(), token, rate, deposit, stream_id.clone(), 0).unwrap();

    assert_eq!(stream.stream_id, stream_id);
    assert_eq!(stream.sender, sender);
    assert_eq!(stream.receiver, receiver);
    assert_eq!(stream.rate_per_second, rate);
    assert_eq!(stream.remaining_deposit, deposit);
    assert_eq!(stream.accrued_at_checkpoint, 0);
    assert_eq!(stream.status, StreamStatus::Active);
}

#[test]
fn test_create_stream_invalid_rate() {
    let (mut client, sender, receiver, token) = setup();
    let err = client.create_stream(sender, receiver, token, 0, 500, id("stream_rate_err"), 0);
    assert_eq!(err, Err(StreamError::InvalidRate));
}

#[test]
fn test_create_stream_invalid_deposit() {
    let (mut client, sender, receiver, token) = setup();
    let err = client.create_stream(sender, receiver, token, 5, 0, id("stream_dep_err"), 0);
    assert_eq!(err, Err(StreamError::InvalidDeposit));
}

#[test]
fn test_create_stream_duplicate_id() {
    let (mut client, sender, receiver, token) = setup();
    client.create_stream(sender.clone(), receiver.clone(), token.clone(), 10, 500, id("stream_dup"), 0).unwrap();
    let err = client.create_stream(sender, receiver, token, 10, 500, id("stream_dup"), 0);
    assert_eq!(err, Err(StreamError::StreamAlreadyExists));
}

#[test]
fn test_decrease_rate_checkpoints_and_refunds_surplus() {
    let (mut client, sender, receiver, token) = setup();
    let stream_id = id("stream_dec");
    let deposit = 1_000i128;
    client.create_stream(sender.clone(), receiver, token, 10, deposit, stream_id.clone(), 0).unwrap();

    client.decrease_rate_per_second(&sender, &stream_id, 5, 50).unwrap();

    let stream = client.get_stream(&stream_id).unwrap();
    assert_eq!(stream.accrued_at_checkpoint, 500);
    assert_eq!(stream.rate_per_second, 5);
    assert_eq!(stream.remaining_deposit, deposit - 250);
}

#[test]
fn test_get_accrued_amount_reflects_elapsed_time() {
    let (mut client, sender, receiver, token) = setup();
    let stream_id = id("stream_accrued");
    client.create_stream(sender, receiver, token, 10, 500, stream_id.clone(), 0).unwrap();
    assert_eq!(client.get_accrued_amount(&stream_id, 30).unwrap(), 300);
}

#[test]
fn test_decrease_rate_rejects_equal_rate() {
    let (mut client, sender, receiver, token) = setup();
    let stream_id = id("stream_eq");
    client.create_stream(sender.clone(), receiver, token, 10, 500, stream_id.clone(), 0).unwrap();
    assert_eq!(client.decrease_rate_per_second(&sender, &stream_id, 10, 0), Err(StreamError::RateNotDecreased));
}

#[test]
fn test_decrease_rate_rejects_higher_rate() {
    let (mut client, sender, receiver, token) = setup();
    let stream_id = id("stream_hi");
    client.create_stream(sender.clone(), receiver, token, 10, 500, stream_id.clone(), 0).unwrap();
    assert_eq!(client.decrease_rate_per_second(&sender, &stream_id, 20, 0), Err(StreamError::RateNotDecreased));
}

#[test]
fn test_decrease_rate_unauthorized_caller() {
    let (mut client, sender, receiver, token) = setup();
    let stream_id = id("stream_auth");
    client.create_stream(sender, receiver, token, 10, 500, stream_id.clone(), 0).unwrap();
    let impostor = id("GIMPOSTOR");
    assert_eq!(client.decrease_rate_per_second(&impostor, &stream_id, 5, 0), Err(StreamError::Unauthorized));
}

#[test]
fn test_decrease_rate_stream_not_found() {
    let (mut client, sender, _receiver, _token) = setup();
    assert_eq!(
        client.decrease_rate_per_second(&sender, &id("no_such_stream"), 5, 0),
        Err(StreamError::StreamNotFound)
    );
}

#[test]
fn test_multiple_sequential_rate_decreases() {
    let (mut client, sender, receiver, token) = setup();
    let stream_id = id("stream_multi");
    client.create_stream(sender.clone(), receiver, token, 100, 10_000, stream_id.clone(), 0).unwrap();

    client.decrease_rate_per_second(&sender, &stream_id, 50, 20).unwrap();
    let s = client.get_stream(&stream_id).unwrap();
    assert_eq!(s.accrued_at_checkpoint, 2_000);
    assert_eq!(s.rate_per_second, 50);
    assert_eq!(s.remaining_deposit, 6_000);

    client.decrease_rate_per_second(&sender, &stream_id, 10, 30).unwrap();
    let s2 = client.get_stream(&stream_id).unwrap();
    assert_eq!(s2.accrued_at_checkpoint, 2_500);
    assert_eq!(s2.rate_per_second, 10);
    assert_eq!(s2.remaining_deposit, 3_200);
}

#[test]
fn test_set_stream_destination_and_trigger_withdrawal() {
    let (mut client, sender, receiver, token) = setup();
    let stream_id = id("stream_dest");
    let destination = id("GDESTINATION");
    client.create_stream(sender, receiver.clone(), token.clone(), 10, 500, stream_id.clone(), 0).unwrap();
    client.set_stream_destination(&receiver, &stream_id, destination.clone()).unwrap();

    let processed = client.trigger_withdrawal(&stream_id, 10, false).unwrap();
    assert_eq!(processed, stream_id);
    assert_eq!(received(&client.effects, &token, &destination), 100);

    let stream = client.get_stream(&stream_id).unwrap();
    assert_eq!(stream.accrued_at_checkpoint, 0);
    assert_eq!(stream.remaining_deposit, 400);
}

#[test]
fn test_withdraw_all_for_recipient_limits_execution() {
    let (mut client, sender, receiver, token) = setup();
    client.create_stream(sender.clone(), receiver.clone(), token.clone(), 10, 500, id("stream_all_1"), 0).unwrap();
    client.create_stream(sender.clone(), receiver.clone(), token.clone(), 20, 500, id("stream_all_2"), 0).unwrap();
    client.create_stream(sender.clone(), receiver.clone(), token.clone(), 30, 500, id("stream_all_3"), 0).unwrap();

    let processed = client.withdraw_all_for_recipient(&receiver, 2, 10, false).unwrap();
    assert_eq!(processed.len(), 2);
    assert_eq!(received(&client.effects, &token, &receiver), 100 + 200);

    let next = client.withdraw_all_for_recipient(&receiver, 2, 10, false).unwrap();
    assert_eq!(next.len(), 1);
    assert_eq!(received(&client.effects, &token, &receiver), 100 + 200 + 300);
}

#[test]
fn test_get_sender_streams_pagination() {
    let (mut client, sender, receiver, token) = setup();
    for i in 0..5 {
        let stream_id = format!("sender_page_{}", i);
        client.create_stream(sender.clone(), receiver.clone(), token.clone(), 10, 500, stream_id, 0).unwrap();
    }
    assert_eq!(client.get_sender_streams(&sender, 0, 2).len(), 2);
    assert_eq!(client.get_sender_streams(&sender, 1, 2).len(), 2);
    assert_eq!(client.get_sender_streams(&sender, 2, 2).len(), 1);
}

#[test]
fn cancel_pays_accrued_and_returns_the_rest() {
    let (mut client, sender, receiver, token) = setup();
    let stream_id = id("c1");
    client.create_stream(sender.clone(), receiver.clone(), token.clone(), 10, 1_000, stream_id.clone(), 0).unwrap();
    assert_eq!(client.cancel_stream(&receiver, &stream_id, 30), Err(StreamError::Unauthorized));
    client.cancel_stream(&sender, &stream_id, 30).unwrap();
    assert_eq!(received(&client.effects, &token, &receiver), 300);
    // the sender paid 1000 in and got 700 back
    assert_eq!(received(&client.effects, &token, &sender), -300);
    assert_eq!(client.get_stream(&stream_id).unwrap().status, StreamStatus::Cancelled);
    assert_eq!(client.cancel_stream(&sender, &stream_id, 31), Err(StreamError::StreamNotActive));
}

#[test]
fn accrual_is_capped_by_the_deposit() {
    let (mut client, sender, receiver, token) = setup();
    client.create_stream(sender, receiver, token, 7, 100, id("cap"), 0).unwrap();
    assert_eq!(client.get_accrued_amount(&id("cap"), 10), Ok(70));
    assert_eq!(client.get_accrued_amount(&id("cap"), 1_000_000), Ok(100));
    assert_eq!(client.get_accrued_amount(&id("missing"), 1), Err(StreamError::StreamNotFound));
}

#[test]
fn withdrawal_needs_a_destination_and_empties_the_stream() {
    let (mut client, sender, receiver, token) = setup();
    let sid = id("w1");
    client.create_stream(sender, receiver.clone(), token.clone(), 10, 100, sid.clone(), 0).unwrap();
    assert_eq!(client.trigger_withdrawal(&sid, 5, false), Err(StreamError::DestinationNotSet));
    assert_eq!(client.set_stream_destination(&id("GOTHER"), &sid, id("GDEST")), Err(StreamError::Unauthorized));
    client.set_stream_destination(&receiver, &sid, id("GDEST")).unwrap();
    assert_eq!(client.trigger_withdrawal(&sid, 5, true), Err(StreamError::ContractPaused));
    client.trigger_withdrawal(&sid, 50, false).unwrap();
    let s = client.get_stream(&sid).unwrap();
    assert_eq!(s.remaining_deposit, 0);
    assert_eq!(s.status, StreamStatus::Exhausted);
    assert_eq!(received(&client.effects, &token, "GDEST"), 100);
    client.close_expired_stream(&sid).unwrap();
    assert_eq!(client.get_stream(&sid), Err(StreamError::StreamNotFound));
}

#[test]
fn top_ups_are_all_or_nothing() {
    let (mut client, sender, receiver, token) = setup();
    client.create_stream(sender.clone(), receiver.clone(), token.clone(), 1, 10, id("t1"), 0).unwrap();
    client.create_stream(sender.clone(), receiver.clone(), token.clone(), 1, 10, id("t2"), 0).unwrap();
    let bad = vec![(id("t1"), 5i128), (id("t9"), 5i128)];
    assert_eq!(client.top_up_multiple_streams(&sender, &bad), Err(StreamError::StreamNotFound));
    assert_eq!(client.get_stream(&id("t1")).unwrap().remaining_deposit, 10);
    let good = vec![(id("t1"), 5i128), (id("t2"), 7i128)];
    client.top_up_multiple_streams(&sender, &good).unwrap();
    assert_eq!(client.get_stream(&id("t1")).unwrap().remaining_deposit, 15);
    assert_eq!(client.get_stream(&id("t2")).unwrap().remaining_deposit, 17);
}

#[test]
fn rate_updates_checkpoint_first() {
    let (mut client, sender, receiver, token) = setup();
    let sid = id("r1");
    client.create_stream(sender.clone(), receiver, token, 10, 1_000, sid.clone(), 0).unwrap();
    assert_eq!(client.update_stream_rate(&sender, &sid, 20, 10, true), Err(StreamError::ContractPaused));
    client.update_stream_rate(&sender, &sid, 20, 10, false).unwrap();
    let s = client.get_stream(&sid).unwrap();
    assert_eq!(s.accrued_at_checkpoint, 100);
    assert_eq!(s.rate_per_second, 20);
    assert_eq!(s.remaining_deposit, 1_000);
    assert_eq!(client.get_accrued_amount(&sid, 15), Ok(200));
    assert_eq!(client.update_stream_rate(&sender, &sid, 0, 15, false), Err(StreamError::InvalidRate));
}

#[test]
fn batch_cancel_passes_over_what_it_cannot_cancel() {
    let (mut client, sender, receiver, token) = setup();
    client.create_stream(sender.clone(), receiver.clone(), token.clone(), 1, 10, id("b1"), 0).unwrap();
    client.create_stream(id("GSOMEONE"), receiver.clone(), token.clone(), 1, 10, id("b2"), 0).unwrap();
    let ids = vec![id("b1"), id("b2"), id("nope")];
    assert_eq!(client.batch_cancel_streams(&sender, &ids, 1), Ok(vec![id("b1")]));
    assert_eq!(client.get_stream(&id("b2")).unwrap().status, StreamStatus::Active);
    // the all-or-nothing form refuses the whole list
    let (mut c2, sender2, receiver2, token2) = setup();
    c2.create_stream(sender2.clone(), receiver2.clone(), token2.clone(), 1, 10, id("m1"), 0).unwrap();
    assert_eq!(c2.cancel_multiple_streams(&sender2, &vec![id("m1"), id("m2")], 1), Err(StreamError::StreamNotFound));
    assert_eq!(c2.get_stream(&id("m1")).unwrap().status, StreamStatus::Active);
}

#[test]
fn error_codes() {
    assert_eq!(StreamError::StreamNotFound.code(), 1);
    assert_eq!(PaymentStreaming::version(), 1);
}

#[test]
fn only_the_sender_approves_milestones() {
    let (mut client, sender, receiver, token) = setup();
    client.create_stream(sender.clone(), receiver.clone(), token, 1, 10, id("ms"), 0).unwrap();
    assert_eq!(client.approve_stream_milestone(&receiver, &id("ms")), Err(StreamError::Unauthorized));
    assert_eq!(client.approve_stream_milestone(&sender, &id("none")), Err(StreamError::StreamNotFound));
    client.approve_stream_milestone(&sender, &id("ms")).unwrap();
    assert!(client.get_stream(&id("ms")).unwrap().milestones_approved);
    assert!(!client.take_effects().is_empty());
    assert!(client.effects.is_empty());
}
