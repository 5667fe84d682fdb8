use billing_pipeline::consumer::{
    Consumer, ConsumerAction, ConsumerEvent, HandlerOutcome, Phase,
};
use billing_pipeline::driver::{
    backoff, PublishError, Retry, RetryDecision, RetryPolicy, SendResult,
};
use billing_pipeline::producer::{prepare_publish, send_outcome, AckLevel, ProducerConfig};
use billing_pipeline::event::BillingEvent;

fn event(id: &str, other: &str, freight: &str, total: &str) -> BillingEvent {
    BillingEvent {
        id: id.to_string(),
        order_type: "standard".to_string(),
        revenue_code: "R1".to_string(),
        customer: "ACME".to_string(),
        invoice_number: "I1".to_string(),
        pieces: 1,
        weight: 10,
        bill_type: "freight".to_string(),
        ready_to_bill: true,
        bill_date: "2024-05-01".to_string(),
        mileage: "1".to_string(),
        worker: "w".to_string(),
        commodity: "c".to_string(),
        commodity_descr: "d".to_string(),
        consignee_ref_number: "r".to_string(),
        other_charge_amount: other.to_string(),
        freight_charge_amount: freight.to_string(),
        total_amount: total.to_string(),
        is_summary: false,
        is_cancelled: false,
        bol_number: "b".to_string(),
        user: "u".to_string(),
    }
}

fn encoded(id: &str) -> Vec<u8> {
    event(id, "10.00", "20.00", "30.00").encode().unwrap()
}

#[test]
fn decode_failure_is_isolated_and_offset_committed_once() {
    // A batch of three records whose middle record does not decode:
    // exactly two dispatches, one commit, one skip.
    let batch = vec![encoded("E1"), b"garbage".to_vec(), encoded("E3")];
    let mut c = Consumer::new();
    let mut dispatched: Vec<BillingEvent> = Vec::new();
    let mut action = c.step(ConsumerEvent::Polled(batch));
    loop {
        match action {
            ConsumerAction::Dispatch(e) => {
                dispatched.push(e);
                action = c.step(ConsumerEvent::Handled(HandlerOutcome::Success));
            }
            ConsumerAction::Commit => {
                action = c.step(ConsumerEvent::Committed);
            }
            ConsumerAction::Poll => break,
            _ => panic!("unexpected action"),
        }
    }
    assert_eq!(dispatched.len(), 2);
    assert_eq!(dispatched[0].id, "E1");
    assert_eq!(dispatched[1].id, "E3");
    assert_eq!(c.commits, 1);
    assert_eq!(c.skipped, 1);
    assert_eq!(c.dispatched, 2);
    assert_eq!(c.phase, Phase::Polling);
}

#[test]
fn all_records_undecodable_still_commits_to_move_on() {
    let batch = vec![b"junk".to_vec(), b"more junk".to_vec()];
    let mut c = Consumer::new();
    let action = c.step(ConsumerEvent::Polled(batch));
    assert!(matches!(action, ConsumerAction::Commit));
    let action = c.step(ConsumerEvent::Committed);
    assert!(matches!(action, ConsumerAction::Poll));
    assert_eq!(c.skipped, 2);
    assert_eq!(c.commits, 1);
    assert_eq!(c.dispatched, 0);
}

#[test]
fn fatal_handler_failure_terminates_without_commit() {
    // Record 2 of 4 is fatal: the loop closes, nothing is committed, and a
    // restarted consumer sees the whole batch again.
    let batch = vec![encoded("E1"), encoded("E2"), encoded("E3"), encoded("E4")];
    let mut c = Consumer::new();
    let a1 = c.step(ConsumerEvent::Polled(batch.clone()));
    assert!(matches!(a1, ConsumerAction::Dispatch(_)));
    let a2 = c.step(ConsumerEvent::Handled(HandlerOutcome::Success));
    assert!(matches!(a2, ConsumerAction::Dispatch(_)));
    let a3 = c.step(ConsumerEvent::Handled(HandlerOutcome::Fatal));
    assert!(matches!(a3, ConsumerAction::Close));
    assert_eq!(c.phase, Phase::Closed);
    assert_eq!(c.commits, 0);

    // Restart with the offset unchanged: the broker redelivers the batch
    // and every record is dispatched again, E2 first among the retried.
    let mut c2 = Consumer::new();
    let mut redelivered: Vec<String> = Vec::new();
    let mut action = c2.step(ConsumerEvent::Polled(batch));
    loop {
        match action {
            ConsumerAction::Dispatch(e) => {
                redelivered.push(e.id.clone());
                action = c2.step(ConsumerEvent::Handled(HandlerOutcome::Success));
            }
            ConsumerAction::Commit => {
                action = c2.step(ConsumerEvent::Committed);
            }
            _ => break,
        }
    }
    assert_eq!(redelivered, vec!["E1", "E2", "E3", "E4"]);
    assert_eq!(c2.commits, 1);
}

#[test]
fn retryable_outcome_abandons_batch_uncommitted() {
    let batch = vec![encoded("E1"), encoded("E2")];
    let mut c = Consumer::new();
    let _ = c.step(ConsumerEvent::Polled(batch));
    let a = c.step(ConsumerEvent::Handled(HandlerOutcome::Retryable));
    assert!(matches!(a, ConsumerAction::Poll));
    assert_eq!(c.commits, 0);
    assert_eq!(c.phase, Phase::Polling);
}

#[test]
fn shutdown_lets_inflight_batch_finish() {
    let batch = vec![encoded("E1")];
    let mut c = Consumer::new();
    let a = c.step(ConsumerEvent::Polled(batch));
    assert!(matches!(a, ConsumerAction::Dispatch(_)));
    let a = c.step(ConsumerEvent::Shutdown);
    assert!(matches!(a, ConsumerAction::Wait));
    let a = c.step(ConsumerEvent::Handled(HandlerOutcome::Success));
    assert!(matches!(a, ConsumerAction::Commit));
    let a = c.step(ConsumerEvent::Committed);
    assert!(matches!(a, ConsumerAction::Close));
    assert_eq!(c.commits, 1);
    assert_eq!(c.phase, Phase::Closed);
}

#[test]
fn send_timeout_is_publish_timeout() {
    assert_eq!(send_outcome(SendResult::Acked), Ok(()));
    assert_eq!(send_outcome(SendResult::TimedOut), Err(PublishError::Timeout));
}

#[test]
fn publish_timeouts_exhaust_after_configured_maximum() {
    // Three attempts allowed; three timeouts; the third decision surfaces
    // exhaustion, with backoff doubling in between.
    let policy = RetryPolicy { max_attempts: 3, base_delay_ms: 100 };
    let mut r = Retry::new(policy);
    let d1 = r.on_result(SendResult::TimedOut);
    assert_eq!(d1, RetryDecision::RetryAfter(100));
    let d2 = r.on_result(SendResult::TimedOut);
    assert_eq!(d2, RetryDecision::RetryAfter(200));
    let d3 = r.on_result(SendResult::TimedOut);
    assert_eq!(d3, RetryDecision::Exhausted);
    // The event is surfaced as an error, never silently dropped.
    let surfaced: Result<(), PublishError> = match d3 {
        RetryDecision::Exhausted => Err(PublishError::Exhausted),
        _ => Ok(()),
    };
    assert_eq!(surfaced, Err(PublishError::Exhausted));
}

#[test]
fn acknowledged_send_is_done_and_backoff_saturates() {
    let policy = RetryPolicy { max_attempts: 5, base_delay_ms: 50 };
    let mut r = Retry::new(policy);
    let d = r.on_result(SendResult::Acked);
    assert_eq!(d, RetryDecision::Done);
    assert_eq!(backoff(100, 0), 100);
    assert_eq!(backoff(100, 3), 800);
    assert_eq!(backoff(u64::MAX / 2 + 1, 1), u64::MAX);
    assert_eq!(backoff(1, 63), 1u64 << 63);
    assert_eq!(backoff(1, 64), u64::MAX);
}

#[test]
fn end_to_end_publish_then_consume() {
    // P6: the published event comes back as exactly one decoded event equal
    // to the original, and the amount invariant holds on it.
    let original = event("E1", "10.00", "20.00", "30.00");
    let config = ProducerConfig::new();
    assert_eq!(config.acks, AckLevel::LeaderOnly);
    assert_eq!(config.topic, "billing");
    let bytes = prepare_publish(&original).expect("publishable");

    // The broker log, read from the earliest offset.
    let log = vec![bytes];
    let mut c = Consumer::new();
    let mut received: Vec<BillingEvent> = Vec::new();
    let mut action = c.step(ConsumerEvent::Polled(log));
    loop {
        match action {
            ConsumerAction::Dispatch(e) => {
                received.push(e);
                action = c.step(ConsumerEvent::Handled(HandlerOutcome::Success));
            }
            ConsumerAction::Commit => {
                action = c.step(ConsumerEvent::Committed);
            }
            _ => break,
        }
    }
    assert_eq!(received.len(), 1);
    assert!(received[0] == original);
    assert!(received[0].validate());
    assert_eq!(c.commits, 1);
}
