use mail_laser::config::{Config, EnvVars};
use mail_laser::webhook::delivery::LAST_TIMED_RETRY;
use mail_laser::webhook::{
    AttemptOutcome, Delivery, DeliveryStep, EmailPayload, ForwardDecision, ForwardEmail,
    WebhookResult, WebhookState,
};

fn config(pairs: &[(&str, &str)]) -> Config {
    let mut vars = vec![
        ("MAIL_LASER_TARGET_EMAILS".to_string(), Ok("target@example.com".to_string())),
        ("MAIL_LASER_WEBHOOK_URL".to_string(), Ok("http://h/webhook".to_string())),
        ("MAIL_LASER_CEDAR_POLICIES".to_string(), Ok("/tmp/policies.cedar".to_string())),
    ];
    for (name, value) in pairs {
        vars.push((name.to_string(), Ok(value.to_string())));
    }
    Config::from_env(&EnvVars { vars }).unwrap()
}

fn email(sender: &str) -> ForwardEmail {
    ForwardEmail {
        payload: EmailPayload {
            sender: sender.to_string(),
            sender_name: None,
            recipient: "target@example.com".to_string(),
            subject: "Subject".to_string(),
            body: "Body".to_string(),
            html_body: None,
            headers: None,
            attachments: None,
            dmarc_result: None,
            authenticated_from: None,
        },
    }
}

fn delivery(state: &mut WebhookState, now_ms: u64) -> Delivery {
    assert!(state.can_forward(now_ms));
    match state.on_forward_email(email("sender@test.com"), now_ms) {
        ForwardDecision::Deliver(delivery) => delivery,
        ForwardDecision::Drop { .. } => panic!("dropped"),
    }
}

/// Runs a delivery and returns how many requests were sent, the waits, and the result.
fn run(mut delivery: Delivery, outcomes: &[AttemptOutcome]) -> (usize, Vec<u64>, WebhookResult) {
    let mut waits = vec![];
    for (i, outcome) in outcomes.iter().enumerate() {
        match delivery.record(*outcome) {
            DeliveryStep::Retry { backoff_ms } => waits.push(backoff_ms),
            DeliveryStep::Finished(result) => return (i + 1, waits, result),
        }
    }
    panic!("still under way");
}

fn result(success: bool) -> WebhookResult {
    WebhookResult { success, sender_info: "sender@test.com".to_string() }
}

#[test]
fn the_rules_come_from_the_settings() {
    let state = WebhookState::create(&config(&[
        ("MAIL_LASER_WEBHOOK_TIMEOUT", "7"),
        ("MAIL_LASER_WEBHOOK_MAX_RETRIES", "2"),
        ("MAIL_LASER_CIRCUIT_BREAKER_THRESHOLD", "4"),
        ("MAIL_LASER_CIRCUIT_BREAKER_RESET", "9"),
    ]));
    assert_eq!(
        state,
        WebhookState {
            webhook_timeout_secs: 7,
            max_retries: 2,
            circuit_threshold: 4,
            circuit_reset_secs: 9,
            ..WebhookState::default()
        }
    );
    let mut state = state;
    let delivery = delivery(&mut state, 1);
    assert_eq!((delivery.timeout_secs, delivery.max_retries, delivery.attempt), (7, 2, 0));
    assert_eq!(delivery.sender_info, "sender@test.com");
    assert_eq!(delivery.payload.subject, "Subject");
}

#[test]
fn two_failures_are_followed_by_a_third_request() {
    let mut state = WebhookState::create(&config(&[]));
    let (sent, waits, result) = run(
        delivery(&mut state, 0),
        &[AttemptOutcome::Failed, AttemptOutcome::TimedOut, AttemptOutcome::Delivered],
    );
    assert_eq!((sent, waits), (3, vec![100, 200]));
    assert!(result.success);
    assert_eq!(result.sender_info, "sender@test.com");
}

#[test]
fn a_delivery_is_given_up_after_all_retries() {
    let mut state = WebhookState::create(&config(&[]));
    let (sent, waits, result) = run(delivery(&mut state, 0), &[AttemptOutcome::Failed; 10]);
    assert_eq!((sent, waits), (4, vec![100, 200, 400]));
    assert!(!result.success);
    assert_eq!(result.sender_info, "sender@test.com");
}

#[test]
fn without_retries_there_is_one_request() {
    let mut state = WebhookState::create(&config(&[("MAIL_LASER_WEBHOOK_MAX_RETRIES", "0")]));
    let (sent, waits, result) = run(delivery(&mut state, 0), &[AttemptOutcome::TimedOut]);
    assert_eq!((sent, waits.len(), result.success), (1, 0, false));
    let (sent, _, result) = run(delivery(&mut state, 0), &[AttemptOutcome::Delivered]);
    assert_eq!((sent, result.success), (1, true));
}

#[test]
fn waits_double() {
    let mut state = WebhookState::create(&config(&[("MAIL_LASER_WEBHOOK_MAX_RETRIES", "4000000000")]));
    let mut delivery = delivery(&mut state, 0);
    for retry in 1..=LAST_TIMED_RETRY {
        assert!(delivery.can_record(AttemptOutcome::Failed));
        match delivery.record(AttemptOutcome::Failed) {
            DeliveryStep::Retry { backoff_ms } => {
                assert_eq!(backoff_ms, 100 * 2u64.pow(retry - 1));
            }
            DeliveryStep::Finished(_) => panic!("over"),
        }
        assert_eq!(delivery.attempt, retry);
    }
    assert_eq!(2u64.pow(LAST_TIMED_RETRY).checked_mul(100), None);
    assert!(!delivery.can_record(AttemptOutcome::Failed));
    assert!(!delivery.can_record(AttemptOutcome::TimedOut));
    assert!(delivery.can_record(AttemptOutcome::Delivered));
    delivery.max_retries = LAST_TIMED_RETRY;
    assert!(delivery.can_record(AttemptOutcome::Failed));
}

#[test]
fn the_circuit_opens_at_the_threshold() {
    let mut state = WebhookState::create(&config(&[
        ("MAIL_LASER_CIRCUIT_BREAKER_THRESHOLD", "3"),
        ("MAIL_LASER_WEBHOOK_MAX_RETRIES", "0"),
    ]));
    for i in 0..3 {
        assert!(!state.circuit_open);
        let (_, _, result) = run(delivery(&mut state, 1000 + i), &[AttemptOutcome::Failed]);
        assert!(state.can_record(result.success));
        state.on_result(&result, 1000 + i);
    }
    assert!(state.circuit_open);
    assert_eq!(state.circuit_opened_at_ms, 1002);
    assert_eq!((state.consecutive_failures, state.total_failed), (3, 3));
    match state.on_forward_email(email("fourth@test.com"), 1003) {
        ForwardDecision::Drop { sender_info } => assert_eq!(sender_info, "fourth@test.com"),
        ForwardDecision::Deliver(_) => panic!("let through"),
    }
    assert_eq!((state.total_forwarded, state.total_failed), (0, 4));
}

#[test]
fn the_circuit_closes_after_the_reset_time() {
    let mut state = WebhookState::create(&config(&[("MAIL_LASER_CIRCUIT_BREAKER_THRESHOLD", "1")]));
    state.on_result(&result(false), 5_000);
    assert!(state.circuit_open);
    assert!(matches!(
        state.on_forward_email(email("a"), 65_000),
        ForwardDecision::Drop { .. }
    ));
    assert!(state.circuit_open);
    assert!(matches!(
        state.on_forward_email(email("a"), 65_001),
        ForwardDecision::Deliver(_)
    ));
    assert!(!state.circuit_open);
    assert_eq!(state.consecutive_failures, 0);
}

#[test]
fn a_success_ends_a_run_of_failures() {
    let mut state = WebhookState::create(&config(&[("MAIL_LASER_CIRCUIT_BREAKER_THRESHOLD", "3")]));
    for success in [false, false, true, false, false] {
        state.on_result(&result(success), 1);
    }
    assert!(!state.circuit_open);
    assert_eq!(state.consecutive_failures, 2);
    assert_eq!((state.total_forwarded, state.total_failed), (1, 4));
    state.on_result(&result(false), 9);
    assert!(state.circuit_open);
}

#[test]
fn a_success_does_not_close_an_open_circuit() {
    let mut state = WebhookState::create(&config(&[("MAIL_LASER_CIRCUIT_BREAKER_THRESHOLD", "1")]));
    state.on_result(&result(false), 1);
    state.on_result(&result(true), 2);
    assert!(state.circuit_open);
    assert_eq!(state.consecutive_failures, 0);
}

#[test]
fn a_threshold_of_zero_opens_at_the_first_failure() {
    let mut state = WebhookState::create(&config(&[("MAIL_LASER_CIRCUIT_BREAKER_THRESHOLD", "0")]));
    state.on_result(&result(true), 1);
    assert!(!state.circuit_open);
    state.on_result(&result(false), 2);
    assert!(state.circuit_open);
}

#[test]
fn every_email_is_counted_once() {
    let mut state = WebhookState::create(&config(&[("MAIL_LASER_CIRCUIT_BREAKER_THRESHOLD", "2")]));
    let mut now_ms: u64 = 0;
    for i in 0..200u64 {
        now_ms += 2_500;
        if let ForwardDecision::Deliver(_) = state.on_forward_email(email("a"), now_ms) {
            state.on_result(&result(i % 5 == 0), now_ms);
        }
        assert_eq!(state.total_forwarded + state.total_failed, i + 1);
        assert!(state.circuit_open || state.consecutive_failures < 2);
    }
    assert!(state.total_forwarded > 0 && state.total_failed > 100);
}

#[test]
fn numbers_that_do_not_fit() {
    let state = WebhookState { circuit_open: true, circuit_opened_at_ms: 10, ..WebhookState::default() };
    assert!(!state.can_forward(9));
    assert!(state.can_forward(10));
    assert!(!WebhookState { circuit_reset_secs: u64::MAX, ..state }.can_forward(10));
    assert!(!WebhookState { total_failed: u64::MAX, ..state }.can_forward(10));
    assert!(WebhookState { total_failed: u64::MAX, ..state }.can_forward(11));
    assert!(WebhookState { circuit_open: false, ..state }.can_forward(0));
    assert!(!WebhookState { total_forwarded: u64::MAX, ..state }.can_record(true));
    assert!(WebhookState { total_forwarded: u64::MAX, ..state }.can_record(false));
    assert!(!WebhookState { total_failed: u64::MAX, ..state }.can_record(false));
    assert!(!WebhookState { consecutive_failures: u32::MAX, ..state }.can_record(false));
    assert!(state.can_record(true));
}

#[test]
fn a_clock_that_went_back_wraps_around() {
    let mut state = WebhookState::create(&config(&[("MAIL_LASER_CIRCUIT_BREAKER_THRESHOLD", "1")]));
    state.on_result(&result(false), 1_000_000);
    assert!(!state.can_forward(999_999));
    assert!(matches!(
        state.on_forward_email_wrapping(email("a"), 999_999),
        ForwardDecision::Deliver(_)
    ));
    assert!(!state.circuit_open);
    assert_eq!((state.consecutive_failures, state.total_failed), (0, 1));
}

#[test]
fn numbers_wrap_around() {
    let mut state = WebhookState {
        circuit_open: true,
        circuit_reset_secs: u64::MAX,
        total_failed: u64::MAX,
        ..WebhookState::default()
    };
    let reset_ms = u64::MAX.wrapping_mul(1000);
    assert!(matches!(
        state.on_forward_email_wrapping(email("a"), reset_ms),
        ForwardDecision::Drop { .. }
    ));
    assert_eq!(state.total_failed, 0);
    state.circuit_opened_at_ms = u64::MAX;
    assert!(matches!(
        state.on_forward_email_wrapping(email("a"), reset_ms),
        ForwardDecision::Deliver(_)
    ));
}

#[test]
fn where_nothing_wraps_both_decide_alike() {
    for now_ms in [5_000, 65_000, 65_001, 1_000_000] {
        let mut state = WebhookState { circuit_reset_secs: 60, ..WebhookState::default() };
        state.on_result(&result(false), 5_000);
        let mut other = state;
        let a = state.on_forward_email(email("a"), now_ms);
        let b = other.on_forward_email_wrapping(email("a"), now_ms);
        assert_eq!(state, other);
        assert_eq!(
            matches!(a, ForwardDecision::Deliver(_)),
            matches!(b, ForwardDecision::Deliver(_))
        );
    }
}

#[test]
fn waits_wrap_around() {
    let mut state = WebhookState::create(&config(&[("MAIL_LASER_WEBHOOK_MAX_RETRIES", "100")]));
    let mut delivery = delivery(&mut state, 0);
    for retry in 1..=100u32 {
        let expected = 100u64.wrapping_mul(2u64.wrapping_pow(retry - 1));
        match delivery.record_wrapping(AttemptOutcome::TimedOut) {
            DeliveryStep::Retry { backoff_ms } => assert_eq!(backoff_ms, expected, "{retry}"),
            DeliveryStep::Finished(_) => panic!("over"),
        }
    }
    match delivery.record_wrapping(AttemptOutcome::Failed) {
        DeliveryStep::Finished(result) => assert!(!result.success),
        DeliveryStep::Retry { .. } => panic!("not over"),
    }
}

#[test]
fn full_counts_wrap_around() {
    let mut state = WebhookState {
        consecutive_failures: u32::MAX,
        total_forwarded: u64::MAX,
        total_failed: u64::MAX,
        circuit_threshold: 1,
        ..WebhookState::default()
    };
    state.on_result_wrapping(&result(false), 7);
    assert_eq!((state.consecutive_failures, state.total_failed), (0, 0));
    assert!(!state.circuit_open);
    state.on_result_wrapping(&result(true), 8);
    assert_eq!(state.total_forwarded, 0);
    state.on_result_wrapping(&result(false), 9);
    assert!(state.circuit_open);
    assert_eq!((state.circuit_opened_at_ms, state.total_failed), (9, 1));
}

#[test]
fn emails_are_counted_once_while_the_clock_jumps() {
    let mut state = WebhookState::create(&config(&[
        ("MAIL_LASER_CIRCUIT_BREAKER_THRESHOLD", "2"),
        ("MAIL_LASER_CIRCUIT_BREAKER_RESET", "18446744073709551615"),
    ]));
    let mut went_back = false;
    for i in 0..200u64 {
        let now_ms = (i * 7_919) % 1_000;
        went_back |= !state.can_forward(now_ms);
        if let ForwardDecision::Deliver(_) = state.on_forward_email_wrapping(email("a"), now_ms) {
            state.on_result_wrapping(&result(i % 7 == 0), now_ms);
        }
        assert_eq!(state.total_forwarded + state.total_failed, i + 1);
        assert!(u64::from(state.consecutive_failures) <= state.total_failed);
    }
    assert!(went_back);
}
