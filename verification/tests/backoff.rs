//! The request executor's backoff behaviour on concrete outcomes.

use ao3dl::ao3::backoff::{
    decide, BackoffDecision, HttpOutcome, RetryError, RetryState, StepAction,
};

fn response(status: u16, retry_after: Option<&[u8]>) -> HttpOutcome {
    HttpOutcome::Response {
        status,
        retry_after: retry_after.map(|b| b.to_vec()),
    }
}

#[test]
fn success_returns_on_first_attempt_without_wait() {
    for status in [200u16, 204, 226, 299] {
        let mut state = RetryState::new();
        let action = state.step(&response(status, None));
        assert_eq!(action, StepAction::Accept);
        assert_eq!(state.delay_num, 1);
        assert_eq!(state.delay_den, 1);
    }
}

#[test]
fn success_with_retry_after_header_is_still_accepted_at_once() {
    let mut state = RetryState::new();
    let action = state.step(&response(200, Some(b"30")));
    assert_eq!(action, StepAction::Accept);
}

#[test]
fn rate_limit_with_retry_after_7_sleeps_exactly_7_and_resets() {
    let mut state = RetryState::new();
    // grow the delay first, so the reset is observable
    assert_eq!(
        state.step(&response(500, None)),
        StepAction::Sleep { num: 5, den: 4 }
    );
    let action = state.step(&response(429, Some(b"7")));
    assert_eq!(action, StepAction::Sleep { num: 7, den: 1 });
    assert_eq!(state.delay_num, 1);
    assert_eq!(state.delay_den, 1);
    // the next server error backs off from base again
    assert_eq!(
        state.step(&response(500, None)),
        StepAction::Sleep { num: 5, den: 4 }
    );
}

#[test]
fn rate_limit_without_retry_after_is_fatal() {
    let mut state = RetryState::new();
    let action = state.step(&response(429, None));
    assert_eq!(
        action,
        StepAction::Fail {
            error: RetryError::RetryAfterMissing
        }
    );
}

#[test]
fn rate_limit_with_non_integer_retry_after_is_fatal() {
    for value in [&b"tomorrow"[..], b"7.5", b"7 ", b"", b"-1"] {
        let mut state = RetryState::new();
        let action = state.step(&response(429, Some(value)));
        assert_eq!(
            action,
            StepAction::Fail {
                error: RetryError::RetryAfterUnparseable
            },
            "value {:?}",
            value
        );
    }
}

#[test]
fn rate_limit_with_invisible_header_bytes_counts_as_missing() {
    // the header API refuses to hand out non-visible ASCII, which the
    // original treats like an absent header
    let mut state = RetryState::new();
    let action = state.step(&response(429, Some(&[0xC3, 0xA9])));
    assert_eq!(
        action,
        StepAction::Fail {
            error: RetryError::RetryAfterMissing
        }
    );
}

#[test]
fn rate_limit_accepts_a_leading_plus_like_the_std_parser() {
    let mut state = RetryState::new();
    let action = state.step(&response(429, Some(b"+7")));
    assert_eq!(action, StepAction::Sleep { num: 7, den: 1 });
}

#[test]
fn rate_limit_accepts_leading_zeros_and_rejects_oversized_values() {
    let mut state = RetryState::new();
    assert_eq!(
        state.step(&response(429, Some(b"007"))),
        StepAction::Sleep { num: 7, den: 1 }
    );
    let mut state = RetryState::new();
    assert_eq!(
        state.step(&response(429, Some(b"18446744073709551616"))),
        StepAction::Fail {
            error: RetryError::RetryAfterUnparseable
        }
    );
}

#[test]
fn server_errors_back_off_exponentially_and_stop_at_the_ceiling() {
    let mut state = RetryState::new();
    let mut num: u64 = 1;
    let mut den: u64 = 1;
    for k in 1..=19u32 {
        assert!(
            !state.exhausted(),
            "gave up before the {}-th server error",
            k
        );
        let action = state.step(&response(503, None));
        num *= 5;
        den *= 4;
        // the k-th wait is base times (5/4)^k seconds, exactly
        assert_eq!(action, StepAction::Sleep { num, den }, "wait {}", k);
        let exceeds_ceiling = num > 64 * den;
        assert_eq!(state.exhausted(), exceeds_ceiling, "after wait {}", k);
    }
    // the nineteenth wait is the first over 64 seconds; the executor must
    // now give up instead of retrying further
    assert!(state.exhausted());
}

#[test]
fn other_statuses_and_transport_errors_are_fatal_at_once() {
    let mut state = RetryState::new();
    assert_eq!(
        state.step(&response(404, None)),
        StepAction::Fail {
            error: RetryError::FatalStatus { status: 404 }
        }
    );
    let mut state = RetryState::new();
    assert_eq!(
        state.step(&response(301, None)),
        StepAction::Fail {
            error: RetryError::FatalStatus { status: 301 }
        }
    );
    let mut state = RetryState::new();
    assert_eq!(
        state.step(&HttpOutcome::TransportFailure),
        StepAction::Fail {
            error: RetryError::Transport
        }
    );
    let mut state = RetryState::new();
    assert_eq!(
        state.step(&HttpOutcome::BuildFailure),
        StepAction::Fail {
            error: RetryError::BuildFailed
        }
    );
}

#[test]
fn decide_classifies_outcomes() {
    assert_eq!(decide(&response(200, None)), BackoffDecision::Accept);
    assert_eq!(
        decide(&response(429, Some(b"12"))),
        BackoffDecision::WaitFixed { seconds: 12 }
    );
    assert_eq!(decide(&response(599, None)), BackoffDecision::WaitExponential);
    assert_eq!(
        decide(&response(100, None)),
        BackoffDecision::Fail {
            error: RetryError::FatalStatus { status: 100 }
        }
    );
}
