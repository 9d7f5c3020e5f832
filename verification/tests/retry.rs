//! Retry and cooldown decisions.

use form_respondent_role::services::retry::{
    clock_is_asked, decide, DenyReason, ExistingAttempt, NewSubmission, RetryConfig, RetryPolicy,
};
use form_respondent_role::time::Timestamp;

fn cfg(max: i32, cooldown: i64, policy: RetryPolicy, lock: bool) -> RetryConfig {
    RetryConfig { max_attempts: max, cooldown_seconds: cooldown, policy, lock_on_pass: lock }
}

fn now() -> Timestamp {
    let t = chrono::Utc::now();
    Timestamp { secs: t.timestamp(), nanos: t.timestamp_subsec_nanos() }
}

fn t(secs_ago: i64) -> Timestamp {
    let n = now();
    Timestamp { secs: n.secs - secs_ago, nanos: n.nanos }
}

#[test]
fn first_attempt_always_allowed() {
    let c = cfg(1, 0, RetryPolicy::KeepBest, true);
    let got = decide(
        now(),
        &c,
        None,
        &NewSubmission { total_score: Some(5), passed: Some(false) },
    )
    .expect("first attempt allowed");
    assert!(got.overwrite_answers);
    assert_eq!(got.attempt_count, 1);
    assert_eq!(got.total_score, Some(5));
}

#[test]
fn one_shot_form_blocks_second_attempt() {
    let c = cfg(1, 0, RetryPolicy::KeepBest, true);
    let existing = ExistingAttempt {
        attempt_count: 1,
        last_attempt_at: t(10),
        total_score: Some(3),
        passed: Some(false),
    };
    let err = decide(
        now(),
        &c,
        Some(&existing),
        &NewSubmission { total_score: Some(9), passed: Some(true) },
    )
    .expect_err("one-shot blocks resubmit");
    assert_eq!(err, DenyReason::AttemptsExhausted { max: 1 });
}

#[test]
fn exhausted_after_max_attempts() {
    let c = cfg(3, 0, RetryPolicy::KeepLatest, false);
    let existing = ExistingAttempt {
        attempt_count: 3,
        last_attempt_at: t(10_000),
        total_score: None,
        passed: None,
    };
    let err = decide(
        now(),
        &c,
        Some(&existing),
        &NewSubmission { total_score: None, passed: None },
    )
    .expect_err("exhausted");
    assert_eq!(err, DenyReason::AttemptsExhausted { max: 3 });
}

#[test]
fn unlimited_never_exhausts() {
    let c = cfg(0, 0, RetryPolicy::KeepLatest, false);
    let existing = ExistingAttempt {
        attempt_count: 999,
        last_attempt_at: t(10),
        total_score: None,
        passed: None,
    };
    let got = decide(
        now(),
        &c,
        Some(&existing),
        &NewSubmission { total_score: None, passed: None },
    )
    .expect("unlimited allows");
    assert_eq!(got.attempt_count, 1000);
}

#[test]
fn cooldown_blocks_then_allows() {
    let c = cfg(5, 3600, RetryPolicy::KeepLatest, false);
    let existing = ExistingAttempt {
        attempt_count: 1,
        last_attempt_at: t(60), // 1 minute ago, cooldown is 1 hour
        total_score: None,
        passed: None,
    };
    let new = NewSubmission { total_score: None, passed: None };
    match decide(now(), &c, Some(&existing), &new) {
        Err(DenyReason::Cooldown { retry_after_seconds, .. }) => {
            assert!(retry_after_seconds > 3500 && retry_after_seconds <= 3540);
        }
        other => panic!("expected cooldown, got {other:?}"),
    }

    // Past the cooldown window: allowed.
    let existing_old = ExistingAttempt { last_attempt_at: t(7200), ..existing };
    decide(now(), &c, Some(&existing_old), &new).expect("past cooldown allows");
}

#[test]
fn lock_on_pass_blocks_passed_member() {
    let c = cfg(5, 0, RetryPolicy::KeepBest, true);
    let existing = ExistingAttempt {
        attempt_count: 1,
        last_attempt_at: t(10),
        total_score: Some(10),
        passed: Some(true),
    };
    let err = decide(
        now(),
        &c,
        Some(&existing),
        &NewSubmission { total_score: Some(10), passed: Some(true) },
    )
    .expect_err("locked after pass");
    assert_eq!(err, DenyReason::AlreadyPassed);
}

#[test]
fn lock_on_pass_off_lets_passed_member_retry() {
    let c = cfg(5, 0, RetryPolicy::KeepBest, false);
    let existing = ExistingAttempt {
        attempt_count: 1,
        last_attempt_at: t(10),
        total_score: Some(8),
        passed: Some(true),
    };
    // A worse retry keeps the best and stays passed.
    let got = decide(
        now(),
        &c,
        Some(&existing),
        &NewSubmission { total_score: Some(2), passed: Some(false) },
    )
    .expect("retry allowed");
    assert!(!got.overwrite_answers, "worse score keeps old answers");
    assert_eq!(got.total_score, Some(8));
    assert_eq!(got.passed, Some(true), "passing is sticky under keep_best");
}

#[test]
fn keep_best_overwrites_on_improvement() {
    let c = cfg(5, 0, RetryPolicy::KeepBest, false);
    let existing = ExistingAttempt {
        attempt_count: 1,
        last_attempt_at: t(10),
        total_score: Some(4),
        passed: Some(false),
    };
    let got = decide(
        now(),
        &c,
        Some(&existing),
        &NewSubmission { total_score: Some(9), passed: Some(true) },
    )
    .expect("improvement allowed");
    assert!(got.overwrite_answers, "better score overwrites answers");
    assert_eq!(got.total_score, Some(9));
    assert_eq!(got.passed, Some(true));
    assert_eq!(got.attempt_count, 2);
}

#[test]
fn keep_latest_always_overwrites() {
    let c = cfg(5, 0, RetryPolicy::KeepLatest, false);
    let existing = ExistingAttempt {
        attempt_count: 1,
        last_attempt_at: t(10),
        total_score: Some(9),
        passed: Some(true),
    };
    let got = decide(
        now(),
        &c,
        Some(&existing),
        &NewSubmission { total_score: Some(1), passed: Some(false) },
    )
    .expect("latest allowed");
    assert!(got.overwrite_answers);
    assert_eq!(got.total_score, Some(1));
    assert_eq!(got.passed, Some(false), "latest is not sticky");
}

#[test]
fn ungraded_keep_best_behaves_like_latest() {
    let c = cfg(5, 0, RetryPolicy::KeepBest, false);
    let existing = ExistingAttempt {
        attempt_count: 1,
        last_attempt_at: t(10),
        total_score: None,
        passed: None,
    };
    let got = decide(
        now(),
        &c,
        Some(&existing),
        &NewSubmission { total_score: None, passed: None },
    )
    .expect("ungraded retry allowed");
    assert!(got.overwrite_answers, "no scores: overwrite with latest");
}

#[test]
fn retries_enabled_reflects_config() {
    assert!(!cfg(1, 0, RetryPolicy::KeepBest, true).retries_enabled());
    assert!(cfg(3, 0, RetryPolicy::KeepBest, true).retries_enabled());
    assert!(cfg(1, 600, RetryPolicy::KeepBest, true).retries_enabled());
    assert!(cfg(0, 0, RetryPolicy::KeepBest, true).retries_enabled());
}

#[test]
fn policies_are_read_with_a_default() {
    assert_eq!(RetryPolicy::from_str_or_default("keep_latest"), RetryPolicy::KeepLatest);
    assert_eq!(RetryPolicy::from_str_or_default("keep_best"), RetryPolicy::KeepBest);
    assert_eq!(RetryPolicy::from_str_or_default("anything"), RetryPolicy::KeepBest);
}

#[test]
fn the_wait_is_rounded_up_to_whole_seconds() {
    let c = cfg(0, 10, RetryPolicy::KeepLatest, false);
    let last = Timestamp { secs: 1_000, nanos: 0 };
    let existing =
        ExistingAttempt { attempt_count: 1, last_attempt_at: last, total_score: None, passed: None };
    let new = NewSubmission { total_score: None, passed: None };
    // 9.999 s of 10 s have passed: one millisecond is left.
    let at = Timestamp { secs: 1_009, nanos: 999_000_000 };
    assert_eq!(
        decide(at, &c, Some(&existing), &new),
        Err(DenyReason::Cooldown {
            retry_after_seconds: 1,
            next_attempt_at: Timestamp { secs: 1_010, nanos: 0 },
        })
    );
    // 3.5 s are left.
    let at = Timestamp { secs: 1_006, nanos: 500_000_000 };
    assert_eq!(
        decide(at, &c, Some(&existing), &new),
        Err(DenyReason::Cooldown {
            retry_after_seconds: 4,
            next_attempt_at: Timestamp { secs: 1_010, nanos: 0 },
        })
    );
    // The end of the window is outside it.
    let at = Timestamp { secs: 1_010, nanos: 0 };
    assert!(decide(at, &c, Some(&existing), &new).is_ok());
}

#[test]
fn the_most_permanent_reason_comes_first() {
    let existing = ExistingAttempt {
        attempt_count: 2,
        last_attempt_at: Timestamp { secs: 1_000, nanos: 0 },
        total_score: Some(5),
        passed: Some(true),
    };
    let new = NewSubmission { total_score: Some(6), passed: Some(true) };
    let at = Timestamp { secs: 1_001, nanos: 0 };
    let all = cfg(2, 60, RetryPolicy::KeepBest, true);
    assert_eq!(decide(at, &all, Some(&existing), &new), Err(DenyReason::AlreadyPassed));
    let unlocked = cfg(2, 60, RetryPolicy::KeepBest, false);
    assert_eq!(
        decide(at, &unlocked, Some(&existing), &new),
        Err(DenyReason::AttemptsExhausted { max: 2 })
    );
}

#[test]
fn the_attempt_count_does_not_overflow() {
    let existing = ExistingAttempt {
        attempt_count: i32::MAX,
        last_attempt_at: Timestamp { secs: 0, nanos: 0 },
        total_score: None,
        passed: None,
    };
    let new = NewSubmission { total_score: None, passed: None };
    let at = Timestamp { secs: 1, nanos: 0 };
    let got = decide(at, &cfg(0, 0, RetryPolicy::KeepLatest, false), Some(&existing), &new);
    assert_eq!(got.unwrap().attempt_count, i32::MAX);
}

#[test]
fn the_clock_is_asked_last() {
    let e = |attempts: i32, passed: Option<bool>| ExistingAttempt {
        attempt_count: attempts,
        last_attempt_at: t(10),
        total_score: None,
        passed,
    };
    let c = cfg(3, 60, RetryPolicy::KeepBest, true);
    assert!(clock_is_asked(&c, &e(2, Some(false))));
    assert!(clock_is_asked(&c, &e(2, None)));
    assert!(!clock_is_asked(&c, &e(2, Some(true))));
    assert!(!clock_is_asked(&c, &e(3, Some(false))));
    assert!(!clock_is_asked(&cfg(3, 0, RetryPolicy::KeepBest, true), &e(2, None)));
    // A cooldown whose end is no date does not matter where the form is passed.
    let endless = cfg(0, i64::MAX, RetryPolicy::KeepBest, true);
    let err = decide(
        now(),
        &endless,
        Some(&e(1, Some(true))),
        &NewSubmission { total_score: None, passed: None },
    )
    .expect_err("already passed");
    assert_eq!(err, DenyReason::AlreadyPassed);
}
