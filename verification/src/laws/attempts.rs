//! What the rules of retries are for: which attempts are taken, and which one counts.

use vstd::prelude::*;

use crate::services::retry;
use crate::services::retry::{DenyReason, ExistingAttempt, NewSubmission, RetryConfig};
use crate::time::Timestamp;

verus! {

/// A further attempt is refused for one of three reasons, and for no other: the member
/// has passed and the form locks then; or else the form has a limit and the member has
/// used it up; or else the cooldown since the last attempt is not over. Otherwise it
/// is taken and counted.
pub proof fn law_attempts_are_refused_for_three_reasons(
    now: Timestamp,
    config: RetryConfig,
    e: ExistingAttempt,
    new: NewSubmission,
)
    ensures
        ({
            let r = retry::decision(now, config, Some(e), new);
            let passed = config.lock_on_pass && e.passed == Some(true);
            let used_up = config.max_attempts > 0 && e.attempt_count >= config.max_attempts;
            let elapsed = (now.secs - e.last_attempt_at.secs) * 1_000_000_000 + now.nanos
                - e.last_attempt_at.nanos;
            let waits = config.cooldown_seconds > 0 && elapsed < config.cooldown_seconds
                * 1_000_000_000;
            &&& (r is Err && r->Err_0 is AlreadyPassed) <==> passed
            &&& (r is Err && r->Err_0 is AttemptsExhausted) <==> !passed && used_up
            &&& r matches Err(DenyReason::AttemptsExhausted { max }) ==> max == config.max_attempts
            &&& (r is Err && r->Err_0 is Cooldown) <==> !passed && !used_up && waits
            &&& r is Ok <==> !passed && !used_up && !waits
            &&& r matches Ok(a) ==> (e.attempt_count < i32::MAX ==> a.attempt_count
                == e.attempt_count + 1)
        }),
{
}

/// The last attempt that a limit allows is taken, and it is the last: with no lock and
/// no cooldown, a member is refused just from the attempt after the limit on.
pub proof fn law_all_allowed_attempts_are_taken(
    now: Timestamp,
    config: RetryConfig,
    e: ExistingAttempt,
    new: NewSubmission,
)
    requires
        config.max_attempts > 0,
        !config.lock_on_pass,
        config.cooldown_seconds <= 0,
    ensures
        retry::decision(now, config, Some(e), new) is Ok <==> e.attempt_count + 1
            <= config.max_attempts,
        retry::decision(now, config, None, new) is Ok,
{
}

/// A member who has to wait is told the whole milliseconds that are left, rounded up to
/// seconds, and at least one second; and the next attempt is due just when the cooldown
/// is over.
pub proof fn law_waiting_times_are_told(
    now: Timestamp,
    config: RetryConfig,
    e: ExistingAttempt,
    new: NewSubmission,
)
    requires
        now.wf(),
        e.last_attempt_at.wf(),
        e.last_attempt_at.secs + config.cooldown_seconds <= 8_210_266_876_799,
    ensures
        retry::decision(now, config, Some(e), new) matches Err(
            DenyReason::Cooldown { retry_after_seconds, next_attempt_at },
        ) ==> {
            let left = (next_attempt_at.secs - now.secs) * 1_000_000_000 + next_attempt_at.nanos
                - now.nanos;
            let millis = left / 1_000_000;
            &&& next_attempt_at.secs == e.last_attempt_at.secs + config.cooldown_seconds
            &&& next_attempt_at.nanos == e.last_attempt_at.nanos
            &&& left > 0
            &&& retry_after_seconds >= 1
            &&& retry_after_seconds * 1000 >= millis
            &&& retry_after_seconds == 1 || (retry_after_seconds - 1) * 1000 < millis
        },
{
}

/// Under `KeepBest`, where both attempts are graded, the higher score counts, the
/// answers are those of the attempt that scored it, the earlier one on a tie, and the
/// member has passed just where one of the attempts passed.
pub proof fn law_the_higher_score_counts(
    now: Timestamp,
    config: RetryConfig,
    e: ExistingAttempt,
    new: NewSubmission,
    old_score: i32,
    new_score: i32,
)
    requires
        config.policy is KeepBest,
        e.total_score == Some(old_score),
        new.total_score == Some(new_score),
    ensures
        retry::decision(now, config, Some(e), new) matches Ok(a) ==> {
            &&& a.total_score == Some(old_score) || a.total_score == Some(new_score)
            &&& a.total_score->0 >= old_score && a.total_score->0 >= new_score
            &&& a.overwrite_answers <==> old_score < new_score
            &&& a.passed == Some(true) <==> e.passed == Some(true) || new.passed == Some(true)
            &&& a.passed is None <==> e.passed is None && new.passed is None
        },
{
}

/// Under `KeepLatest`, and where one of the attempts is not graded, the new attempt
/// counts: its score, its pass bit and its answers.
pub proof fn law_the_latest_attempt_counts(
    now: Timestamp,
    config: RetryConfig,
    existing: Option<ExistingAttempt>,
    new: NewSubmission,
)
    requires
        existing is None || config.policy is KeepLatest || existing->0.total_score is None
            || new.total_score is None,
    ensures
        retry::decision(now, config, existing, new) matches Ok(a) ==> {
            &&& a.overwrite_answers
            &&& a.total_score == new.total_score
            &&& a.passed == new.passed
        },
{
}

/// Attempts are counted one by one, up to the largest number that can be stored.
pub proof fn law_attempts_are_counted(
    now: Timestamp,
    config: RetryConfig,
    e: ExistingAttempt,
    new: NewSubmission,
)
    ensures
        retry::decision(now, config, None, new) matches Ok(a) && a.attempt_count == 1,
        retry::decision(now, config, Some(e), new) matches Ok(a) ==> {
            &&& e.attempt_count < i32::MAX ==> a.attempt_count == e.attempt_count + 1
            &&& e.attempt_count == i32::MAX ==> a.attempt_count == i32::MAX
        },
{
}

/// A form with one attempt and no cooldown is the one that takes no retry.
pub proof fn law_one_shot_forms_take_no_retry(config: RetryConfig)
    ensures
        config.allows_retries() <==> !(config.max_attempts == 1 && config.cooldown_seconds <= 0),
{
}

} // verus!
