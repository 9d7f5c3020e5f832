//! Retry / cooldown decision logic for form and quiz submissions.
//!
//! Pure: it takes the form's retry policy, the member's existing canonical
//! attempt (if any), and the freshly-graded new submission, and decides whether
//! the new attempt is allowed and, if so, what the canonical response row should
//! now hold. The submit handler wraps it in an advisory-locked transaction to
//! make the read-decide-write atomic against concurrent submits from the same
//! member.
//!
//! Invariant kept by the caller: this only governs forms that keep a single
//! canonical response per (form, member). That is what makes the two sync
//! paths agree on "which attempt counts".

use vstd::prelude::*;

use crate::text::same;
use crate::time::Timestamp;

verus! {

/// Which attempt becomes the canonical response used for role evaluation.
#[derive(Clone, Copy, Debug, PartialEq, Eq, Structural)]
pub enum RetryPolicy {
    /// Highest-scoring attempt wins; passing is sticky. Falls back to
    /// `KeepLatest` when there are no scores to compare (ungraded form).
    KeepBest,
    /// The most recent attempt always replaces the previous one.
    KeepLatest,
}

impl RetryPolicy {
    /// Parse from the stored/posted string, defaulting to `KeepBest` for any
    /// unknown value.
    pub fn from_str_or_default(s: &str) -> (r: RetryPolicy)
        ensures
            r == if s@ == "keep_latest"@ {
                RetryPolicy::KeepLatest
            } else {
                RetryPolicy::KeepBest
            },
    {
        if same(s, "keep_latest") {
            RetryPolicy::KeepLatest
        } else {
            RetryPolicy::KeepBest
        }
    }
}

/// Per-form retry configuration.
#[derive(Clone, Copy, Debug)]
pub struct RetryConfig {
    /// Maximum attempts. `<= 0` means unlimited.
    pub max_attempts: i32,
    /// Minimum seconds between consecutive attempts. `0` disables cooldown.
    pub cooldown_seconds: i64,
    pub policy: RetryPolicy,
    /// Once the member has passed, deny further attempts (graded quizzes only).
    pub lock_on_pass: bool,
}

impl RetryConfig {
    /// Whether more than one attempt is possible, or a cooldown is configured.
    pub open spec fn allows_retries(self) -> bool {
        self.max_attempts != 1 || self.cooldown_seconds > 0
    }

    /// Whether retries are actually in play (more than one attempt possible,
    /// or a cooldown is configured). Used to decide which member-facing copy
    /// and error code to surface; a plain `max_attempts == 1` form behaves
    /// exactly like the historical one-shot form.
    pub fn retries_enabled(&self) -> (r: bool)
        ensures
            r == self.allows_retries(),
    {
        self.max_attempts != 1 || self.cooldown_seconds > 0
    }
}

/// The member's existing canonical attempt for this form.
#[derive(Clone, Copy, Debug)]
pub struct ExistingAttempt {
    pub attempt_count: i32,
    pub last_attempt_at: Timestamp,
    pub total_score: Option<i32>,
    pub passed: Option<bool>,
}

/// The freshly-validated, freshly-graded new submission.
#[derive(Clone, Copy, Debug)]
pub struct NewSubmission {
    pub total_score: Option<i32>,
    pub passed: Option<bool>,
}

/// Why a new attempt was refused.
#[derive(Clone, Copy, Debug, PartialEq, Eq, Structural)]
pub enum DenyReason {
    /// Member already passed and `lock_on_pass` is set.
    AlreadyPassed,
    /// All attempts have been used.
    AttemptsExhausted { max: i32 },
    /// Still inside the cooldown window.
    Cooldown { retry_after_seconds: i64, next_attempt_at: Timestamp },
}

/// What the canonical response row should become after an accepted attempt.
#[derive(Clone, Copy, Debug, PartialEq, Eq)]
pub struct AcceptedAttempt {
    /// `true`: persist the new submission's answers; `false`: keep the
    /// previously stored answers (a `keep_best` attempt that didn't improve).
    pub overwrite_answers: bool,
    pub total_score: Option<i32>,
    pub passed: Option<bool>,
    pub attempt_count: i32,
}

// ---------------------------------------------------------------------------
// The rules
// ---------------------------------------------------------------------------

/// Whether the member is done: passed, on a form that locks then.
pub open spec fn locked(config: RetryConfig, e: ExistingAttempt) -> bool {
    config.lock_on_pass && e.passed == Some(true)
}

/// Whether the member has used all attempts.
pub open spec fn exhausted(config: RetryConfig, e: ExistingAttempt) -> bool {
    config.max_attempts > 0 && e.attempt_count >= config.max_attempts
}

/// Whether only the clock can stand in the way of a new attempt.
pub open spec fn clock_decides(config: RetryConfig, e: ExistingAttempt) -> bool {
    !locked(config, e) && !exhausted(config, e) && config.cooldown_seconds > 0
}

/// Tells a caller whether the end of the cooldown has to be a date.
pub fn clock_is_asked(config: &RetryConfig, e: &ExistingAttempt) -> (r: bool)
    ensures
        r == clock_decides(*config, *e),
{
    let locked: bool = match e.passed {
        Some(passed) => config.lock_on_pass && passed,
        None => false,
    };
    let exhausted: bool = config.max_attempts > 0 && e.attempt_count >= config.max_attempts;
    !locked && !exhausted && config.cooldown_seconds > 0
}

/// When the cooldown after the last attempt is over.
pub open spec fn cooldown_end(config: RetryConfig, e: ExistingAttempt) -> int {
    e.last_attempt_at.instant() + config.cooldown_seconds * 1_000_000_000
}

/// Whether the member has to wait.
pub open spec fn cooling(now: Timestamp, config: RetryConfig, e: ExistingAttempt) -> bool {
    config.cooldown_seconds > 0 && now.instant() < cooldown_end(config, e)
}

/// Nanoseconds as seconds: the whole milliseconds in them rounded up, at least
/// one second.
pub open spec fn waiting_seconds(nanos: int) -> int {
    let seconds = (nanos / 1_000_000 + 999) / 1000;
    if seconds < 1 {
        1
    } else {
        seconds
    }
}

/// Why a new attempt is refused, if it is: the most permanent reason first.
pub open spec fn denial(now: Timestamp, config: RetryConfig, e: ExistingAttempt) -> Option<
    DenyReason,
> {
    if locked(config, e) {
        Some(DenyReason::AlreadyPassed)
    } else if exhausted(config, e) {
        Some(DenyReason::AttemptsExhausted { max: config.max_attempts })
    } else if cooling(now, config, e) {
        Some(
            DenyReason::Cooldown {
                retry_after_seconds: waiting_seconds(
                    cooldown_end(config, e) - now.instant(),
                ) as i64,
                next_attempt_at: e.last_attempt_at.later(config.cooldown_seconds as int),
            },
        )
    } else {
        None
    }
}

/// Whether either attempt passed; nothing where neither was graded.
pub open spec fn passed_either(a: Option<bool>, b: Option<bool>) -> Option<bool> {
    if a is None && b is None {
        None
    } else {
        Some(a == Some(true) || b == Some(true))
    }
}

/// What the canonical response becomes when a further attempt is accepted.
pub open spec fn merged(
    config: RetryConfig,
    e: ExistingAttempt,
    new: NewSubmission,
) -> AcceptedAttempt {
    let attempt_count = if e.attempt_count == i32::MAX {
        i32::MAX
    } else {
        (e.attempt_count + 1) as i32
    };
    match (config.policy, e.total_score, new.total_score) {
        // keep_best only has meaning when both attempts are graded
        (RetryPolicy::KeepBest, Some(old_score), Some(new_score)) => AcceptedAttempt {
            overwrite_answers: new_score > old_score,
            total_score: Some(
                if new_score > old_score {
                    new_score
                } else {
                    old_score
                },
            ),
            passed: passed_either(e.passed, new.passed),
            attempt_count,
        },
        _ => AcceptedAttempt {
            overwrite_answers: true,
            total_score: new.total_score,
            passed: new.passed,
            attempt_count,
        },
    }
}

/// What comes of a new attempt.
pub open spec fn decision(
    now: Timestamp,
    config: RetryConfig,
    existing: Option<ExistingAttempt>,
    new: NewSubmission,
) -> Result<AcceptedAttempt, DenyReason> {
    match existing {
        None => Ok(
            AcceptedAttempt {
                overwrite_answers: true,
                total_score: new.total_score,
                passed: new.passed,
                attempt_count: 1,
            },
        ),
        Some(e) => match denial(now, config, e) {
            Some(reason) => Err(reason),
            None => Ok(merged(config, e, new)),
        },
    }
}

/// Decide whether `new` is allowed given the form `config` and the member's
/// `existing` canonical attempt (None = first ever attempt).
pub fn decide(
    now: Timestamp,
    config: &RetryConfig,
    existing: Option<&ExistingAttempt>,
    new: &NewSubmission,
) -> (r: Result<AcceptedAttempt, DenyReason>)
    requires
        now.wf(),
        existing matches Some(e) ==> e.last_attempt_at.wf() && (clock_decides(*config, *e)
            ==> e.last_attempt_at.secs + config.cooldown_seconds <= crate::time::MAX_SECS),
    ensures
        r == decision(
            now,
            *config,
            match existing {
                Some(e) => Some(*e),
                None => None,
            },
            *new,
        ),
{
    let e = match existing {
        Some(e) => e,
        None => {
            // First attempt: always allowed.
            return Ok(
                AcceptedAttempt {
                    overwrite_answers: true,
                    total_score: new.total_score,
                    passed: new.passed,
                    attempt_count: 1,
                },
            );
        },
    };
    // Order matters: surface the most "permanent" reason first so the member
    // sees the right call to action (you're done > out of tries > wait a bit).
    let passed_before: bool = match e.passed {
        Some(p) => p,
        None => false,
    };
    if config.lock_on_pass && passed_before {
        return Err(DenyReason::AlreadyPassed);
    }
    if config.max_attempts > 0 && e.attempt_count >= config.max_attempts {
        return Err(DenyReason::AttemptsExhausted { max: config.max_attempts });
    }
    if config.cooldown_seconds > 0 {
        let next = e.last_attempt_at.plus(config.cooldown_seconds);
        if now.before(next) {
            // Ceil to whole seconds so a sub-second remainder never rounds to
            // "0 seconds left" while still inside the window.
            let ms: i64 = next.millis_since(now);
            let seconds: i64 = (ms + 999) / 1000;
            let retry_after_seconds: i64 = if seconds < 1 {
                1
            } else {
                seconds
            };
            return Err(DenyReason::Cooldown { retry_after_seconds, next_attempt_at: next });
        }
    }
    let attempt_count: i32 = if e.attempt_count == i32::MAX {
        i32::MAX
    } else {
        e.attempt_count + 1
    };
    match (config.policy, e.total_score, new.total_score) {
        (RetryPolicy::KeepBest, Some(old_score), Some(new_score)) => {
            let improved: bool = new_score > old_score;
            let passed: Option<bool> = match (e.passed, new.passed) {
                (None, None) => None,
                (Some(a), None) => Some(a),
                (None, Some(b)) => Some(b),
                (Some(a), Some(b)) => Some(a || b),
            };
            Ok(
                AcceptedAttempt {
                    overwrite_answers: improved,
                    total_score: Some(
                        if improved {
                            new_score
                        } else {
                            old_score
                        },
                    ),
                    passed,
                    attempt_count,
                },
            )
        },
        _ => Ok(
            AcceptedAttempt {
                overwrite_answers: true,
                total_score: new.total_score,
                passed: new.passed,
                attempt_count,
            },
        ),
    }
}

// ---------------------------------------------------------------------------
// Laws
// ---------------------------------------------------------------------------

/// The first attempt is always accepted, as attempt number 1.
pub proof fn law_first_attempt_is_accepted(now: Timestamp, config: RetryConfig, new: NewSubmission)
    ensures
        decision(now, config, None, new) matches Ok(a) && a.attempt_count == 1
            && a.overwrite_answers && a.total_score == new.total_score && a.passed == new.passed,
{
}

/// Under `KeepBest` an accepted attempt never lowers a score, and never takes
/// back a pass.
pub proof fn law_best_is_kept(
    now: Timestamp,
    config: RetryConfig,
    e: ExistingAttempt,
    new: NewSubmission,
)
    requires
        config.policy is KeepBest,
        e.total_score is Some,
        new.total_score is Some,
    ensures
        decision(now, config, Some(e), new) matches Ok(a) ==> {
            &&& a.total_score is Some
            &&& a.total_score->0 >= e.total_score->0
            &&& a.total_score->0 >= new.total_score->0
            &&& e.passed == Some(true) ==> a.passed == Some(true)
            &&& a.overwrite_answers <==> new.total_score->0 > e.total_score->0
        },
{
}

/// Under `KeepLatest`, and where there are no two scores to compare, an
/// accepted attempt replaces the one before it.
pub proof fn law_latest_replaces(
    now: Timestamp,
    config: RetryConfig,
    e: ExistingAttempt,
    new: NewSubmission,
)
    requires
        config.policy is KeepLatest || e.total_score is None || new.total_score is None,
    ensures
        decision(now, config, Some(e), new) matches Ok(a) ==> a.overwrite_answers && a.total_score
            == new.total_score && a.passed == new.passed,
{
}

/// A form with a limit never takes more attempts than it allows.
pub proof fn law_attempts_stay_within_the_limit(
    now: Timestamp,
    config: RetryConfig,
    e: ExistingAttempt,
    new: NewSubmission,
)
    requires
        config.max_attempts > 0,
    ensures
        decision(now, config, Some(e), new) matches Ok(a) ==> a.attempt_count
            <= config.max_attempts,
        e.attempt_count >= config.max_attempts ==> decision(now, config, Some(e), new) is Err,
{
}

/// A form without a limit never runs out of attempts.
pub proof fn law_unlimited_attempts_are_never_exhausted(
    now: Timestamp,
    config: RetryConfig,
    e: ExistingAttempt,
    new: NewSubmission,
)
    requires
        config.max_attempts <= 0,
    ensures
        !(decision(now, config, Some(e), new) matches Err(DenyReason::AttemptsExhausted { max })),
{
}

/// On a form that locks, a member who passed is refused for that reason,
/// whatever else holds.
pub proof fn law_pass_locks(
    now: Timestamp,
    config: RetryConfig,
    e: ExistingAttempt,
    new: NewSubmission,
)
    requires
        config.lock_on_pass,
        e.passed == Some(true),
    ensures
        decision(now, config, Some(e), new) == Err::<AcceptedAttempt, DenyReason>(
            DenyReason::AlreadyPassed,
        ),
{
}

/// An attempt inside the cooldown is refused; one at its end or later is not
/// refused for it. A member who is told to wait is told at least one second,
/// and is at most a millisecond short once that time is over.
pub proof fn law_cooldown_is_kept(
    now: Timestamp,
    config: RetryConfig,
    e: ExistingAttempt,
    new: NewSubmission,
)
    requires
        now.wf(),
        e.last_attempt_at.wf(),
        e.last_attempt_at.secs + config.cooldown_seconds <= crate::time::MAX_SECS,
    ensures
        decision(now, config, Some(e), new) is Ok ==> config.cooldown_seconds <= 0
            || now.instant() >= cooldown_end(config, e),
        decision(now, config, Some(e), new) matches Err(
            DenyReason::Cooldown { retry_after_seconds, next_attempt_at },
        ) ==> {
            &&& now.instant() < next_attempt_at.instant()
            &&& next_attempt_at.instant() == cooldown_end(config, e)
            &&& retry_after_seconds >= 1
            &&& next_attempt_at.instant() - now.instant() < retry_after_seconds * 1_000_000_000
                + 1_000_000
            &&& (next_attempt_at.instant() - now.instant()) % 1_000_000 == 0
                ==> next_attempt_at.instant() <= now.instant() + retry_after_seconds
                * 1_000_000_000
        },
{
}

} // verus!
