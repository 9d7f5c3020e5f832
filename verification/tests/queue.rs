//! The job queue and the tasks around it.

use form_respondent_role::double::Double;
use form_respondent_role::error::AppError;
use form_respondent_role::json::{Number, Real, Value};
use form_respondent_role::services::jobs::{
    backoff_delay, enqueue_config_sync, enqueue_player_sync, enqueue_webhook, jittered_delay,
    queue_config_sync, Job, JobKind, PlayerSyncPayload, Queueing,
};
use form_respondent_role::services::webhook::WebhookFailure;
use form_respondent_role::tasks::job_listener::{self, Listener, ListenerAction, ListenerEvent};
use form_respondent_role::tasks::job_worker::{
    self, dispatch, settle, JobError, JobPlan, Settlement, Worker, WorkerAction, WorkerEvent,
};
use form_respondent_role::tasks::startup_backfill::{
    resync_all_form_links, Backfill, BackfillAction, BackfillEvent,
};

fn value_of(v: &serde_json::Value) -> Value {
    match v {
        serde_json::Value::Null => Value::Null,
        serde_json::Value::Bool(b) => Value::Bool(*b),
        serde_json::Value::Number(n) => {
            if let Some(u) = n.as_u64() {
                Value::Number(Number::PosInt(u))
            } else if let Some(i) = n.as_i64() {
                Value::Number(Number::NegInt(i))
            } else {
                let f = n.as_f64().unwrap();
                Value::Number(Number::Float { number: real_of(f), json: n.to_string() })
            }
        }
        serde_json::Value::String(s) => Value::String(s.clone()),
        serde_json::Value::Array(a) => Value::Array(a.iter().map(value_of).collect()),
        serde_json::Value::Object(o) => {
            Value::Object(o.iter().map(|(k, x)| (k.clone(), value_of(x))).collect())
        }
    }
}

/// The value of a JSON text.
fn js(text: &str) -> Value {
    value_of(&serde_json::from_str::<serde_json::Value>(text).unwrap())
}

fn real_of(f: f64) -> Real {
    Real { value: Double { bits: f.to_bits() }, display: f.to_string() }
}

fn s(x: &str) -> String {
    x.to_string()
}

fn job(kind: &str, payload: Value) -> Job {
    Job { id: 1, kind: s(kind), payload, attempts: 1, max_attempts: 8 }
}

#[test]
fn kinds_read_back() {
    for kind in [JobKind::PlayerSync, JobKind::ConfigSync, JobKind::Webhook] {
        assert_eq!(JobKind::from_db(kind.as_str()), Some(kind));
    }
    assert_eq!(JobKind::PlayerSync.as_str(), "player_sync");
    assert_eq!(JobKind::from_db("other"), None);
}

#[test]
fn enqueued_jobs_carry_their_payload() {
    let j = enqueue_player_sync(&PlayerSyncPayload::Updated { discord_id: s("42") });
    assert_eq!(j.kind, JobKind::PlayerSync);
    assert_eq!(j.payload, js(r#"{"discord_id": "42", "event": "updated"}"#));
    assert_eq!(j.delay_secs, 0);
    let j = enqueue_player_sync(&PlayerSyncPayload::Unlinked { discord_id: s("42") });
    assert_eq!(j.payload, js(r#"{"discord_id": "42", "event": "unlinked"}"#));
    let j = enqueue_config_sync("1", "2");
    assert_eq!(j.payload, js(r#"{"guild_id": "1", "role_id": "2"}"#));
    assert_eq!(j.delay_secs, 5);
    let j = enqueue_webhook("https://x.test", js("[1]"));
    assert_eq!(j.payload, js(r#"{"body": [1], "url": "https://x.test"}"#));
}

#[test]
fn delays_double_up_to_a_bound() {
    let expected = [(0, 2_000), (1, 2_000), (2, 4_000), (5, 32_000), (8, 256_000), (50, 256_000)];
    for (attempt, ms) in expected {
        assert_eq!(jittered_delay(attempt, 0), ms);
        assert_eq!(jittered_delay(attempt, 999), ms + 999);
        let d = backoff_delay(attempt);
        assert!(d >= ms && d < ms + 1_000, "{attempt}: {d}");
    }
}

#[test]
fn delays_are_spread() {
    let first = backoff_delay(1);
    assert!((0..200).any(|_| backoff_delay(1) != first));
}

#[test]
fn jobs_are_planned_by_kind() {
    let none = || Err(s("not asked for"));
    assert_eq!(
        dispatch(
            &job("player_sync", Value::Null),
            Ok(PlayerSyncPayload::Updated { discord_id: s("42") })
        ),
        Ok(JobPlan::SyncPlayer { discord_id: s("42") })
    );
    assert_eq!(
        dispatch(
            &job("player_sync", Value::Null),
            Ok(PlayerSyncPayload::Unlinked { discord_id: s("42") })
        ),
        Ok(JobPlan::RemoveAssignments { discord_id: s("42") })
    );
    let config = enqueue_config_sync("1", "2");
    assert_eq!(
        dispatch(&job("config_sync", config.payload), none()),
        Ok(JobPlan::SyncRoleLink { guild_id: s("1"), role_id: s("2") })
    );
    let hook = enqueue_webhook("https://x.test", js("[1]"));
    assert_eq!(
        dispatch(&job("webhook", hook.payload), none()),
        Ok(JobPlan::Deliver { url: s("https://x.test"), body: js("[1]") })
    );
}

#[test]
fn broken_jobs_are_terminal() {
    let cases = [
        ("player_sync", "{}", "invalid player_sync payload: bad"),
        ("config_sync", "{}", "config_sync payload missing guild_id"),
        ("config_sync", r#"{"guild_id": "1"}"#, "config_sync payload missing role_id"),
        ("webhook", "{}", "webhook payload missing url"),
        ("webhook", r#"{"url": "u"}"#, "webhook payload missing body"),
        ("nonsense", "{}", "unknown job kind 'nonsense'"),
    ];
    for (kind, payload, expected) in cases {
        assert_eq!(
            dispatch(&job(kind, js(payload)), Err(s("bad"))),
            Err(JobError::Terminal(s(expected)))
        );
    }
}

#[test]
fn failures_are_terminal_or_retried() {
    assert_eq!(
        JobError::from_error(AppError::RoleLinkNotFound),
        JobError::Terminal(s("role link no longer exists upstream"))
    );
    assert_eq!(
        JobError::from_error(AppError::UserLimitReached { limit: 5 }),
        JobError::Terminal(s("role link user limit reached (5); retry won't help"))
    );
    assert_eq!(
        JobError::from_error(AppError::Internal(s("x"))),
        JobError::Retry(s("Internal error: x"))
    );
    assert_eq!(
        JobError::from_webhook(WebhookFailure { message: s("m"), terminal: true }),
        JobError::Terminal(s("m"))
    );
}

#[test]
fn jobs_are_settled() {
    let mut j = job("webhook", Value::Null);
    assert_eq!(settle(&j, Ok(())), Settlement::Complete);
    assert_eq!(settle(&j, Err(JobError::Terminal(s("t")))), Settlement::Dead(s("t")));
    assert_eq!(settle(&j, Err(JobError::Retry(s("r")))), Settlement::Retry(s("r")));
    j.attempts = 8;
    assert_eq!(settle(&j, Err(JobError::Retry(s("r")))), Settlement::Dead(s("r")));
}

#[test]
fn a_worker_claims_works_and_rests() {
    let tick = |shutdown| WorkerEvent::Tick { shutdown, since_reap_secs: 0 };
    let (at, a) = job_worker::run(Worker::Pulling, tick(false));
    assert_eq!((at, a), (Worker::Claiming, WorkerAction::Claim));
    let (at, _) = job_worker::run(at, WorkerEvent::Claimed { jobs: 2 });
    let (at, a) = job_worker::run(at, tick(false));
    assert_eq!(a, WorkerAction::RunNext);
    let (at, _) = job_worker::run(at, WorkerEvent::JobSettled);
    let (at, a) = job_worker::run(at, tick(true));
    assert_eq!(a, WorkerAction::ReleaseNext);
    let (at, _) = job_worker::run(at, WorkerEvent::JobSettled);
    assert_eq!(job_worker::run(at, tick(true)), (Worker::Stopped, WorkerAction::Stop));
    let (at, a) = job_worker::run(Worker::Claiming, WorkerEvent::Claimed { jobs: 0 });
    assert_eq!((at, a), (Worker::Resting, WorkerAction::WaitOrStop));
    let (_, a) = job_worker::run(
        Worker::Pulling,
        WorkerEvent::Tick { shutdown: false, since_reap_secs: 120 },
    );
    assert_eq!(a, WorkerAction::Reap);
}

#[test]
fn a_listener_reconnects() {
    let (at, a) = job_listener::run(Listener::Idle, ListenerEvent::Tick { shutdown: false });
    assert_eq!(a, ListenerAction::Connect);
    let (at, a) = job_listener::run(at, ListenerEvent::Connected);
    assert_eq!(a, ListenerAction::Listen);
    let (at, a) = job_listener::run(at, ListenerEvent::Listening);
    assert_eq!(a, ListenerAction::Receive);
    let (at, a) = job_listener::run(at, ListenerEvent::Notified);
    assert_eq!(a, ListenerAction::WakeAndReceive);
    let (at, _) = job_listener::run(at, ListenerEvent::Failed);
    assert_eq!(
        job_listener::run(at, ListenerEvent::Tick { shutdown: true }),
        (Listener::Stopped, ListenerAction::Stop)
    );
    let (at, a) = job_listener::run(Listener::Connecting, ListenerEvent::Failed);
    assert_eq!((at, a), (Listener::BackingOff, ListenerAction::BackOff));
}

#[test]
fn a_backfill_runs_once() {
    let (at, a) = resync_all_form_links(Backfill::Beginning, BackfillEvent::Changed { rows: 0 });
    assert_eq!(a, BackfillAction::Claim);
    let (_, a) = resync_all_form_links(at, BackfillEvent::Changed { rows: 0 });
    assert_eq!(a, BackfillAction::RollBack);
    let (at, a) = resync_all_form_links(at, BackfillEvent::Changed { rows: 1 });
    assert_eq!(a, BackfillAction::Enqueue);
    let (at, a) = resync_all_form_links(at, BackfillEvent::Changed { rows: 9 });
    assert_eq!(a, BackfillAction::Commit);
    let (at, _) = resync_all_form_links(at, BackfillEvent::Changed { rows: 0 });
    assert_eq!(at, Backfill::Over { done: true });
}

#[test]
fn rapid_edits_coalesce() {
    let none = vec![];
    assert_eq!(
        queue_config_sync(&none, "1", "2"),
        Queueing::Insert(enqueue_config_sync("1", "2"))
    );
    let pending = vec![(7, s("1"), s("3")), (8, s("1"), s("2")), (9, s("1"), s("2"))];
    assert_eq!(
        queue_config_sync(&pending, "1", "2"),
        Queueing::Postpone { job: 8, delay_secs: 5 }
    );
    assert_eq!(
        queue_config_sync(&pending, "2", "2"),
        Queueing::Insert(enqueue_config_sync("2", "2"))
    );
}

#[test]
fn failed_syncs_are_run_again() {
    let j = job("player_sync", Value::Null);
    let down = AppError::RoleLogic(s("Add user failed: 503"));
    assert_eq!(
        settle(&j, Err(JobError::from_error(down))),
        Settlement::Retry(s("RoleLogic API error: Add user failed: 503"))
    );
}
