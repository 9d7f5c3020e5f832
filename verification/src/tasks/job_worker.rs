//! Job-polling worker: what it does next, what a job asks for, and what comes
//! of a job once it has run.
//!
//! Workers stop accepting new work on shutdown but finish whatever is in
//! flight.

use vstd::prelude::*;

use crate::error::{AppError, Failure};
use crate::json::{Json, Value};
use crate::numerals::usize_text;
use crate::services::jobs::{Job, JobKind, PlayerEvent, PlayerSyncPayload};
use crate::services::webhook::{Setback, WebhookFailure};
use crate::text::{cat3, owned};

verus! {

/// Fallback poll interval, in seconds. Workers wake when a job is enqueued;
/// polling only catches missed notifications and delayed jobs.
pub const POLL_INTERVAL_SECS: u64 = 2;

/// How many jobs are claimed at once.
pub const BATCH_SIZE: i64 = 8;

/// How long a lock may be held before its job is given back, in seconds.
/// Slightly larger than the longest legitimate sync.
pub const STUCK_LOCK_SECS: i64 = 2_700;

/// How often stuck jobs are looked for, in seconds.
pub const REAP_EVERY_SECS: u64 = 120;

// ---------------------------------------------------------------------------
// Failures of jobs
// ---------------------------------------------------------------------------

/// Distinguishes "give up forever" from "try again later". Lets the worker
/// short-circuit to the dead-letter queue when the cause clearly won't change
/// (e.g. the role link was deleted upstream).
#[derive(Debug, PartialEq)]
pub enum JobError {
    Terminal(String),
    Retry(String),
}

/// What a `JobError` stands for.
pub enum Trouble {
    Terminal(Seq<char>),
    Retry(Seq<char>),
}

impl View for JobError {
    type V = Trouble;

    open spec fn view(&self) -> Trouble {
        match *self {
            JobError::Terminal(s) => Trouble::Terminal(s@),
            JobError::Retry(s) => Trouble::Retry(s@),
        }
    }
}

/// What the failure of a sync means for its job.
pub open spec fn sync_trouble(f: Failure) -> Trouble {
    match f {
        Failure::RoleLinkNotFound => Trouble::Terminal("role link no longer exists upstream"@),
        Failure::UserLimitReached { limit } => Trouble::Terminal(
            "role link user limit reached ("@ + crate::numerals::nat_text(limit as nat)
                + "); retry won't help"@,
        ),
        _ => Trouble::Retry(f.message()),
    }
}

/// What a failed delivery means for its job.
pub open spec fn webhook_trouble(f: Setback) -> Trouble {
    if f.terminal {
        Trouble::Terminal(f.message)
    } else {
        Trouble::Retry(f.message)
    }
}

impl JobError {
    /// What the failure of a sync means for its job.
    pub fn from_error(e: AppError) -> (r: JobError)
        ensures
            r@ == sync_trouble(e@),
    {
        match e {
            AppError::RoleLinkNotFound => JobError::Terminal(
                owned("role link no longer exists upstream"),
            ),
            AppError::UserLimitReached { limit } => JobError::Terminal(
                cat3(
                    "role link user limit reached (",
                    usize_text(limit).as_str(),
                    "); retry won't help",
                ),
            ),
            other => JobError::Retry(other.message()),
        }
    }

    /// What a failed delivery means for its job.
    pub fn from_webhook(f: WebhookFailure) -> (r: JobError)
        ensures
            r@ == webhook_trouble(f@),
    {
        if f.terminal {
            JobError::Terminal(f.message)
        } else {
            JobError::Retry(f.message)
        }
    }
}

// ---------------------------------------------------------------------------
// What a job asks for
// ---------------------------------------------------------------------------

/// The work that a job asks for.
#[derive(Debug, PartialEq)]
pub enum JobPlan {
    SyncPlayer { discord_id: String },
    RemoveAssignments { discord_id: String },
    SyncRoleLink { guild_id: String, role_id: String },
    Deliver { url: String, body: Value },
}

/// What a `JobPlan` stands for.
#[verifier::ext_equal]
pub enum Work {
    SyncPlayer(Seq<char>),
    RemoveAssignments(Seq<char>),
    SyncRoleLink(Seq<char>, Seq<char>),
    Deliver(Seq<char>, Json),
}

impl View for JobPlan {
    type V = Work;

    open spec fn view(&self) -> Work {
        match *self {
            JobPlan::SyncPlayer { discord_id } => Work::SyncPlayer(discord_id@),
            JobPlan::RemoveAssignments { discord_id } => Work::RemoveAssignments(discord_id@),
            JobPlan::SyncRoleLink { guild_id, role_id } => Work::SyncRoleLink(guild_id@, role_id@),
            JobPlan::Deliver { url, body } => Work::Deliver(url@, body@),
        }
    }
}

/// The text under a key of a payload.
pub open spec fn payload_text(payload: Json, key: Seq<char>) -> Option<Seq<char>> {
    match payload.field(key) {
        Some(v) => v.text(),
        None => None,
    }
}

/// The work that a job asks for, or why there is none. `player` is what its
/// payload reads as, taken as that of a player sync, or why it does not.
pub open spec fn planned(
    kind: Seq<char>,
    payload: Json,
    player: Result<PlayerEvent, Seq<char>>,
) -> Result<Work, Trouble> {
    if kind == JobKind::PlayerSync.name() {
        match player {
            Ok(PlayerEvent::Updated(id)) => Ok(Work::SyncPlayer(id)),
            Ok(PlayerEvent::Unlinked(id)) => Ok(Work::RemoveAssignments(id)),
            Err(e) => Err(Trouble::Terminal("invalid player_sync payload: "@ + e)),
        }
    } else if kind == JobKind::ConfigSync.name() {
        match (payload_text(payload, "guild_id"@), payload_text(payload, "role_id"@)) {
            (None, _) => Err(Trouble::Terminal("config_sync payload missing guild_id"@)),
            (_, None) => Err(Trouble::Terminal("config_sync payload missing role_id"@)),
            (Some(guild_id), Some(role_id)) => Ok(Work::SyncRoleLink(guild_id, role_id)),
        }
    } else if kind == JobKind::Webhook.name() {
        match (payload_text(payload, "url"@), payload.field("body"@)) {
            (None, _) => Err(Trouble::Terminal("webhook payload missing url"@)),
            (_, None) => Err(Trouble::Terminal("webhook payload missing body"@)),
            (Some(url), Some(body)) => Ok(Work::Deliver(url, body)),
        }
    } else {
        Err(Trouble::Terminal("unknown job kind '"@ + kind + "'"@))
    }
}

/// The view of what a payload reads as.
pub open spec fn player_view(player: Result<PlayerSyncPayload, String>) -> Result<
    PlayerEvent,
    Seq<char>,
> {
    match player {
        Ok(p) => Ok(p@),
        Err(e) => Err(e@),
    }
}

fn text_field(payload: &Value, key: &str) -> (r: Option<String>)
    ensures
        match r {
            Some(s) => payload_text(payload@, key@) == Some(s@),
            None => payload_text(payload@, key@) is None,
        },
{
    match payload.get(key) {
        Some(v) => match v.as_str() {
            Some(s) => Some(owned(s)),
            None => None,
        },
        None => None,
    }
}

/// The work that a job asks for, or why there is none.
pub fn dispatch(job: &Job, player: Result<PlayerSyncPayload, String>) -> (r: Result<
    JobPlan,
    JobError,
>)
    ensures
        match r {
            Ok(plan) => planned(job.kind@, job.payload@, player_view(player)) == Ok::<
                Work,
                Trouble,
            >(plan@),
            Err(e) => planned(job.kind@, job.payload@, player_view(player)) == Err::<
                Work,
                Trouble,
            >(e@),
        },
{
    let kind = match JobKind::from_db(job.kind.as_str()) {
        Some(kind) => kind,
        None => {
            proof {
                assert(JobKind::PlayerSync.name() != job.kind@);
                assert(JobKind::ConfigSync.name() != job.kind@);
                assert(JobKind::Webhook.name() != job.kind@);
            }
            return Err(JobError::Terminal(cat3("unknown job kind '", job.kind.as_str(), "'")));
        },
    };
    proof {
        // at most one of the three names is that of the job
        if job.kind@ == JobKind::PlayerSync.name() {
            crate::services::jobs::law_job_kind_names_are_distinct(kind, JobKind::PlayerSync);
        }
        if job.kind@ == JobKind::ConfigSync.name() {
            crate::services::jobs::law_job_kind_names_are_distinct(kind, JobKind::ConfigSync);
        }
    }
    match kind {
        JobKind::PlayerSync => match player {
            Ok(PlayerSyncPayload::Updated { discord_id }) => Ok(JobPlan::SyncPlayer { discord_id }),
            Ok(PlayerSyncPayload::Unlinked { discord_id }) => Ok(
                JobPlan::RemoveAssignments { discord_id },
            ),
            Err(e) => Err(
                JobError::Terminal(
                    crate::text::cat2("invalid player_sync payload: ", e.as_str()),
                ),
            ),
        },
        JobKind::ConfigSync => {
            let guild_id = match text_field(&job.payload, "guild_id") {
                Some(s) => s,
                None => return Err(
                    JobError::Terminal(owned("config_sync payload missing guild_id")),
                ),
            };
            let role_id = match text_field(&job.payload, "role_id") {
                Some(s) => s,
                None => return Err(
                    JobError::Terminal(owned("config_sync payload missing role_id")),
                ),
            };
            Ok(JobPlan::SyncRoleLink { guild_id, role_id })
        },
        JobKind::Webhook => {
            let url = match text_field(&job.payload, "url") {
                Some(s) => s,
                None => return Err(JobError::Terminal(owned("webhook payload missing url"))),
            };
            match job.payload.get("body") {
                Some(body) => Ok(JobPlan::Deliver { url, body: body.copy() }),
                None => Err(JobError::Terminal(owned("webhook payload missing body"))),
            }
        },
    }
}

/// A config sync or a webhook delivery that is enqueued asks for just what it
/// was enqueued for.
pub proof fn law_enqueued_work_is_planned(
    guild_id: Seq<char>,
    role_id: Seq<char>,
    url: Seq<char>,
    body: Json,
    event: PlayerEvent,
    player: Result<PlayerEvent, Seq<char>>,
)
    ensures
        planned(
            JobKind::ConfigSync.name(),
            crate::services::jobs::config_payload(guild_id, role_id),
            player,
        ) == Ok::<Work, Trouble>(Work::SyncRoleLink(guild_id, role_id)),
        planned(
            JobKind::Webhook.name(),
            crate::services::jobs::webhook_payload(url, body),
            player,
        ) == Ok::<Work, Trouble>(Work::Deliver(url, body)),
        planned(
            JobKind::PlayerSync.name(),
            crate::services::jobs::player_payload(event),
            Ok(event),
        ) == Ok::<Work, Trouble>(
            match event {
                PlayerEvent::Updated(id) => Work::SyncPlayer(id),
                PlayerEvent::Unlinked(id) => Work::RemoveAssignments(id),
            },
        ),
{
    reveal_strlit("player_sync");
    reveal_strlit("config_sync");
    reveal_strlit("webhook");
    assert("player_sync"@[0] == 'p');
    assert("config_sync"@[0] == 'c');
    assert("webhook"@[0] == 'w');
    reveal_strlit("guild_id");
    reveal_strlit("role_id");
    reveal_strlit("body");
    reveal_strlit("url");
    assert("guild_id"@[0] == 'g' && "role_id"@[0] == 'r');
    assert("body"@[0] == 'b' && "url"@[0] == 'u');
    lemma_two_fields("guild_id"@, Json::Text(guild_id), "role_id"@, Json::Text(role_id));
    lemma_two_fields("body"@, body, "url"@, Json::Text(url));
}

proof fn lemma_two_fields(k1: Seq<char>, v1: Json, k2: Seq<char>, v2: Json)
    requires
        k1 != k2,
    ensures
        Json::empty().with(k1, v1).with(k2, v2).field(k1) == Some(v1),
        Json::empty().with(k1, v1).with(k2, v2).field(k2) == Some(v2),
{
    let j = Json::empty().with(k1, v1).with(k2, v2);
    let keys = crate::json::record_keys(j->Record_0);
    reveal_with_fuel(crate::table::index_from, 3);
    assert(keys.len() == 2 && keys[0] == k1 && keys[1] == k2);
}

// ---------------------------------------------------------------------------
// What comes of a job
// ---------------------------------------------------------------------------

/// What is recorded of a job that has run.
#[derive(Debug, PartialEq)]
pub enum Settlement {
    /// The job is done.
    Complete,
    /// The job goes to the dead-letter queue.
    Dead(String),
    /// The job goes back to the queue, with backoff.
    Retry(String),
}

/// What a `Settlement` stands for.
pub enum Verdict {
    Complete,
    Dead(Seq<char>),
    Retry(Seq<char>),
}

impl View for Settlement {
    type V = Verdict;

    open spec fn view(&self) -> Verdict {
        match *self {
            Settlement::Complete => Verdict::Complete,
            Settlement::Dead(s) => Verdict::Dead(s@),
            Settlement::Retry(s) => Verdict::Retry(s@),
        }
    }
}

/// What is recorded of a job that ended in `outcome`.
pub open spec fn settled(
    attempts: i32,
    max_attempts: i32,
    outcome: Result<(), Trouble>,
) -> Verdict {
    match outcome {
        Ok(_) => Verdict::Complete,
        Err(Trouble::Terminal(s)) => Verdict::Dead(s),
        Err(Trouble::Retry(s)) => if attempts >= max_attempts {
            Verdict::Dead(s)
        } else {
            Verdict::Retry(s)
        },
    }
}

/// What is recorded of a job that has run.
pub fn settle(job: &Job, outcome: Result<(), JobError>) -> (r: Settlement)
    ensures
        r@ == settled(
            job.attempts,
            job.max_attempts,
            match outcome {
                Ok(_) => Ok(()),
                Err(e) => Err(e@),
            },
        ),
{
    match outcome {
        Ok(_) => Settlement::Complete,
        Err(JobError::Terminal(s)) => Settlement::Dead(s),
        Err(JobError::Retry(s)) => if job.attempts >= job.max_attempts {
            Settlement::Dead(s)
        } else {
            Settlement::Retry(s)
        },
    }
}

/// A job is retried only while it has attempts left, so it runs at most
/// `max_attempts` times; and a cause that won't change is never retried.
pub proof fn law_jobs_are_retried_within_their_attempts(
    attempts: i32,
    max_attempts: i32,
    outcome: Result<(), Trouble>,
)
    ensures
        settled(attempts, max_attempts, outcome) is Retry ==> attempts < max_attempts,
        outcome matches Err(Trouble::Terminal(s)) ==> settled(attempts, max_attempts, outcome)
            is Dead,
        outcome is Err ==> settled(attempts, max_attempts, outcome) !is Complete,
{
}

/// A role link that is gone upstream, or that is full, is not tried again.
pub proof fn law_hopeless_syncs_are_terminal(limit: usize)
    ensures
        sync_trouble(Failure::RoleLinkNotFound) is Terminal,
        sync_trouble(Failure::UserLimitReached { limit }) is Terminal,
        forall|s: Seq<char>| #[trigger] sync_trouble(Failure::RoleLogic(s)) is Retry,
        forall|s: Seq<char>| #[trigger] sync_trouble(Failure::Internal(s)) is Retry,
{
}

/// A sync that ended in a failure worth trying again goes back to the queue with
/// that failure as its error, while the job has attempts left.
pub proof fn law_failed_syncs_go_back_to_the_queue(attempts: i32, max_attempts: i32, e: Failure)
    requires
        crate::services::sync::worth_retrying(e),
        attempts < max_attempts,
    ensures
        settled(attempts, max_attempts, Err(sync_trouble(e))) == Verdict::Retry(e.message()),
{
}

// ---------------------------------------------------------------------------
// The worker's loop
// ---------------------------------------------------------------------------

/// Where a worker is in its loop: about to pull, waiting for claimed jobs,
/// working through them, or stopped.
#[derive(Clone, Copy, Debug, PartialEq, Eq, Structural)]
pub enum Worker {
    Pulling,
    Reaping,
    Claiming,
    Resting,
    Working { left: usize },
    Stopped,
}

/// What happens to a worker.
#[derive(Clone, Copy, Debug, PartialEq, Eq, Structural)]
pub enum WorkerEvent {
    /// It looks up: whether shutdown has been asked for, and how long ago it
    /// last looked for stuck jobs.
    Tick { shutdown: bool, since_reap_secs: u64 },
    /// It has looked for stuck jobs.
    Reaped,
    /// The claim failed.
    ClaimFailed,
    /// So many jobs were claimed.
    Claimed { jobs: usize },
    /// A notification came, or the poll interval is over.
    Woken,
    /// Shutdown was asked for while it rested.
    ShutdownAsked,
    /// The job in hand is settled.
    JobSettled,
}

/// What a worker does next.
#[derive(Clone, Copy, Debug, PartialEq, Eq, Structural)]
pub enum WorkerAction {
    /// Look up.
    LookUp,
    /// Give stuck jobs back.
    Reap,
    /// Claim a batch.
    Claim,
    /// Wait for the poll interval or shutdown.
    SleepOrStop,
    /// Wait for a notification, the poll interval or shutdown.
    WaitOrStop,
    /// Run and settle the next claimed job.
    RunNext,
    /// Give the next claimed job back to the queue.
    ReleaseNext,
    /// Stop.
    Stop,
}

/// What a worker does when something happens, and where it is then. An event
/// that does not belong to where the worker is changes nothing.
pub open spec fn worker_step(at: Worker, event: WorkerEvent) -> (Worker, WorkerAction) {
    match (at, event) {
        (Worker::Pulling, WorkerEvent::Tick { shutdown, since_reap_secs }) => if shutdown {
            (Worker::Stopped, WorkerAction::Stop)
        } else if since_reap_secs >= REAP_EVERY_SECS {
            (Worker::Reaping, WorkerAction::Reap)
        } else {
            (Worker::Claiming, WorkerAction::Claim)
        },
        (Worker::Reaping, WorkerEvent::Reaped) => (Worker::Claiming, WorkerAction::Claim),
        (Worker::Claiming, WorkerEvent::ClaimFailed) => (
            Worker::Resting,
            WorkerAction::SleepOrStop,
        ),
        (Worker::Claiming, WorkerEvent::Claimed { jobs }) => if jobs == 0 {
            (Worker::Resting, WorkerAction::WaitOrStop)
        } else {
            (Worker::Working { left: jobs }, WorkerAction::LookUp)
        },
        (Worker::Resting, WorkerEvent::Woken) => (Worker::Pulling, WorkerAction::LookUp),
        (Worker::Resting, WorkerEvent::ShutdownAsked) => (Worker::Stopped, WorkerAction::Stop),
        (Worker::Working { left }, WorkerEvent::Tick { shutdown, since_reap_secs }) => (
            at,
            if shutdown {
                WorkerAction::ReleaseNext
            } else {
                WorkerAction::RunNext
            },
        ),
        (Worker::Working { left }, WorkerEvent::JobSettled) => if left <= 1 {
            (Worker::Pulling, WorkerAction::LookUp)
        } else {
            (Worker::Working { left: (left - 1) as usize }, WorkerAction::LookUp)
        },
        (Worker::Stopped, _) => (Worker::Stopped, WorkerAction::Stop),
        _ => (at, WorkerAction::LookUp),
    }
}

/// What a worker does when something happens.
pub fn run(at: Worker, event: WorkerEvent) -> (r: (Worker, WorkerAction))
    ensures
        r == worker_step(at, event),
{
    match (at, event) {
        (Worker::Pulling, WorkerEvent::Tick { shutdown, since_reap_secs }) => if shutdown {
            (Worker::Stopped, WorkerAction::Stop)
        } else if since_reap_secs >= REAP_EVERY_SECS {
            (Worker::Reaping, WorkerAction::Reap)
        } else {
            (Worker::Claiming, WorkerAction::Claim)
        },
        (Worker::Reaping, WorkerEvent::Reaped) => (Worker::Claiming, WorkerAction::Claim),
        (Worker::Claiming, WorkerEvent::ClaimFailed) => (
            Worker::Resting,
            WorkerAction::SleepOrStop,
        ),
        (Worker::Claiming, WorkerEvent::Claimed { jobs }) => if jobs == 0 {
            (Worker::Resting, WorkerAction::WaitOrStop)
        } else {
            (Worker::Working { left: jobs }, WorkerAction::LookUp)
        },
        (Worker::Resting, WorkerEvent::Woken) => (Worker::Pulling, WorkerAction::LookUp),
        (Worker::Resting, WorkerEvent::ShutdownAsked) => (Worker::Stopped, WorkerAction::Stop),
        (Worker::Working { left }, WorkerEvent::Tick { shutdown, since_reap_secs }) => {
            if shutdown {
                // Give the lock back so that another replica can pick the job
                // up; its attempt was counted, so backoff still protects
                // against a hot loop of restarts.
                (at, WorkerAction::ReleaseNext)
            } else {
                (at, WorkerAction::RunNext)
            }
        },
        (Worker::Working { left }, WorkerEvent::JobSettled) => if left <= 1 {
            (Worker::Pulling, WorkerAction::LookUp)
        } else {
            (Worker::Working { left: left - 1 }, WorkerAction::LookUp)
        },
        (Worker::Stopped, _) => (Worker::Stopped, WorkerAction::Stop),
        _ => (at, WorkerAction::LookUp),
    }
}

/// Once shutdown is asked for, a worker starts no job and claims none: it gives
/// back the jobs it holds, and stops when it holds none.
pub proof fn law_shutdown_drains_the_worker(at: Worker, since_reap_secs: u64)
    ensures
        ({
            let (_next, action) = worker_step(
                at,
                WorkerEvent::Tick { shutdown: true, since_reap_secs },
            );
            action != WorkerAction::RunNext && action != WorkerAction::Claim
        }),
        worker_step(Worker::Pulling, WorkerEvent::Tick { shutdown: true, since_reap_secs }).0
            is Stopped,
        forall|left: usize|
            (#[trigger] worker_step(
                Worker::Working { left },
                WorkerEvent::Tick { shutdown: true, since_reap_secs },
            )).1 is ReleaseNext,
        worker_step(Worker::Resting, WorkerEvent::ShutdownAsked).0 is Stopped,
{
}

} // verus!
