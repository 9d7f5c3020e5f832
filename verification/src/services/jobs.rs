//! Durable background-job queue: job kinds, payloads and backoff.
//!
//! Events survive replica crashes, any replica can pick up a job, transient
//! failures retry with exponential backoff and jitter, and permanently-failing
//! jobs land in a dead-letter queue instead of silently disappearing.

use vstd::prelude::*;

use crate::json::{no_fields, object, push_field, text};
use crate::json::{Json, Value};
use crate::outside::random_below;
use crate::text::same;

verus! {

/// Notification channel that is fired when an immediately-runnable job has been
/// inserted.
pub const JOBS_CHANNEL: &'static str = "jobs_pending";

/// How long a config sync is held back, so that rapid edits coalesce, in
/// seconds.
pub const CONFIG_SYNC_DELAY_SECS: u64 = 5;

#[derive(Clone, Copy, Debug, PartialEq, Eq, Structural)]
pub enum JobKind {
    PlayerSync,
    ConfigSync,
    Webhook,
}

impl JobKind {
    /// The name of the kind in the queue.
    pub open spec fn name(self) -> Seq<char> {
        match self {
            JobKind::PlayerSync => "player_sync"@,
            JobKind::ConfigSync => "config_sync"@,
            JobKind::Webhook => "webhook"@,
        }
    }

    /// The name of the kind in the queue.
    pub fn as_str(&self) -> (r: &'static str)
        ensures
            r@ == self.name(),
    {
        match self {
            JobKind::PlayerSync => "player_sync",
            JobKind::ConfigSync => "config_sync",
            JobKind::Webhook => "webhook",
        }
    }

    /// The kind with the name.
    pub fn from_db(s: &str) -> (r: Option<JobKind>)
        ensures
            match r {
                Some(kind) => kind.name() == s@,
                None => forall|kind: JobKind| kind.name() != s@,
            },
    {
        if same(s, "player_sync") {
            Some(JobKind::PlayerSync)
        } else if same(s, "config_sync") {
            Some(JobKind::ConfigSync)
        } else if same(s, "webhook") {
            Some(JobKind::Webhook)
        } else {
            assert forall|kind: JobKind| kind.name() != s@ by {
                match kind {
                    JobKind::PlayerSync => {},
                    JobKind::ConfigSync => {},
                    JobKind::Webhook => {},
                }
            }
            None
        }
    }
}

/// No two kinds share a name, so a name reads back as its kind.
pub proof fn law_job_kind_names_are_distinct(a: JobKind, b: JobKind)
    requires
        a.name() == b.name(),
    ensures
        a == b,
{
    reveal_strlit("player_sync");
    reveal_strlit("config_sync");
    reveal_strlit("webhook");
    assert("player_sync"@[0] == 'p');
    assert("config_sync"@[0] == 'c');
    assert("webhook"@[0] == 'w');
}

/// A claimed job.
#[derive(Debug, PartialEq)]
pub struct Job {
    pub id: i64,
    pub kind: String,
    pub payload: Value,
    pub attempts: i32,
    pub max_attempts: i32,
}

/// What a player sync is about.
#[derive(Debug, PartialEq)]
pub enum PlayerSyncPayload {
    /// A user submitted/edited a form: re-evaluate role assignments for them.
    Updated { discord_id: String },
    /// The user unlinked their Discord: remove all assignments for them.
    Unlinked { discord_id: String },
}

/// What a `PlayerSyncPayload` stands for.
pub enum PlayerEvent {
    Updated(Seq<char>),
    Unlinked(Seq<char>),
}

impl View for PlayerSyncPayload {
    type V = PlayerEvent;

    open spec fn view(&self) -> PlayerEvent {
        match *self {
            PlayerSyncPayload::Updated { discord_id } => PlayerEvent::Updated(discord_id@),
            PlayerSyncPayload::Unlinked { discord_id } => PlayerEvent::Unlinked(discord_id@),
        }
    }
}

/// A job to be put in the queue: it becomes runnable after the delay.
#[derive(Debug, PartialEq)]
pub struct NewJob {
    pub kind: JobKind,
    pub payload: Value,
    pub delay_secs: u64,
}

/// What a `NewJob` stands for.
pub struct Task {
    pub kind: JobKind,
    pub payload: Json,
    pub delay_secs: u64,
}

impl View for NewJob {
    type V = Task;

    open spec fn view(&self) -> Task {
        Task { kind: self.kind, payload: self.payload@, delay_secs: self.delay_secs }
    }
}

/// The views of a list of new jobs.
pub open spec fn tasks(jobs: Seq<NewJob>) -> Seq<Task> {
    jobs.map_values(|j: NewJob| j@)
}

/// The payload of a player sync, as it is stored.
pub open spec fn player_payload(e: PlayerEvent) -> Json {
    match e {
        PlayerEvent::Updated(id) => Json::empty()
            .with("discord_id"@, Json::Text(id))
            .with("event"@, Json::Text("updated"@)),
        PlayerEvent::Unlinked(id) => Json::empty()
            .with("discord_id"@, Json::Text(id))
            .with("event"@, Json::Text("unlinked"@)),
    }
}

/// The payload of a config sync, as it is stored.
pub open spec fn config_payload(guild_id: Seq<char>, role_id: Seq<char>) -> Json {
    Json::empty().with("guild_id"@, Json::Text(guild_id)).with("role_id"@, Json::Text(role_id))
}

/// The payload of a webhook delivery, as it is stored.
pub open spec fn webhook_payload(url: Seq<char>, body: Json) -> Json {
    Json::empty().with("body"@, body).with("url"@, Json::Text(url))
}

/// The job that re-evaluates the roles of a member.
pub open spec fn player_task(e: PlayerEvent) -> Task {
    Task { kind: JobKind::PlayerSync, payload: player_payload(e), delay_secs: 0 }
}

/// The job that re-evaluates a role link.
pub open spec fn config_task(guild_id: Seq<char>, role_id: Seq<char>) -> Task {
    Task {
        kind: JobKind::ConfigSync,
        payload: config_payload(guild_id, role_id),
        delay_secs: CONFIG_SYNC_DELAY_SECS,
    }
}

/// The job that delivers a webhook.
pub open spec fn webhook_task(url: Seq<char>, body: Json) -> Task {
    Task { kind: JobKind::Webhook, payload: webhook_payload(url, body), delay_secs: 0 }
}

/// The job that re-evaluates the roles of a member.
pub fn enqueue_player_sync(payload: &PlayerSyncPayload) -> (r: NewJob)
    ensures
        r@ == player_task(payload@),
{
    let mut o = no_fields();
    match payload {
        PlayerSyncPayload::Updated { discord_id } => {
            push_field(&mut o, "discord_id", text(discord_id.as_str()));
            push_field(&mut o, "event", text("updated"));
        },
        PlayerSyncPayload::Unlinked { discord_id } => {
            push_field(&mut o, "discord_id", text(discord_id.as_str()));
            push_field(&mut o, "event", text("unlinked"));
        },
    }
    NewJob { kind: JobKind::PlayerSync, payload: object(o), delay_secs: 0 }
}

/// The job that re-evaluates a role link. It is held back to absorb autosave
/// bursts: `queue_config_sync` says how it gets into the queue.
pub fn enqueue_config_sync(guild_id: &str, role_id: &str) -> (r: NewJob)
    ensures
        r@ == config_task(guild_id@, role_id@),
{
    let mut o = no_fields();
    push_field(&mut o, "guild_id", text(guild_id));
    push_field(&mut o, "role_id", text(role_id));
    NewJob { kind: JobKind::ConfigSync, payload: object(o), delay_secs: CONFIG_SYNC_DELAY_SECS }
}

/// The job that delivers a webhook.
pub fn enqueue_webhook(url: &str, body: Value) -> (r: NewJob)
    ensures
        r@ == webhook_task(url@, body@),
{
    let mut o = no_fields();
    push_field(&mut o, "body", body);
    push_field(&mut o, "url", text(url));
    NewJob { kind: JobKind::Webhook, payload: object(o), delay_secs: 0 }
}

// ---------------------------------------------------------------------------
// Coalescing
// ---------------------------------------------------------------------------

/// How a config sync gets into the queue.
#[derive(Debug, PartialEq)]
pub enum Queueing {
    /// Insert the job.
    Insert(NewJob),
    /// Let the job that is already pending wait for the delay from now on.
    Postpone { job: i64, delay_secs: u64 },
}

/// What a `Queueing` stands for.
pub enum Entering {
    Insert(Task),
    Postpone { job: i64, delay_secs: u64 },
}

impl View for Queueing {
    type V = Entering;

    open spec fn view(&self) -> Entering {
        match *self {
            Queueing::Insert(job) => Entering::Insert(job@),
            Queueing::Postpone { job, delay_secs } => Entering::Postpone { job, delay_secs },
        }
    }
}

/// The views of pending config syncs: the id of each, its guild and its role.
pub open spec fn pending_syncs(pending: Seq<(i64, String, String)>) -> Seq<
    (i64, Seq<char>, Seq<char>),
> {
    pending.map_values(|p: (i64, String, String)| (p.0, p.1@, p.2@))
}

/// The first of the pending config syncs that is for the role link.
pub open spec fn first_pending(
    pending: Seq<(i64, Seq<char>, Seq<char>)>,
    guild_id: Seq<char>,
    role_id: Seq<char>,
) -> Option<i64>
    decreases pending.len(),
{
    if pending.len() == 0 {
        None
    } else if pending[0].1 == guild_id && pending[0].2 == role_id {
        Some(pending[0].0)
    } else {
        first_pending(pending.skip(1), guild_id, role_id)
    }
}

/// How a config sync of the role link gets into a queue with these pending.
pub open spec fn entering(
    pending: Seq<(i64, Seq<char>, Seq<char>)>,
    guild_id: Seq<char>,
    role_id: Seq<char>,
) -> Entering {
    match first_pending(pending, guild_id, role_id) {
        Some(job) => Entering::Postpone { job, delay_secs: CONFIG_SYNC_DELAY_SECS },
        None => Entering::Insert(config_task(guild_id, role_id)),
    }
}

/// How a config sync of the role link gets into a queue in which `pending` are
/// the config syncs that have not started: rapid edits coalesce into one
/// re-evaluation after the last edit.
pub fn queue_config_sync(
    pending: &Vec<(i64, String, String)>,
    guild_id: &str,
    role_id: &str,
) -> (r: Queueing)
    ensures
        r@ == entering(pending_syncs(pending@), guild_id@, role_id@),
{
    let ghost all = pending_syncs(pending@);
    assert(all.skip(0) =~= all);
    for i in 0..pending.len()
        invariant
            all == pending_syncs(pending@),
            first_pending(all, guild_id@, role_id@) == first_pending(
                all.skip(i as int),
                guild_id@,
                role_id@,
            ),
    {
        let p = &pending[i];
        assert(all.skip(i as int)[0] == (p.0, p.1@, p.2@));
        if same(p.1.as_str(), guild_id) && same(p.2.as_str(), role_id) {
            return Queueing::Postpone { job: p.0, delay_secs: CONFIG_SYNC_DELAY_SECS };
        }
        assert(all.skip(i as int).skip(1) =~= all.skip(i + 1));
    }
    Queueing::Insert(enqueue_config_sync(guild_id, role_id))
}

/// A config sync that is pending, and when it is due.
pub struct Waiting {
    pub id: i64,
    pub guild_id: Seq<char>,
    pub role_id: Seq<char>,
    pub due: int,
}

impl Waiting {
    /// Whether it is for the role link.
    pub open spec fn is_for(self, guild_id: Seq<char>, role_id: Seq<char>) -> bool {
        self.guild_id == guild_id && self.role_id == role_id
    }
}

/// The pending config syncs, without when they are due.
pub open spec fn listed(waiting: Seq<Waiting>) -> Seq<(i64, Seq<char>, Seq<char>)> {
    waiting.map_values(|w: Waiting| (w.id, w.guild_id, w.role_id))
}

/// The pending config syncs once one more has entered, at the time `now`. A job
/// that is inserted gets the id `fresh`.
pub open spec fn after_entering(
    waiting: Seq<Waiting>,
    guild_id: Seq<char>,
    role_id: Seq<char>,
    fresh: i64,
    now: int,
) -> Seq<Waiting> {
    match entering(listed(waiting), guild_id, role_id) {
        Entering::Insert(task) => waiting.push(
            Waiting { id: fresh, guild_id, role_id, due: now + task.delay_secs },
        ),
        Entering::Postpone { job, delay_secs } => waiting.map_values(
            |w: Waiting|
                if w.id == job {
                    Waiting { due: now + delay_secs, ..w }
                } else {
                    w
                },
        ),
    }
}

/// Whether no two jobs share an id.
pub open spec fn ids_differ(waiting: Seq<Waiting>) -> bool {
    forall|i: int, j: int|
        0 <= i < j < waiting.len() ==> #[trigger] waiting[i].id != #[trigger] waiting[j].id
}

/// Whether at most one job is for the role link.
pub open spec fn at_most_one_waits(
    waiting: Seq<Waiting>,
    guild_id: Seq<char>,
    role_id: Seq<char>,
) -> bool {
    forall|i: int, j: int|
        0 <= i < j < waiting.len() ==> !(#[trigger] waiting[i].is_for(guild_id, role_id)
            && #[trigger] waiting[j].is_for(guild_id, role_id))
}

/// Whether one job is for the role link, due at `due`.
pub open spec fn one_waits_until(
    waiting: Seq<Waiting>,
    guild_id: Seq<char>,
    role_id: Seq<char>,
    due: int,
) -> bool {
    &&& at_most_one_waits(waiting, guild_id, role_id)
    &&& exists|k: int|
        0 <= k < waiting.len() && (#[trigger] waiting[k]).is_for(guild_id, role_id)
            && waiting[k].due == due
}

proof fn lemma_first_pending(waiting: Seq<Waiting>, guild_id: Seq<char>, role_id: Seq<char>)
    ensures
        match first_pending(listed(waiting), guild_id, role_id) {
            Some(job) => exists|k: int|
                0 <= k < waiting.len() && (#[trigger] waiting[k]).is_for(guild_id, role_id)
                    && waiting[k].id == job,
            None => forall|k: int|
                0 <= k < waiting.len() ==> !(#[trigger] waiting[k]).is_for(guild_id, role_id),
        },
    decreases waiting.len(),
{
    let all = listed(waiting);
    if waiting.len() > 0 {
        let rest = waiting.skip(1);
        assert(all[0] == (waiting[0].id, waiting[0].guild_id, waiting[0].role_id));
        assert(all.skip(1) =~= listed(rest));
        lemma_first_pending(rest, guild_id, role_id);
        if waiting[0].is_for(guild_id, role_id) {
            assert(waiting[0].id == first_pending(all, guild_id, role_id)->0);
        } else {
            match first_pending(listed(rest), guild_id, role_id) {
                Some(job) => {
                    let k = choose|k: int|
                        0 <= k < rest.len() && (#[trigger] rest[k]).is_for(guild_id, role_id)
                            && rest[k].id == job;
                    assert(waiting[k + 1] == rest[k]);
                },
                None => {
                    assert forall|k: int| 0 <= k < waiting.len() implies !(
                    #[trigger] waiting[k]).is_for(guild_id, role_id) by {
                        if k > 0 {
                            assert(waiting[k] == rest[k - 1]);
                        }
                    }
                },
            }
        }
    }
}

/// However often a role link is edited, one config sync of it is pending, and it
/// is due the delay after the last edit; the jobs of other links stay as they are.
pub proof fn law_rapid_edits_coalesce(
    waiting: Seq<Waiting>,
    guild_id: Seq<char>,
    role_id: Seq<char>,
    fresh: i64,
    now: int,
)
    requires
        ids_differ(waiting),
        at_most_one_waits(waiting, guild_id, role_id),
        forall|i: int| 0 <= i < waiting.len() ==> (#[trigger] waiting[i]).id != fresh,
    ensures
        ({
            let after = after_entering(waiting, guild_id, role_id, fresh, now);
            &&& one_waits_until(after, guild_id, role_id, now + CONFIG_SYNC_DELAY_SECS)
            &&& ids_differ(after)
            &&& after.len() >= waiting.len()
            &&& forall|i: int|
                0 <= i < waiting.len() && !(#[trigger] waiting[i]).is_for(guild_id, role_id)
                    ==> after[i] == waiting[i]
        }),
{
    lemma_first_pending(waiting, guild_id, role_id);
    let after = after_entering(waiting, guild_id, role_id, fresh, now);
    match first_pending(listed(waiting), guild_id, role_id) {
        Some(job) => {
            let k = choose|k: int|
                0 <= k < waiting.len() && (#[trigger] waiting[k]).is_for(guild_id, role_id)
                    && waiting[k].id == job;
            assert(after.len() == waiting.len());
            assert forall|i: int| 0 <= i < waiting.len() && i != k implies #[trigger] after[i]
                == waiting[i] by {
                assert(waiting[i].id != waiting[k].id);
            }
            assert(after[k].is_for(guild_id, role_id));
            assert forall|i: int, j: int| 0 <= i < j < after.len() implies !(
            #[trigger] after[i].is_for(guild_id, role_id) && #[trigger] after[j].is_for(
                guild_id,
                role_id,
            )) by {
                assert(after[i].is_for(guild_id, role_id) == waiting[i].is_for(guild_id, role_id));
                assert(after[j].is_for(guild_id, role_id) == waiting[j].is_for(guild_id, role_id));
            }
            assert forall|i: int, j: int| 0 <= i < j < after.len() implies #[trigger] after[i].id
                != #[trigger] after[j].id by {
                assert(after[i].id == waiting[i].id && after[j].id == waiting[j].id);
            }
        },
        None => {
            let k = waiting.len() as int;
            assert(after[k].is_for(guild_id, role_id));
            assert forall|i: int| 0 <= i < k implies #[trigger] after[i] == waiting[i] by {}
            assert forall|i: int, j: int| 0 <= i < j < after.len() implies !(
            #[trigger] after[i].is_for(guild_id, role_id) && #[trigger] after[j].is_for(
                guild_id,
                role_id,
            )) by {
                assert(after[i] == waiting[i]);
            }
            assert forall|i: int, j: int| 0 <= i < j < after.len() implies #[trigger] after[i].id
                != #[trigger] after[j].id by {
                assert(after[i] == waiting[i]);
                if j < k {
                    assert(after[j] == waiting[j]);
                }
            }
        },
    }
}

/// Of two edits of a role link for which nothing was pending, one config sync
/// comes, due the delay after the second.
pub proof fn law_two_edits_make_one_sync(
    waiting: Seq<Waiting>,
    guild_id: Seq<char>,
    role_id: Seq<char>,
    fresh: i64,
    fresher: i64,
    first: int,
    second: int,
)
    requires
        ids_differ(waiting),
        forall|i: int|
            0 <= i < waiting.len() ==> !(#[trigger] waiting[i]).is_for(guild_id, role_id)
                && waiting[i].id != fresh && waiting[i].id != fresher,
        fresh != fresher,
    ensures
        one_waits_until(
            after_entering(
                after_entering(waiting, guild_id, role_id, fresh, first),
                guild_id,
                role_id,
                fresher,
                second,
            ),
            guild_id,
            role_id,
            second + CONFIG_SYNC_DELAY_SECS,
        ),
{
    lemma_first_pending(waiting, guild_id, role_id);
    law_rapid_edits_coalesce(waiting, guild_id, role_id, fresh, first);
    let between = after_entering(waiting, guild_id, role_id, fresh, first);
    assert forall|i: int| 0 <= i < between.len() implies (#[trigger] between[i]).id != fresher by {
        if i < waiting.len() {
            assert(between[i] == waiting[i]);
        }
    }
    law_rapid_edits_coalesce(between, guild_id, role_id, fresher, second);
}

// ---------------------------------------------------------------------------
// Backoff
// ---------------------------------------------------------------------------

/// An attempt number, held between 1 and 8.
pub open spec fn capped_attempt(attempt: int) -> nat {
    if attempt < 1 {
        1
    } else if attempt > 8 {
        8
    } else {
        attempt as nat
    }
}

/// How long to wait before an attempt is repeated, in milliseconds: 2 seconds
/// after the first, doubled after each, at most 256 seconds.
pub open spec fn base_delay(attempt: int) -> nat {
    vstd::arithmetic::power2::pow2(capped_attempt(attempt)) * 1000
}

/// The delay after an attempt with the given jitter, in milliseconds.
pub fn jittered_delay(attempt: i32, jitter_ms: u64) -> (r: u64)
    requires
        jitter_ms < 1000,
    ensures
        r == base_delay(attempt as int) + jitter_ms,
{
    proof {
        vstd::arithmetic::power2::lemma2_to64();
    }
    let base_secs: u64 = if attempt <= 1 {
        2
    } else if attempt == 2 {
        4
    } else if attempt == 3 {
        8
    } else if attempt == 4 {
        16
    } else if attempt == 5 {
        32
    } else if attempt == 6 {
        64
    } else if attempt == 7 {
        128
    } else {
        256
    };
    base_secs * 1000 + jitter_ms
}

/// Exponential backoff with up-to-1s jitter, in milliseconds. Attempts 1..=7
/// wait 2s..128s; attempt 8 is capped at 256s. After 8 failures the job is dead.
pub fn backoff_delay(attempt: i32) -> (r: u64)
    ensures
        base_delay(attempt as int) <= r < base_delay(attempt as int) + 1000,
{
    jittered_delay(attempt, random_below(1000))
}

/// The wait never shrinks from one attempt to the next, doubles up to the
/// eighth, and is never below 2 or above 256 seconds.
pub proof fn law_backoff_grows_to_its_cap(attempt: int)
    ensures
        2_000 <= base_delay(attempt) <= 256_000,
        base_delay(attempt) <= base_delay(attempt + 1),
        1 <= attempt < 8 ==> base_delay(attempt + 1) == 2 * base_delay(attempt),
        attempt >= 8 ==> base_delay(attempt) == 256_000,
{
    vstd::arithmetic::power2::lemma2_to64();
}

} // verus!
