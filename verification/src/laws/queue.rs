//! What the job queue is for: work that is asked for is done, tried again while that may
//! help, and never lost.

use vstd::prelude::*;

use crate::error::Failure;
use crate::json::Json;
use crate::services::jobs;
use crate::services::jobs::{Entering, PlayerEvent};
use crate::services::webhook::Setback;
use crate::tasks::job_listener::{Listener, ListenerEvent};
use crate::tasks::job_worker::{Trouble, Verdict, Work, Worker, WorkerAction, WorkerEvent};
use crate::tasks::startup_backfill::{Backfill, BackfillEvent};
use crate::tasks::{job_listener, job_worker, startup_backfill};

verus! {

/// The value that stands at a place of an object whose earlier keys are others is the one
/// under its key.
pub proof fn lemma_field_at(fields: Seq<(Seq<char>, Json)>, i: int)
    requires
        0 <= i < fields.len(),
        forall|j: int| 0 <= j < i ==> (#[trigger] fields[j]).0 != fields[i].0,
    ensures
        Json::Record(fields).field(fields[i].0) == Some(fields[i].1),
{
    let keys = crate::json::record_keys(fields);
    crate::table::lemma_index_from(keys, fields[i].0, 0);
    assert(keys[i] == fields[i].0);
    let at = crate::table::index_of(keys, fields[i].0)->0;
    assert(at <= i);
    assert(keys[at] == fields[at].0);
}

/// A job that succeeds is complete. One that fails for a passing reason is tried again
/// while it has attempts left. Any other failure is kept as a dead letter. The reason is
/// kept word for word.
pub proof fn law_jobs_are_settled_by_their_outcome(
    attempts: i32,
    max_attempts: i32,
    outcome: Result<(), Trouble>,
    reason: Seq<char>,
)
    ensures
        ({
            let v = job_worker::settled(attempts, max_attempts, outcome);
            &&& v is Complete <==> outcome is Ok
            &&& v == Verdict::Retry(reason) <==> outcome == Err::<(), Trouble>(Trouble::Retry(reason))
                && attempts < max_attempts
            &&& v == Verdict::Dead(reason) <==> outcome == Err::<(), Trouble>(
                Trouble::Terminal(reason),
            ) || (outcome == Err::<(), Trouble>(Trouble::Retry(reason)) && attempts >= max_attempts)
        }),
{
}

/// The only failures of a sync that are given up are those of a link that is gone and of
/// one that is full; every other is tried again, and says what happened.
pub proof fn law_only_hopeless_syncs_are_given_up(e: Failure)
    ensures
        ({
            let t = job_worker::sync_trouble(e);
            &&& t is Terminal <==> e is RoleLinkNotFound || e is UserLimitReached
            &&& t is Retry ==> t == Trouble::Retry(e.message())
        }),
{
}

/// A failed delivery is given up just where it says so.
pub proof fn law_deliveries_say_whether_they_are_given_up(f: Setback)
    ensures
        job_worker::webhook_trouble(f) == Trouble::Terminal(f.message) <==> f.terminal,
        job_worker::webhook_trouble(f) == Trouble::Retry(f.message) <==> !f.terminal,
{
}

/// A job that is enqueued asks for just what it was enqueued for, under its own kind and
/// after its own delay: a config sync after five seconds, the others at once.
pub proof fn law_jobs_ask_for_what_they_were_enqueued_for(
    event: PlayerEvent,
    guild_id: Seq<char>,
    role_id: Seq<char>,
    url: Seq<char>,
    body: Json,
)
    ensures
        ({
            let player = jobs::player_task(event);
            let config = jobs::config_task(guild_id, role_id);
            let hook = jobs::webhook_task(url, body);
            &&& player.kind is PlayerSync && player.delay_secs == 0
            &&& player.payload.field("discord_id"@) == Some(
                match event {
                    PlayerEvent::Updated(id) => Json::Text(id),
                    PlayerEvent::Unlinked(id) => Json::Text(id),
                },
            )
            &&& player.payload.field("event"@) == Some(
                match event {
                    PlayerEvent::Updated(_) => Json::Text("updated"@),
                    PlayerEvent::Unlinked(_) => Json::Text("unlinked"@),
                },
            )
            &&& config.kind is ConfigSync && config.delay_secs == 5
            &&& config.payload.field("guild_id"@) == Some(Json::Text(guild_id))
            &&& config.payload.field("role_id"@) == Some(Json::Text(role_id))
            &&& hook.kind is Webhook && hook.delay_secs == 0
            &&& hook.payload.field("url"@) == Some(Json::Text(url))
            &&& hook.payload.field("body"@) == Some(body)
        }),
{
    reveal_strlit("discord_id");
    reveal_strlit("event");
    reveal_strlit("guild_id");
    reveal_strlit("role_id");
    reveal_strlit("body");
    reveal_strlit("url");
    assert("discord_id"@[0] == 'd' && "event"@[0] == 'e' && "guild_id"@[0] == 'g' && "role_id"@[0]
        == 'r' && "body"@[0] == 'b' && "url"@[0] == 'u');
    let player = jobs::player_payload(event)->Record_0;
    assert(player.len() == 2 && player[0].0 == "discord_id"@ && player[1].0 == "event"@);
    lemma_field_at(player, 0);
    lemma_field_at(player, 1);
    let config = jobs::config_payload(guild_id, role_id)->Record_0;
    assert(config.len() == 2 && config[0].0 == "guild_id"@ && config[1].0 == "role_id"@);
    lemma_field_at(config, 0);
    lemma_field_at(config, 1);
    let hook = jobs::webhook_payload(url, body)->Record_0;
    assert(hook.len() == 2 && hook[0].0 == "body"@ && hook[1].0 == "url"@);
    lemma_field_at(hook, 0);
    lemma_field_at(hook, 1);
}

/// What a job says of its work is what is done: a job has work to do just where its kind
/// is known and its payload names the work, and a job without work is a dead letter.
pub proof fn law_jobs_with_a_whole_payload_are_run(
    kind: Seq<char>,
    payload: Json,
    player: Result<PlayerEvent, Seq<char>>,
)
    ensures
        ({
            let r = job_worker::planned(kind, payload, player);
            let guild = payload.field("guild_id"@);
            let role = payload.field("role_id"@);
            let url = payload.field("url"@);
            let body = payload.field("body"@);
            &&& r is Err ==> (r->Err_0 is Terminal)
            &&& kind == "player_sync"@ ==> (r is Ok <==> player is Ok)
            &&& kind == "player_sync"@ && player is Ok ==> (match player->Ok_0 {
                PlayerEvent::Updated(id) => r == Ok::<Work, Trouble>(Work::SyncPlayer(id)),
                PlayerEvent::Unlinked(id) => r == Ok::<Work, Trouble>(Work::RemoveAssignments(id)),
            })
            &&& kind == "config_sync"@ ==> (r is Ok <==> (guild is Some && guild->0 is Text && role
                is Some && role->0 is Text))
            &&& kind == "config_sync"@ && r is Ok ==> r->Ok_0 == Work::SyncRoleLink(
                guild->0->Text_0,
                role->0->Text_0,
            )
            &&& kind == "webhook"@ ==> (r is Ok <==> (url is Some && url->0 is Text && body is Some))
            &&& kind == "webhook"@ && r is Ok ==> r->Ok_0 == Work::Deliver(url->0->Text_0, body->0)
            &&& kind != "player_sync"@ && kind != "config_sync"@ && kind != "webhook"@ ==> r is Err
        }),
{
    reveal_strlit("player_sync");
    reveal_strlit("config_sync");
    reveal_strlit("webhook");
    assert("player_sync"@[0] == 'p');
    assert("config_sync"@[0] == 'c');
    assert("webhook"@[0] == 'w');
}

/// A config sync is put off where one of the same link is pending, by five seconds, and
/// is put in the queue where none is.
pub proof fn law_pending_syncs_are_put_off(
    pending: Seq<(i64, Seq<char>, Seq<char>)>,
    guild_id: Seq<char>,
    role_id: Seq<char>,
)
    ensures
        ({
            let e = jobs::entering(pending, guild_id, role_id);
            let waits = exists|i: int|
                0 <= i < pending.len() && (#[trigger] pending[i]).1 == guild_id && pending[i].2
                    == role_id;
            &&& e is Postpone <==> waits
            &&& e is Insert <==> !waits
            &&& e matches Entering::Postpone { job, delay_secs } ==> delay_secs == 5 && pending.contains(
                (job, guild_id, role_id),
            )
            &&& e matches Entering::Insert(task) ==> task == jobs::config_task(guild_id, role_id)
        }),
    decreases pending.len(),
{
    if pending.len() > 0 {
        let rest = pending.skip(1);
        law_pending_syncs_are_put_off(rest, guild_id, role_id);
        if pending[0].1 == guild_id && pending[0].2 == role_id {
            assert(pending[0] == (pending[0].0, guild_id, role_id));
            assert(pending.contains((pending[0].0, guild_id, role_id)));
        } else {
            assert forall|i: int|
                0 <= i < pending.len() && (#[trigger] pending[i]).1 == guild_id && pending[i].2
                    == role_id implies exists|j: int|
                0 <= j < rest.len() && (#[trigger] rest[j]).1 == guild_id && rest[j].2
                    == role_id by {
                assert(rest[i - 1] == pending[i]);
            }
            assert forall|j: int| 0 <= j < rest.len() implies #[trigger] rest[j] == pending[j
                + 1] by {}
            if let Entering::Postpone { job, delay_secs } = jobs::entering(rest, guild_id, role_id) {
                let j = choose|j: int|
                    0 <= j < rest.len() && rest[j] == (job, guild_id, role_id);
                assert(pending[j + 1] == rest[j]);
            }
        }
    }
}

/// The wait before a job is tried again.
pub proof fn law_waits_double(attempt: int)
    ensures
        attempt <= 1 ==> jobs::base_delay(attempt) == 2_000,
        1 <= attempt < 8 ==> jobs::base_delay(attempt + 1) == 2 * jobs::base_delay(attempt),
        attempt >= 8 ==> jobs::base_delay(attempt) == 256_000,
{
    vstd::arithmetic::power2::lemma2_to64();
}

/// Where a worker is after so many of its jobs are settled.
pub open spec fn after_settling(at: Worker, jobs: nat) -> Worker
    decreases jobs,
{
    if jobs == 0 {
        at
    } else {
        job_worker::worker_step(after_settling(at, (jobs - 1) as nat), WorkerEvent::JobSettled).0
    }
}

/// A worker that is not to stop claims jobs, gives stuck ones back first where that is
/// due, and waits where there are none.
pub proof fn law_workers_claim_and_wait(since_reap_secs: u64, jobs: usize)
    ensures
        ({
            let looked = job_worker::worker_step(
                Worker::Pulling,
                WorkerEvent::Tick { shutdown: false, since_reap_secs },
            );
            let reaped = job_worker::worker_step(Worker::Reaping, WorkerEvent::Reaped);
            let claimed = job_worker::worker_step(
                Worker::Claiming,
                WorkerEvent::Claimed { jobs },
            );
            &&& looked == (Worker::Reaping, WorkerAction::Reap) <==> since_reap_secs >= 120
            &&& looked == (Worker::Claiming, WorkerAction::Claim) <==> since_reap_secs < 120
            &&& reaped == (Worker::Claiming, WorkerAction::Claim)
            &&& claimed == (Worker::Resting, WorkerAction::WaitOrStop) <==> jobs == 0
            &&& claimed.0 == (Worker::Working { left: jobs }) <==> jobs > 0
            &&& job_worker::worker_step(Worker::Claiming, WorkerEvent::ClaimFailed) == (
                Worker::Resting,
                WorkerAction::SleepOrStop,
            )
            &&& job_worker::worker_step(Worker::Resting, WorkerEvent::Woken).0 is Pulling
        }),
{
}

/// A worker runs each job that it has claimed, and claims again after the last of them,
/// not before.
pub proof fn law_workers_settle_all_they_claimed(claimed: usize, settled: nat, since: u64)
    requires
        claimed > 0,
        settled <= claimed,
    ensures
        ({
            let at = after_settling(Worker::Working { left: claimed }, settled);
            &&& settled < claimed ==> at == (Worker::Working { left: (claimed - settled) as usize })
            &&& settled == claimed ==> at is Pulling
            &&& settled < claimed ==> job_worker::worker_step(
                at,
                WorkerEvent::Tick { shutdown: false, since_reap_secs: since },
            ) == (at, WorkerAction::RunNext)
        }),
    decreases settled,
{
    if settled > 0 {
        law_workers_settle_all_they_claimed(claimed, (settled - 1) as nat, since);
    }
}

/// Workers look for jobs every two seconds, claim eight at a time, and give back those
/// whose lock has been held for three quarters of an hour; a listener waits five seconds
/// before it connects again.
pub proof fn law_tasks_keep_their_times()
    ensures
        job_worker::POLL_INTERVAL_SECS == 2,
        job_worker::BATCH_SIZE == 8,
        job_worker::STUCK_LOCK_SECS == 45 * 60,
        job_worker::REAP_EVERY_SECS == 2 * 60,
        job_listener::RECONNECT_BACKOFF_SECS == 5,
        crate::services::webhook::TIMEOUT_SECS == 5,
        crate::services::webhook::DNS_TIMEOUT_SECS == 2,
        jobs::JOBS_CHANNEL@ == "jobs_pending"@,
        startup_backfill::MEMBERSHIP_RESYNC@ == "membership_model_resync_v1"@,
{
}

/// A listener connects, subscribes, and wakes the workers at each notification; where one
/// of the first two fails it waits before it tries again.
pub proof fn law_listeners_subscribe_and_wake(at: Listener, event: ListenerEvent)
    ensures
        ({
            let (next, action) = job_listener::listener_step(at, event);
            &&& action is WakeAndReceive <==> at is Subscribed && event is Notified
            &&& action is Connect <==> at is Idle && event == (ListenerEvent::Tick {
                shutdown: false,
            })
            &&& action is Listen <==> at is Connecting && event is Connected
            &&& action is Receive <==> at is Subscribing && event is Listening
            &&& action is BackOff <==> (at is Connecting || at is Subscribing) && event is Failed
            &&& action is Stop <==> next is Stopped
            &&& next is Stopped <==> at is Stopped || (at is Idle && event
                == (ListenerEvent::Tick { shutdown: true })) || ((at is Subscribed || at
                is BackingOff) && event is ShutdownAsked)
            &&& action is Connect ==> next is Connecting
            &&& action is Listen ==> next is Subscribing
            &&& action is Receive || action is WakeAndReceive ==> next is Subscribed
            &&& action is BackOff ==> next is BackingOff
            &&& at is BackingOff && event is Rested ==> next is Idle
            &&& at is Subscribed && event is Failed ==> next is Idle
        }),
{
}

/// A backfill whose moves all succeed is done: it begins, writes the marker, enqueues its
/// work and commits. It is done in no other way, and a failure between takes back what
/// was written.
pub proof fn law_backfills_are_done_by_four_moves(
    at: Backfill,
    event: BackfillEvent,
    begun: u64,
    enqueued: u64,
    committed: u64,
)
    ensures
        ({
            let a = startup_backfill::backfill_step(
                Backfill::Beginning,
                BackfillEvent::Changed { rows: begun },
            );
            let b = startup_backfill::backfill_step(a.0, BackfillEvent::Changed { rows: 1 });
            let c = startup_backfill::backfill_step(
                b.0,
                BackfillEvent::Changed { rows: enqueued },
            );
            let d = startup_backfill::backfill_step(
                c.0,
                BackfillEvent::Changed { rows: committed },
            );
            &&& a.1 is Claim && b.1 is Enqueue && c.1 is Commit && d.1 is Finish
            &&& d.0 == (Backfill::Over { done: true })
        }),
        ({
            let (next, action) = startup_backfill::backfill_step(at, event);
            &&& at !is Over && event is Failed ==> next == (Backfill::Over { done: false })
            &&& action is RollBack <==> ((at is Claiming || at is Enqueueing) && event is Failed)
                || (at is Claiming && event is Changed && event->rows != 1)
            &&& at !is Over && next == (Backfill::Over { done: true }) ==> at is Committing && event
                is Changed
        }),
{
}

} // verus!
