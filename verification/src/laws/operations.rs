//! What the operations give: every call does what the laws say of it.

use vstd::prelude::*;

use crate::error::{AppError, DatabaseError, ErrorReply, FieldError};
use crate::json::{Json, NumberTable, Value};
use crate::models::condition::{Condition, ConditionOperator};
use crate::models::form::{FormSchema, Question, QuestionKind};
use crate::routes::form_render;
use crate::routes::form_render::{
    FormRow, Graded, Submission, SubmitAnswer, SubmitRequest, Visit, Write,
};
use crate::routes::role_config;
use crate::routes::role_config::{FormChoice, LinkSettings, RoleSave, SaveAnswer};
use crate::schema;
use crate::schema::{ConditionInput, ParsedConfig, RoleConfigBody};
use crate::services::condition_eval::{ConditionBind, ResponseEvalData};
use crate::services::form_validator::VerifiedAnswers;
use crate::services::jobs::{Job, JobKind, NewJob, PlayerSyncPayload, Queueing};
use crate::services::retry::{
    AcceptedAttempt, DenyReason, ExistingAttempt, NewSubmission, RetryConfig, RetryPolicy,
};
use crate::services::rolelogic::{Call, Upload, UploadEvent};
use crate::services::sync::{
    FollowUp, LinkAnswer, LinkSync, PlayerAnswer, PlayerSync, RoleAction, RoleLink, StoredResponse,
    UnlinkAnswer, Unlinking,
};
use crate::services::webhook::{Delivery, IpAddr, Lookup, Posted};
use crate::services::{condition_eval, form_validator, jobs, retry, rolelogic, sync, webhook};
use crate::tasks::job_listener::{Listener, ListenerAction, ListenerEvent};
use crate::tasks::job_worker::{
    JobError, JobPlan, Settlement, Worker, WorkerAction, WorkerEvent,
};
use crate::tasks::startup_backfill::{Backfill, BackfillAction, BackfillEvent};
use crate::tasks::{job_listener, job_worker, startup_backfill};
use crate::time::Timestamp;

verus! {

/// Evaluating the conditions of a link tells whether the role is granted: for any
/// submission, or where there are conditions and each of them holds.
pub proof fn law_evaluation_tells_who_is_granted(
    any: bool,
    conditions: &[Condition],
    c: &Condition,
    data: &ResponseEvalData,
    actual: &Value,
    numbers: &NumberTable,
    r: bool,
)
    ensures
        call_ensures(condition_eval::evaluate, (any, conditions, data), r) ==> (r <==> any || (
        conditions@.len() > 0 && forall|i: int|
            0 <= i < conditions@.len() ==> condition_eval::holds(
                (#[trigger] conditions@[i])@,
                data@,
            ))),
        call_ensures(condition_eval::evaluate_single, (c, data), r) ==> (r
            <==> condition_eval::holds(c@, data@)),
        call_ensures(condition_eval::meets_condition, (actual, c, numbers), r) ==> (r
            <==> condition_eval::meets(actual@, c@, numbers@)),
{
    let rules = crate::models::condition::rules(conditions@);
    assert forall|i: int| 0 <= i < conditions@.len() implies #[trigger] rules[i]
        == conditions@[i]@ by {}
    assert((forall|i: int| 0 <= i < rules.len() ==> condition_eval::holds(#[trigger] rules[i], data@))
        <==> forall|i: int|
        0 <= i < conditions@.len() ==> condition_eval::holds((#[trigger] conditions@[i])@, data@)) by {
        if forall|i: int|
            0 <= i < rules.len() ==> condition_eval::holds(#[trigger] rules[i], data@) {
            assert forall|i: int| 0 <= i < conditions@.len() implies condition_eval::holds(
                (#[trigger] conditions@[i])@,
                data@,
            ) by {
                assert(rules[i] == conditions@[i]@);
            }
        }
    }
}

/// The clause that is built for conditions is the one that the laws on queries speak of,
/// with its parameters.
pub proof fn law_clauses_are_built_for_all_conditions(
    conditions: &[Condition],
    some: &Vec<Condition>,
    offset: usize,
    r: (String, Vec<ConditionBind>),
)
    ensures
        call_ensures(condition_eval::build_condition_where, (conditions, offset), r) ==> {
            let clause = condition_eval::where_clause(
                crate::models::condition::rules(conditions@),
                offset as nat,
            );
            &&& r.0@ == clause.0
            &&& condition_eval::bind_views(r.1@) == clause.1
        },
        call_ensures(sync::candidates_query, (some,), r) ==> {
            let rules = crate::models::condition::rules(some@);
            &&& r.0@ == sync::candidates_sql(rules)
            &&& condition_eval::bind_views(r.1@) == condition_eval::where_clause(rules, 2).1
        },
{
}

/// Deciding on an attempt gives the decision that the laws on attempts speak of.
pub proof fn law_attempts_are_decided_on(
    now: Timestamp,
    config: &RetryConfig,
    existing: Option<&ExistingAttempt>,
    new: &NewSubmission,
    r: Result<AcceptedAttempt, DenyReason>,
    enabled: bool,
    name: &str,
    policy: RetryPolicy,
)
    ensures
        call_ensures(retry::decide, (now, config, existing, new), r) ==> r == retry::decision(
            now,
            *config,
            if existing is Some {
                Some(*existing->0)
            } else {
                None
            },
            *new,
        ),
        call_ensures(RetryConfig::retries_enabled, (config,), enabled) ==> (enabled
            <==> config.max_attempts != 1 || config.cooldown_seconds > 0),
        call_ensures(RetryPolicy::from_str_or_default, (name,), policy) ==> (policy is KeepLatest
            <==> name@ == "keep_latest"@),
{
}

/// Validating an answer, or all of them, gives what the laws on answers speak of.
pub proof fn law_answers_are_validated(
    q: &Question,
    raw: Option<&Value>,
    numbers: &NumberTable,
    one: Result<Option<Value>, String>,
    form: &FormSchema,
    answers: &Value,
    all: Result<VerifiedAnswers, Vec<FieldError>>,
    email: &str,
    b: bool,
)
    ensures
        call_ensures(form_validator::check_answer, (q, raw, numbers), one)
            ==> form_validator::checked(one) == form_validator::answer_checked(
            *q,
            if raw is Some {
                Some(raw->0@)
            } else {
                None
            },
            numbers@,
        ),
        call_ensures(form_validator::validate, (form, answers, numbers), all) ==> {
            let wrong = form_validator::answer_faults(form.asked(), answers@, numbers@);
            &&& all is Ok <==> answers@ is Record && wrong.len() == 0
            &&& all is Ok ==> all->Ok_0@ == form_validator::normalized(
                form.asked(),
                answers@,
                numbers@,
            )
            &&& all is Err && answers@ is Record ==> crate::error::faults(all->Err_0@) == wrong
        },
        call_ensures(form_validator::looks_like_email, (email,), b) ==> (b
            <==> form_validator::is_email_shaped(email@)),
{
}

/// What validation gave tells the answer to a question just where one was stored.
pub proof fn law_stored_answers_can_be_had(
    verified: &VerifiedAnswers,
    key: &str,
    r: Option<&Value>,
    whole: Value,
    k: Seq<char>,
)
    ensures
        call_ensures(VerifiedAnswers::get, (verified, key), r) ==> {
            &&& r is Some <==> verified@.contains_key(key@)
            &&& r is Some ==> r->0@ == verified@[key@]
        },
        call_ensures(VerifiedAnswers::to_value, (verified,), whole) ==> {
            &&& whole@ is Record
            &&& whole@.field(k) is Some <==> verified@.contains_key(k)
            &&& verified@.contains_key(k) ==> whole@.field(k)->0 == verified@[k]
        },
{
}

/// Grading and checking a form give what the laws on grading and on forms speak of.
pub proof fn law_forms_are_checked_and_graded(
    form: &FormSchema,
    verified: &VerifiedAnswers,
    numbers: &NumberTable,
    score: i32,
    count: usize,
    q: &Question,
    b: bool,
    r: Result<(), Vec<String>>,
)
    ensures
        call_ensures(form_validator::compute_quiz_score, (form, verified, numbers), score) ==> score
            == form_validator::quiz_score(form.asked(), verified@, numbers@),
        call_ensures(form_validator::quiz_graded_count, (form,), count) ==> count
            == form_validator::graded_count(form.asked()),
        call_ensures(form_validator::is_graded, (q,), b) ==> (b <==> form_validator::graded(*q)),
        call_ensures(form_validator::sanity_check, (form,), r) ==> {
            &&& r is Ok <==> form_validator::form_errors(*form).len() == 0
            &&& r is Err ==> crate::text::texts(r->Err_0@) == form_validator::form_errors(*form)
        },
        call_ensures(form_validator::validate_quiz_keys, (form,), r) ==> {
            &&& r is Ok <==> form_validator::all_key_errors(form.asked()).len() == 0
            &&& r is Err ==> crate::text::texts(r->Err_0@) == form_validator::all_key_errors(
                form.asked(),
            )
        },
{
}

/// The syncs of members and links go on as the laws on syncs say.
pub proof fn law_syncs_go_on(
    link: &RoleLink,
    response: &Option<StoredResponse>,
    assigned: &Vec<(String, String)>,
    action: Option<RoleAction>,
    player: PlayerSync,
    answer: PlayerAnswer,
    discord_id: &str,
    next: PlayerSync,
    at: LinkSync,
    found: LinkAnswer,
    then: LinkSync,
)
    ensures
        call_ensures(sync::plan_action, (link, response, assigned), action) ==> {
            let needed = sync::needed_change(
                link@,
                sync::response_view(*response),
                sync::pairs(assigned@),
            );
            &&& action is Some <==> needed is Some
            &&& action is Some ==> action->0@ == needed->0
        },
        call_ensures(sync::sync_for_player, (), next) ==> next@ is FetchGuilds,
        call_ensures(sync::player_sync_next, (player, answer, discord_id), next) ==> next@
            == sync::player_next(player@, answer@, discord_id@),
        call_ensures(sync::sync_for_role_link, (), then) ==> then@ is LoadLink,
        call_ensures(sync::link_sync_next, (at, found), then) ==> then@ == sync::link_next(
            at@,
            found@,
        ),
{
}

/// What comes of calls for roles is what the laws on syncs say.
pub proof fn law_calls_are_followed_up(
    call: &Result<bool, AppError>,
    follow_up: FollowUp,
    results: Vec<Result<bool, AppError>>,
    r: Result<(), AppError>,
    total: usize,
    at: Unlinking,
    answer: UnlinkAnswer,
    next: Unlinking,
)
    ensures
        call_ensures(sync::after_call, (call,), follow_up) ==> follow_up == sync::follow_up(
            sync::flagged(*call),
        ),
        call_ensures(sync::sum_up_calls, (results,), r) ==> sync::outcome(r) == sync::calls_outcome(
            sync::flags(results@),
        ),
        call_ensures(sync::remove_all_assignments, (total,), next) ==> next@ == sync::unlink_at(
            0,
            total as nat,
            None,
        ),
        call_ensures(sync::unlinking_next, (at, answer, total), next) ==> next@
            == sync::unlink_next(at@, answer@, total as nat),
{
}

/// A visit and a submission go on as the laws on submissions say.
pub proof fn law_submissions_go_on(
    base_url: &str,
    form: &FormRow,
    slug: &str,
    now: Timestamp,
    visitor: Option<&str>,
    guilds: Option<&Vec<String>>,
    visit: Visit,
    at: Submission,
    answer: SubmitAnswer,
    req: &SubmitRequest,
    next: Submission,
    has_cookie: bool,
    has_session: bool,
)
    ensures
        call_ensures(form_render::get_form, (base_url, form, slug, now, visitor), visit) ==> visit@
            == form_render::visited(
            base_url@,
            *form,
            slug@,
            now,
            if visitor is Some {
                Some(visitor->0@)
            } else {
                None
            },
        ),
        call_ensures(form_render::membership_checked, (base_url, form, guilds), visit) ==> visit@
            == form_render::membership_seen(base_url@, *form, form_render::some_texts(guilds)),
        call_ensures(form_render::submission_next, (at, answer, req), next) ==> next@
            == form_render::submit_next(at@, answer@, *req),
        call_ensures(form_render::post_submit, (visitor, has_cookie, has_session), next) ==> {
            let away = form_render::turned_away(
                if visitor is Some {
                    Some(visitor->0@)
                } else {
                    None
                },
                has_cookie,
                has_session,
            );
            &&& away is None <==> next@ is LoadForm
            &&& away is Some ==> next@ == form_render::SubmitStage::Done(Err(away->0))
        },
{
}

/// A preview is shown just to a caller with the form's token.
pub proof fn law_previews_need_the_token(
    template: &str,
    base_url: &str,
    form: &FormRow,
    slug: &str,
    query: &form_render::PreviewQuery,
    r: Result<String, AppError>,
    b: bool,
)
    ensures
        call_ensures(form_render::get_preview, (template, base_url, form, slug, query), r) ==> {
            &&& r is Ok <==> query.token@ == form.preview_token@
            &&& r is Err ==> r->Err_0@ is Forbidden
            &&& r is Ok ==> r->Ok_0@ == form_render::form_body(
                template@,
                base_url@,
                *form,
                slug@,
                "preview"@,
                "Preview"@,
                true,
            )
        },
        call_ensures(form_render::constant_time_eq, (template, slug), b) ==> (b <==> template@
            == slug@),
{
}

/// Grading, writing and telling of a submission give what the laws on submissions say.
pub proof fn law_submissions_are_graded_and_written(
    form: &FormRow,
    schema: Result<FormSchema, String>,
    answers: &Value,
    numbers: &NumberTable,
    g: Result<Graded, AppError>,
    now: Timestamp,
    prior: Option<ExistingAttempt>,
    graded: Graded,
    w: Result<Write, AppError>,
    message: &str,
    passed: Option<bool>,
    id: &str,
    reply: Value,
)
    ensures
        call_ensures(form_render::grade, (form, schema, answers, numbers), g) ==> {
            let wanted = form_render::grading(*form, schema, answers@, numbers@);
            &&& g is Ok <==> wanted is Ok
            &&& g is Ok ==> g->Ok_0@ == wanted->Ok_0
            &&& g is Err ==> g->Err_0@ == wanted->Err_0
        },
        call_ensures(form_render::plan_write, (form, now, prior, graded), w) ==> {
            let wanted = form_render::entry(*form, now, prior, graded@);
            &&& w is Ok <==> wanted is Ok
            &&& w is Ok ==> w->Ok_0@ == wanted->Ok_0
            &&& w is Err ==> w->Err_0@ == wanted->Err_0
        },
        call_ensures(form_render::submit_reply, (message, passed, id), reply) ==> reply@
            == form_render::receipt(message@, passed, id@),
        call_ensures(form_render::hide_keys, (answers,), reply) ==> reply@
            == form_render::without_keys(answers@),
{
}

/// Posted configurations are parsed and saved as the laws on roles say.
pub proof fn law_configs_are_parsed(
    body: RoleConfigBody,
    form: Option<&FormSchema>,
    quiz: bool,
    r: Result<ParsedConfig, AppError>,
    index: usize,
    raw: &ConditionInput,
    c: Result<Condition, AppError>,
    op: ConditionOperator,
    value: &Value,
    v: Result<Value, AppError>,
    at: RoleSave,
    answer: SaveAnswer,
    guild_id: &str,
    role_id: &str,
    next: RoleSave,
)
    ensures
        call_ensures(schema::parse_role_config, (body, form, quiz), r) ==> {
            let wanted = schema::stored_config(body, schema::pointed(form), quiz);
            &&& r is Ok <==> wanted is Ok
            &&& r is Ok ==> r->Ok_0@ == wanted->Ok_0
            &&& r is Err ==> r->Err_0@ == crate::error::Failure::BadRequest(wanted->Err_0)
        },
        call_ensures(schema::validate_condition, (index, raw, form, quiz), c) ==> {
            let wanted = schema::stored_rule(
                *raw,
                schema::pointed(form),
                quiz,
                (index + 1) as nat,
            );
            &&& c is Ok <==> wanted is Ok
            &&& c is Ok ==> c->Ok_0@ == wanted->Ok_0
            &&& c is Err ==> c->Err_0@ == crate::error::Failure::BadRequest(wanted->Err_0)
        },
        call_ensures(schema::normalize_condition_value, (op, value, index), v) ==> {
            let wanted = schema::stored_value(op, value@, index as nat);
            &&& v is Ok <==> wanted is Ok
            &&& v is Ok ==> v->Ok_0@ == wanted->Ok_0
        },
        call_ensures(role_config::role_config_save, (body,), next) ==> next@
            == role_config::SaveStage::FindLink(body),
        call_ensures(role_config::role_save_next, (at, answer, guild_id, role_id), next) ==> next@
            == role_config::save_next(at@, answer, guild_id@, role_id@),
{
}

/// Calls to the role API are read and uploads go on as the laws on uploads say.
pub proof fn law_uploads_go_on(
    call: Call,
    status: u16,
    status_text: &str,
    body: &str,
    e: AppError,
    total: usize,
    at: Upload,
    event: UploadEvent,
    next: Upload,
    limit: Option<usize>,
    b: bool,
)
    ensures
        call_ensures(rolelogic::classify_failure, (call, status, status_text, body), e) ==> e@
            == rolelogic::call_failure(call, status, status_text@, body@),
        call_ensures(rolelogic::upload_users, (total,), next) ==> next@
            == rolelogic::first_transfer(total as nat),
        call_ensures(rolelogic::upload_next, (at, event, total), next) ==> next@
            == rolelogic::next_transfer(at@, event@, total as nat),
        call_ensures(rolelogic::parse_user_limit, (body,), limit) ==> limit
            == rolelogic::user_limit_in(body@),
        call_ensures(rolelogic::succeeded, (status,), b) ==> (b <==> 200 <= status <= 299),
{
}

/// A reply of the role API tells that a user was added or removed just where it says so
/// in its data, and a limit or an upload just where one is there.
pub proof fn law_role_replies_are_read(
    body: &Value,
    b: bool,
    n: usize,
    limit: Result<usize, AppError>,
    id: Result<String, AppError>,
)
    ensures
        ({
            let data = body@.field("data"@);
            let at = |key: Seq<char>|
                if data is Some {
                    data->0.field(key)
                } else {
                    None
                };
            &&& call_ensures(rolelogic::added, (body,), b) ==> (b <==> at("added"@) == Some(
                Json::Bool(true),
            ))
            &&& call_ensures(rolelogic::removed, (body,), b) ==> (b <==> at("removed"@) == Some(
                Json::Bool(true),
            ))
            &&& call_ensures(rolelogic::user_limit, (body,), limit) ==> (limit is Ok ==> at(
                "user_limit"@,
            ) == Some(Json::Number(crate::json::Numeral::PosInt(limit->Ok_0 as u64))))
            &&& call_ensures(rolelogic::user_limit, (body,), limit) && (at("user_limit"@) matches Some(
                Json::Number(crate::json::Numeral::PosInt(k)),
            ) && k <= usize::MAX) ==> limit is Ok
            &&& call_ensures(rolelogic::upload_id, (body,), id) ==> (id is Ok <==> (at(
                "upload_id"@,
            ) matches Some(v) && v is Text))
            &&& call_ensures(rolelogic::upload_id, (body,), id) && id is Ok ==> at("upload_id"@)
                == Some(Json::Text(id->Ok_0@))
            &&& call_ensures(rolelogic::user_count, (body,), n) && (at("user_count"@) matches Some(
                Json::Number(crate::json::Numeral::PosInt(k)),
            ) && k <= usize::MAX) ==> at("user_count"@) == Some(
                Json::Number(crate::json::Numeral::PosInt(n as u64)),
            )
        }),
{
}

/// Addresses are judged and deliveries go on as the laws on webhooks say.
pub proof fn law_deliveries_go_on(
    ip: IpAddr,
    url: &str,
    b: bool,
    lookup: &Lookup,
    posted: &Posted,
    next: Delivery,
)
    ensures
        call_ensures(webhook::is_safe_ip, (ip,), b) ==> (b <==> !ip.is_inner()),
        call_ensures(webhook::is_safe_url, (url,), b) ==> (b <==> webhook::is_safe_webhook(url@)),
        call_ensures(webhook::deliver_once, (url,), next) ==> next@ == webhook::first_move(url@),
        call_ensures(webhook::delivery_resolved, (lookup,), next) ==> next@
            == webhook::move_after_lookup(*lookup),
        call_ensures(webhook::delivery_posted, (posted,), next) ==> next@
            == webhook::move_after_post(*posted),
{
}

/// A failure is replied to as the laws on replies say.
pub proof fn law_failures_are_replied_to(e: AppError, d: &DatabaseError, r: ErrorReply, s: String)
    ensures
        call_ensures(AppError::into_response, (e,), r) ==> r@ == e@.reply(),
        call_ensures(AppError::message, (&e,), s) ==> s@ == e@.message(),
        call_ensures(crate::error::classify_db_error, (d,), r) ==> r@
            == crate::error::database_reply(
            crate::error::optional_text(d.code),
            crate::error::optional_text(d.constraint),
        ),
{
}

/// Jobs are put in the queue, read, run and settled as the laws on the queue say.
pub proof fn law_jobs_go_on(
    payload: &PlayerSyncPayload,
    guild_id: &str,
    role_id: &str,
    body: Value,
    new: NewJob,
    pending: &Vec<(i64, String, String)>,
    queueing: Queueing,
    attempt: i32,
    jitter: u64,
    delay: u64,
    job: &Job,
    player: Result<PlayerSyncPayload, String>,
    plan: Result<JobPlan, JobError>,
    outcome: Result<(), JobError>,
    settlement: Settlement,
    e: AppError,
    trouble: JobError,
)
    ensures
        call_ensures(jobs::enqueue_player_sync, (payload,), new) ==> new@ == jobs::player_task(
            payload@,
        ),
        call_ensures(jobs::enqueue_config_sync, (guild_id, role_id), new) ==> new@
            == jobs::config_task(guild_id@, role_id@),
        call_ensures(jobs::enqueue_webhook, (guild_id, body), new) ==> new@ == jobs::webhook_task(
            guild_id@,
            body@,
        ),
        call_ensures(jobs::queue_config_sync, (pending, guild_id, role_id), queueing) ==> queueing@
            == jobs::entering(jobs::pending_syncs(pending@), guild_id@, role_id@),
        call_ensures(jobs::jittered_delay, (attempt, jitter), delay) ==> delay == jobs::base_delay(
            attempt as int,
        ) + jitter,
        call_ensures(jobs::backoff_delay, (attempt,), delay) ==> jobs::base_delay(attempt as int)
            <= delay < jobs::base_delay(attempt as int) + 1000,
        call_ensures(job_worker::dispatch, (job, player), plan) ==> {
            let wanted = job_worker::planned(
                job.kind@,
                job.payload@,
                job_worker::player_view(player),
            );
            &&& plan is Ok <==> wanted is Ok
            &&& plan is Ok ==> plan->Ok_0@ == wanted->Ok_0
            &&& plan is Err ==> plan->Err_0@ == wanted->Err_0
        },
        call_ensures(job_worker::settle, (job, outcome), settlement) ==> settlement@
            == job_worker::settled(
            job.attempts,
            job.max_attempts,
            match outcome {
                Ok(_) => Ok(()),
                Err(t) => Err(t@),
            },
        ),
        call_ensures(JobError::from_error, (e,), trouble) ==> trouble@ == job_worker::sync_trouble(
            e@,
        ),
{
}

/// Workers, listeners and backfills take the steps that the laws on the queue speak of.
pub proof fn law_tasks_take_their_steps(
    worker: Worker,
    event: WorkerEvent,
    w: (Worker, WorkerAction),
    listener: Listener,
    heard: ListenerEvent,
    l: (Listener, ListenerAction),
    backfill: Backfill,
    done: BackfillEvent,
    b: (Backfill, BackfillAction),
)
    ensures
        call_ensures(job_worker::run, (worker, event), w) ==> w == job_worker::worker_step(
            worker,
            event,
        ),
        call_ensures(job_listener::run, (listener, heard), l) ==> l == job_listener::listener_step(
            listener,
            heard,
        ),
        call_ensures(startup_backfill::resync_all_form_links, (backfill, done), b) ==> b
            == startup_backfill::backfill_step(backfill, done),
{
}

/// The payload of a webhook and the pages are made as the laws on them say.
pub proof fn law_payloads_and_pages_are_made(
    title: &str,
    slug: &str,
    member: &str,
    discord_id: &str,
    id: &str,
    score: Option<i32>,
    base_url: &str,
    at: &str,
    payload: Value,
    form: &FormRow,
    page: String,
    link: Option<&LinkSettings>,
    forms: &Vec<FormChoice>,
    data: Result<Value, AppError>,
    row: Value,
    responses: i64,
    links: i64,
)
    ensures
        call_ensures(
            webhook::build_payload,
            (title, slug, member, discord_id, id, score, base_url, at),
            payload,
        ) ==> payload@ == webhook::payload(
            title@,
            slug@,
            member@,
            discord_id@,
            id@,
            score,
            base_url@,
            at@,
        ),
        call_ensures(form_render::render_status_page, (base_url, title, member), page) ==> page@
            == form_render::status_body(base_url@, title@, member@),
        call_ensures(form_render::render_signin_page, (base_url, form, slug), page) ==> page@
            == form_render::signin_body(base_url@, *form, slug@),
        call_ensures(role_config::role_config_data, (id, discord_id, link, forms), data) ==> {
            &&& data is Ok <==> link is Some
            &&& data is Ok ==> data->Ok_0@ == role_config::page_json(
                id@,
                discord_id@,
                *link->0,
                forms@,
            )
            &&& data is Err ==> data->Err_0@ is NotFound
        },
        call_ensures(crate::routes::admin::builder_data, (id, form, responses, links), row) ==> row@
            == crate::routes::admin::builder_json(id@, *form, responses, links),
        call_ensures(crate::routes::access::permission_url, (base_url, id), page) ==> page@
            == base_url@ + "/auth/guild_permission?guild_id="@ + crate::outside::percent_encoded(
            vstd::utf8::encode_utf8(id@),
        ),
{
}

/// Kinds of questions, operators and jobs are stored under these names.
pub proof fn law_names_are_stored(kind: QuestionKind, op: ConditionOperator, job: JobKind)
    ensures
        kind.name() == match kind {
            QuestionKind::ShortText => "short_text"@,
            QuestionKind::LongText => "long_text"@,
            QuestionKind::Number => "number"@,
            QuestionKind::SingleChoice => "single_choice"@,
            QuestionKind::MultiChoice => "multi_choice"@,
            QuestionKind::Dropdown => "dropdown"@,
            QuestionKind::Scale => "scale"@,
            QuestionKind::Date => "date"@,
            QuestionKind::Email => "email"@,
            QuestionKind::Agreement => "agreement"@,
            QuestionKind::Info => "info"@,
            QuestionKind::Image => "image"@,
            QuestionKind::Video => "video"@,
        },
        op.key() == match op {
            ConditionOperator::Eq => "eq"@,
            ConditionOperator::Neq => "neq"@,
            ConditionOperator::Contains => "contains"@,
            ConditionOperator::Regex => "regex"@,
            ConditionOperator::In => "in"@,
            ConditionOperator::ContainsAll => "contains_all"@,
            ConditionOperator::ContainsAny => "contains_any"@,
            ConditionOperator::NotContains => "not_contains"@,
            ConditionOperator::Gt => "gt"@,
            ConditionOperator::Gte => "gte"@,
            ConditionOperator::Lt => "lt"@,
            ConditionOperator::Lte => "lte"@,
            ConditionOperator::Between => "between"@,
            ConditionOperator::Before => "before"@,
            ConditionOperator::After => "after"@,
        },
        job.name() == match job {
            JobKind::PlayerSync => "player_sync"@,
            JobKind::ConfigSync => "config_sync"@,
            JobKind::Webhook => "webhook"@,
        },
{
}

} // verus!
