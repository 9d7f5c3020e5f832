//! What submissions are for: who may make them, and what becomes of them.

use vstd::prelude::*;

use crate::error::Failure;
use crate::json::{Json, RealView};
use crate::models::form::FormSchema;
use crate::routes::form_render;
use crate::routes::form_render::{
    Entry, FormRow, Grading, Sight, Storing, SubmitFinding, SubmitRequest, SubmitStage,
};
use crate::services::retry::{DenyReason, ExistingAttempt, NewSubmission};
use crate::services::{form_validator, retry};
use crate::time::Timestamp;

verus! {

/// Nanoseconds from the first instant to the second.
pub open spec fn nanos_between(a: Timestamp, b: Timestamp) -> int {
    (b.secs - a.secs) * 1_000_000_000 + b.nanos - a.nanos
}

/// Whether a form is open at the time `now`: from the instant it opens at to the one it
/// closes at, both of them included.
pub open spec fn is_open(form: FormRow, now: Timestamp) -> bool {
    &&& form.open_at matches Some(t) ==> nanos_between(t, now) >= 0
    &&& form.close_at matches Some(t) ==> nanos_between(now, t) >= 0
}

/// Whether an account is as old as a form asks for; one whose age is not known counts
/// as new.
pub open spec fn is_old_enough(form: FormRow, discord_id: Seq<char>, now: Timestamp) -> bool {
    form.min_account_age_days > 0 ==> (form_render::account_age(discord_id, now) matches Some(days)
        && days >= form.min_account_age_days)
}

/// The age of an account is the whole days since the millisecond that its number
/// counts from the start of 2015, cut to a second; nothing is known of an account whose
/// id is no number.
pub proof fn law_accounts_are_dated_by_their_number(
    discord_id: Seq<char>,
    number: u64,
    now: Timestamp,
)
    ensures
        crate::numerals::u64_of_text(discord_id) == Some(number) ==> (form_render::account_age(
            discord_id,
            now,
        ) matches Some(days) && {
            let millis = number as int / 4_194_304 + 1_420_070_400_000;
            let since = now.secs * 1_000_000_000 + now.nanos - (millis / 1000) * 1_000_000_000;
            &&& since >= 0 ==> days * 86_400_000_000_000 <= since < (days + 1)
                * 86_400_000_000_000
            &&& since < 0 ==> (days - 1) * 86_400_000_000_000 < since <= days
                * 86_400_000_000_000
        }),
        crate::numerals::u64_of_text(discord_id) is None ==> form_render::account_age(
            discord_id,
            now,
        ) is None,
{
}

/// A form takes a submission just where it is not archived, was answered in its current
/// version, is open, and the account is old enough; and the first of these that fails
/// is what the member is told.
pub proof fn law_open_forms_take_submissions(
    form: FormRow,
    slug: Seq<char>,
    version: i32,
    now: Timestamp,
    discord_id: Seq<char>,
)
    ensures
        ({
            let r = form_render::refusal(form, slug, version, now, discord_id);
            let current = form.version == version;
            let old = is_old_enough(form, discord_id, now);
            &&& r is None <==> !form.archived && current && is_open(form, now) && old
            &&& form.archived ==> r == Some(Failure::FormNotFound(slug))
            &&& !form.archived && !current ==> r == Some(Failure::StaleVersion)
            &&& !form.archived && current && !is_open(form, now) ==> r == Some(Failure::FormClosed)
            &&& !form.archived && current && is_open(form, now) && !old ==> (r matches Some(e) && e
                is Forbidden)
        }),
{
}

/// Before anything is looked up a submission is turned away just where it is a preview,
/// or no one is signed in.
pub proof fn law_members_are_signed_in(
    preview: Option<Seq<char>>,
    has_cookie: bool,
    has_session: bool,
)
    ensures
        ({
            let r = form_render::turned_away(preview, has_cookie, has_session);
            &&& r is None <==> preview != Some("1"@) && has_cookie && has_session
            &&& r matches Some(e) ==> (e is Forbidden <==> preview == Some("1"@))
            &&& r matches Some(e) ==> (e is UnauthorizedWith <==> preview != Some("1"@))
        }),
{
}

/// A form that is open to a submission has it graded; where the form asks for members of
/// the guild, only after the gateway has named the guild.
pub proof fn law_submissions_go_on_to_be_graded(
    form: FormRow,
    guilds: Seq<Seq<char>>,
    req: SubmitRequest,
)
    requires
        form_render::refusal(form, req.slug@, req.body.version, req.now, req.discord_id@) is None,
    ensures
        ({
            let first = form_render::submit_next(
                SubmitStage::LoadForm,
                SubmitFinding::Form(Ok(Some(form))),
                req,
            );
            let second = form_render::submit_next(first, SubmitFinding::Guilds(Ok(guilds)), req);
            &&& !form.require_verified ==> first == SubmitStage::ReadSchema(form)
            &&& form.require_verified ==> first == SubmitStage::FetchGuilds(form)
            &&& form.require_verified && guilds.contains(form.guild_id@) ==> second
                == SubmitStage::ReadSchema(form)
            &&& form.require_verified && !guilds.contains(form.guild_id@) ==> (second
                matches SubmitStage::Done(Err(e)) && e is Forbidden)
        }),
        form_render::submit_next(SubmitStage::LoadForm, SubmitFinding::Form(Ok(None)), req)
            == SubmitStage::Done(Err(Failure::FormNotFound(req.slug@))),
{
}

/// A form that refuses a submission ends it in the reason.
pub proof fn law_refused_submissions_end(form: FormRow, req: SubmitRequest, e: Failure)
    requires
        form_render::refusal(form, req.slug@, req.body.version, req.now, req.discord_id@) == Some(e),
    ensures
        form_render::submit_next(SubmitStage::LoadForm, SubmitFinding::Form(Ok(Some(form))), req)
            == SubmitStage::Done(Err(e)),
{
}

/// Answers that are an object and of which none is wrong are graded: what is stored is
/// what validation made of them, only a quiz has a score, and it is passed just where
/// the score reaches what is needed. Other answers are refused with all that is wrong.
pub proof fn law_right_answers_are_graded(
    form: FormRow,
    schema: FormSchema,
    message: String,
    answers: Json,
    numbers: spec_fn(Seq<char>) -> Option<RealView>,
)
    ensures
        ({
            let r = form_render::grading(form, Ok(schema), answers, numbers);
            let faults = form_validator::answer_faults(schema.asked(), answers, numbers);
            let stored = form_validator::normalized(schema.asked(), answers, numbers);
            &&& answers is Record && faults.len() == 0 ==> (r matches Ok(g) && {
                &&& g.answers == stored
                &&& g.total_score is Some <==> form.is_quiz
                &&& g.total_score is Some ==> g.total_score->0 == form_validator::quiz_score(
                    schema.asked(),
                    stored,
                    form_validator::with_stored(schema.asked(), answers, numbers),
                )
                &&& g.passed is Some <==> form.is_quiz && form.passing_score is Some
                &&& g.passed matches Some(p) ==> (p <==> g.total_score->0 >= form.passing_score->0)
            })
            &&& answers is Record && faults.len() > 0 ==> r == Err::<Grading, Failure>(
                Failure::ValidationFailed(faults),
            )
            &&& answers !is Record ==> (r matches Err(Failure::ValidationFailed(f)) && f.len() == 1)
        }),
        form_render::grading(form, Err(message), answers, numbers) matches Err(Failure::Internal(_)),
{
}

/// A graded submission is stored: at once where the form takes any number of responses,
/// and after the member's response was looked for where it keeps one. What was stored is
/// followed by its jobs, then by the commit, and then the member is told.
pub proof fn law_graded_submissions_are_stored(
    form: FormRow,
    schema: Result<FormSchema, String>,
    numbers: spec_fn(Seq<char>) -> Option<RealView>,
    g: Grading,
    prior: Option<ExistingAttempt>,
    req: SubmitRequest,
    w: Entry,
    id: Seq<char>,
)
    requires
        form_render::grading(form, schema, req.body.answers@, numbers) == Ok::<Grading, Failure>(g),
    ensures
        ({
            let first = form_render::submit_next(
                SubmitStage::ReadSchema(form),
                SubmitFinding::Schema { schema, numbers },
                req,
            );
            let second = form_render::submit_next(first, SubmitFinding::Prior(Ok(prior)), req);
            let kept = form.single_submission || form.is_quiz;
            let here = SubmitStage::Store {
                form,
                entry: w,
                total_score: g.total_score,
                passed: g.passed,
            };
            let stored = form_render::submit_next(here, SubmitFinding::Stored(Ok(id)), req);
            let queued = form_render::submit_next(stored, SubmitFinding::Enqueued(Ok(())), req);
            let last = form_render::submit_next(queued, SubmitFinding::Committed(Ok(())), req);
            let reply = form_render::receipt(form.success_message@, g.passed, id);
            &&& kept ==> first == SubmitStage::FindPrior(form, g)
            &&& !kept ==> (first matches SubmitStage::Store { form: f, entry, total_score, passed }
                && f == form && entry.how is Insert && entry.answers == g.answers && total_score
                == g.total_score && passed == g.passed)
            &&& kept && form_render::entry(form, req.now, prior, g) == Ok::<Entry, Failure>(w)
                ==> second == here
            &&& stored == (SubmitStage::Enqueue {
                jobs: form_render::follow_ups(form, req, id, g.total_score),
                reply,
            })
            &&& queued == SubmitStage::Commit(reply)
            &&& last == SubmitStage::Done(Ok(reply))
        }),
{
}

/// Each stored response is followed by a job that works the member's roles out, and,
/// where the form has the address of a webhook, by one that announces it there.
pub proof fn law_stored_responses_are_followed_up(
    form: FormRow,
    req: SubmitRequest,
    id: Seq<char>,
    score: Option<i32>,
)
    ensures
        ({
            let jobs = form_render::follow_ups(form, req, id, score);
            let announced = form.webhook_url is Some && crate::text::trimmed(
                form.webhook_url->0@,
            ).len() > 0;
            &&& jobs.len() == if announced {
                2int
            } else {
                1int
            }
            &&& jobs[0].kind is PlayerSync
            &&& jobs[0].payload.field("discord_id"@) == Some(Json::Text(req.discord_id@))
            &&& jobs[0].payload.field("event"@) == Some(Json::Text("updated"@))
            &&& announced ==> {
                &&& jobs[1].kind is Webhook
                &&& jobs[1].payload.field("url"@) == Some(Json::Text(form.webhook_url->0@))
                &&& jobs[1].payload.field("body"@) == Some(
                    crate::services::webhook::payload(
                        form.title@,
                        req.slug@,
                        req.display_name@,
                        req.discord_id@,
                        id,
                        score,
                        req.base_url@,
                        req.now.text(),
                    ),
                )
            }
        }),
{
    let body = crate::services::webhook::payload(
        form.title@,
        req.slug@,
        req.display_name@,
        req.discord_id@,
        id,
        score,
        req.base_url@,
        req.now.text(),
    );
    crate::laws::queue::law_jobs_ask_for_what_they_were_enqueued_for(
        crate::services::jobs::PlayerEvent::Updated(req.discord_id@),
        id,
        id,
        form.webhook_url->0@,
        body,
    );
}

/// How a response is written. A form that keeps any number of responses adds one. One
/// that keeps a single response and takes edits, which a quiz and a form with retries do
/// not, replaces it. Any other goes by the rules of retries, and tells what they say.
pub proof fn law_responses_are_written_by_the_rules(
    form: FormRow,
    now: Timestamp,
    prior: Option<ExistingAttempt>,
    g: Grading,
)
    ensures
        ({
            let r = form_render::entry(form, now, prior, g);
            let kept = form.single_submission || form.is_quiz;
            let one_shot = form.retry.max_attempts == 1 && form.retry.cooldown_seconds <= 0;
            let edited = form.allow_edits && !form.is_quiz && one_shot;
            let new = NewSubmission { total_score: g.total_score, passed: g.passed };
            let decided = retry::decision(now, form.retry, prior, new);
            &&& r matches Ok(w) ==> w.answers == g.answers && w.version == form.version
            &&& !kept || edited ==> (r matches Ok(w) && w.total_score == g.total_score && w.passed
                == g.passed)
            &&& !kept ==> (r matches Ok(w) && w.how is Insert)
            &&& kept && edited ==> (r matches Ok(w) && (w.how is Edit <==> prior is Some) && (w.how
                is Insert <==> prior is None))
            &&& kept && !edited && prior is None ==> (r matches Ok(w) && w.how is Insert)
            &&& kept && !edited && prior is Some ==> match decided {
                Ok(a) => r matches Ok(w) && w.total_score == a.total_score && w.passed == a.passed
                    && w.how == (Storing::Retry {
                    attempt_count: a.attempt_count,
                    overwrite_answers: a.overwrite_answers,
                }),
                Err(reason) => r matches Err(e) && (one_shot ==> e is DuplicateSubmission) && (
                !one_shot ==> match reason {
                    DenyReason::AlreadyPassed => e is AlreadyPassed,
                    DenyReason::AttemptsExhausted { max } => e == Failure::AttemptsExhausted { max },
                    DenyReason::Cooldown { retry_after_seconds, next_attempt_at } => e
                        == Failure::RetryCooldown { retry_after_seconds },
                }),
            }
        }),
{
}

/// A form is shown, or the visitor's membership asked for, just where the form is not
/// archived and open and the visitor is signed in with an account that is old enough;
/// membership is asked for just where the form asks for members.
pub proof fn law_forms_are_shown_to_everyone_entitled(
    base_url: Seq<char>,
    form: FormRow,
    slug: Seq<char>,
    now: Timestamp,
    visitor: Option<Seq<char>>,
    guilds: Option<Seq<Seq<char>>>,
)
    ensures
        ({
            let r = form_render::visited(base_url, form, slug, now, visitor);
            let entitled = !form.archived && is_open(form, now) && (visitor matches Some(id)
                && is_old_enough(form, id, now));
            &&& r is Show <==> entitled && !form.require_verified
            &&& r is CheckMembership <==> entitled && form.require_verified
            &&& r is Fail <==> form.archived
            &&& form.archived ==> r == Sight::Fail(Failure::FormNotFound(slug))
            &&& !form.archived && is_open(form, now) && visitor is None ==> r == Sight::Page(
                form_render::signin_body(base_url, form, slug),
            )
        }),
        form_render::membership_seen(base_url, form, guilds) is Show <==> (guilds matches Some(ids)
            && ids.contains(form.guild_id@)),
        form_render::membership_seen(base_url, form, guilds) is Show || form_render::membership_seen(
            base_url,
            form,
            guilds,
        ) is Page,
{
}

/// A visitor to whom a form is not shown is told why: when it opens, that it is closed,
/// how old an account has to be, or that membership is needed or could not be verified.
pub proof fn law_visitors_are_told_why(
    base_url: Seq<char>,
    form: FormRow,
    slug: Seq<char>,
    now: Timestamp,
    id: Seq<char>,
    guilds: Seq<Seq<char>>,
)
    requires
        !form.archived,
    ensures
        ({
            let told = |message: Seq<char>|
                Sight::Page(form_render::status_body(base_url, form.title@, message));
            let r = form_render::visited(base_url, form, slug, now, Some(id));
            let early = form.open_at is Some && nanos_between(form.open_at->0, now) < 0;
            let age = form_render::account_age(id, now);
            &&& early ==> r == told("This form opens at "@ + form.open_at->0.text() + "."@)
            &&& !early && !is_open(form, now) ==> r == told(
                "This form is no longer accepting submissions."@,
            )
            &&& is_open(form, now) && !is_old_enough(form, id, now) ==> r == told(
                "Your Discord account must be at least "@ + crate::numerals::int_text(
                    form.min_account_age_days as int,
                ) + " days old to submit this form (yours is "@ + crate::numerals::int_text(
                    if age is Some {
                        age->0
                    } else {
                        0
                    },
                ) + " days)."@,
            )
            &&& !guilds.contains(form.guild_id@) ==> form_render::membership_seen(
                base_url,
                form,
                Some(guilds),
            ) == told("You must be a member of the server before you can submit this form."@)
            &&& form_render::membership_seen(base_url, form, None) == told(
                "We couldn't verify your server membership right now. Please refresh in a moment."@,
            )
        }),
{
}

/// What stands in an object that one more field is set in.
pub proof fn lemma_with(o: Json, key: Seq<char>, value: Json, k: Seq<char>)
    requires
        o is Record,
    ensures
        o.with(key, value) is Record,
        o.with(key, value).field(k) == if o.field(k) is Some {
            o.field(k)
        } else if k == key {
            Some(value)
        } else {
            None
        },
{
    let fields = o->Record_0;
    let more = fields.push((key, value));
    let keys = crate::json::record_keys(fields);
    let all = crate::json::record_keys(more);
    assert(all =~= keys.push(key));
    crate::table::lemma_index_from(keys, k, 0);
    crate::table::lemma_index_from(all, k, 0);
    if let Some(i) = crate::table::index_of(keys, k) {
        assert(all[i] == k);
        let j = crate::table::index_of(all, k)->0;
        assert(j <= i);
        assert(keys[j] == all[j]);
    } else if k == key {
        assert(all[keys.len() as int] == k);
        let j = crate::table::index_of(all, k)->0;
        if j < keys.len() {
            assert(keys[j] == k);
        }
    } else if let Some(j) = crate::table::index_of(all, k) {
        if j < keys.len() {
            assert(keys[j] == k);
        }
    }
}

pub proof fn lemma_no_field(k: Seq<char>)
    ensures
        Json::empty().field(k) is None,
{
    crate::table::lemma_index_from(crate::json::record_keys(Seq::empty()), k, 0);
}

/// A member is told of the form's message, of the pass bit, of the response's id and of
/// the success.
pub proof fn law_receipts_tell_of_success(
    message: Seq<char>,
    passed: Option<bool>,
    id: Seq<char>,
)
    ensures
        ({
            let r = form_render::receipt(message, passed, id);
            &&& r.field("message"@) == Some(Json::Text(message))
            &&& r.field("response_id"@) == Some(Json::Text(id))
            &&& r.field("success"@) == Some(Json::Bool(true))
            &&& r.field("passed"@) == Some(
                match passed {
                    Some(p) => Json::Bool(p),
                    None => Json::Null,
                },
            )
        }),
{
    reveal_strlit("message");
    reveal_strlit("passed");
    reveal_strlit("response_id");
    reveal_strlit("success");
    assert("message"@[0] == 'm' && "passed"@[0] == 'p' && "response_id"@[0] == 'r' && "success"@[0]
        == 's');
    let p = match passed {
        Some(p) => Json::Bool(p),
        None => Json::Null,
    };
    let a = Json::empty();
    let b = a.with("message"@, Json::Text(message));
    let c = b.with("passed"@, p);
    let d = c.with("response_id"@, Json::Text(id));
    assert forall|k: Seq<char>|
        k == "message"@ || k == "passed"@ || k == "response_id"@ || k == "success"@ implies {
        &&& #[trigger] a.field(k) is None
        &&& b.field(k) == if k == "message"@ {
            Some(Json::Text(message))
        } else {
            None
        }
        &&& c.field(k) == if k == "passed"@ {
            Some(p)
        } else {
            b.field(k)
        }
        &&& d.field(k) == if k == "response_id"@ {
            Some(Json::Text(id))
        } else {
            c.field(k)
        }
    } by {
        lemma_no_field(k);
        lemma_with(a, "message"@, Json::Text(message), k);
        lemma_with(b, "passed"@, p, k);
        lemma_with(c, "response_id"@, Json::Text(id), k);
    }
    assert(a.field("message"@) is None && a.field("passed"@) is None && a.field("response_id"@)
        is None && a.field("success"@) is None);
    lemma_with(d, "success"@, Json::Bool(true), "message"@);
    lemma_with(d, "success"@, Json::Bool(true), "passed"@);
    lemma_with(d, "success"@, Json::Bool(true), "response_id"@);
    lemma_with(d, "success"@, Json::Bool(true), "success"@);
}

/// Hiding the keys of a form changes nothing but the questions of its pages, and each of
/// these only in that its key is gone.
pub proof fn law_only_keys_are_hidden(
    form: Seq<(Seq<char>, Json)>,
    pages: Seq<Json>,
    page: Seq<(Seq<char>, Json)>,
    questions: Seq<Json>,
    a: int,
    i: int,
    b: int,
    j: int,
    other: int,
)
    requires
        0 <= a < form.len(),
        form[a] == ("pages"@, Json::List(pages)),
        0 <= i < pages.len(),
        pages[i] == Json::Record(page),
        0 <= b < page.len(),
        page[b] == ("questions"@, Json::List(questions)),
        0 <= j < questions.len(),
        0 <= other < form.len(),
        form[other].0 != "pages"@,
    ensures
        ({
            let shown = form_render::without_keys(Json::Record(form));
            let shown_pages = shown->Record_0[a].1->List_0;
            let shown_page = shown_pages[i];
            let shown_questions = shown_page->Record_0[b].1->List_0;
            &&& shown is Record
            &&& shown->Record_0.len() == form.len()
            &&& shown->Record_0[other] == form[other]
            &&& shown->Record_0[a].0 == "pages"@
            &&& shown->Record_0[a].1 is List
            &&& shown_pages.len() == pages.len()
            &&& shown_page is Record
            &&& shown_page->Record_0.len() == page.len()
            &&& shown_page->Record_0[b].0 == "questions"@
            &&& shown_page->Record_0[b].1 is List
            &&& shown_questions.len() == questions.len()
            &&& questions[j] matches Json::Record(fields) ==> shown_questions[j] == Json::Record(
                fields.filter(|f: (Seq<char>, Json)| f.0 != "correct"@),
            )
            &&& forall|c: int|
                0 <= c < page.len() && page[c].0 != "questions"@
                    ==> #[trigger] shown_page->Record_0[c] == page[c]
        }),
{
}

} // verus!
