//! What the form builder is for: managers see their forms as they are, and save them as
//! they sent them.

use vstd::prelude::*;

use crate::error::AppError;
use crate::json::{Json, Numeral, Value};
use crate::models::form::{FormSchema, Question};
use crate::routes::admin;
use crate::routes::admin::{FormSummary, UpdateAnswer, UpdateBody, UpdateStage};
use crate::routes::csv::ResponseRow;
use crate::routes::form_render;
use crate::routes::form_render::FormRow;
use crate::services::{form_validator, webhook};

verus! {

/// What is posted can be saved just where it reads as a form, nothing is wrong with its
/// structure, nor with its keys where it is a quiz, the age it asks for is between none
/// and ten years, and its webhook, if it has one, may be sent to.
pub proof fn law_sound_edits_are_saved(body: UpdateBody, schema: FormSchema, e: String)
    ensures
        admin::update_complaint(body, Ok(schema)) is None <==> {
            &&& form_validator::form_errors(schema).len() == 0
            &&& body.is_quiz ==> form_validator::all_key_errors(schema.asked()).len() == 0
            &&& 0 <= body.min_account_age_days <= 3650
            &&& body.webhook_url is Some && body.webhook_url->0@.len() > 0
                ==> webhook::is_safe_webhook(body.webhook_url->0@)
        },
        admin::update_complaint(body, Err(e)) is Some,
{
}

/// What stands in an edited schema: the title and the description that were posted, and
/// under every other key what was posted there.
pub proof fn law_edited_schemas_are_titled(body: UpdateBody, key: Seq<char>)
    requires
        body.schema@ is Record,
    ensures
        ({
            let s = admin::edited_schema(body);
            &&& s.field("title"@) == Some(Json::Text(body.title@))
            &&& s.field("description"@) == Some(Json::Text(body.description@))
            &&& key != "title"@ && key != "description"@ ==> s.field(key) == body.schema@.field(key)
        }),
{
    reveal_strlit("title");
    reveal_strlit("description");
    assert("title"@.len() == 5 && "description"@.len() == 11);
    let a = admin::with_field(body.schema@, "title"@, Json::Text(body.title@));
    admin::law_fields_are_set_alone(body.schema@, "title"@, Json::Text(body.title@), key);
    admin::law_fields_are_set_alone(
        a,
        "description"@,
        Json::Text(body.description@),
        "title"@,
    );
    admin::law_fields_are_set_alone(a, "description"@, Json::Text(body.description@), key);
}

/// What is saved is what was sent: every setting as it is, but that a quiz takes one
/// response, and that an empty address is no webhook.
pub proof fn law_what_is_sent_is_saved(body: UpdateBody, saved: UpdateBody)
    requires
        admin::saves(body, saved),
    ensures
        saved.title == body.title,
        saved.description == body.description,
        saved.is_quiz == body.is_quiz,
        saved.open_at == body.open_at,
        saved.close_at == body.close_at,
        saved.allow_edits == body.allow_edits,
        saved.require_verified == body.require_verified,
        saved.min_account_age_days == body.min_account_age_days,
        saved.success_message == body.success_message,
        saved.archived == body.archived,
        saved.version == body.version,
        saved.single_submission <==> body.single_submission || body.is_quiz,
        saved.webhook_url is Some <==> body.webhook_url is Some && body.webhook_url->0@.len() > 0,
        saved.webhook_url is Some ==> saved.webhook_url->0@ == body.webhook_url->0@,
        saved.schema@ == admin::edited_schema(body),
{
}

/// The steps of a saving. A sound edit is saved; what was saved goes on to the links of
/// the form, and for each link, one after the other, its conditions are looked at and
/// the job that works it out anew is queued; last of all the new version is told.
pub proof fn law_saved_forms_resync_every_link(
    body: UpdateBody,
    edited: Json,
    schema: FormSchema,
    saved: UpdateBody,
    warnings: Seq<Seq<char>>,
    links: Seq<(Seq<char>, Seq<char>)>,
    found: Vec<(String, String)>,
    conditions: Value,
    job: crate::services::jobs::Task,
    at: nat,
    rows: u64,
    version: i32,
    a: UpdateStage,
    b: UpdateStage,
    c: UpdateStage,
    d: UpdateStage,
    e: UpdateStage,
    f: UpdateStage,
)
    requires
        admin::update_step(UpdateStage::ReadSchema(body, edited), UpdateAnswer::Schema(Ok(schema)), a),
        admin::update_step(UpdateStage::Save(saved, schema), UpdateAnswer::Saved(Ok(rows)), b),
        admin::update_step(
            UpdateStage::LoadLinks(schema, warnings),
            UpdateAnswer::Links(Ok(found)),
            c,
        ),
        at < links.len(),
        admin::update_step(
            UpdateStage::LoadConditions { schema, warnings, links, at },
            UpdateAnswer::Conditions(Ok(conditions)),
            d,
        ),
        admin::update_step(
            UpdateStage::Enqueue { job, schema, warnings, links, at },
            UpdateAnswer::Enqueued,
            e,
        ),
        admin::update_step(
            UpdateStage::LoadVersion(warnings),
            UpdateAnswer::NewVersion(Ok(version)),
            f,
        ),
    ensures
        a is Save <==> admin::update_complaint(body, Ok(schema)) is None,
        a matches UpdateStage::Save(s, of) ==> admin::saves(body, s) && of == schema,
        a is Save || (a matches UpdateStage::Done(Err(why)) && why is BadRequest),
        rows == 0 <==> b is CheckVersion,
        rows > 0 ==> (b matches UpdateStage::LoadLinks(of, w) && of == schema),
        found@.len() == 0 ==> c == UpdateStage::LoadVersion(warnings),
        found@.len() > 0 ==> (c matches UpdateStage::LoadConditions {
            schema: of,
            warnings: w,
            links: l,
            at: i,
        } && of == schema && w == warnings && i == 0 && l.len() == found@.len() && forall|k: int|
            0 <= k < l.len() ==> #[trigger] l[k] == (found@[k].0@, found@[k].1@)),
        d matches UpdateStage::Enqueue { job: j, schema: of, warnings: w, links: l, at: i } && of
            == schema && l == links && i == at && j.kind is ConfigSync
            && j.payload.field("guild_id"@) == Some(Json::Text(links[at as int].0))
            && j.payload.field("role_id"@) == Some(Json::Text(links[at as int].1))
            && warnings.is_prefix_of(w),
        at + 1 < links.len() ==> (e matches UpdateStage::LoadConditions {
            schema: of,
            warnings: w,
            links: l,
            at: i,
        } && of == schema && w == warnings && l == links && i == at + 1),
        at + 1 == links.len() ==> e == UpdateStage::LoadVersion(warnings),
        f matches UpdateStage::Done(Ok(reply)) && reply.field("version"@) == Some(
            Json::Number(Numeral::of_int(version as i64)),
        ) && reply.field("warnings"@) == Some(
            Json::List(warnings.map_values(|w: Seq<char>| Json::Text(w))),
        ),
{
    let (guild_id, role_id) = links[at as int];
    crate::laws::queue::law_jobs_ask_for_what_they_were_enqueued_for(
        crate::services::jobs::PlayerEvent::Updated(guild_id),
        guild_id,
        role_id,
        guild_id,
        Json::Null,
    );
    assert(crate::services::sync::pairs(found@).len() == found@.len());
    reveal_strlit("version");
    reveal_strlit("warnings");
    assert("version"@.len() == 7 && "warnings"@.len() == 8);
    let reply = f->Done_0->Ok_0->Record_0;
    assert(reply.len() == 2 && reply[0].0 == "version"@ && reply[1].0 == "warnings"@);
    crate::laws::queue::lemma_field_at(reply, 0);
    crate::laws::queue::lemma_field_at(reply, 1);
    assert(crate::json::texts_json(warnings)->List_0 =~= warnings.map_values(
        |w: Seq<char>| Json::Text(w),
    ));
}

/// A failed lookup ends a saving in its failure.
pub proof fn law_failed_savings_tell_why(
    saved: UpdateBody,
    schema: FormSchema,
    warnings: Seq<Seq<char>>,
    links: Seq<(Seq<char>, Seq<char>)>,
    at: nat,
    why: AppError,
    a: UpdateStage,
    b: UpdateStage,
    c: UpdateStage,
    d: UpdateStage,
    e: UpdateStage,
)
    requires
        admin::update_step(UpdateStage::Save(saved, schema), UpdateAnswer::Saved(Err(why)), a),
        admin::update_step(
            UpdateStage::LoadLinks(schema, warnings),
            UpdateAnswer::Links(Err(why)),
            b,
        ),
        admin::update_step(
            UpdateStage::LoadConditions { schema, warnings, links, at },
            UpdateAnswer::Conditions(Err(why)),
            c,
        ),
        admin::update_step(
            UpdateStage::LoadVersion(warnings),
            UpdateAnswer::NewVersion(Err(why)),
            d,
        ),
        admin::update_step(UpdateStage::CheckVersion, UpdateAnswer::Version(Err(why)), e),
    ensures
        a == UpdateStage::Done(Err(why@)),
        b == UpdateStage::Done(Err(why@)),
        c == UpdateStage::Done(Err(why@)),
        d == UpdateStage::Done(Err(why@)),
        e == UpdateStage::Done(Err(why@)),
{
}

/// A stored condition is about a missing question just where its target is a question
/// and no question that the form asks has the id.
pub proof fn law_missing_questions_are_those_not_asked(c: Json, schema: FormSchema, id: Seq<char>)
    ensures
        admin::missing_question(c, schema) == Some(id) <==> {
            let target = c.field("target"@);
            &&& target is Some
            &&& target->0.field("kind"@) == Some(Json::Text("question"@))
            &&& target->0.field("question_id"@) == Some(Json::Text(id))
            &&& forall|i: int|
                0 <= i < schema.asked().len() ==> (#[trigger] schema.asked()[i]).id@ != id
        },
{
    let asked = schema.asked();
    let ids = crate::models::form::question_ids(asked);
    crate::table::lemma_index_from(ids, id, 0);
    assert forall|j: int| 0 <= j < asked.len() implies #[trigger] ids[j] == asked[j].id@ by {}
    if let Some(i) = crate::table::index_of(ids, id) {
        assert(asked[i].id@ == id);
    } else {
        assert forall|j: int| 0 <= j < asked.len() implies (#[trigger] asked[j]).id@ != id by {
            assert(ids[j] == asked[j].id@);
        }
    }
}

/// The warnings about a role name its role and each missing question, and nothing else.
pub proof fn law_warnings_name_role_and_question(
    role_id: Seq<char>,
    conditions: Seq<Json>,
    schema: FormSchema,
    w: Seq<char>,
)
    ensures
        admin::role_warnings(role_id, conditions, schema).contains(w) <==> exists|i: int|
            {
                &&& 0 <= i < conditions.len()
                &&& admin::missing_question(#[trigger] conditions[i], schema) is Some
                &&& w == "Role <"@ + role_id + "> references question \""@
                    + admin::missing_question(conditions[i], schema)->0
                    + "\" which no longer exists."@
            },
    decreases conditions.len(),
{
    let all = admin::role_warnings(role_id, conditions, schema);
    if conditions.len() == 0 {
        assert(all.len() == 0);
    } else {
        let first = conditions.drop_last();
        let last = conditions.last();
        law_warnings_name_role_and_question(role_id, first, schema, w);
        assert forall|i: int| 0 <= i < first.len() implies first[i] == #[trigger] conditions[i] by {}
        let before = admin::role_warnings(role_id, first, schema);
        assert(conditions[conditions.len() - 1] == last);
        if let Some(id) = admin::missing_question(last, schema) {
            assert(all == before.push(admin::missing_warning(role_id, id)));
            assert(all[before.len() as int] == admin::missing_warning(role_id, id));
            if before.contains(w) {
                let k = choose|k: int| 0 <= k < before.len() && before[k] == w;
                assert(all[k] == w);
            }
            if all.contains(w) {
                let k = choose|k: int| 0 <= k < all.len() && all[k] == w;
                if k < before.len() {
                    assert(before[k] == w);
                }
            }
        } else {
            assert(all == before);
        }
        if all.contains(w) && before.contains(w) {
            let i = choose|i: int|
                {
                    &&& 0 <= i < first.len()
                    &&& admin::missing_question(#[trigger] first[i], schema) is Some
                    &&& w == "Role <"@ + role_id + "> references question \""@
                        + admin::missing_question(first[i], schema)->0
                        + "\" which no longer exists."@
                };
            assert(conditions[i] == first[i]);
        }
    }
}

/// A quiz is warned about just where none of its questions is graded.
pub proof fn law_quizzes_without_grades_are_warned_about(is_quiz: bool, schema: FormSchema)
    ensures
        admin::quiz_warnings(is_quiz, schema).len() == 1 <==> is_quiz && forall|i: int|
            0 <= i < schema.asked().len() ==> !form_validator::graded(#[trigger] schema.asked()[i]),
        admin::quiz_warnings(is_quiz, schema).len() <= 1,
{
    lemma_none_graded(schema.asked());
}

proof fn lemma_none_graded(asked: Seq<Question>)
    ensures
        form_validator::graded_count(asked) == 0 <==> forall|i: int|
            0 <= i < asked.len() ==> !form_validator::graded(#[trigger] asked[i]),
    decreases asked.len(),
{
    if asked.len() > 0 {
        let first = asked.drop_last();
        lemma_none_graded(first);
        assert forall|i: int| 0 <= i < first.len() implies first[i] == #[trigger] asked[i] by {}
        assert(asked[asked.len() - 1] == asked.last());
        if form_validator::graded_count(asked) == 0 {
            assert forall|i: int| 0 <= i < asked.len() implies !form_validator::graded(
                #[trigger] asked[i],
            ) by {
                if i < first.len() {
                    assert(first[i] == asked[i]);
                }
            }
        }
    }
}

/// Who may see the respondents of a guild is what was set, and the managers where nothing
/// was.
pub proof fn law_respondents_are_private_by_default(stored: Option<Seq<char>>)
    ensures
        stored is None ==> admin::view_permission_of(stored) == "managers"@,
        stored is Some ==> admin::view_permission_of(stored) == stored->0,
{
}

/// The reply to a form that was created names its id, its slug and its preview token.
pub proof fn law_created_forms_can_be_found(id: Seq<char>, slug: Seq<char>, token: Seq<char>)
    ensures
        ({
            let r = admin::created_json(id, slug, token);
            &&& r.field("id"@) == Some(Json::Text(id))
            &&& r.field("slug"@) == Some(Json::Text(slug))
            &&& r.field("preview_token"@) == Some(Json::Text(token))
        }),
{
    let f = admin::created_json(id, slug, token)->Record_0;
    reveal_strlit("id");
    reveal_strlit("preview_token");
    reveal_strlit("slug");
    assert("id"@.len() == 2);
    assert("preview_token"@.len() == 13);
    assert("slug"@.len() == 4);
    assert(f.len() == 3);
    assert(f[0].0 == "id"@);
    assert(f[1].0 == "preview_token"@);
    assert(f[2].0 == "slug"@);
    crate::laws::queue::lemma_field_at(f, 0);
    crate::laws::queue::lemma_field_at(f, 1);
    crate::laws::queue::lemma_field_at(f, 2);
}

/// A form in the list is shown as it is; a count that is not known is none.
pub proof fn law_forms_are_listed_as_they_are(form: FormSummary)
    ensures
        ({
            let r = admin::summary_json(form);
            let links: i64 = if form.bound_role_links_count is Some {
                form.bound_role_links_count->0
            } else {
                0
            };
            let responses: i64 = if form.response_count is Some {
                form.response_count->0
            } else {
                0
            };
            &&& r.field("archived"@) == Some(Json::Bool(form.archived))
            &&& r.field("bound_role_links_count"@) == Some(Json::Number(Numeral::of_int(links)))
            &&& r.field("id"@) == Some(Json::Text(form.id@))
            &&& r.field("is_quiz"@) == Some(Json::Bool(form.is_quiz))
            &&& r.field("response_count"@) == Some(Json::Number(Numeral::of_int(responses)))
            &&& r.field("slug"@) == Some(Json::Text(form.slug@))
            &&& r.field("title"@) == Some(Json::Text(form.title@))
            &&& r.field("updated_at"@) == Some(Json::Text(form.updated_at.text()))
        }),
{
    let f = admin::summary_json(form)->Record_0;
    reveal_strlit("archived");
    reveal_strlit("bound_role_links_count");
    reveal_strlit("id");
    reveal_strlit("is_quiz");
    reveal_strlit("response_count");
    reveal_strlit("slug");
    reveal_strlit("title");
    reveal_strlit("updated_at");
    assert("archived"@.len() == 8);
    assert("bound_role_links_count"@.len() == 22);
    assert("id"@.len() == 2);
    assert("is_quiz"@.len() == 7);
    assert("response_count"@.len() == 14);
    assert("slug"@.len() == 4);
    assert("title"@.len() == 5);
    assert("updated_at"@.len() == 10);
    assert(f.len() == 8);
    assert(f[0].0 == "archived"@);
    assert(f[1].0 == "bound_role_links_count"@);
    assert(f[2].0 == "id"@);
    assert(f[3].0 == "is_quiz"@);
    assert(f[4].0 == "response_count"@);
    assert(f[5].0 == "slug"@);
    assert(f[6].0 == "title"@);
    assert(f[7].0 == "updated_at"@);
    crate::laws::queue::lemma_field_at(f, 0);
    crate::laws::queue::lemma_field_at(f, 1);
    crate::laws::queue::lemma_field_at(f, 2);
    crate::laws::queue::lemma_field_at(f, 3);
    crate::laws::queue::lemma_field_at(f, 4);
    crate::laws::queue::lemma_field_at(f, 5);
    crate::laws::queue::lemma_field_at(f, 6);
    crate::laws::queue::lemma_field_at(f, 7);
}

/// The builder is given every setting of the form, each under its own name.
pub proof fn law_builders_are_given_the_whole_form(
    id: Seq<char>,
    form: FormRow,
    responses: i64,
    links: i64,
)
    ensures
        ({
            let r = admin::builder_json(id, form, responses, links);
            &&& r.field("allow_edits"@) == Some(Json::Bool(form.allow_edits))
            &&& r.field("archived"@) == Some(Json::Bool(form.archived))
            &&& r.field("bound_role_links_count"@) == Some(Json::Number(Numeral::of_int(links)))
            &&& r.field("close_at"@) == Some(
                if form.close_at is Some {
                    Json::Text(form.close_at->0.text())
                } else {
                    Json::Null
                },
            )
            &&& r.field("description"@) == Some(Json::Text(form.description@))
            &&& r.field("id"@) == Some(Json::Text(id))
            &&& r.field("is_quiz"@) == Some(Json::Bool(form.is_quiz))
            &&& r.field("min_account_age_days"@) == Some(
                Json::Number(Numeral::of_int(form.min_account_age_days as i64)),
            )
            &&& r.field("open_at"@) == Some(
                if form.open_at is Some {
                    Json::Text(form.open_at->0.text())
                } else {
                    Json::Null
                },
            )
            &&& r.field("preview_token"@) == Some(Json::Text(form.preview_token@))
            &&& r.field("require_verified"@) == Some(Json::Bool(form.require_verified))
            &&& r.field("response_count"@) == Some(Json::Number(Numeral::of_int(responses)))
            &&& r.field("schema"@) == Some(form.schema@)
            &&& r.field("single_submission"@) == Some(Json::Bool(form.single_submission))
            &&& r.field("slug"@) == Some(Json::Text(form.slug@))
            &&& r.field("success_message"@) == Some(Json::Text(form.success_message@))
            &&& r.field("title"@) == Some(Json::Text(form.title@))
            &&& r.field("version"@) == Some(Json::Number(Numeral::of_int(form.version as i64)))
            &&& r.field("webhook_url"@) == Some(
                if form.webhook_url is Some {
                    Json::Text(form.webhook_url->0@)
                } else {
                    Json::Null
                },
            )
        }),
{
    let f = admin::builder_json(id, form, responses, links)->Record_0;
    reveal_strlit("allow_edits");
    reveal_strlit("archived");
    reveal_strlit("bound_role_links_count");
    reveal_strlit("close_at");
    reveal_strlit("description");
    reveal_strlit("id");
    reveal_strlit("is_quiz");
    reveal_strlit("min_account_age_days");
    reveal_strlit("open_at");
    reveal_strlit("preview_token");
    reveal_strlit("require_verified");
    reveal_strlit("response_count");
    reveal_strlit("schema");
    reveal_strlit("single_submission");
    reveal_strlit("slug");
    reveal_strlit("success_message");
    reveal_strlit("title");
    reveal_strlit("version");
    reveal_strlit("webhook_url");
    assert("allow_edits"@.len() == 11 && "allow_edits"@[0] == 'a');
    assert("archived"@.len() == 8 && "archived"@[0] == 'a');
    assert("bound_role_links_count"@.len() == 22);
    assert("close_at"@.len() == 8 && "close_at"@[0] == 'c');
    assert("description"@.len() == 11 && "description"@[0] == 'd');
    assert("id"@.len() == 2);
    assert("is_quiz"@.len() == 7 && "is_quiz"@[0] == 'i');
    assert("min_account_age_days"@.len() == 20);
    assert("open_at"@.len() == 7 && "open_at"@[0] == 'o');
    assert("preview_token"@.len() == 13);
    assert("require_verified"@.len() == 16);
    assert("response_count"@.len() == 14);
    assert("schema"@.len() == 6);
    assert("single_submission"@.len() == 17);
    assert("slug"@.len() == 4);
    assert("success_message"@.len() == 15);
    assert("title"@.len() == 5);
    assert("version"@.len() == 7 && "version"@[0] == 'v');
    assert("webhook_url"@.len() == 11 && "webhook_url"@[0] == 'w');
    assert(f.len() == 19);
    assert(f[0].0 == "allow_edits"@);
    assert(f[1].0 == "archived"@);
    assert(f[2].0 == "bound_role_links_count"@);
    assert(f[3].0 == "close_at"@);
    assert(f[4].0 == "description"@);
    assert(f[5].0 == "id"@);
    assert(f[6].0 == "is_quiz"@);
    assert(f[7].0 == "min_account_age_days"@);
    assert(f[8].0 == "open_at"@);
    assert(f[9].0 == "preview_token"@);
    assert(f[10].0 == "require_verified"@);
    assert(f[11].0 == "response_count"@);
    assert(f[12].0 == "schema"@);
    assert(f[13].0 == "single_submission"@);
    assert(f[14].0 == "slug"@);
    assert(f[15].0 == "success_message"@);
    assert(f[16].0 == "title"@);
    assert(f[17].0 == "version"@);
    assert(f[18].0 == "webhook_url"@);
    crate::laws::queue::lemma_field_at(f, 0);
    crate::laws::queue::lemma_field_at(f, 1);
    crate::laws::queue::lemma_field_at(f, 2);
    crate::laws::queue::lemma_field_at(f, 3);
    crate::laws::queue::lemma_field_at(f, 4);
    crate::laws::queue::lemma_field_at(f, 5);
    crate::laws::queue::lemma_field_at(f, 6);
    crate::laws::queue::lemma_field_at(f, 7);
    crate::laws::queue::lemma_field_at(f, 8);
    crate::laws::queue::lemma_field_at(f, 9);
    crate::laws::queue::lemma_field_at(f, 10);
    crate::laws::queue::lemma_field_at(f, 11);
    crate::laws::queue::lemma_field_at(f, 12);
    crate::laws::queue::lemma_field_at(f, 13);
    crate::laws::queue::lemma_field_at(f, 14);
    crate::laws::queue::lemma_field_at(f, 15);
    crate::laws::queue::lemma_field_at(f, 16);
    crate::laws::queue::lemma_field_at(f, 17);
    crate::laws::queue::lemma_field_at(f, 18);
}

/// A response in the list is shown as it was stored.
pub proof fn law_responses_are_listed_as_they_are(row: ResponseRow)
    ensures
        ({
            let r = admin::response_json(row);
            &&& r.field("answers"@) == Some(row.answers@)
            &&& r.field("discord_id"@) == Some(Json::Text(row.discord_id@))
            &&& r.field("id"@) == Some(Json::Text(row.id@))
            &&& r.field("last_edited_at"@) == Some(Json::Text(row.last_edited_at.text()))
            &&& r.field("submitted_at"@) == Some(Json::Text(row.submitted_at.text()))
            &&& r.field("total_score"@) == Some(
                if row.total_score is Some {
                    Json::Number(Numeral::of_int(row.total_score->0 as i64))
                } else {
                    Json::Null
                },
            )
        }),
{
    let f = admin::response_json(row)->Record_0;
    reveal_strlit("answers");
    reveal_strlit("discord_id");
    reveal_strlit("id");
    reveal_strlit("last_edited_at");
    reveal_strlit("submitted_at");
    reveal_strlit("total_score");
    assert("answers"@.len() == 7);
    assert("discord_id"@.len() == 10);
    assert("id"@.len() == 2);
    assert("last_edited_at"@.len() == 14);
    assert("submitted_at"@.len() == 12);
    assert("total_score"@.len() == 11);
    assert(f.len() == 6);
    assert(f[0].0 == "answers"@);
    assert(f[1].0 == "discord_id"@);
    assert(f[2].0 == "id"@);
    assert(f[3].0 == "last_edited_at"@);
    assert(f[4].0 == "submitted_at"@);
    assert(f[5].0 == "total_score"@);
    crate::laws::queue::lemma_field_at(f, 0);
    crate::laws::queue::lemma_field_at(f, 1);
    crate::laws::queue::lemma_field_at(f, 2);
    crate::laws::queue::lemma_field_at(f, 3);
    crate::laws::queue::lemma_field_at(f, 4);
    crate::laws::queue::lemma_field_at(f, 5);
}

/// The form page is given the form; its answer keys only in the preview.
pub proof fn law_form_pages_are_given_the_form(
    base_url: Seq<char>,
    form: FormRow,
    slug: Seq<char>,
    discord_id: Seq<char>,
    name: Seq<char>,
    preview: bool,
)
    ensures
        ({
            let r = form_render::bootstrap(base_url, form, slug, discord_id, name, preview);
            &&& r.field("base_url"@) == Some(Json::Text(base_url))
            &&& r.field("description"@) == Some(Json::Text(form.description@))
            &&& r.field("discord_id"@) == Some(Json::Text(discord_id))
            &&& r.field("display_name"@) == Some(Json::Text(name))
            &&& r.field("is_quiz"@) == Some(Json::Bool(form.is_quiz))
            &&& r.field("preview"@) == Some(Json::Bool(preview))
            &&& preview ==> r.field("schema"@) == Some(form.schema@)
            &&& !preview ==> r.field("schema"@) == Some(form_render::without_keys(form.schema@))
            &&& r.field("slug"@) == Some(Json::Text(slug))
            &&& r.field("title"@) == Some(Json::Text(form.title@))
            &&& r.field("version"@) == Some(Json::Number(Numeral::of_int(form.version as i64)))
        }),
{
    let f = form_render::bootstrap(
        base_url,
        form,
        slug,
        discord_id,
        name,
        preview,
    )->Record_0;
    reveal_strlit("base_url");
    reveal_strlit("description");
    reveal_strlit("discord_id");
    reveal_strlit("display_name");
    reveal_strlit("is_quiz");
    reveal_strlit("preview");
    reveal_strlit("schema");
    reveal_strlit("slug");
    reveal_strlit("title");
    reveal_strlit("version");
    assert("base_url"@.len() == 8);
    assert("description"@.len() == 11);
    assert("discord_id"@.len() == 10);
    assert("display_name"@.len() == 12);
    assert("is_quiz"@.len() == 7 && "is_quiz"@[0] == 'i');
    assert("preview"@.len() == 7 && "preview"@[0] == 'p');
    assert("schema"@.len() == 6);
    assert("slug"@.len() == 4);
    assert("title"@.len() == 5);
    assert("version"@.len() == 7 && "version"@[0] == 'v');
    assert(f.len() == 10);
    assert(f[0].0 == "base_url"@);
    assert(f[1].0 == "description"@);
    assert(f[2].0 == "discord_id"@);
    assert(f[3].0 == "display_name"@);
    assert(f[4].0 == "is_quiz"@);
    assert(f[5].0 == "preview"@);
    assert(f[6].0 == "schema"@);
    assert(f[7].0 == "slug"@);
    assert(f[8].0 == "title"@);
    assert(f[9].0 == "version"@);
    crate::laws::queue::lemma_field_at(f, 0);
    crate::laws::queue::lemma_field_at(f, 1);
    crate::laws::queue::lemma_field_at(f, 2);
    crate::laws::queue::lemma_field_at(f, 3);
    crate::laws::queue::lemma_field_at(f, 4);
    crate::laws::queue::lemma_field_at(f, 5);
    crate::laws::queue::lemma_field_at(f, 6);
    crate::laws::queue::lemma_field_at(f, 7);
    crate::laws::queue::lemma_field_at(f, 8);
    crate::laws::queue::lemma_field_at(f, 9);
}

} // verus!
