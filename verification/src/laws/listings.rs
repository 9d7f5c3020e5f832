//! What the pages of managers are for: lists, settings, new forms and copies of them.

use vstd::prelude::*;

use crate::error::{AppError, DatabaseError};
use crate::json::{Json, Numeral, Value};
use crate::models::form::{FormSchema, Question, QuestionKind};
use crate::routes::access::HtmlPage;
use crate::routes::admin::{
    Creation, FormCopy, FormSummary, FormUpdate, NewForm, Template, UpdateAnswer, UpdateBody,
    ViewPermissionBody,
};
use crate::routes::csv::ResponseRow;
use crate::routes::form_render::FormRow;
use crate::routes::respondents::{DataQuery, Respondent};
use crate::routes::role_config::{BoundSession, RlTokenError, RoleConfigPageQuery};
use crate::routes::{access, admin, csv, respondents, role_config};
use crate::services::auth_gateway::{Endpoint, GatewayReply};
use crate::services::jobs::NewJob;
use crate::services::rolelogic::RoleLogicClient;
use crate::services::{auth_gateway, rolelogic};
use crate::time::Timestamp;

verus! {

/// As many respondents are listed as are asked for, at most 2000, and 500 where no number
/// is asked for.
pub proof fn law_lists_are_limited(q: DataQuery, r: i64)
    requires
        call_ensures(DataQuery::row_limit, (&q,), r),
    ensures
        q.limit is None ==> r == 500,
        q.limit is Some && q.limit->0 <= 2000 ==> r == q.limit->0,
        q.limit is Some && q.limit->0 > 2000 ==> r == 2000,
{
}

/// The list of a guild's forms has each of them, in order, and the setting of the guild.
pub proof fn law_lists_hold_every_form(
    rows: &Vec<FormSummary>,
    setting: Option<&str>,
    r: Value,
    i: int,
)
    requires
        call_ensures(admin::list_data, (rows, setting), r),
        0 <= i < rows@.len(),
    ensures
        ({
            let forms = r@.field("forms"@);
            &&& forms is Some && forms->0 is List
            &&& forms->0->List_0.len() == rows@.len()
            &&& forms->0->List_0[i] == admin::summary_json(rows@[i])
            &&& r@.field("view_permission"@) == Some(
                Json::Text(
                    if setting is Some {
                        setting->0@
                    } else {
                        "managers"@
                    },
                ),
            )
        }),
{
    let f = r@->Record_0;
    reveal_strlit("forms");
    reveal_strlit("view_permission");
    assert("forms"@.len() == 5);
    assert("view_permission"@.len() == 15);
    assert(f.len() == 2);
    assert(f[0].0 == "forms"@);
    assert(f[1].0 == "view_permission"@);
    crate::laws::queue::lemma_field_at(f, 0);
    crate::laws::queue::lemma_field_at(f, 1);
}

/// The list of a form's responses has each of them, in order, and the form.
pub proof fn law_lists_hold_every_response(
    form: &FormRow,
    rows: &Vec<ResponseRow>,
    r: Value,
    i: int,
)
    requires
        call_ensures(admin::responses_data, (form, rows), r),
        0 <= i < rows@.len(),
    ensures
        ({
            let responses = r@.field("responses"@);
            &&& responses is Some && responses->0 is List
            &&& responses->0->List_0.len() == rows@.len()
            &&& responses->0->List_0[i] == admin::response_json(rows@[i])
            &&& r@.field("is_quiz"@) == Some(Json::Bool(form.is_quiz))
            &&& r@.field("preview_token"@) == Some(Json::Text(form.preview_token@))
            &&& r@.field("schema"@) == Some(form.schema@)
            &&& r@.field("slug"@) == Some(Json::Text(form.slug@))
            &&& r@.field("title"@) == Some(Json::Text(form.title@))
        }),
{
    let f = r@->Record_0;
    reveal_strlit("is_quiz");
    reveal_strlit("preview_token");
    reveal_strlit("responses");
    reveal_strlit("schema");
    reveal_strlit("slug");
    reveal_strlit("title");
    assert("is_quiz"@.len() == 7);
    assert("preview_token"@.len() == 13);
    assert("responses"@.len() == 9);
    assert("schema"@.len() == 6);
    assert("slug"@.len() == 4);
    assert("title"@.len() == 5);
    assert(f.len() == 6);
    assert(f[0].0 == "is_quiz"@);
    assert(f[1].0 == "preview_token"@);
    assert(f[2].0 == "responses"@);
    assert(f[3].0 == "schema"@);
    assert(f[4].0 == "slug"@);
    assert(f[5].0 == "title"@);
    crate::laws::queue::lemma_field_at(f, 0);
    crate::laws::queue::lemma_field_at(f, 1);
    crate::laws::queue::lemma_field_at(f, 2);
    crate::laws::queue::lemma_field_at(f, 3);
    crate::laws::queue::lemma_field_at(f, 4);
    crate::laws::queue::lemma_field_at(f, 5);
}

/// The list of a guild's respondents has each of them, in order, and the guild.
pub proof fn law_lists_hold_every_respondent(
    guild_id: &str,
    name: Option<&str>,
    rows: &Vec<Respondent>,
    r: Value,
    i: int,
)
    requires
        call_ensures(respondents::data, (guild_id, name, rows), r),
        0 <= i < rows@.len(),
    ensures
        ({
            let all = r@.field("respondents"@);
            &&& all is Some && all->0 is List
            &&& all->0->List_0.len() == rows@.len()
            &&& all->0->List_0[i] == respondents::respondent_json(rows@[i])
            &&& r@.field("guild_id"@) == Some(Json::Text(guild_id@))
            &&& name is Some ==> r@.field("guild_name"@) == Some(Json::Text(name->0@))
            &&& name is None ==> r@.field("guild_name"@) == Some(Json::Null)
        }),
{
    let f = r@->Record_0;
    reveal_strlit("guild_id");
    reveal_strlit("guild_name");
    reveal_strlit("respondents");
    assert("guild_id"@.len() == 8);
    assert("guild_name"@.len() == 10);
    assert("respondents"@.len() == 11);
    assert(f.len() == 3);
    assert(f[0].0 == "guild_id"@);
    assert(f[1].0 == "guild_name"@);
    assert(f[2].0 == "respondents"@);
    crate::laws::queue::lemma_field_at(f, 0);
    crate::laws::queue::lemma_field_at(f, 1);
    crate::laws::queue::lemma_field_at(f, 2);
}

/// Who may see the respondents can be set to the members or to the managers, and to
/// nothing else.
pub proof fn law_two_settings_can_be_made(body: &ViewPermissionBody, r: Result<String, AppError>)
    requires
        call_ensures(admin::set_view_permission, (body,), r),
    ensures
        r is Ok <==> body.view_permission@ == "members"@ || body.view_permission@ == "managers"@,
        r is Ok ==> r->Ok_0@ == body.view_permission@,
        r is Err ==> r->Err_0@ is BadRequest,
{
}

/// A form starts from one of three templates, by its name; from the blank one where no
/// name is given.
pub proof fn law_templates_are_known_by_name(name: &str, r: Result<Template, AppError>)
    requires
        call_ensures(admin::template_schema, (name,), r),
    ensures
        name@ == "application"@ ==> r == Ok::<Template, AppError>(Template::Application),
        name@ == "server_quiz"@ ==> r == Ok::<Template, AppError>(Template::ServerQuiz),
        name@ == "blank"@ || name@.len() == 0 ==> r == Ok::<Template, AppError>(Template::Blank),
        r is Err ==> r->Err_0@ is BadRequest,
        r is Ok ==> name@ == "application"@ || name@ == "server_quiz"@ || name@ == "blank"@
            || name@.len() == 0,
{
    reveal_strlit("application");
    reveal_strlit("server_quiz");
    reveal_strlit("blank");
    assert("application"@[0] == 'a' && "server_quiz"@[0] == 's' && "blank"@[0] == 'b');
}

/// A new form takes over the title and the description of its template, and is a quiz
/// just where a question has a key or points.
pub proof fn law_new_forms_are_like_their_template(
    schema: &Result<FormSchema, String>,
    r: Result<NewForm, AppError>,
)
    requires
        call_ensures(admin::new_form, (schema,), r),
    ensures
        r is Ok <==> *schema is Ok,
        r is Err ==> r->Err_0@ is Internal,
        *schema matches Ok(s) ==> {
            let form = r->Ok_0;
            &&& crate::text::trimmed(s.title@).len() > 0 ==> form.title@ == s.title@
            &&& crate::text::trimmed(s.title@).len() == 0 ==> form.title@ == "Untitled form"@
            &&& form.description@ == s.description@
            &&& form.is_quiz <==> exists|i: int|
                0 <= i < s.asked().len() && ((#[trigger] s.asked()[i]).correct is Some
                    || s.asked()[i].points is Some)
        },
{
    if let Ok(s) = *schema {
        let asked = s.asked();
        assert((exists|i: int| 0 <= i < asked.len() && admin::has_key(#[trigger] asked[i]))
            <==> exists|i: int|
            0 <= i < asked.len() && ((#[trigger] asked[i]).correct is Some || asked[i].points
                is Some)) by {
            if exists|i: int|
                0 <= i < asked.len() && ((#[trigger] asked[i]).correct is Some || asked[i].points
                    is Some) {
                let i = choose|i: int|
                    0 <= i < asked.len() && ((#[trigger] asked[i]).correct is Some
                        || asked[i].points is Some);
                assert(admin::has_key(asked[i]));
            }
        }
    }
}

/// The title that is asked for is that of the new form; the rest of its template stays.
pub proof fn law_new_forms_have_their_title(
    starter: Value,
    title: &Option<String>,
    r: Value,
    key: Seq<char>,
)
    requires
        call_ensures(admin::titled, (starter, title), r),
        starter@ is Record,
    ensures
        *title is None ==> r@ == starter@,
        *title is Some ==> r@.field("title"@) == Some(Json::Text(title->0@)),
        key != "title"@ ==> r@.field(key) == starter@.field(key),
{
    if let Some(t) = *title {
        admin::law_fields_are_set_alone(starter@, "title"@, Json::Text(t@), key);
    }
}

/// A copy of a form is the form under a title that says so.
pub proof fn law_copies_are_like_the_form(source: Option<FormCopy>, r: Result<FormCopy, AppError>)
    requires
        call_ensures(admin::duplicate_form, (source,), r),
    ensures
        r is Ok <==> source is Some,
        r is Err ==> r->Err_0@ is NotFound,
        r is Ok ==> {
            let (copy, form) = (r->Ok_0, source->0);
            &&& copy.title@ == form.title@ + " (copy)"@
            &&& copy.description == form.description
            &&& copy.schema == form.schema
            &&& copy.is_quiz == form.is_quiz
            &&& copy.allow_edits == form.allow_edits
            &&& copy.single_submission == form.single_submission
            &&& copy.require_verified == form.require_verified
            &&& copy.min_account_age_days == form.min_account_age_days
            &&& copy.success_message == form.success_message
            &&& copy.webhook_url == form.webhook_url
        },
{
}

/// A form is created under a slug that is free: another one is tried where one was taken,
/// up to five times; any other failure ends the creation.
pub proof fn law_taken_slugs_are_replaced(
    attempt: u32,
    slug: &str,
    token: &str,
    inserted: Result<String, DatabaseError>,
    r: Creation,
)
    requires
        call_ensures(admin::creation_next, (attempt, slug, token, inserted), r),
    ensures
        ({
            let taken = inserted is Err && inserted->Err_0.constraint is Some
                && inserted->Err_0.constraint->0@ == "forms_slug_key"@;
            &&& r is Insert <==> taken && attempt < 5
            &&& r matches Creation::Insert { attempt: next, slug: s } ==> next == attempt + 1
                && s@.len() == 8
            &&& r is Done && inserted is Ok ==> (r->Done_0 matches Ok(v) && v@
                == admin::created_json(inserted->Ok_0@, slug@, token@))
            &&& r is Done && inserted is Err ==> r->Done_0 is Err
            &&& inserted is Err && !taken ==> (r->Done_0 matches Err(e) && e == AppError::Database(
                inserted->Err_0,
            ))
        }),
{
}

/// The path of a form names it by its id, and a form that is not there is not found.
pub proof fn law_forms_are_found_by_id(
    id: &str,
    r: Result<u128, AppError>,
    rows: u64,
    gone: Option<AppError>,
)
    ensures
        call_ensures(admin::form_number, (id,), r) ==> {
            &&& r is Ok <==> crate::outside::uuid_number(id@) is Some
            &&& r is Ok ==> r->Ok_0 == crate::outside::uuid_number(id@)->0
            &&& r is Err ==> r->Err_0@ is BadRequest
        },
        call_ensures(admin::delete_form, (rows,), gone) ==> {
            &&& gone is None <==> rows > 0
            &&& gone is Some ==> gone->0@ is NotFound
        },
{
}

/// Deleting a form works every role link out anew that it was bound to.
pub proof fn law_links_of_deleted_forms_are_resynced(
    links: &Vec<(String, String)>,
    r: Vec<NewJob>,
    i: int,
)
    requires
        call_ensures(admin::resync_jobs, (links,), r),
        0 <= i < links@.len(),
    ensures
        r@.len() == links@.len(),
        r@[i]@ == crate::services::jobs::config_task(links@[i].0@, links@[i].1@),
{
    let all = crate::services::jobs::tasks(r@);
    assert(all.len() == r@.len());
    assert(crate::services::sync::pairs(links@).len() == links@.len());
    assert(all[i] == r@[i]@);
}

/// The saving of a form starts and goes on as the laws on editing say.
pub proof fn law_savings_go_on(
    form_id: &str,
    body: UpdateBody,
    at: FormUpdate,
    answer: UpdateAnswer,
    r: FormUpdate,
)
    ensures
        call_ensures(admin::update_form, (form_id, body), r) ==> {
            let known = crate::outside::uuid_number(form_id@) is Some;
            &&& known ==> r@ == admin::UpdateStage::ReadSchema(body, admin::edited_schema(body))
            &&& !known ==> (r@ matches admin::UpdateStage::Done(Err(e)) && e is BadRequest)
        },
        call_ensures(admin::form_update_next, (at, answer), r) ==> admin::update_step(
            at@,
            answer,
            r@,
        ),
{
}

/// Callers are let in, or told why not, as the laws on access say.
pub proof fn law_callers_are_checked(
    base_url: &str,
    reply: GatewayReply<Value>,
    permission: Option<&str>,
    r: Result<(), AppError>,
    has_cookie: bool,
    has_session: bool,
    problem: Option<AppError>,
    page: Option<HtmlPage>,
)
    ensures
        call_ensures(access::check_manager, (reply,), r) ==> {
            &&& r is Ok <==> access::manager_failure(reply) is None
            &&& r is Err ==> r->Err_0@ == access::manager_failure(reply)->0
        },
        call_ensures(respondents::check_viewer, (permission, reply), r) ==> {
            let setting = if permission is Some {
                Some(permission->0@)
            } else {
                None
            };
            &&& r is Ok <==> respondents::viewer_failure(setting, reply) is None
            &&& r is Err ==> r->Err_0@ == respondents::viewer_failure(setting, reply)->0
        },
        call_ensures(access::require_session, (has_cookie, has_session), problem) ==> {
            &&& problem is None <==> has_cookie && has_session
            &&& problem is Some ==> problem->0@ is UnauthorizedWith
        },
        call_ensures(respondents::viewer_session, (has_cookie, has_session), problem) ==> {
            &&& problem is None <==> has_cookie && has_session
            &&& problem is Some ==> problem->0@ is UnauthorizedWith
        },
        call_ensures(access::signin_gate, (base_url, has_session), page) ==> {
            &&& page is None <==> has_session
            &&& page is Some ==> page->0.body@ == crate::routes::pages::admin_signin_page(base_url@)
        },
        call_ensures(access::manager_gate, (base_url, reply), page) ==> {
            &&& page is None <==> access::manager_failure(reply) is None
            &&& page is Some ==> page->0.status == 403 && page->0.body@
                == crate::routes::pages::denied_page(
                base_url@,
                access::markup_escaped(access::denial_text(access::manager_failure(reply)->0)),
            )
        },
{
}

/// The role page is entered with a token that is there, whose key is known, and that was
/// signed for the link.
pub proof fn law_role_pages_are_entered_by_token(
    query: &RoleConfigPageQuery,
    token: Option<&str>,
    found: Result<Option<String>, String>,
    key: Result<String, String>,
    verified: Result<BoundSession, RlTokenError>,
    guild_id: &str,
    role_id: &str,
    id: Result<String, String>,
    session: Option<BoundSession>,
    caller: Result<String, AppError>,
    header: Option<&str>,
    bearer: Option<String>,
)
    ensures
        call_ensures(role_config::entry_token, (query,), token) ==> {
            &&& token is Some <==> query.rl_token is Some && query.rl_token->0@.len() > 0
            &&& token is Some ==> token->0@ == query.rl_token->0@
        },
        call_ensures(role_config::entry_key, (found,), key) ==> {
            &&& key is Ok <==> found is Ok && found->Ok_0 is Some
            &&& key is Ok ==> key->Ok_0@ == found->Ok_0->0@
        },
        call_ensures(role_config::verify_iframe_entry, (verified, guild_id, role_id), id) ==> {
            let wanted = role_config::entrant(verified, guild_id@, role_id@);
            &&& id is Ok <==> wanted is Ok
            &&& id is Ok ==> id->Ok_0@ == wanted->Ok_0
            &&& id is Err ==> id->Err_0@ == wanted->Err_0
        },
        call_ensures(role_config::bearer_access, (session, guild_id, role_id), caller) ==> {
            let wanted = role_config::bearer_caller(session, guild_id@, role_id@);
            &&& caller is Ok <==> wanted is Ok
            &&& caller is Ok ==> caller->Ok_0@ == wanted->Ok_0
            &&& caller is Err ==> caller->Err_0@ == wanted->Err_0
        },
        call_ensures(role_config::extract_bearer, (header,), bearer) ==> {
            let wanted = role_config::bearer(
                if header is Some {
                    Some(header->0@)
                } else {
                    None
                },
            );
            &&& bearer is Some <==> wanted is Some
            &&& bearer is Some ==> bearer->0@ == wanted->0
        },
{
}

/// RoleLogic is told to embed the page of the link.
pub proof fn law_links_are_configured_on_their_page(
    base_url: &str,
    guild_id: &str,
    role_id: &str,
    r: Value,
)
    requires
        call_ensures(crate::schema::build_iframe_config, (base_url, guild_id, role_id), r),
    ensures
        r@.field("ui_mode"@) == Some(Json::Text("iframe"@)),
        r@.field("embed_url"@) == Some(
            Json::Text(base_url@ + "/admin/"@ + guild_id@ + "/role/"@ + role_id@),
        ),
        r@.field("name"@) == Some(Json::Text("Form Respondent Role"@)),
        r@.field("version"@) == Some(Json::Number(Numeral::PosInt(1))),
{
    let f = r@->Record_0;
    reveal_strlit("description");
    reveal_strlit("embed_url");
    reveal_strlit("name");
    reveal_strlit("ui_mode");
    reveal_strlit("version");
    assert("description"@.len() == 11);
    assert("embed_url"@.len() == 9);
    assert("name"@.len() == 4);
    assert("ui_mode"@.len() == 7 && "ui_mode"@[0] == 'u');
    assert("version"@.len() == 7 && "version"@[0] == 'v');
    assert(f.len() == 5);
    assert(f[0].0 == "description"@);
    assert(f[1].0 == "embed_url"@);
    assert(f[2].0 == "name"@);
    assert(f[3].0 == "ui_mode"@);
    assert(f[4].0 == "version"@);
    crate::laws::queue::lemma_field_at(f, 0);
    crate::laws::queue::lemma_field_at(f, 1);
    crate::laws::queue::lemma_field_at(f, 2);
    crate::laws::queue::lemma_field_at(f, 3);
    crate::laws::queue::lemma_field_at(f, 4);
}

/// The addresses of the role API are made of the link's, and the token goes along.
pub proof fn law_role_addresses_name_the_link(
    client: &RoleLogicClient,
    guild_id: &str,
    role_id: &str,
    id: &str,
    r: String,
)
    ensures
        ({
            let users = client.base_url@ + "/api/role-link/"@ + guild_id@ + "/"@ + role_id@
                + "/users"@;
            &&& call_ensures(RoleLogicClient::users_url, (client, guild_id, role_id), r) ==> r@
                == users
            &&& call_ensures(RoleLogicClient::user_url, (client, guild_id, role_id, id), r) ==> r@
                == users + "/"@ + id@
            &&& call_ensures(RoleLogicClient::start_url, (client, guild_id, role_id), r) ==> r@
                == users + "/upload"@
            &&& call_ensures(RoleLogicClient::upload_url, (client, guild_id, role_id, id), r) ==> r@
                == users + "/upload/"@ + id@
            &&& call_ensures(RoleLogicClient::chunk_url, (client, guild_id, role_id, id), r) ==> r@
                == users + "/upload/"@ + id@ + "/chunk"@
            &&& call_ensures(RoleLogicClient::commit_url, (client, guild_id, role_id, id), r) ==> r@
                == users + "/upload/"@ + id@ + "/commit"@
        }),
        call_ensures(rolelogic::authorization, (id,), r) ==> r@ == "Token "@ + id@,
{
}

/// The gateway is asked at its endpoints about a member or a guild, and for this plugin
/// where opt-outs matter.
pub proof fn law_gateways_are_asked_for_this_plugin(
    endpoint: Endpoint,
    base: &str,
    subject: &str,
    r: String,
    q: Vec<(String, String)>,
)
    ensures
        call_ensures(Endpoint::url, (endpoint, base), r) ==> r@ == base@ + "/auth/internal/"@ + (
        match endpoint {
            Endpoint::UserGuildIds => "user_guild_ids"@,
            Endpoint::GuildOptoutIds => "guild_optout_ids"@,
            Endpoint::GuildMemberIds => "guild_member_ids"@,
        }),
        call_ensures(Endpoint::query, (endpoint, subject), q) ==> {
            &&& q@.len() == if endpoint is GuildMemberIds {
                1int
            } else {
                2int
            }
            &&& q@[0].1@ == subject@
            &&& endpoint is UserGuildIds <==> q@[0].0@ == "discord_id"@
            &&& endpoint !is UserGuildIds <==> q@[0].0@ == "guild_id"@
            &&& endpoint !is GuildMemberIds ==> q@[1].0@ == "plugin"@ && q@[1].1@
                == "form-respondent-role"@
        },
{
    if call_ensures(Endpoint::query, (endpoint, subject), q) {
        let all = crate::services::sync::pairs(q@);
        assert(all.len() == q@.len());
        assert(all[0] == (q@[0].0@, q@[0].1@));
        if endpoint !is GuildMemberIds {
            assert(all[1] == (q@[1].0@, q@[1].1@));
        }
        reveal_strlit("discord_id");
        reveal_strlit("guild_id");
        assert("discord_id"@[0] == 'd' && "guild_id"@[0] == 'g');
    }
}

/// A guild has a name where one is known that is not empty.
pub proof fn law_known_names_are_not_empty(name: Option<String>, r: Option<String>)
    requires
        call_ensures(auth_gateway::known_name, (name,), r),
    ensures
        r is Some <==> name is Some && name->0@.len() > 0,
        r is Some ==> r == name,
{
}

/// Exports hold what the laws on exports say, under a name that tells the form.
pub proof fn law_exports_are_files(
    schema: &FormSchema,
    is_quiz: bool,
    rows: &Vec<ResponseRow>,
    slug: &str,
    r: String,
)
    ensures
        call_ensures(csv::responses_csv, (schema, is_quiz, rows), r) ==> r@ == csv::csv_file(
            *schema,
            is_quiz,
            rows@,
        ),
        call_ensures(csv::csv_disposition, (slug,), r) ==> r@ == "attachment; filename=\"form-"@
            + slug@ + "-responses.csv\""@,
        call_ensures(csv::csv_escape, (slug,), r) ==> r@ == csv::csv_cell(slug@),
{
}

/// Questions are asked, can be tested and hold lists by their kind: what is only shown is
/// neither, and only checkboxes hold lists.
pub proof fn law_kinds_tell_what_is_asked(kind: QuestionKind, b: bool)
    ensures
        ({
            let shown = kind is Info || kind is Image || kind is Video;
            &&& call_ensures(QuestionKind::is_answerable, (&kind,), b) ==> (b <==> !shown)
            &&& call_ensures(QuestionKind::is_conditionable, (&kind,), b) ==> (b <==> !shown)
            &&& call_ensures(QuestionKind::is_array_valued, (&kind,), b) ==> (b <==> kind
                is MultiChoice)
        }),
{
}

/// A question is found by its id, the first one that has it.
pub proof fn law_questions_are_found_by_id(
    schema: &FormSchema,
    id: &str,
    r: Option<&Question>,
)
    requires
        call_ensures(FormSchema::find_question, (schema, id), r),
    ensures
        r is Some <==> exists|i: int|
            0 <= i < schema.asked().len() && (#[trigger] schema.asked()[i]).id@ == id@,
        r is Some ==> r->0.id@ == id@ && schema.asked().contains(*r->0),
{
    let asked = schema.asked();
    let ids = crate::models::form::question_ids(asked);
    crate::table::lemma_index_from(ids, id@, 0);
    assert forall|j: int| 0 <= j < asked.len() implies #[trigger] ids[j] == asked[j].id@ by {}
    if let Some(i) = crate::table::index_of(ids, id@) {
        assert(asked[i].id@ == id@);
    } else {
        assert forall|j: int| 0 <= j < asked.len() implies (#[trigger] asked[j]).id@ != id@ by {
            assert(ids[j] == asked[j].id@);
        }
    }
}

/// Times are compared and counted in nanoseconds.
pub proof fn law_times_are_counted(
    a: Timestamp,
    b: Timestamp,
    seconds: i64,
    earlier: bool,
    later: Timestamp,
)
    ensures
        call_ensures(Timestamp::before, (a, b), earlier) ==> (earlier <==> a.secs * 1_000_000_000
            + a.nanos < b.secs * 1_000_000_000 + b.nanos),
        call_ensures(Timestamp::plus, (a, seconds), later) ==> later.secs * 1_000_000_000
            + later.nanos == a.secs * 1_000_000_000 + a.nanos + seconds * 1_000_000_000,
{
}

} // verus!
