//! Admin form-builder API: what its pages are given, and what creating, editing,
//! copying and deleting a form does.

use vstd::prelude::*;

use crate::error::{AppError, DatabaseError, Failure};
use crate::json::{integer, list, no_fields, no_items, object, object1, push_field, push_item};
use crate::json::{text, text_array, Json, Numeral, Value};
use crate::models::form::{FormSchema, Question};
use crate::outside::{base64_encode, parse_uuid, random_below, random_bytes};
use crate::routes::csv::ResponseRow;
use crate::routes::form_render::FormRow;
use crate::routes::role_config::text_at;
use crate::services::form_validator::{quiz_graded_count, sanity_check, validate_quiz_keys};
use crate::services::jobs::{enqueue_config_sync, NewJob, Task};
use crate::services::webhook::is_safe_url;
use crate::table::position;
use crate::text::{blank, cat2, cat3, cat5, chars_of, join, owned, push_text, replace, same};
use crate::time::Timestamp;

verus! {

// ---------------------------------------------------------------------------
// Pages
// ---------------------------------------------------------------------------

/// The page that lists a guild's forms.
pub fn list_page(template: &str, base_url: &str, guild_id: &str) -> (r: String)
    ensures
        r@ == crate::text::replaced(
            crate::text::replaced(template@, "__BASE_URL__"@, base_url@),
            "__GUILD_ID__"@,
            guild_id@,
        ),
{
    proof {
        reveal_strlit("__BASE_URL__");
        reveal_strlit("__GUILD_ID__");
    }
    let a = replace(template, "__BASE_URL__", base_url);
    replace(a.as_str(), "__GUILD_ID__", guild_id)
}

/// A page about one form: the builder, or the list of its responses.
pub fn form_page(template: &str, base_url: &str, guild_id: &str, form_id: &str) -> (r: String)
    ensures
        r@ == crate::text::replaced(
            crate::text::replaced(
                crate::text::replaced(template@, "__BASE_URL__"@, base_url@),
                "__GUILD_ID__"@,
                guild_id@,
            ),
            "__FORM_ID__"@,
            form_id@,
        ),
{
    proof {
        reveal_strlit("__FORM_ID__");
    }
    let a = list_page(template, base_url, guild_id);
    replace(a.as_str(), "__FORM_ID__", form_id)
}

// ---------------------------------------------------------------------------
// Identifiers and tokens
// ---------------------------------------------------------------------------

/// The characters of a slug: small letters and digits that are not easily taken
/// for one another.
pub const SLUG_CHARS: &'static str = "abcdefghijkmnpqrstuvwxyz23456789";

/// How many characters a slug has.
pub const SLUG_LEN: usize = 8;

/// How many random bytes a preview token is made of.
pub const TOKEN_BYTES: usize = 12;

/// Whether a text is made as slugs are.
pub open spec fn is_slug(s: Seq<char>) -> bool {
    s.len() == SLUG_LEN && forall|i: int| 0 <= i < s.len() ==> SLUG_CHARS@.contains(#[trigger] s[i])
}

/// Whether a text is made as preview tokens are.
pub open spec fn is_preview_token(s: Seq<char>) -> bool {
    exists|bytes: Seq<u8>|
        bytes.len() == TOKEN_BYTES && s == #[trigger] crate::outside::base64_text(bytes)
}

/// A slug, left to chance.
pub fn random_slug() -> (r: String)
    ensures
        is_slug(r@),
{
    let chars = chars_of(SLUG_CHARS);
    proof {
        reveal_strlit("abcdefghijkmnpqrstuvwxyz23456789");
    }
    let mut out: String = String::new();
    for i in 0..SLUG_LEN
        invariant
            chars@ == SLUG_CHARS@,
            0 < chars.len() == 32,
            out@.len() == i,
            forall|j: int| 0 <= j < i ==> SLUG_CHARS@.contains(#[trigger] out@[j]),
    {
        let k: u64 = random_below(chars.len() as u64);
        out.push(chars[k as usize]);
        assert(chars@[k as int] == SLUG_CHARS@[k as int]);
    }
    out
}

/// A preview token, left to chance.
pub fn random_preview_token() -> (r: String)
    ensures
        is_preview_token(r@),
{
    let bytes = random_bytes(TOKEN_BYTES);
    base64_encode(&bytes)
}

/// Whether a character is of the URL-safe Base64 alphabet.
pub open spec fn is_base64_char(c: char) -> bool {
    'A' <= c <= 'Z' || 'a' <= c <= 'z' || '0' <= c <= '9' || c == '-' || c == '_'
}

proof fn lemma_base64(bytes: Seq<u8>)
    requires
        bytes.len() >= 3,
    ensures
        ({
            let all = crate::outside::base64_text(bytes);
            let rest = crate::outside::base64_text(bytes.skip(3));
            &&& all.len() == 4 + rest.len()
            &&& forall|i: int| 0 <= i < 4 ==> is_base64_char(#[trigger] all[i])
            &&& forall|i: int| 4 <= i < all.len() ==> #[trigger] all[i] == rest[i - 4]
        }),
{
    let a = bytes[0] as int;
    let b = bytes[1] as int;
    let c = bytes[2] as int;
    let four = seq![
        crate::outside::base64_char(a / 4),
        crate::outside::base64_char(a % 4 * 16 + b / 16),
        crate::outside::base64_char(b % 16 * 4 + c / 64),
        crate::outside::base64_char(c % 64),
    ];
    assert(crate::outside::base64_text(bytes) == four + crate::outside::base64_text(bytes.skip(3)));
    assert forall|n: int| 0 <= n < 64 implies is_base64_char(
        #[trigger] crate::outside::base64_char(n),
    ) by {
    }
}

/// A preview token has sixteen characters: letters, digits, `-` and `_`, none of
/// which means anything in an address.
pub proof fn law_preview_tokens_fit_in_addresses(s: Seq<char>)
    requires
        is_preview_token(s),
    ensures
        s.len() == 16,
        forall|i: int| 0 <= i < s.len() ==> is_base64_char(#[trigger] s[i]),
{
    let bytes = choose|bytes: Seq<u8>|
        bytes.len() == TOKEN_BYTES && s == #[trigger] crate::outside::base64_text(bytes);
    lemma_base64(bytes);
    lemma_base64(bytes.skip(3));
    lemma_base64(bytes.skip(3).skip(3));
    lemma_base64(bytes.skip(3).skip(3).skip(3));
    let last = bytes.skip(3).skip(3).skip(3).skip(3);
    assert(crate::outside::base64_text(last).len() == 0);
}

/// The number of the form that a path names.
pub fn form_number(form_id: &str) -> (r: Result<u128, AppError>)
    ensures
        match r {
            Ok(n) => crate::outside::uuid_number(form_id@) == Some(n),
            Err(e) => crate::outside::uuid_number(form_id@) is None && e@ == Failure::BadRequest(
                "Invalid form id."@,
            ),
        },
{
    match parse_uuid(form_id) {
        Some(n) => Ok(n),
        None => Err(AppError::BadRequest(owned("Invalid form id."))),
    }
}

/// What is said of a form that is not there.
pub fn form_not_found() -> (r: AppError)
    ensures
        r@ == Failure::NotFound("Form not found."@),
{
    AppError::NotFound(owned("Form not found."))
}

// ---------------------------------------------------------------------------
// The list of forms
// ---------------------------------------------------------------------------

/// A form in the list.
#[derive(Debug)]
pub struct FormSummary {
    pub id: String,
    pub slug: String,
    pub title: String,
    pub is_quiz: bool,
    pub archived: bool,
    pub updated_at: Timestamp,
    pub response_count: Option<i64>,
    pub bound_role_links_count: Option<i64>,
}

/// The number, or 0.
pub open spec fn or_zero(n: Option<i64>) -> i64 {
    match n {
        Some(k) => k,
        None => 0,
    }
}

fn count(n: Option<i64>) -> (r: Value)
    ensures
        r@ == Json::Number(Numeral::of_int(or_zero(n))),
{
    match n {
        Some(k) => integer(k),
        None => integer(0),
    }
}

/// A form, as the list is given it.
pub open spec fn summary_json(f: FormSummary) -> Json {
    Json::empty()
        .with("archived"@, Json::Bool(f.archived))
        .with(
            "bound_role_links_count"@,
            Json::Number(Numeral::of_int(or_zero(f.bound_role_links_count))),
        )
        .with("id"@, Json::Text(f.id@))
        .with("is_quiz"@, Json::Bool(f.is_quiz))
        .with("response_count"@, Json::Number(Numeral::of_int(or_zero(f.response_count))))
        .with("slug"@, Json::Text(f.slug@))
        .with("title"@, Json::Text(f.title@))
        .with("updated_at"@, Json::Text(f.updated_at.text()))
}

/// Who may see a guild's respondents: managers, unless it was set otherwise.
pub open spec fn view_permission_of(stored: Option<Seq<char>>) -> Seq<char> {
    match stored {
        Some(p) => p,
        None => "managers"@,
    }
}

/// What the list of a guild's forms is given. Who may see the respondents is a
/// setting of the whole guild.
pub fn list_data(rows: &Vec<FormSummary>, view_permission: Option<&str>) -> (r: Value)
    requires
        forall|i: int| 0 <= i < rows.len() ==> (#[trigger] rows[i]).updated_at.wf(),
    ensures
        r@ == Json::empty()
            .with("forms"@, Json::List(rows@.map_values(|f: FormSummary| summary_json(f))))
            .with(
                "view_permission"@,
                Json::Text(
                    view_permission_of(
                        match view_permission {
                            Some(p) => Some(p@),
                            None => None,
                        },
                    ),
                ),
            ),
{
    let ghost g = |f: FormSummary| summary_json(f);
    let mut v = no_items();
    for i in 0..rows.len()
        invariant
            forall|j: int| 0 <= j < rows.len() ==> (#[trigger] rows[j]).updated_at.wf(),
            g == |f: FormSummary| summary_json(f),
            crate::json::jsons(v@) == rows@.take(i as int).map_values(g),
    {
        let f = &rows[i];
        let mut o = no_fields();
        push_field(&mut o, "archived", Value::Bool(f.archived));
        push_field(&mut o, "bound_role_links_count", count(f.bound_role_links_count));
        push_field(&mut o, "id", text(f.id.as_str()));
        push_field(&mut o, "is_quiz", Value::Bool(f.is_quiz));
        push_field(&mut o, "response_count", count(f.response_count));
        push_field(&mut o, "slug", text(f.slug.as_str()));
        push_field(&mut o, "title", text(f.title.as_str()));
        push_field(&mut o, "updated_at", text(f.updated_at.to_rfc3339().as_str()));
        push_item(&mut v, object(o));
        assert(rows@.take(i + 1).map_values(g) =~= rows@.take(i as int).map_values(g).push(
            g(rows@[i as int]),
        ));
    }
    assert(rows@.take(rows@.len() as int) =~= rows@);
    let permission = match view_permission {
        Some(p) => p,
        None => "managers",
    };
    let mut o = no_fields();
    push_field(&mut o, "forms", list(v));
    push_field(&mut o, "view_permission", text(permission));
    object(o)
}

/// Who may see a guild's respondents, as it is posted.
#[derive(Debug)]
pub struct ViewPermissionBody {
    pub view_permission: String,
}

/// Who may see a guild's respondents, where it is a setting that there is.
pub fn set_view_permission(body: &ViewPermissionBody) -> (r: Result<String, AppError>)
    ensures
        ({
            let p = body.view_permission@;
            match r {
                Ok(s) => (p == "members"@ || p == "managers"@) && s@ == p,
                Err(e) => p != "members"@ && p != "managers"@ && e@ == Failure::BadRequest(
                    "Unknown view_permission '"@ + p + "'. Use 'members' or 'managers'."@,
                ),
            }
        }),
{
    let p = body.view_permission.as_str();
    if same(p, "members") || same(p, "managers") {
        return Ok(owned(p));
    }
    Err(
        AppError::BadRequest(
            cat3("Unknown view_permission '", p, "'. Use 'members' or 'managers'."),
        ),
    )
}

/// The reply to a setting that was stored.
pub fn view_permission_reply(view_permission: &str) -> (r: Value)
    ensures
        r@ == Json::empty()
            .with("success"@, Json::Bool(true))
            .with("view_permission"@, Json::Text(view_permission@)),
{
    let mut o = no_fields();
    push_field(&mut o, "success", Value::Bool(true));
    push_field(&mut o, "view_permission", text(view_permission));
    object(o)
}

/// The reply to what was done.
pub fn success_reply() -> (r: Value)
    ensures
        r@ == Json::empty().with("success"@, Json::Bool(true)),
{
    object1("success", Value::Bool(true))
}

// ---------------------------------------------------------------------------
// Creating and copying forms
// ---------------------------------------------------------------------------

/// What a form is created from.
#[derive(Debug)]
pub struct CreateBody {
    pub template: String,
    pub title: Option<String>,
}

/// The starter templates.
#[derive(Clone, Copy, Debug, PartialEq, Eq, Structural)]
pub enum Template {
    Blank,
    Application,
    ServerQuiz,
}

/// The starter template with the name; the blank one where no name is given.
pub fn template_schema(name: &str) -> (r: Result<Template, AppError>)
    ensures
        match r {
            Ok(Template::Application) => name@ == "application"@,
            Ok(Template::ServerQuiz) => name@ == "server_quiz"@,
            Ok(Template::Blank) => name@ == "blank"@ || name@.len() == 0,
            Err(e) => name@ != "application"@ && name@ != "server_quiz"@ && name@ != "blank"@
                && name@.len() > 0 && e@ == Failure::BadRequest(
                "Unknown template '"@ + name@ + "'. Use blank, application, or server_quiz."@,
            ),
        },
{
    if same(name, "application") {
        return Ok(Template::Application);
    }
    if same(name, "server_quiz") {
        return Ok(Template::ServerQuiz);
    }
    if same(name, "blank") || name.unicode_len() == 0 {
        return Ok(Template::Blank);
    }
    Err(
        AppError::BadRequest(
            cat3("Unknown template '", name, "'. Use blank, application, or server_quiz."),
        ),
    )
}

/// An object with a value under a key, in place of what stood there; anything
/// else as it is.
pub open spec fn with_field(j: Json, key: Seq<char>, value: Json) -> Json {
    match j {
        Json::Record(o) => match crate::table::index_of(crate::json::record_keys(o), key) {
            Some(i) => Json::Record(o.update(i, (key, value))),
            None => Json::Record(o.push((key, value))),
        },
        _ => j,
    }
}

fn set_field(j: Value, key: &str, value: Value) -> (r: Value)
    ensures
        r@ == with_field(j@, key@, value@),
{
    let ghost before = j@;
    match j {
        Value::Object(o) => {
            let mut o = o;
            let ghost was = crate::json::fields(o@);
            assert(before->Record_0 =~= was);
            assert(crate::table::keys(o@) =~= crate::json::record_keys(was));
            match position(&o, key) {
                Some(i) => {
                    o.set(i, (owned(key), value));
                    assert(crate::json::fields(o@) =~= was.update(i as int, (key@, value@)));
                },
                None => {
                    push_field(&mut o, key, value);
                },
            }
            object(o)
        },
        _ => j,
    }
}

/// What is set under a key is found there, and nothing else changes.
pub proof fn law_fields_are_set_alone(j: Json, key: Seq<char>, value: Json, other: Seq<char>)
    requires
        j is Record,
    ensures
        with_field(j, key, value).field(key) == Some(value),
        other != key ==> with_field(j, key, value).field(other) == j.field(other),
{
    let o = j->Record_0;
    let was = crate::json::record_keys(o);
    let now = crate::json::record_keys(with_field(j, key, value)->Record_0);
    crate::table::lemma_index_from(was, key, 0);
    crate::table::lemma_index_from(now, key, 0);
    crate::table::lemma_index_from(was, other, 0);
    crate::table::lemma_index_from(now, other, 0);
    match crate::table::index_of(was, key) {
        Some(i) => {
            assert(now =~= was);
        },
        None => {
            assert(now =~= was.push(key));
            assert(now[was.len() as int] == key);
            if let Some(i) = crate::table::index_of(was, other) {
                assert(now[i] == other);
            }
            if let Some(i) = crate::table::index_of(now, other) {
                if i < was.len() {
                    assert(was[i] == other);
                }
            }
        },
    }
}

/// A starter template with the title that was asked for.
pub fn titled(starter: Value, title: &Option<String>) -> (r: Value)
    ensures
        r@ == (match *title {
            Some(t) => with_field(starter@, "title"@, Json::Text(t@)),
            None => starter@,
        }),
{
    match title {
        Some(t) => set_field(starter, "title", text(t.as_str())),
        None => starter,
    }
}

/// A form to be created.
#[derive(Debug)]
pub struct NewForm {
    pub title: String,
    pub description: String,
    pub is_quiz: bool,
}

/// Whether a question has an answer key or points.
pub open spec fn has_key(q: Question) -> bool {
    q.correct is Some || q.points is Some
}

/// What is created from a starter template. A template whose questions carry
/// answer keys or points is a quiz. `schema` is what the template reads as, or why
/// it does not read.
pub fn new_form(schema: &Result<FormSchema, String>) -> (r: Result<NewForm, AppError>)
    ensures
        match (*schema, r) {
            (Err(e), Err(f)) => f@ == Failure::Internal("starter template invalid: "@ + e@),
            (Ok(s), Ok(form)) => {
                &&& form.title@ == (if crate::text::is_blank_text(s.title@) {
                    "Untitled form"@
                } else {
                    s.title@
                })
                &&& form.description@ == s.description@
                &&& form.is_quiz == exists|i: int|
                    0 <= i < s.asked().len() && has_key(#[trigger] s.asked()[i])
            },
            _ => false,
        },
{
    let s = match schema {
        Ok(s) => s,
        Err(e) => {
            return Err(AppError::Internal(cat2("starter template invalid: ", e.as_str())));
        },
    };
    let title = if blank(s.title.as_str()) {
        owned("Untitled form")
    } else {
        owned(s.title.as_str())
    };
    let asked = s.iter_questions();
    let ghost all = s.asked();
    let mut is_quiz: bool = false;
    for i in 0..asked.len()
        invariant
            asked@.map_values(|q: &Question| *q) == all,
            is_quiz == exists|j: int| 0 <= j < i && has_key(#[trigger] all[j]),
    {
        assert(all[i as int] == *asked@[i as int]);
        if asked[i].correct.is_some() || asked[i].points.is_some() {
            assert(has_key(all[i as int]));
            is_quiz = true;
        }
    }
    Ok(NewForm { title, description: owned(s.description.as_str()), is_quiz })
}

/// What a copy of a form takes over. It starts with the default settings for
/// opening times and retries, and without responses.
#[derive(Debug)]
pub struct FormCopy {
    pub title: String,
    pub description: String,
    pub schema: Value,
    pub is_quiz: bool,
    pub allow_edits: bool,
    pub single_submission: bool,
    pub require_verified: bool,
    pub min_account_age_days: i32,
    pub success_message: String,
    pub webhook_url: Option<String>,
}

/// A copy of a form, or the failure where the form is not there.
pub fn duplicate_form(source: Option<FormCopy>) -> (r: Result<FormCopy, AppError>)
    ensures
        match r {
            Err(e) => source is None && e@ == Failure::NotFound("Form not found."@),
            Ok(copy) => source is Some && copy.title@ == source->0.title@ + " (copy)"@ && copy == (
            FormCopy { title: copy.title, ..source->0 }),
        },
{
    match source {
        None => Err(form_not_found()),
        Some(s) => {
            let title = cat2(s.title.as_str(), " (copy)");
            Ok(
                FormCopy {
                    title,
                    description: s.description,
                    schema: s.schema,
                    is_quiz: s.is_quiz,
                    allow_edits: s.allow_edits,
                    single_submission: s.single_submission,
                    require_verified: s.require_verified,
                    min_account_age_days: s.min_account_age_days,
                    success_message: s.success_message,
                    webhook_url: s.webhook_url,
                },
            )
        },
    }
}

/// How often a form is inserted anew because its slug was taken.
pub const MAX_SLUG_ATTEMPTS: u32 = 5;

/// Where the creation of a form is.
#[derive(Debug)]
pub enum Creation {
    /// Insert the form with the slug.
    Insert { attempt: u32, slug: String },
    /// The creation is over.
    Done(Result<Value, AppError>),
}

/// The reply to a form that was created.
pub open spec fn created_json(id: Seq<char>, slug: Seq<char>, preview_token: Seq<char>) -> Json {
    Json::empty()
        .with("id"@, Json::Text(id))
        .with("preview_token"@, Json::Text(preview_token))
        .with("slug"@, Json::Text(slug))
}

/// Whether an insertion failed because the slug was taken.
pub open spec fn slug_taken(e: DatabaseError) -> bool {
    crate::error::optional_text(e.constraint) == Some("forms_slug_key"@)
}

/// How the creation of a form starts.
pub fn create_form() -> (r: Creation)
    ensures
        r matches Creation::Insert { attempt, slug } && attempt == 1 && is_slug(slug@),
{
    Creation::Insert { attempt: 1, slug: random_slug() }
}

/// How the creation of a form goes on after an insertion, which gave the form's
/// id or failed: a slug that was taken is replaced by another one, a few times.
pub fn creation_next(
    attempt: u32,
    slug: &str,
    preview_token: &str,
    inserted: Result<String, DatabaseError>,
) -> (r: Creation)
    ensures
        match inserted {
            Ok(id) => r matches Creation::Done(Ok(v)) && v@ == created_json(
                id@,
                slug@,
                preview_token@,
            ),
            Err(e) => if !slug_taken(e) {
                r matches Creation::Done(Err(f)) && f == AppError::Database(e)
            } else if attempt < MAX_SLUG_ATTEMPTS {
                r matches Creation::Insert { attempt: next, slug: s } && next == attempt + 1
                    && is_slug(s@)
            } else {
                r matches Creation::Done(Err(f)) && f@ == Failure::Internal(
                    "slug collision after 5 attempts"@,
                )
            },
        },
{
    match inserted {
        Ok(id) => {
            let mut o = no_fields();
            push_field(&mut o, "id", text(id.as_str()));
            push_field(&mut o, "preview_token", text(preview_token));
            push_field(&mut o, "slug", text(slug));
            Creation::Done(Ok(object(o)))
        },
        Err(e) => {
            let taken: bool = match &e.constraint {
                Some(c) => same(c.as_str(), "forms_slug_key"),
                None => false,
            };
            if !taken {
                return Creation::Done(Err(AppError::Database(e)));
            }
            if attempt < MAX_SLUG_ATTEMPTS {
                Creation::Insert { attempt: attempt + 1, slug: random_slug() }
            } else {
                Creation::Done(Err(AppError::Internal(owned("slug collision after 5 attempts"))))
            }
        },
    }
}

// ---------------------------------------------------------------------------
// The builder
// ---------------------------------------------------------------------------

/// A time as JSON, or null.
pub open spec fn time_json(t: Option<Timestamp>) -> Json {
    match t {
        Some(x) => Json::Text(x.text()),
        None => Json::Null,
    }
}

fn time_value(t: Option<Timestamp>) -> (r: Value)
    requires
        t matches Some(x) ==> x.wf(),
    ensures
        r@ == time_json(t),
{
    match t {
        Some(x) => text(x.to_rfc3339().as_str()),
        None => Value::Null,
    }
}

/// What the builder is given of a form.
pub open spec fn builder_json(
    id: Seq<char>,
    form: FormRow,
    response_count: i64,
    bound_role_links_count: i64,
) -> Json {
    Json::empty()
        .with("allow_edits"@, Json::Bool(form.allow_edits))
        .with("archived"@, Json::Bool(form.archived))
        .with("bound_role_links_count"@, Json::Number(Numeral::of_int(bound_role_links_count)))
        .with("close_at"@, time_json(form.close_at))
        .with("description"@, Json::Text(form.description@))
        .with("id"@, Json::Text(id))
        .with("is_quiz"@, Json::Bool(form.is_quiz))
        .with(
            "min_account_age_days"@,
            Json::Number(Numeral::of_int(form.min_account_age_days as i64)),
        )
        .with("open_at"@, time_json(form.open_at))
        .with("preview_token"@, Json::Text(form.preview_token@))
        .with("require_verified"@, Json::Bool(form.require_verified))
        .with("response_count"@, Json::Number(Numeral::of_int(response_count)))
        .with("schema"@, form.schema@)
        .with("single_submission"@, Json::Bool(form.single_submission))
        .with("slug"@, Json::Text(form.slug@))
        .with("success_message"@, Json::Text(form.success_message@))
        .with("title"@, Json::Text(form.title@))
        .with("version"@, Json::Number(Numeral::of_int(form.version as i64)))
        .with(
            "webhook_url"@,
            match form.webhook_url {
                Some(url) => Json::Text(url@),
                None => Json::Null,
            },
        )
}

/// What the builder is given of a form.
pub fn builder_data(
    id: &str,
    form: &FormRow,
    response_count: i64,
    bound_role_links_count: i64,
) -> (r: Value)
    requires
        form.wf(),
    ensures
        r@ == builder_json(id@, *form, response_count, bound_role_links_count),
{
    let mut o = no_fields();
    push_field(&mut o, "allow_edits", Value::Bool(form.allow_edits));
    push_field(&mut o, "archived", Value::Bool(form.archived));
    push_field(&mut o, "bound_role_links_count", integer(bound_role_links_count));
    push_field(&mut o, "close_at", time_value(form.close_at));
    push_field(&mut o, "description", text(form.description.as_str()));
    push_field(&mut o, "id", text(id));
    push_field(&mut o, "is_quiz", Value::Bool(form.is_quiz));
    push_field(&mut o, "min_account_age_days", integer(form.min_account_age_days as i64));
    push_field(&mut o, "open_at", time_value(form.open_at));
    push_field(&mut o, "preview_token", text(form.preview_token.as_str()));
    push_field(&mut o, "require_verified", Value::Bool(form.require_verified));
    push_field(&mut o, "response_count", integer(response_count));
    push_field(&mut o, "schema", form.schema.copy());
    push_field(&mut o, "single_submission", Value::Bool(form.single_submission));
    push_field(&mut o, "slug", text(form.slug.as_str()));
    push_field(&mut o, "success_message", text(form.success_message.as_str()));
    push_field(&mut o, "title", text(form.title.as_str()));
    push_field(&mut o, "version", integer(form.version as i64));
    push_field(
        &mut o,
        "webhook_url",
        match &form.webhook_url {
            Some(url) => text(url.as_str()),
            None => Value::Null,
        },
    );
    object(o)
}

// ---------------------------------------------------------------------------
// Responses
// ---------------------------------------------------------------------------

/// A response, as the list is given it.
pub open spec fn response_json(row: ResponseRow) -> Json {
    Json::empty()
        .with("answers"@, row.answers@)
        .with("discord_id"@, Json::Text(row.discord_id@))
        .with("id"@, Json::Text(row.id@))
        .with("last_edited_at"@, Json::Text(row.last_edited_at.text()))
        .with("submitted_at"@, Json::Text(row.submitted_at.text()))
        .with(
            "total_score"@,
            match row.total_score {
                Some(s) => Json::Number(Numeral::of_int(s as i64)),
                None => Json::Null,
            },
        )
}

/// What the list of a form's responses is given.
pub fn responses_data(form: &FormRow, rows: &Vec<ResponseRow>) -> (r: Value)
    requires
        forall|i: int| 0 <= i < rows.len() ==> (#[trigger] rows[i]).wf(),
    ensures
        r@ == Json::empty()
            .with("is_quiz"@, Json::Bool(form.is_quiz))
            .with("preview_token"@, Json::Text(form.preview_token@))
            .with("responses"@, Json::List(rows@.map_values(|x: ResponseRow| response_json(x))))
            .with("schema"@, form.schema@)
            .with("slug"@, Json::Text(form.slug@))
            .with("title"@, Json::Text(form.title@)),
{
    let ghost g = |x: ResponseRow| response_json(x);
    let mut v = no_items();
    for i in 0..rows.len()
        invariant
            forall|j: int| 0 <= j < rows.len() ==> (#[trigger] rows[j]).wf(),
            g == |x: ResponseRow| response_json(x),
            crate::json::jsons(v@) == rows@.take(i as int).map_values(g),
    {
        let row = &rows[i];
        let mut o = no_fields();
        push_field(&mut o, "answers", row.answers.copy());
        push_field(&mut o, "discord_id", text(row.discord_id.as_str()));
        push_field(&mut o, "id", text(row.id.as_str()));
        push_field(&mut o, "last_edited_at", text(row.last_edited_at.to_rfc3339().as_str()));
        push_field(&mut o, "submitted_at", text(row.submitted_at.to_rfc3339().as_str()));
        push_field(
            &mut o,
            "total_score",
            match row.total_score {
                Some(s) => integer(s as i64),
                None => Value::Null,
            },
        );
        push_item(&mut v, object(o));
        assert(rows@.take(i + 1).map_values(g) =~= rows@.take(i as int).map_values(g).push(
            g(rows@[i as int]),
        ));
    }
    assert(rows@.take(rows@.len() as int) =~= rows@);
    let mut o = no_fields();
    push_field(&mut o, "is_quiz", Value::Bool(form.is_quiz));
    push_field(&mut o, "preview_token", text(form.preview_token.as_str()));
    push_field(&mut o, "responses", list(v));
    push_field(&mut o, "schema", form.schema.copy());
    push_field(&mut o, "slug", text(form.slug.as_str()));
    push_field(&mut o, "title", text(form.title.as_str()));
    object(o)
}

// ---------------------------------------------------------------------------
// Deleting
// ---------------------------------------------------------------------------

/// The jobs that work role links out anew.
pub fn resync_jobs(links: &Vec<(String, String)>) -> (r: Vec<NewJob>)
    ensures
        crate::services::jobs::tasks(r@) == crate::services::sync::pairs(links@).map_values(
            |p: (Seq<char>, Seq<char>)| crate::services::jobs::config_task(p.0, p.1),
        ),
{
    let ghost all = crate::services::sync::pairs(links@);
    let ghost f = |p: (Seq<char>, Seq<char>)| crate::services::jobs::config_task(p.0, p.1);
    let mut jobs: Vec<NewJob> = Vec::new();
    assert(crate::services::jobs::tasks(jobs@) =~= all.take(0).map_values(f));
    for i in 0..links.len()
        invariant
            all == crate::services::sync::pairs(links@),
            f == |p: (Seq<char>, Seq<char>)| crate::services::jobs::config_task(p.0, p.1),
            crate::services::jobs::tasks(jobs@) == all.take(i as int).map_values(f),
    {
        let ghost before = jobs@;
        let job = enqueue_config_sync(links[i].0.as_str(), links[i].1.as_str());
        jobs.push(job);
        proof {
            assert(all[i as int] == (links@[i as int].0@, links@[i as int].1@));
            assert(crate::services::jobs::tasks(jobs@) =~= crate::services::jobs::tasks(
                before,
            ).push(job@));
            assert(all.take(i + 1).map_values(f) =~= all.take(i as int).map_values(f).push(
                f(all[i as int]),
            ));
        }
    }
    assert(all.take(all.len() as int) =~= all);
    jobs
}

/// What is wrong with a deletion: the form is not there, or not this guild's.
/// This is asked before anything of the form is read, and again of the rows that
/// were deleted.
pub fn delete_form(rows: u64) -> (r: Option<AppError>)
    ensures
        match r {
            Some(e) => rows == 0 && e@ == Failure::NotFound("Form not found."@),
            None => rows > 0,
        },
{
    if rows == 0 {
        Some(form_not_found())
    } else {
        None
    }
}

// ---------------------------------------------------------------------------
// Editing: what may be saved
// ---------------------------------------------------------------------------

/// The upper bound on the age that an account can be asked for, in days.
pub const MAX_ACCOUNT_AGE_DAYS: i32 = 3650;

/// A form as it is posted for saving. `version` is the one that was edited.
#[derive(Debug)]
pub struct UpdateBody {
    pub title: String,
    pub description: String,
    pub schema: Value,
    pub is_quiz: bool,
    pub open_at: Option<Timestamp>,
    pub close_at: Option<Timestamp>,
    pub allow_edits: bool,
    pub single_submission: bool,
    pub require_verified: bool,
    pub min_account_age_days: i32,
    pub success_message: String,
    pub webhook_url: Option<String>,
    pub archived: bool,
    pub version: i32,
}

/// What a respondent is told where the form has no message of its own.
pub fn default_success_message() -> (r: String)
    ensures
        r@ == "Thanks for your response!"@,
{
    owned("Thanks for your response!")
}

/// The posted schema, with the form's title and description in it.
pub open spec fn edited_schema(body: UpdateBody) -> Json {
    with_field(
        with_field(body.schema@, "title"@, Json::Text(body.title@)),
        "description"@,
        Json::Text(body.description@),
    )
}

/// A list of complaints as one text.
pub open spec fn complaints(errors: Seq<Seq<char>>) -> Seq<char> {
    crate::text::joined(errors, " "@)
}

/// Why a form is not saved, if so. `schema` is what the edited schema reads as, or
/// why it does not read.
pub open spec fn update_complaint(body: UpdateBody, schema: Result<FormSchema, String>) -> Option<
    Seq<char>,
> {
    match schema {
        Err(e) => Some("Schema is not a valid form definition: "@ + e@),
        Ok(s) => {
            let structure = crate::services::form_validator::form_errors(s);
            let keys = crate::services::form_validator::all_key_errors(s.asked());
            if structure.len() > 0 {
                Some(complaints(structure))
            } else if body.is_quiz && keys.len() > 0 {
                Some(complaints(keys))
            } else if body.min_account_age_days < 0 || body.min_account_age_days
                > MAX_ACCOUNT_AGE_DAYS {
                Some("min_account_age_days must be between 0 and 3650."@)
            } else if body.webhook_url is Some && body.webhook_url->0@.len() > 0
                && !crate::services::webhook::is_safe_webhook(body.webhook_url->0@) {
                Some("webhook_url must be an https:// URL on a public host."@)
            } else {
                None
            }
        },
    }
}

/// Whether `saved` is what is stored of `body`: the edited schema, no webhook
/// where its address is empty, and one response for each member of a quiz.
pub open spec fn saves(body: UpdateBody, saved: UpdateBody) -> bool {
    &&& saved.schema@ == edited_schema(body)
    &&& saved.single_submission == (body.single_submission || body.is_quiz)
    &&& crate::error::optional_text(saved.webhook_url) == (match body.webhook_url {
        Some(url) => if url@.len() > 0 {
            Some(url@)
        } else {
            None
        },
        None => None,
    })
    &&& saved == (UpdateBody {
        schema: saved.schema,
        single_submission: saved.single_submission,
        webhook_url: saved.webhook_url,
        ..body
    })
}

fn edit_schema(body: &UpdateBody) -> (r: Value)
    ensures
        r@ == edited_schema(*body),
{
    let a = set_field(body.schema.copy(), "title", text(body.title.as_str()));
    set_field(a, "description", text(body.description.as_str()))
}

fn complain_of_update(body: &UpdateBody, schema: &FormSchema) -> (r: Option<String>)
    ensures
        crate::error::optional_text(r) == update_complaint(*body, Ok(*schema)),
{
    if let Err(errors) = sanity_check(schema) {
        assert(crate::text::texts(errors@).len() == errors.len());
        return Some(join(&errors, " "));
    }
    if body.is_quiz {
        if let Err(errors) = validate_quiz_keys(schema) {
            assert(crate::text::texts(errors@).len() == errors.len());
            return Some(join(&errors, " "));
        }
    }
    if body.min_account_age_days < 0 || body.min_account_age_days > MAX_ACCOUNT_AGE_DAYS {
        return Some(owned("min_account_age_days must be between 0 and 3650."));
    }
    if let Some(url) = &body.webhook_url {
        if url.as_str().unicode_len() > 0 && !is_safe_url(url.as_str()) {
            return Some(owned("webhook_url must be an https:// URL on a public host."));
        }
    }
    None
}

fn prepare(body: UpdateBody) -> (r: UpdateBody)
    ensures
        saves(body, r),
{
    let schema = edit_schema(&body);
    let webhook_url = match body.webhook_url {
        Some(url) => if url.as_str().unicode_len() > 0 {
            Some(url)
        } else {
            None
        },
        None => None,
    };
    UpdateBody {
        title: body.title,
        description: body.description,
        schema,
        is_quiz: body.is_quiz,
        open_at: body.open_at,
        close_at: body.close_at,
        allow_edits: body.allow_edits,
        single_submission: body.single_submission || body.is_quiz,
        require_verified: body.require_verified,
        min_account_age_days: body.min_account_age_days,
        success_message: body.success_message,
        webhook_url,
        archived: body.archived,
        version: body.version,
    }
}

// ---------------------------------------------------------------------------
// Editing: warnings
// ---------------------------------------------------------------------------

/// The question that a stored condition is about, where the form no longer has
/// it.
pub open spec fn missing_question(c: Json, schema: FormSchema) -> Option<Seq<char>> {
    if crate::routes::role_config::text_under(c, "target"@, "kind"@) == Some("question"@) {
        match crate::routes::role_config::text_under(c, "target"@, "question_id"@) {
            Some(id) => if schema.question_with(id) is None {
                Some(id)
            } else {
                None
            },
            None => None,
        }
    } else {
        None
    }
}

/// The warning about a role whose conditions speak of a question that the form no
/// longer has.
pub open spec fn missing_warning(role_id: Seq<char>, question_id: Seq<char>) -> Seq<char> {
    "Role <"@ + role_id + "> references question \""@ + question_id
        + "\" which no longer exists."@
}

/// The warnings about the conditions of a role.
pub open spec fn role_warnings(role_id: Seq<char>, conditions: Seq<Json>, schema: FormSchema) -> Seq<
    Seq<char>,
>
    decreases conditions.len(),
{
    if conditions.len() == 0 {
        Seq::empty()
    } else {
        let before = role_warnings(role_id, conditions.drop_last(), schema);
        match missing_question(conditions.last(), schema) {
            Some(id) => before.push(missing_warning(role_id, id)),
            None => before,
        }
    }
}

/// The warning about a quiz that no answer earns points in.
pub open spec fn quiz_warnings(is_quiz: bool, schema: FormSchema) -> Seq<Seq<char>> {
    if is_quiz && crate::services::form_validator::graded_count(schema.asked()) == 0 {
        seq!["This quiz has no graded questions yet: mark correct answers and give them points."@]
    } else {
        Seq::empty()
    }
}

fn missing<'a>(c: &'a Value, schema: &FormSchema) -> (r: Option<&'a str>)
    ensures
        missing_question(c@, *schema) == (match r {
            Some(id) => Some(id@),
            None => None,
        }),
{
    let on_question: bool = match text_at(c, "target", "kind") {
        Some(kind) => same(kind, "question"),
        None => false,
    };
    if !on_question {
        return None;
    }
    match text_at(c, "target", "question_id") {
        Some(id) => match schema.find_question(id) {
            Some(_) => None,
            None => Some(id),
        },
        None => None,
    }
}

fn warn_of_role(warnings: &mut Vec<String>, role_id: &str, conditions: &Value, schema: &FormSchema)
    ensures
        crate::text::texts(final(warnings)@) == crate::text::texts(old(warnings)@) + role_warnings(
            role_id@,
            crate::routes::role_config::stored_items(conditions@),
            *schema,
        ),
{
    let ghost before = crate::text::texts(warnings@);
    let ghost all = crate::routes::role_config::stored_items(conditions@);
    assert(before + role_warnings(role_id@, all.take(0), *schema) =~= before);
    if let Some(a) = conditions.as_array() {
        assert(all =~= crate::json::jsons(a@));
        for i in 0..a.len()
            invariant
                all == crate::json::jsons(a@),
                crate::text::texts(warnings@) == before + role_warnings(
                    role_id@,
                    all.take(i as int),
                    *schema,
                ),
        {
            proof {
                assert(all[i as int] == a@[i as int]@);
                assert(all.take(i + 1).drop_last() =~= all.take(i as int));
            }
            if let Some(id) = missing(&a[i], schema) {
                push_text(
                    warnings,
                    cat5(
                        "Role <",
                        role_id,
                        "> references question \"",
                        id,
                        "\" which no longer exists.",
                    ),
                );
            }
            assert(crate::text::texts(warnings@) =~= before + role_warnings(
                role_id@,
                all.take(i + 1),
                *schema,
            ));
        }
        assert(all.take(all.len() as int) =~= all);
    } else {
        assert(all =~= all.take(0));
    }
}

fn warn_of_quiz(is_quiz: bool, schema: &FormSchema) -> (r: Vec<String>)
    ensures
        crate::text::texts(r@) == quiz_warnings(is_quiz, *schema),
{
    let mut warnings: Vec<String> = Vec::new();
    assert(crate::text::texts(warnings@) =~= Seq::empty());
    if is_quiz && quiz_graded_count(schema) == 0 {
        push_text(
            &mut warnings,
            owned("This quiz has no graded questions yet: mark correct answers and give them points."),
        );
    }
    warnings
}

// ---------------------------------------------------------------------------
// Editing: the steps
// ---------------------------------------------------------------------------

/// Where the saving of a form is: what it asks for next.
#[derive(Debug)]
pub enum FormUpdate {
    /// What the edited schema reads as.
    ReadSchema { body: UpdateBody, schema: Value },
    /// Save the form where its version is still the one that was edited.
    Save { saved: UpdateBody, schema: FormSchema },
    /// The version of the form, which was not saved.
    CheckVersion,
    /// The role links that are bound to the form.
    LoadLinks { schema: FormSchema, warnings: Vec<String> },
    /// The conditions of the link at `at`.
    LoadConditions {
        schema: FormSchema,
        warnings: Vec<String>,
        links: Vec<(String, String)>,
        at: usize,
    },
    /// Put the job for the link at `at` in the queue. Whether that works is of no
    /// account here.
    Enqueue {
        job: NewJob,
        schema: FormSchema,
        warnings: Vec<String>,
        links: Vec<(String, String)>,
        at: usize,
    },
    /// The new version of the form.
    LoadVersion { warnings: Vec<String> },
    /// The saving is over.
    Done(Result<Value, AppError>),
}

/// What a `FormUpdate` stands for.
pub enum UpdateStage {
    ReadSchema(UpdateBody, Json),
    Save(UpdateBody, FormSchema),
    CheckVersion,
    LoadLinks(FormSchema, Seq<Seq<char>>),
    LoadConditions {
        schema: FormSchema,
        warnings: Seq<Seq<char>>,
        links: Seq<(Seq<char>, Seq<char>)>,
        at: nat,
    },
    Enqueue {
        job: Task,
        schema: FormSchema,
        warnings: Seq<Seq<char>>,
        links: Seq<(Seq<char>, Seq<char>)>,
        at: nat,
    },
    LoadVersion(Seq<Seq<char>>),
    Done(Result<Json, Failure>),
}

impl View for FormUpdate {
    type V = UpdateStage;

    open spec fn view(&self) -> UpdateStage {
        match *self {
            FormUpdate::ReadSchema { body, schema } => UpdateStage::ReadSchema(body, schema@),
            FormUpdate::Save { saved, schema } => UpdateStage::Save(saved, schema),
            FormUpdate::CheckVersion => UpdateStage::CheckVersion,
            FormUpdate::LoadLinks { schema, warnings } => UpdateStage::LoadLinks(
                schema,
                crate::text::texts(warnings@),
            ),
            FormUpdate::LoadConditions { schema, warnings, links, at } => {
                UpdateStage::LoadConditions {
                    schema,
                    warnings: crate::text::texts(warnings@),
                    links: crate::services::sync::pairs(links@),
                    at: at as nat,
                }
            },
            FormUpdate::Enqueue { job, schema, warnings, links, at } => UpdateStage::Enqueue {
                job: job@,
                schema,
                warnings: crate::text::texts(warnings@),
                links: crate::services::sync::pairs(links@),
                at: at as nat,
            },
            FormUpdate::LoadVersion { warnings } => UpdateStage::LoadVersion(
                crate::text::texts(warnings@),
            ),
            FormUpdate::Done(r) => UpdateStage::Done(
                match r {
                    Ok(v) => Ok(v@),
                    Err(e) => Err(e@),
                },
            ),
        }
    }
}

/// What the last request of a saving gave.
#[derive(Debug)]
pub enum UpdateAnswer {
    Schema(Result<FormSchema, String>),
    /// How many forms were saved.
    Saved(Result<u64, AppError>),
    Version(Result<Option<i32>, AppError>),
    Links(Result<Vec<(String, String)>, AppError>),
    Conditions(Result<Value, AppError>),
    Enqueued,
    NewVersion(Result<i32, AppError>),
}

/// How a saving goes on with the link at `at`.
pub open spec fn next_link(
    schema: FormSchema,
    warnings: Seq<Seq<char>>,
    links: Seq<(Seq<char>, Seq<char>)>,
    at: nat,
) -> UpdateStage {
    if at < links.len() {
        UpdateStage::LoadConditions { schema, warnings, links, at }
    } else {
        UpdateStage::LoadVersion(warnings)
    }
}

/// Whether a saving goes from one stage to another by an answer. A failed lookup
/// ends it; a failure to queue a job does not. An answer that does not belong to
/// what was asked for changes nothing.
pub open spec fn update_step(at: UpdateStage, answer: UpdateAnswer, next: UpdateStage) -> bool {
    match (at, answer) {
        (UpdateStage::ReadSchema(body, _), UpdateAnswer::Schema(r)) => match update_complaint(
            body,
            r,
        ) {
            Some(message) => next == UpdateStage::Done(Err(Failure::BadRequest(message))),
            None => {
                &&& next matches UpdateStage::Save(saved, schema)
                &&& saves(body, saved)
                &&& r == Ok::<FormSchema, String>(schema)
            },
        },
        (UpdateStage::Save(saved, schema), UpdateAnswer::Saved(r)) => match r {
            Err(e) => next == UpdateStage::Done(Err(e@)),
            Ok(rows) => if rows == 0 {
                next == UpdateStage::CheckVersion
            } else {
                next == UpdateStage::LoadLinks(schema, quiz_warnings(saved.is_quiz, schema))
            },
        },
        (UpdateStage::CheckVersion, UpdateAnswer::Version(r)) => match r {
            Err(e) => next == UpdateStage::Done(Err(e@)),
            Ok(Some(_)) => next == UpdateStage::Done(Err(Failure::StaleVersion)),
            Ok(None) => next == UpdateStage::Done(Err(Failure::NotFound("Form not found."@))),
        },
        (UpdateStage::LoadLinks(schema, warnings), UpdateAnswer::Links(r)) => match r {
            Err(e) => next == UpdateStage::Done(Err(e@)),
            Ok(links) => next == next_link(
                schema,
                warnings,
                crate::services::sync::pairs(links@),
                0,
            ),
        },
        (
            UpdateStage::LoadConditions { schema, warnings, links, at },
            UpdateAnswer::Conditions(r),
        ) => match r {
            Err(e) => next == UpdateStage::Done(Err(e@)),
            Ok(conditions) => if at < links.len() {
                let (guild_id, role_id) = links[at as int];
                next == UpdateStage::Enqueue {
                    job: crate::services::jobs::config_task(guild_id, role_id),
                    schema,
                    warnings: warnings + role_warnings(
                        role_id,
                        crate::routes::role_config::stored_items(conditions@),
                        schema,
                    ),
                    links,
                    at,
                }
            } else {
                next == UpdateStage::LoadVersion(warnings)
            },
        },
        (UpdateStage::Enqueue { job, schema, warnings, links, at }, UpdateAnswer::Enqueued) => {
            next == next_link(schema, warnings, links, at + 1)
        },
        (UpdateStage::LoadVersion(warnings), UpdateAnswer::NewVersion(r)) => match r {
            Err(e) => next == UpdateStage::Done(Err(e@)),
            Ok(version) => next == UpdateStage::Done(
                Ok(
                    Json::empty()
                        .with("version"@, Json::Number(Numeral::of_int(version as i64)))
                        .with("warnings"@, crate::json::texts_json(warnings)),
                ),
            ),
        },
        _ => next == at,
    }
}

fn go_to_link(
    schema: FormSchema,
    warnings: Vec<String>,
    links: Vec<(String, String)>,
    at: usize,
) -> (r: FormUpdate)
    ensures
        r@ == next_link(
            schema,
            crate::text::texts(warnings@),
            crate::services::sync::pairs(links@),
            at as nat,
        ),
{
    assert(crate::services::sync::pairs(links@).len() == links.len());
    if at < links.len() {
        FormUpdate::LoadConditions { schema, warnings, links, at }
    } else {
        FormUpdate::LoadVersion { warnings }
    }
}

/// How the saving of the form that a path names starts.
pub fn update_form(form_id: &str, body: UpdateBody) -> (r: FormUpdate)
    ensures
        r@ == (match crate::outside::uuid_number(form_id@) {
            Some(_) => UpdateStage::ReadSchema(body, edited_schema(body)),
            None => UpdateStage::Done(Err(Failure::BadRequest("Invalid form id."@))),
        }),
{
    match form_number(form_id) {
        Ok(_) => {
            let schema = edit_schema(&body);
            FormUpdate::ReadSchema { body, schema }
        },
        Err(e) => FormUpdate::Done(Err(e)),
    }
}

/// How the saving of a form goes on.
pub fn form_update_next(at: FormUpdate, answer: UpdateAnswer) -> (r: FormUpdate)
    ensures
        update_step(at@, answer, r@),
{
    match (at, answer) {
        (FormUpdate::ReadSchema { body, schema: _ }, UpdateAnswer::Schema(r)) => match r {
            Err(e) => FormUpdate::Done(
                Err(
                    AppError::BadRequest(
                        cat2("Schema is not a valid form definition: ", e.as_str()),
                    ),
                ),
            ),
            Ok(schema) => match complain_of_update(&body, &schema) {
                Some(message) => FormUpdate::Done(Err(AppError::BadRequest(message))),
                None => FormUpdate::Save { saved: prepare(body), schema },
            },
        },
        (FormUpdate::Save { saved, schema }, UpdateAnswer::Saved(r)) => match r {
            Err(e) => FormUpdate::Done(Err(e)),
            Ok(rows) => if rows == 0 {
                FormUpdate::CheckVersion
            } else {
                let warnings = warn_of_quiz(saved.is_quiz, &schema);
                FormUpdate::LoadLinks { schema, warnings }
            },
        },
        (FormUpdate::CheckVersion, UpdateAnswer::Version(r)) => match r {
            Err(e) => FormUpdate::Done(Err(e)),
            Ok(Some(_)) => FormUpdate::Done(Err(AppError::StaleVersion)),
            Ok(None) => FormUpdate::Done(Err(form_not_found())),
        },
        (FormUpdate::LoadLinks { schema, warnings }, UpdateAnswer::Links(r)) => match r {
            Err(e) => FormUpdate::Done(Err(e)),
            Ok(links) => go_to_link(schema, warnings, links, 0),
        },
        (
            FormUpdate::LoadConditions { schema, warnings, links, at },
            UpdateAnswer::Conditions(r),
        ) => match r {
            Err(e) => FormUpdate::Done(Err(e)),
            Ok(conditions) => {
                assert(crate::services::sync::pairs(links@).len() == links.len());
                if at < links.len() {
                    let mut warnings = warnings;
                    assert(crate::services::sync::pairs(links@)[at as int] == (
                        links@[at as int].0@,
                        links@[at as int].1@,
                    ));
                    warn_of_role(&mut warnings, links[at].1.as_str(), &conditions, &schema);
                    let job = enqueue_config_sync(links[at].0.as_str(), links[at].1.as_str());
                    FormUpdate::Enqueue { job, schema, warnings, links, at }
                } else {
                    FormUpdate::LoadVersion { warnings }
                }
            },
        },
        (FormUpdate::Enqueue { job, schema, warnings, links, at }, UpdateAnswer::Enqueued) => {
            assert(crate::services::sync::pairs(links@).len() == links.len());
            if at < links.len() {
                go_to_link(schema, warnings, links, at + 1)
            } else {
                FormUpdate::LoadVersion { warnings }
            }
        },
        (FormUpdate::LoadVersion { warnings }, UpdateAnswer::NewVersion(r)) => match r {
            Err(e) => FormUpdate::Done(Err(e)),
            Ok(version) => {
                let mut o = no_fields();
                push_field(&mut o, "version", integer(version as i64));
                push_field(&mut o, "warnings", text_array(&warnings));
                FormUpdate::Done(Ok(object(o)))
            },
        },
        (at, _) => at,
    }
}

// ---------------------------------------------------------------------------
// Editing: laws
// ---------------------------------------------------------------------------

/// A form is saved only where it is well built, and its webhook, where it has
/// one, leaves the house.
pub proof fn law_saved_forms_are_sound(
    body: UpdateBody,
    edited: Json,
    schema: FormSchema,
    next: UpdateStage,
)
    requires
        update_step(UpdateStage::ReadSchema(body, edited), UpdateAnswer::Schema(Ok(schema)), next),
    ensures
        next matches UpdateStage::Save(saved, s) ==> {
            &&& s == schema
            &&& crate::services::form_validator::form_errors(schema).len() == 0
            &&& saved.is_quiz ==> crate::services::form_validator::all_key_errors(
                schema.asked(),
            ).len() == 0
            &&& saved.is_quiz ==> saved.single_submission
            &&& saved.webhook_url matches Some(url)
                ==> crate::services::webhook::is_safe_webhook(url@)
            &&& 0 <= saved.min_account_age_days <= MAX_ACCOUNT_AGE_DAYS
        },
{
}

/// Two tabs never overwrite each other: where the version has moved on, nothing
/// is saved, and that is what the caller is told.
pub proof fn law_stale_edits_are_refused(
    saved: UpdateBody,
    schema: FormSchema,
    version: i32,
    next: UpdateStage,
    last: UpdateStage,
)
    requires
        update_step(UpdateStage::Save(saved, schema), UpdateAnswer::Saved(Ok(0)), next),
        update_step(next, UpdateAnswer::Version(Ok(Some(version))), last),
    ensures
        last == UpdateStage::Done(Err(Failure::StaleVersion)),
{
}

/// A form as it is stored: its version, and what was last saved of it.
pub struct StoredForm {
    pub version: int,
    pub contents: UpdateBody,
}

/// What a guarded save makes of the stored form, and how many forms it saves: it
/// takes effect just where the form is there with the version that was edited.
pub open spec fn save_guarded(stored: Option<StoredForm>, saved: UpdateBody) -> (
    Option<StoredForm>,
    u64,
) {
    match stored {
        Some(s) => if s.version == saved.version {
            (Some(StoredForm { version: s.version + 1, contents: saved }), 1)
        } else {
            (stored, 0)
        },
        None => (None, 0),
    }
}

/// Whether `answer` is what a store that holds `stored` when the saving begins
/// gives at a stage of the saving of `body`, whose schema reads as `schema`. What
/// the stage asks of others is left open.
pub open spec fn answered_by_store(
    at: UpdateStage,
    answer: UpdateAnswer,
    stored: Option<StoredForm>,
    body: UpdateBody,
    schema: FormSchema,
) -> bool {
    match at {
        UpdateStage::ReadSchema(_, _) => answer matches UpdateAnswer::Schema(Ok(s)) && s == schema,
        UpdateStage::Save(saved, _) => answer matches UpdateAnswer::Saved(Ok(rows)) && rows
            == save_guarded(stored, saved).1,
        UpdateStage::CheckVersion => {
            &&& answer matches UpdateAnswer::Version(Ok(v))
            &&& v is Some <==> stored is Some
            &&& v matches Some(n) ==> n == stored->0.version
        },
        UpdateStage::LoadVersion(_) => answer matches UpdateAnswer::NewVersion(Ok(n)) && n
            == save_guarded(stored, body).0->0.version,
        _ => true,
    }
}

/// Whether the stages follow one another by the answers, which the store gives.
pub open spec fn is_saving(
    stages: Seq<UpdateStage>,
    answers: Seq<UpdateAnswer>,
    stored: Option<StoredForm>,
    body: UpdateBody,
    schema: FormSchema,
) -> bool {
    &&& stages.len() == answers.len() + 1
    &&& stages[0] == UpdateStage::ReadSchema(body, edited_schema(body))
    &&& forall|i: int|
        #![trigger answers[i]]
        0 <= i < answers.len() ==> update_step(stages[i], answers[i], stages[i + 1])
            && answered_by_store(stages[i], answers[i], stored, body, schema)
}

/// Whether a saving that took effect can be at a stage: it goes on with the role
/// links, fails there, or tells the new version.
spec fn is_after_save(at: UpdateStage, version: int) -> bool {
    match at {
        UpdateStage::LoadLinks(_, _)
        | UpdateStage::LoadConditions { .. }
        | UpdateStage::Enqueue { .. }
        | UpdateStage::LoadVersion(_) => true,
        UpdateStage::Done(Ok(reply)) => reply.field("version"@) == Some(
            Json::Number(Numeral::of_int(version as i64)),
        ),
        UpdateStage::Done(Err(_)) => true,
        _ => false,
    }
}

proof fn lemma_reply_has_version(version: i32, warnings: Seq<Seq<char>>)
    ensures
        Json::empty()
            .with("version"@, Json::Number(Numeral::of_int(version as i64)))
            .with("warnings"@, crate::json::texts_json(warnings))
            .field("version"@) == Some(Json::Number(Numeral::of_int(version as i64))),
{
    reveal_strlit("version");
    reveal_strlit("warnings");
    assert("version"@.len() != "warnings"@.len());
    let fields = seq![
        ("version"@, Json::Number(Numeral::of_int(version as i64))),
        ("warnings"@, crate::json::texts_json(warnings)),
    ];
    let reply = Json::empty()
        .with("version"@, Json::Number(Numeral::of_int(version as i64)))
        .with("warnings"@, crate::json::texts_json(warnings));
    assert(reply->Record_0 =~= fields);
    assert(crate::json::record_keys(fields)[0] == "version"@);
    crate::table::lemma_index_from(crate::json::record_keys(fields), "version"@, 0);
}

proof fn lemma_after_save(
    stages: Seq<UpdateStage>,
    answers: Seq<UpdateAnswer>,
    stored: Option<StoredForm>,
    body: UpdateBody,
    schema: FormSchema,
    i: int,
)
    requires
        is_saving(stages, answers, stored, body, schema),
        2 <= i < stages.len(),
        stages[2] is LoadLinks,
    ensures
        is_after_save(stages[i], save_guarded(stored, body).0->0.version),
    decreases i,
{
    if i > 2 {
        lemma_after_save(stages, answers, stored, body, schema, i - 1);
        let step = answers[i - 1];
        assert(update_step(stages[i - 1], step, stages[i - 1 + 1]));
        if let UpdateStage::LoadVersion(warnings) = stages[i - 1] {
            if let UpdateAnswer::NewVersion(Ok(version)) = step {
                lemma_reply_has_version(version, warnings);
            }
        }
    }
}

proof fn lemma_over_stays_over(
    stages: Seq<UpdateStage>,
    answers: Seq<UpdateAnswer>,
    stored: Option<StoredForm>,
    body: UpdateBody,
    schema: FormSchema,
    from: int,
    i: int,
)
    requires
        is_saving(stages, answers, stored, body, schema),
        0 <= from <= i < stages.len(),
        stages[from] is Done,
    ensures
        stages[i] == stages[from],
    decreases i,
{
    if i > from {
        lemma_over_stays_over(stages, answers, stored, body, schema, from, i - 1);
        let step = answers[i - 1];
        assert(update_step(stages[i - 1], step, stages[i - 1 + 1]));
    }
}

/// Of the saving of a form as a whole, where nothing speaks against the body and
/// the store saves only a form whose version is still the one that was edited:
/// where there is no such form, the caller is told that it is not found; where its
/// version has moved on, the form stays as it is and the caller is told so; and
/// where the caller is told of success, the form has the next version, which is
/// the one in the reply, and holds what was sent.
pub proof fn law_saves_are_guarded_by_the_version(
    stages: Seq<UpdateStage>,
    answers: Seq<UpdateAnswer>,
    stored: Option<StoredForm>,
    body: UpdateBody,
    schema: FormSchema,
)
    requires
        update_complaint(body, Ok(schema)) is None,
        is_saving(stages, answers, stored, body, schema),
        stages.last() is Done,
    ensures
        ({
            let saved = stages[1]->Save_0;
            let (after, rows) = save_guarded(stored, saved);
            &&& stages[1] is Save && saves(body, saved) && saved.version == body.version
            &&& stored is None ==> stages.last() == UpdateStage::Done(
                Err(Failure::NotFound("Form not found."@)),
            )
            &&& (stored is Some && stored->0.version != body.version) ==> {
                &&& stages.last() == UpdateStage::Done(Err(Failure::StaleVersion))
                &&& after == stored
            }
            &&& stages.last() matches UpdateStage::Done(Ok(reply)) ==> {
                &&& stored is Some && stored->0.version == body.version
                &&& after == Some(StoredForm { version: body.version + 1, contents: saved })
                &&& reply.field("version"@) == Some(
                    Json::Number(Numeral::of_int((body.version + 1) as i64)),
                )
            }
        }),
{
    assert(stages[0] is ReadSchema);
    assert(answers.len() > 0);
    let schema_read = answers[0];
    assert(update_step(stages[0], schema_read, stages[1]));
    assert(stages[1] is Save);
    let written = stages[1]->Save_0;
    assert(written.version == body.version);
    assert(answers.len() > 1);
    let rows = answers[1];
    assert(update_step(stages[1], rows, stages[2]));
    if stored is Some && stored->0.version == body.version {
        assert(stages[2] is LoadLinks);
        lemma_after_save(stages, answers, stored, body, schema, stages.len() - 1);
    } else {
        assert(stages[2] is CheckVersion);
        assert(answers.len() > 2);
        let version = answers[2];
        assert(update_step(stages[2], version, stages[3]));
        lemma_over_stays_over(stages, answers, stored, body, schema, 3, stages.len() - 1);
    }
}

/// Of two saves that were made with the same version, at most one takes effect.
pub proof fn law_one_of_two_saves_takes_effect(
    stored: Option<StoredForm>,
    first: UpdateBody,
    second: UpdateBody,
)
    requires
        first.version == second.version,
    ensures
        ({
            let (between, rows) = save_guarded(stored, first);
            let (after, more) = save_guarded(between, second);
            &&& rows + more <= 1
            &&& rows == 1 ==> after == between
        }),
{
}

/// A role is warned about just where one of its conditions is about a question
/// that the form does not ask.
pub proof fn law_warnings_name_missing_questions(
    role_id: Seq<char>,
    conditions: Seq<Json>,
    schema: FormSchema,
)
    ensures
        role_warnings(role_id, conditions, schema).len() == 0 <==> forall|i: int|
            0 <= i < conditions.len() ==> missing_question(#[trigger] conditions[i], schema) is None,
    decreases conditions.len(),
{
    if conditions.len() > 0 {
        let first = conditions.drop_last();
        law_warnings_name_missing_questions(role_id, first, schema);
        if role_warnings(role_id, conditions, schema).len() == 0 {
            assert forall|i: int| 0 <= i < conditions.len() implies missing_question(
                #[trigger] conditions[i],
                schema,
            ) is None by {
                if i < first.len() {
                    assert(first[i] == conditions[i]);
                }
            }
        } else {
            if forall|i: int|
                0 <= i < conditions.len() ==> missing_question(#[trigger] conditions[i], schema) is None {
                assert forall|i: int| 0 <= i < first.len() implies missing_question(
                    #[trigger] first[i],
                    schema,
                ) is None by {
                    assert(first[i] == conditions[i]);
                }
                assert(conditions[conditions.len() - 1] == conditions.last());
            }
        }
    }
}

} // verus!
