//! The role-config page: who may open it, what it is given, and what saving it
//! does.
//!
//! The page is reached in two ways. Embedded in the RoleLogic dashboard, the
//! request carries a token that RoleLogic signed; it is exchanged for a session
//! that is bound to the guild and the role. Opened directly, it asks for a cookie
//! session of a manager.

use vstd::prelude::*;

use crate::error::{AppError, Failure};
use crate::json::{integer, list, no_fields, no_items, object, object1, push_field, push_item, text};
use crate::json::{Json, Numeral, Value};
use crate::models::condition::{Condition, ConditionOperator, ConditionTarget, Rule, Target};
use crate::models::form::{FormSchema, Question, QuestionOption};
use crate::outside::parse_uuid;
use crate::routes::access::{escape_markup, HtmlPage};
use crate::routes::pages::render_iframe_failure;
use crate::schema::{parse_role_config, Config, ParsedConfig, RoleConfigBody};
use crate::schema::{MAX_CONDITIONS, SCORE_TARGET};
use crate::services::jobs::{enqueue_config_sync, NewJob, Task};
use crate::text::{cat2, owned, replace, same, starts_with, trim};

verus! {

// ---------------------------------------------------------------------------
// Who may open it
// ---------------------------------------------------------------------------

/// What the page is opened with.
#[derive(Debug)]
pub struct RoleConfigPageQuery {
    pub rl_token: Option<String>,
}

/// Why a token of RoleLogic is not accepted.
#[derive(Clone, Copy, Debug, PartialEq, Eq, Structural)]
pub enum RlTokenError {
    Expired,
    BadSignature,
    Malformed,
    WrongAudience,
    WrongIssuer,
}

/// Whom a session is for, and the role link that it is bound to.
#[derive(Debug, PartialEq)]
pub struct BoundSession {
    pub discord_id: String,
    pub guild_id: String,
    pub role_id: String,
}

impl BoundSession {
    /// Whether the session is bound to the role link.
    pub open spec fn is_for(self, guild_id: Seq<char>, role_id: Seq<char>) -> bool {
        self.guild_id@ == guild_id && self.role_id@ == role_id
    }
}

impl RlTokenError {
    /// What the page says of the token.
    pub open spec fn words(self) -> Seq<char> {
        match self {
            RlTokenError::Expired => {
                "Your session expired. Reopen the plugin in the RoleLogic dashboard."@
            },
            RlTokenError::BadSignature | RlTokenError::Malformed => "Invalid auth token."@,
            RlTokenError::WrongAudience => "Token is for a different plugin."@,
            RlTokenError::WrongIssuer => "Token was not issued by RoleLogic."@,
        }
    }

    /// What the page says of the token.
    pub fn message(self) -> (r: &'static str)
        ensures
            r@ == self.words(),
    {
        match self {
            RlTokenError::Expired => {
                "Your session expired. Reopen the plugin in the RoleLogic dashboard."
            },
            RlTokenError::BadSignature | RlTokenError::Malformed => "Invalid auth token.",
            RlTokenError::WrongAudience => "Token is for a different plugin.",
            RlTokenError::WrongIssuer => "Token was not issued by RoleLogic.",
        }
    }
}

/// The token that a request asks to be let in with, where it has one.
pub fn entry_token(query: &RoleConfigPageQuery) -> (r: Option<&str>)
    ensures
        match r {
            Some(t) => query.rl_token is Some && t@ == query.rl_token->0@ && t@.len() > 0,
            None => query.rl_token is None || query.rl_token->0@.len() == 0,
        },
{
    match &query.rl_token {
        Some(t) => if t.as_str().unicode_len() > 0 {
            Some(t.as_str())
        } else {
            None
        },
        None => None,
    }
}

/// The page that an embedded view shows when it cannot be loaded.
pub fn render_iframe_error(base_url: &str, message: &str) -> (r: HtmlPage)
    ensures
        r.status == 403,
        r.body@ == crate::routes::pages::iframe_error_page(
            base_url@,
            crate::routes::access::markup_escaped(message@),
        ),
{
    HtmlPage {
        status: 403,
        body: render_iframe_failure(base_url, escape_markup(message).as_str()),
    }
}

/// The key that the token of a role link is signed with, or why there is none.
/// `found` is what the lookup gave: the key where the link is registered, or what
/// the database says.
pub fn entry_key(found: Result<Option<String>, String>) -> (r: Result<String, String>)
    ensures
        match found {
            Err(e) => r matches Err(m) && m@ == "Database error: "@ + e@,
            Ok(None) => r matches Err(m) && m@
                == "This role link isn't registered with this plugin yet."@,
            Ok(Some(key)) => r matches Ok(k) && k@ == key@,
        },
{
    match found {
        Err(e) => Err(cat2("Database error: ", e.as_str())),
        Ok(None) => Err(owned("This role link isn't registered with this plugin yet.")),
        Ok(Some(key)) => Ok(key),
    }
}

/// What comes of a token of RoleLogic: the member whom it lets in, or what the
/// page says. RoleLogic signs each token for one role link, so a token for one
/// cannot be used on the page of another.
pub open spec fn entrant(
    verified: Result<BoundSession, RlTokenError>,
    guild_id: Seq<char>,
    role_id: Seq<char>,
) -> Result<Seq<char>, Seq<char>> {
    match verified {
        Err(e) => Err(e.words()),
        Ok(claims) => if claims.is_for(guild_id, role_id) {
            Ok(claims.discord_id@)
        } else {
            Err("Token does not match this role link."@)
        },
    }
}

/// What comes of a token of RoleLogic.
pub fn verify_iframe_entry(
    verified: Result<BoundSession, RlTokenError>,
    guild_id: &str,
    role_id: &str,
) -> (r: Result<String, String>)
    ensures
        entrant(verified, guild_id@, role_id@) == (match r {
            Ok(id) => Ok(id@),
            Err(m) => Err(m@),
        }),
{
    let claims = match verified {
        Ok(c) => c,
        Err(e) => {
            return Err(owned(e.message()));
        },
    };
    if !same(claims.guild_id.as_str(), guild_id) || !same(claims.role_id.as_str(), role_id) {
        return Err(owned("Token does not match this role link."));
    }
    Ok(claims.discord_id)
}

/// The token in an `Authorization` header.
pub open spec fn bearer(authorization: Option<Seq<char>>) -> Option<Seq<char>> {
    match authorization {
        Some(v) => if crate::text::begins_with(v, "Bearer "@) {
            Some(v.skip("Bearer "@.len() as int))
        } else {
            None
        },
        None => None,
    }
}

/// The token in an `Authorization` header.
pub fn extract_bearer(authorization: Option<&str>) -> (r: Option<String>)
    ensures
        crate::error::optional_text(r) == bearer(
            match authorization {
                Some(v) => Some(v@),
                None => None,
            },
        ),
{
    let v = match authorization {
        Some(v) => v,
        None => {
            return None;
        },
    };
    if !starts_with(v, "Bearer ") {
        return None;
    }
    proof {
        reveal_strlit("Bearer ");
    }
    let chars = crate::text::chars_of(v);
    let rest = vstd::slice::slice_subrange(chars.as_slice(), 7, chars.len());
    assert(rest@ =~= v@.skip(7));
    Some(crate::text::string_of(rest))
}

/// What a token of the page lets a caller do: who the caller is, or why they are
/// refused.
pub open spec fn bearer_caller(
    session: Option<BoundSession>,
    guild_id: Seq<char>,
    role_id: Seq<char>,
) -> Result<Seq<char>, Failure> {
    match session {
        None => Err(
            Failure::UnauthorizedWith(
                "Your session expired. Reopen the plugin in the RoleLogic dashboard."@,
            ),
        ),
        Some(s) => if s.is_for(guild_id, role_id) {
            Ok(s.discord_id@)
        } else {
            Err(Failure::Forbidden("Token does not grant access to this role link."@))
        },
    }
}

/// What a token of the page lets a caller do.
pub fn bearer_access(session: Option<BoundSession>, guild_id: &str, role_id: &str) -> (r: Result<
    String,
    AppError,
>)
    ensures
        bearer_caller(session, guild_id@, role_id@) == (match r {
            Ok(id) => Ok(id@),
            Err(e) => Err(e@),
        }),
{
    let s = match session {
        Some(s) => s,
        None => {
            return Err(
                AppError::UnauthorizedWith(
                    owned("Your session expired. Reopen the plugin in the RoleLogic dashboard."),
                ),
            );
        },
    };
    if !same(s.guild_id.as_str(), guild_id) || !same(s.role_id.as_str(), role_id) {
        return Err(
            AppError::Forbidden(owned("Token does not grant access to this role link.")),
        );
    }
    Ok(s.discord_id)
}

/// A token for one role link opens no other.
pub proof fn law_tokens_open_one_role_link(
    s: BoundSession,
    guild_id: Seq<char>,
    role_id: Seq<char>,
)
    ensures
        entrant(Ok(s), guild_id, role_id) is Ok <==> s.is_for(guild_id, role_id),
        bearer_caller(Some(s), guild_id, role_id) is Ok <==> s.is_for(guild_id, role_id),
{
}

/// The page.
pub fn render_role_config(
    template: &str,
    base_url: &str,
    guild_id: &str,
    role_id: &str,
    session: Option<&str>,
) -> (r: String)
    ensures
        r@ == ({
            let a = crate::text::replaced(template@, "__BASE_URL__"@, base_url@);
            let b = crate::text::replaced(a, "__GUILD_ID__"@, guild_id@);
            let c = crate::text::replaced(b, "__ROLE_ID__"@, role_id@);
            crate::text::replaced(
                c,
                "__IFRAME_TOKEN__"@,
                match session {
                    Some(s) => s@,
                    None => Seq::empty(),
                },
            )
        }),
{
    proof {
        reveal_strlit("__BASE_URL__");
        reveal_strlit("__GUILD_ID__");
        reveal_strlit("__ROLE_ID__");
        reveal_strlit("__IFRAME_TOKEN__");
        reveal_strlit("");
    }
    let a = replace(template, "__BASE_URL__", base_url);
    let b = replace(a.as_str(), "__GUILD_ID__", guild_id);
    let c = replace(b.as_str(), "__ROLE_ID__", role_id);
    let token = match session {
        Some(s) => s,
        None => "",
    };
    assert(session is None ==> token@ =~= Seq::empty());
    replace(c.as_str(), "__IFRAME_TOKEN__", token)
}

// ---------------------------------------------------------------------------
// What it is given: operators
// ---------------------------------------------------------------------------

/// Kinds of questions that share operators.
#[derive(Clone, Copy, Debug, PartialEq, Eq, Structural)]
pub enum KindGroup {
    /// All that can equal a text.
    Equal,
    /// Those with one text as their answer.
    Text,
    /// Those whose answer is written freely.
    FreeText,
    /// Those with a list as their answer.
    Choices,
    /// Those with a number, and the quiz score.
    Numeric,
    /// Those with a date.
    Date,
}

impl KindGroup {
    /// The names of the kinds.
    pub open spec fn names(self) -> Seq<Seq<char>> {
        let free = seq!["short_text"@].push("long_text"@).push("email"@);
        let one = free.push("single_choice"@).push("dropdown"@).push("agreement"@);
        match self {
            KindGroup::Equal => one.push("multi_choice"@),
            KindGroup::Text => one,
            KindGroup::FreeText => free,
            KindGroup::Choices => seq!["multi_choice"@],
            KindGroup::Numeric => seq!["number"@].push("scale"@).push(SCORE_TARGET@),
            KindGroup::Date => seq!["date"@],
        }
    }

    fn to_json(self) -> (r: Value)
        ensures
            r@ == crate::json::texts_json(self.names()),
    {
        let mut v = no_items();
        match self {
            KindGroup::Choices => {
                push_item(&mut v, text("multi_choice"));
            },
            KindGroup::Numeric => {
                push_item(&mut v, text("number"));
                push_item(&mut v, text("scale"));
                push_item(&mut v, text(SCORE_TARGET));
            },
            KindGroup::Date => {
                push_item(&mut v, text("date"));
            },
            _ => {
                push_item(&mut v, text("short_text"));
                push_item(&mut v, text("long_text"));
                push_item(&mut v, text("email"));
                match self {
                    KindGroup::FreeText => {},
                    _ => {
                        push_item(&mut v, text("single_choice"));
                        push_item(&mut v, text("dropdown"));
                        push_item(&mut v, text("agreement"));
                    },
                }
                match self {
                    KindGroup::Equal => {
                        push_item(&mut v, text("multi_choice"));
                    },
                    _ => {},
                }
            },
        }
        assert(crate::json::jsons(v@) =~= crate::json::texts_json(self.names())->List_0);
        list(v)
    }
}

/// An operator, as the rule builder is told of it.
pub open spec fn operator_json(op: ConditionOperator, label: Seq<char>, kinds: KindGroup) -> Json {
    Json::empty()
        .with("key"@, Json::Text(op.key()))
        .with("kinds"@, crate::json::texts_json(kinds.names()))
        .with("label"@, Json::Text(label))
}

/// All operators, as the rule builder is told of them.
pub open spec fn operators_json() -> Seq<Json> {
    Seq::empty()
        .push(operator_json(ConditionOperator::Eq, "= equals"@, KindGroup::Equal))
        .push(operator_json(ConditionOperator::Neq, "≠ does not equal"@, KindGroup::Text))
        .push(operator_json(ConditionOperator::Contains, "contains (substring)"@, KindGroup::FreeText))
        .push(operator_json(ConditionOperator::Regex, "matches regex"@, KindGroup::FreeText))
        .push(operator_json(ConditionOperator::In, "is one of"@, KindGroup::Text))
        .push(operator_json(ConditionOperator::ContainsAll, "contains all of"@, KindGroup::Choices))
        .push(operator_json(ConditionOperator::ContainsAny, "contains any of"@, KindGroup::Choices))
        .push(operator_json(ConditionOperator::NotContains, "contains none of"@, KindGroup::Choices))
        .push(operator_json(ConditionOperator::Gt, "> greater than"@, KindGroup::Numeric))
        .push(operator_json(ConditionOperator::Gte, "≥ at least"@, KindGroup::Numeric))
        .push(operator_json(ConditionOperator::Lt, "< less than"@, KindGroup::Numeric))
        .push(operator_json(ConditionOperator::Lte, "≤ at most"@, KindGroup::Numeric))
        .push(operator_json(ConditionOperator::Between, "between (inclusive)"@, KindGroup::Numeric))
        .push(operator_json(ConditionOperator::Before, "before (date)"@, KindGroup::Date))
        .push(operator_json(ConditionOperator::After, "after (date)"@, KindGroup::Date))
}

fn operator_entry(op: ConditionOperator, label: &str, kinds: KindGroup) -> (r: Value)
    ensures
        r@ == operator_json(op, label@, kinds),
{
    let mut o = no_fields();
    push_field(&mut o, "key", text(op.as_str()));
    push_field(&mut o, "kinds", kinds.to_json());
    push_field(&mut o, "label", text(label));
    object(o)
}

/// Operator metadata for the rule builder: one entry for each operator, with the
/// kinds of questions it is valid against. The front end picks the value widget
/// from the operator's key and the question's kind.
pub fn operator_catalog() -> (r: Vec<Value>)
    ensures
        crate::json::jsons(r@) == operators_json(),
{
    let mut v = no_items();
    push_item(&mut v, operator_entry(ConditionOperator::Eq, "= equals", KindGroup::Equal));
    push_item(&mut v, operator_entry(ConditionOperator::Neq, "≠ does not equal", KindGroup::Text));
    push_item(
        &mut v,
        operator_entry(ConditionOperator::Contains, "contains (substring)", KindGroup::FreeText),
    );
    push_item(&mut v, operator_entry(ConditionOperator::Regex, "matches regex", KindGroup::FreeText));
    push_item(&mut v, operator_entry(ConditionOperator::In, "is one of", KindGroup::Text));
    push_item(
        &mut v,
        operator_entry(ConditionOperator::ContainsAll, "contains all of", KindGroup::Choices),
    );
    push_item(
        &mut v,
        operator_entry(ConditionOperator::ContainsAny, "contains any of", KindGroup::Choices),
    );
    push_item(
        &mut v,
        operator_entry(ConditionOperator::NotContains, "contains none of", KindGroup::Choices),
    );
    push_item(&mut v, operator_entry(ConditionOperator::Gt, "> greater than", KindGroup::Numeric));
    push_item(&mut v, operator_entry(ConditionOperator::Gte, "≥ at least", KindGroup::Numeric));
    push_item(&mut v, operator_entry(ConditionOperator::Lt, "< less than", KindGroup::Numeric));
    push_item(&mut v, operator_entry(ConditionOperator::Lte, "≤ at most", KindGroup::Numeric));
    push_item(
        &mut v,
        operator_entry(ConditionOperator::Between, "between (inclusive)", KindGroup::Numeric),
    );
    push_item(&mut v, operator_entry(ConditionOperator::Before, "before (date)", KindGroup::Date));
    push_item(&mut v, operator_entry(ConditionOperator::After, "after (date)", KindGroup::Date));
    v
}

// ---------------------------------------------------------------------------
// What it is given: forms
// ---------------------------------------------------------------------------

/// A form of the guild, as the page offers it. The schema is absent where what is
/// stored does not read as one.
#[derive(Debug)]
pub struct FormChoice {
    pub id: String,
    pub title: String,
    pub is_quiz: bool,
    pub archived: bool,
    pub schema: Option<FormSchema>,
}

/// The options, as the page is given them.
pub open spec fn options_json(options: Option<Vec<QuestionOption>>) -> Json {
    match options {
        None => Json::List(Seq::empty()),
        Some(v) => Json::List(
            v@.map_values(
                |o: QuestionOption|
                    Json::empty().with("id"@, Json::Text(o.id@)).with(
                        "label"@,
                        Json::Text(o.label@),
                    ),
            ),
        ),
    }
}

/// A question, as the page is given it.
pub open spec fn question_json(q: Question) -> Json {
    Json::empty()
        .with("id"@, Json::Text(q.id@))
        .with("is_array_valued"@, Json::Bool(q.kind is MultiChoice))
        .with("kind"@, Json::Text(q.kind.name()))
        .with("options"@, options_json(q.options))
        .with("title"@, Json::Text(q.title@))
}

/// The questions of a form, as the page is given them.
pub open spec fn questions_json(schema: Option<FormSchema>) -> Json {
    match schema {
        None => Json::List(Seq::empty()),
        Some(s) => Json::List(s.asked().map_values(|q: Question| question_json(q))),
    }
}

/// A form, as the page is given it.
pub open spec fn form_json(f: FormChoice) -> Json {
    Json::empty()
        .with("archived"@, Json::Bool(f.archived))
        .with("id"@, Json::Text(f.id@))
        .with("is_quiz"@, Json::Bool(f.is_quiz))
        .with("questions"@, questions_json(f.schema))
        .with("title"@, Json::Text(f.title@))
}

fn options_value(options: &Option<Vec<QuestionOption>>) -> (r: Value)
    ensures
        r@ == options_json(*options),
{
    let mut v = no_items();
    if let Some(opts) = options {
        let ghost f = |o: QuestionOption|
            Json::empty().with("id"@, Json::Text(o.id@)).with("label"@, Json::Text(o.label@));
        for i in 0..opts.len()
            invariant
                f == |o: QuestionOption|
                    Json::empty().with("id"@, Json::Text(o.id@)).with(
                        "label"@,
                        Json::Text(o.label@),
                    ),
                crate::json::jsons(v@) == opts@.take(i as int).map_values(f),
        {
            let mut o = no_fields();
            push_field(&mut o, "id", text(opts[i].id.as_str()));
            push_field(&mut o, "label", text(opts[i].label.as_str()));
            push_item(&mut v, object(o));
            assert(opts@.take(i + 1).map_values(f) =~= opts@.take(i as int).map_values(f).push(
                f(opts@[i as int]),
            ));
        }
        assert(opts@.take(opts@.len() as int) =~= opts@);
    }
    list(v)
}

fn question_value(q: &Question) -> (r: Value)
    ensures
        r@ == question_json(*q),
{
    let mut o = no_fields();
    push_field(&mut o, "id", text(q.id.as_str()));
    push_field(&mut o, "is_array_valued", Value::Bool(q.kind.is_array_valued()));
    push_field(&mut o, "kind", text(q.kind.as_str()));
    push_field(&mut o, "options", options_value(&q.options));
    push_field(&mut o, "title", text(q.title.as_str()));
    object(o)
}

fn questions_value(schema: &Option<FormSchema>) -> (r: Value)
    ensures
        r@ == questions_json(*schema),
{
    let mut v = no_items();
    if let Some(s) = schema {
        let asked = s.iter_questions();
        let ghost all = s.asked();
        let ghost f = |q: Question| question_json(q);
        for i in 0..asked.len()
            invariant
                asked@.map_values(|q: &Question| *q) == all,
                f == |q: Question| question_json(q),
                crate::json::jsons(v@) == all.take(i as int).map_values(f),
        {
            assert(all[i as int] == *asked@[i as int]);
            push_item(&mut v, question_value(asked[i]));
            assert(all.take(i + 1).map_values(f) =~= all.take(i as int).map_values(f).push(
                f(all[i as int]),
            ));
        }
        assert(all.take(all.len() as int) =~= all);
    }
    list(v)
}

fn forms_value(forms: &Vec<FormChoice>) -> (r: Value)
    ensures
        r@ == Json::List(forms@.map_values(|f: FormChoice| form_json(f))),
{
    let ghost g = |f: FormChoice| form_json(f);
    let mut v = no_items();
    for i in 0..forms.len()
        invariant
            g == |f: FormChoice| form_json(f),
            crate::json::jsons(v@) == forms@.take(i as int).map_values(g),
    {
        let f = &forms[i];
        let mut o = no_fields();
        push_field(&mut o, "archived", Value::Bool(f.archived));
        push_field(&mut o, "id", text(f.id.as_str()));
        push_field(&mut o, "is_quiz", Value::Bool(f.is_quiz));
        push_field(&mut o, "questions", questions_value(&f.schema));
        push_field(&mut o, "title", text(f.title.as_str()));
        push_item(&mut v, object(o));
        assert(forms@.take(i + 1).map_values(g) =~= forms@.take(i as int).map_values(g).push(
            g(forms@[i as int]),
        ));
    }
    assert(forms@.take(forms@.len() as int) =~= forms@);
    list(v)
}

// ---------------------------------------------------------------------------
// What it is given: the role link
// ---------------------------------------------------------------------------

/// What stands under `inner` in the object under `outer`, where it is a text.
pub open spec fn text_under(j: Json, outer: Seq<char>, inner: Seq<char>) -> Option<Seq<char>> {
    match j.field(outer) {
        Some(t) => match t.field(inner) {
            Some(k) => k.text(),
            None => None,
        },
        None => None,
    }
}

/// What stands under `key`, or null.
pub open spec fn field_or_null(j: Json, key: Seq<char>) -> Json {
    match j.field(key) {
        Some(v) => v,
        None => Json::Null,
    }
}

/// The target of a stored condition as a plain text.
pub open spec fn shown_target(c: Json) -> Seq<char> {
    if text_under(c, "target"@, "kind"@) == Some("quiz_total_score"@) {
        SCORE_TARGET@
    } else {
        crate::error::or_empty(text_under(c, "target"@, "question_id"@))
    }
}

/// A stored condition, as the page is given it.
pub open spec fn shown_condition(c: Json) -> Json {
    Json::empty()
        .with("operator"@, field_or_null(c, "operator"@))
        .with("target"@, Json::Text(shown_target(c)))
        .with("value"@, field_or_null(c, "value"@))
        .with("value_end"@, field_or_null(c, "value_end"@))
}

/// The items of a stored list; none where it is no list.
pub open spec fn stored_items(j: Json) -> Seq<Json> {
    match j {
        Json::List(a) => a,
        _ => Seq::empty(),
    }
}

/// What stands under `inner` in the object under `outer`, where it is a text.
pub fn text_at<'a>(j: &'a Value, outer: &str, inner: &str) -> (r: Option<&'a str>)
    ensures
        text_under(j@, outer@, inner@) == (match r {
            Some(s) => Some(s@),
            None => None,
        }),
{
    match j.get(outer) {
        Some(t) => match t.get(inner) {
            Some(k) => k.as_str(),
            None => None,
        },
        None => None,
    }
}

fn copy_or_null(j: &Value, key: &str) -> (r: Value)
    ensures
        r@ == field_or_null(j@, key@),
{
    match j.get(key) {
        Some(v) => v.copy(),
        None => Value::Null,
    }
}

fn condition_shown(c: &Value) -> (r: Value)
    ensures
        r@ == shown_condition(c@),
{
    let on_score: bool = match text_at(c, "target", "kind") {
        Some(kind) => same(kind, "quiz_total_score"),
        None => false,
    };
    let target = if on_score {
        text(SCORE_TARGET)
    } else {
        match text_at(c, "target", "question_id") {
            Some(id) => text(id),
            None => Value::String(String::new()),
        }
    };
    assert(target@ == Json::Text(shown_target(c@)));
    let mut o = no_fields();
    push_field(&mut o, "operator", copy_or_null(c, "operator"));
    push_field(&mut o, "target", target);
    push_field(&mut o, "value", copy_or_null(c, "value"));
    push_field(&mut o, "value_end", copy_or_null(c, "value_end"));
    object(o)
}

fn conditions_shown(conditions: &Value) -> (r: Vec<Value>)
    ensures
        crate::json::jsons(r@) == stored_items(conditions@).map_values(
            |c: Json| shown_condition(c),
        ),
{
    let ghost all = stored_items(conditions@);
    let ghost f = |c: Json| shown_condition(c);
    let mut v = no_items();
    assert(all.take(0).map_values(f) =~= Seq::empty());
    if let Some(a) = conditions.as_array() {
        assert(all =~= crate::json::jsons(a@));
        for i in 0..a.len()
            invariant
                all == crate::json::jsons(a@),
                f == |c: Json| shown_condition(c),
                crate::json::jsons(v@) == all.take(i as int).map_values(f),
        {
            assert(all[i as int] == a@[i as int]@);
            push_item(&mut v, condition_shown(&a[i]));
            assert(all.take(i + 1).map_values(f) =~= all.take(i as int).map_values(f).push(
                f(all[i as int]),
            ));
        }
        assert(all.take(all.len() as int) =~= all);
    } else {
        assert(all =~= Seq::empty());
        assert(all.map_values(f) =~= Seq::empty());
    }
    v
}

/// A role link, as it is stored.
#[derive(Debug)]
pub struct LinkSettings {
    pub form_id: Option<String>,
    pub grant_on_any_submission: bool,
    pub conditions: Value,
}

/// Which of the two modes the page selects. A new role link, which has no
/// conditions yet and grants to nobody, is shown as granting on any submission:
/// the more common choice, which nothing commits to before it is saved.
pub open spec fn shown_mode(link: LinkSettings) -> Seq<char> {
    if link.grant_on_any_submission || stored_items(link.conditions@).len() == 0 {
        "any_submission"@
    } else {
        "conditions"@
    }
}

/// What the page is given.
pub open spec fn page_json(
    guild_id: Seq<char>,
    role_id: Seq<char>,
    link: LinkSettings,
    forms: Seq<FormChoice>,
) -> Json {
    let config = Json::empty()
        .with(
            "conditions"@,
            Json::List(stored_items(link.conditions@).map_values(|c: Json| shown_condition(c))),
        )
        .with(
            "form_id"@,
            Json::Text(crate::error::or_empty(crate::error::optional_text(link.form_id))),
        )
        .with("mode"@, Json::Text(shown_mode(link)));
    Json::empty()
        .with("config"@, config)
        .with("forms"@, Json::List(forms.map_values(|f: FormChoice| form_json(f))))
        .with("guild_id"@, Json::Text(guild_id))
        .with("max_conditions"@, Json::Number(Numeral::of_int(MAX_CONDITIONS as i64)))
        .with("operators"@, Json::List(operators_json()))
        .with("role_id"@, Json::Text(role_id))
}

/// What is said of a role link that is not there.
pub fn missing_link() -> (r: AppError)
    ensures
        r@ == Failure::NotFound("This role link doesn't exist. Has it been added in RoleLogic?"@),
{
    AppError::NotFound(owned("This role link doesn't exist. Has it been added in RoleLogic?"))
}

/// What the page is given, or the failure where the role link is not there. All
/// forms of the guild come with their questions, so that another form can be
/// picked without a further request.
pub fn role_config_data(
    guild_id: &str,
    role_id: &str,
    link: Option<&LinkSettings>,
    forms: &Vec<FormChoice>,
) -> (r: Result<Value, AppError>)
    ensures
        match r {
            Ok(v) => link is Some && v@ == page_json(guild_id@, role_id@, *link->0, forms@),
            Err(e) => link is None && e@ == Failure::NotFound(
                "This role link doesn't exist. Has it been added in RoleLogic?"@,
            ),
        },
{
    let link = match link {
        Some(l) => l,
        None => {
            return Err(missing_link());
        },
    };
    let conditions = conditions_shown(&link.conditions);
    let ghost stored = stored_items(link.conditions@);
    assert(crate::json::jsons(conditions@).len() == conditions.len());
    let mode = if link.grant_on_any_submission || conditions.len() == 0 {
        "any_submission"
    } else {
        "conditions"
    };
    let form_id = match &link.form_id {
        Some(id) => text(id.as_str()),
        None => Value::String(String::new()),
    };
    let mut config = no_fields();
    push_field(&mut config, "conditions", list(conditions));
    push_field(&mut config, "form_id", form_id);
    push_field(&mut config, "mode", text(mode));
    let mut o = no_fields();
    push_field(&mut o, "config", object(config));
    push_field(&mut o, "forms", forms_value(forms));
    push_field(&mut o, "guild_id", text(guild_id));
    push_field(&mut o, "max_conditions", integer(MAX_CONDITIONS as i64));
    push_field(&mut o, "operators", list(operator_catalog()));
    push_field(&mut o, "role_id", text(role_id));
    Ok(object(o))
}

// ---------------------------------------------------------------------------
// Saving
// ---------------------------------------------------------------------------

/// The target of a condition, as it is stored.
pub open spec fn target_json(t: Target) -> Json {
    match t {
        Target::Question(id) => Json::empty()
            .with("kind"@, Json::Text("question"@))
            .with("question_id"@, Json::Text(id)),
        Target::QuizTotalScore => Json::empty().with("kind"@, Json::Text("quiz_total_score"@)),
    }
}

/// A condition, as it is stored.
pub open spec fn rule_json(rule: Rule) -> Json {
    let common = Json::empty()
        .with("operator"@, Json::Text(rule.operator.key()))
        .with("target"@, target_json(rule.target))
        .with("value"@, rule.value);
    match rule.value_end {
        Some(end) => common.with("value_end"@, end),
        None => common,
    }
}

/// The conditions of a role link, as they are stored.
pub open spec fn rules_json(rules: Seq<Rule>) -> Json {
    Json::List(rules.map_values(|r: Rule| rule_json(r)))
}

fn target_value(t: &ConditionTarget) -> (r: Value)
    ensures
        r@ == target_json(t@),
{
    match t {
        ConditionTarget::Question { question_id } => {
            let mut o = no_fields();
            push_field(&mut o, "kind", text("question"));
            push_field(&mut o, "question_id", text(question_id.as_str()));
            object(o)
        },
        ConditionTarget::QuizTotalScore => object1("kind", text("quiz_total_score")),
    }
}

fn rule_value(c: &Condition) -> (r: Value)
    ensures
        r@ == rule_json(c@),
{
    let mut o = no_fields();
    push_field(&mut o, "operator", text(c.operator.as_str()));
    push_field(&mut o, "target", target_value(&c.target));
    push_field(&mut o, "value", c.value.copy());
    if let Some(end) = &c.value_end {
        push_field(&mut o, "value_end", end.copy());
    }
    object(o)
}

/// The conditions of a role link, as they are stored.
pub fn conditions_value(conditions: &Vec<Condition>) -> (r: Value)
    ensures
        r@ == rules_json(crate::models::condition::rules(conditions@)),
{
    let ghost all = crate::models::condition::rules(conditions@);
    let ghost f = |r: Rule| rule_json(r);
    let mut v = no_items();
    for i in 0..conditions.len()
        invariant
            all == crate::models::condition::rules(conditions@),
            f == |r: Rule| rule_json(r),
            crate::json::jsons(v@) == all.take(i as int).map_values(f),
    {
        assert(all[i as int] == conditions@[i as int]@);
        push_item(&mut v, rule_value(&conditions[i]));
        assert(all.take(i + 1).map_values(f) =~= all.take(i as int).map_values(f).push(
            f(all[i as int]),
        ));
    }
    assert(all.take(all.len() as int) =~= all);
    list(v)
}

/// The number of the form that a posted configuration picks, or the complaint
/// about its id; nothing where it picks none.
pub open spec fn picked_form(form_id: Option<String>) -> Result<Option<u128>, Failure> {
    match crate::schema::chosen_form(form_id) {
        None => Ok(None),
        Some(id) => match crate::outside::uuid_number(id) {
            Some(n) => Ok(Some(n)),
            None => Err(
                Failure::BadRequest("form_id must be a valid form UUID from the dropdown."@),
            ),
        },
    }
}

/// The number of the form that a posted configuration picks.
pub fn pick_form(form_id: &Option<String>) -> (r: Result<Option<u128>, AppError>)
    ensures
        picked_form(*form_id) == (match r {
            Ok(n) => Ok(n),
            Err(e) => Err(e@),
        }),
{
    match form_id {
        None => Ok(None),
        Some(id) => {
            let id = trim(id.as_str());
            if id.unicode_len() == 0 {
                return Ok(None);
            }
            match parse_uuid(id) {
                Some(n) => Ok(Some(n)),
                None => Err(
                    AppError::BadRequest(
                        owned("form_id must be a valid form UUID from the dropdown."),
                    ),
                ),
            }
        },
    }
}

/// A form that a configuration picks. The schema is absent where what is stored
/// does not read as one.
#[derive(Debug)]
pub struct PickedForm {
    pub schema: Option<FormSchema>,
    pub is_quiz: bool,
}

/// Where the saving of a role configuration is: what it asks for next.
#[derive(Debug)]
pub enum RoleSave {
    /// Whether the role link is there.
    FindLink { body: RoleConfigBody },
    /// The form of the guild with the number.
    FindForm { body: RoleConfigBody, form: u128 },
    /// Write the configuration, and the guild's setting where it has one, in one
    /// transaction.
    Write { config: ParsedConfig },
    /// Put the job in the queue. Whether that works is of no account here.
    Enqueue { job: NewJob },
    /// The saving is over.
    Done(Result<Value, AppError>),
}

/// What a `RoleSave` stands for.
pub enum SaveStage {
    FindLink(RoleConfigBody),
    FindForm(RoleConfigBody, u128),
    Write(Config),
    Enqueue(Task),
    Done(Result<Json, Failure>),
}

impl View for RoleSave {
    type V = SaveStage;

    open spec fn view(&self) -> SaveStage {
        match *self {
            RoleSave::FindLink { body } => SaveStage::FindLink(body),
            RoleSave::FindForm { body, form } => SaveStage::FindForm(body, form),
            RoleSave::Write { config } => SaveStage::Write(config@),
            RoleSave::Enqueue { job } => SaveStage::Enqueue(job@),
            RoleSave::Done(r) => SaveStage::Done(
                match r {
                    Ok(v) => Ok(v@),
                    Err(e) => Err(e@),
                },
            ),
        }
    }
}

/// What the last request of a saving gave.
#[derive(Debug)]
pub enum SaveAnswer {
    Link(Result<bool, AppError>),
    Form(Result<Option<PickedForm>, AppError>),
    Written(Result<(), AppError>),
    Enqueued,
}

/// How a saving goes on with the form that the configuration picks.
pub open spec fn checked_config(
    body: RoleConfigBody,
    schema: Option<FormSchema>,
    is_quiz: bool,
) -> SaveStage {
    match crate::schema::stored_config(body, schema, is_quiz) {
        Ok(config) => SaveStage::Write(config),
        Err(message) => SaveStage::Done(Err(Failure::BadRequest(message))),
    }
}

/// How a saving goes on. Any failure ends it, but for one to queue the job. An
/// answer that does not belong to what was asked for changes nothing.
pub open spec fn save_next(
    at: SaveStage,
    answer: SaveAnswer,
    guild_id: Seq<char>,
    role_id: Seq<char>,
) -> SaveStage {
    match (at, answer) {
        (SaveStage::FindLink(body), SaveAnswer::Link(r)) => match r {
            Err(e) => SaveStage::Done(Err(e@)),
            Ok(false) => SaveStage::Done(
                Err(
                    Failure::NotFound(
                        "This role link doesn't exist. Has it been added in RoleLogic?"@,
                    ),
                ),
            ),
            Ok(true) => match picked_form(body.form_id) {
                Err(e) => SaveStage::Done(Err(e)),
                Ok(Some(form)) => SaveStage::FindForm(body, form),
                Ok(None) => checked_config(body, None, false),
            },
        },
        (SaveStage::FindForm(body, form), SaveAnswer::Form(r)) => match r {
            Err(e) => SaveStage::Done(Err(e@)),
            Ok(None) => SaveStage::Done(
                Err(Failure::BadRequest("Selected form does not exist for this guild."@)),
            ),
            Ok(Some(picked)) => checked_config(body, picked.schema, picked.is_quiz),
        },
        (SaveStage::Write(config), SaveAnswer::Written(r)) => match r {
            Err(e) => SaveStage::Done(Err(e@)),
            Ok(_) => SaveStage::Enqueue(crate::services::jobs::config_task(guild_id, role_id)),
        },
        (SaveStage::Enqueue(job), SaveAnswer::Enqueued) => SaveStage::Done(
            Ok(Json::empty().with("success"@, Json::Bool(true))),
        ),
        _ => at,
    }
}

fn check_config(body: RoleConfigBody, schema: Option<FormSchema>, is_quiz: bool) -> (r: RoleSave)
    ensures
        r@ == checked_config(body, schema, is_quiz),
{
    match parse_role_config(body, schema.as_ref(), is_quiz) {
        Ok(config) => RoleSave::Write { config },
        Err(e) => RoleSave::Done(Err(e)),
    }
}

/// How the saving of a role configuration starts.
pub fn role_config_save(body: RoleConfigBody) -> (r: RoleSave)
    ensures
        r@ == SaveStage::FindLink(body),
{
    RoleSave::FindLink { body }
}

/// How the saving of a role configuration goes on.
pub fn role_save_next(at: RoleSave, answer: SaveAnswer, guild_id: &str, role_id: &str) -> (r:
    RoleSave)
    ensures
        r@ == save_next(at@, answer, guild_id@, role_id@),
{
    match (at, answer) {
        (RoleSave::FindLink { body }, SaveAnswer::Link(r)) => match r {
            Err(e) => RoleSave::Done(Err(e)),
            Ok(false) => RoleSave::Done(Err(missing_link())),
            Ok(true) => match pick_form(&body.form_id) {
                Err(e) => RoleSave::Done(Err(e)),
                Ok(Some(form)) => RoleSave::FindForm { body, form },
                Ok(None) => check_config(body, None, false),
            },
        },
        (RoleSave::FindForm { body, form }, SaveAnswer::Form(r)) => match r {
            Err(e) => RoleSave::Done(Err(e)),
            Ok(None) => RoleSave::Done(
                Err(AppError::BadRequest(owned("Selected form does not exist for this guild."))),
            ),
            Ok(Some(picked)) => check_config(body, picked.schema, picked.is_quiz),
        },
        (RoleSave::Write { config }, SaveAnswer::Written(r)) => match r {
            Err(e) => RoleSave::Done(Err(e)),
            Ok(_) => RoleSave::Enqueue { job: enqueue_config_sync(guild_id, role_id) },
        },
        (RoleSave::Enqueue { job }, SaveAnswer::Enqueued) => RoleSave::Done(
            Ok(object1("success", Value::Bool(true))),
        ),
        (at, _) => at,
    }
}

// ---------------------------------------------------------------------------
// Laws
// ---------------------------------------------------------------------------

proof fn lemma_fields_of_rule(rule: Rule)
    ensures
        rule_json(rule).field("operator"@) == Some(Json::Text(rule.operator.key())),
        rule_json(rule).field("target"@) == Some(target_json(rule.target)),
        rule_json(rule).field("value"@) == Some(rule.value),
        rule_json(rule).field("value_end"@) == rule.value_end,
        text_under(rule_json(rule), "target"@, "kind"@) == (match rule.target {
            Target::Question(_) => Some("question"@),
            Target::QuizTotalScore => Some("quiz_total_score"@),
        }),
        text_under(rule_json(rule), "target"@, "question_id"@) == (match rule.target {
            Target::Question(id) => Some(id),
            Target::QuizTotalScore => None,
        }),
{
    reveal_strlit("operator");
    reveal_strlit("target");
    reveal_strlit("value");
    reveal_strlit("value_end");
    reveal_strlit("kind");
    reveal_strlit("question_id");
    assert("operator"@.len() == 8);
    assert("target"@.len() == 6);
    assert("value"@.len() == 5);
    assert("value_end"@.len() == 9);
    assert("kind"@.len() == 4);
    assert("question_id"@.len() == 11);
    let keys = crate::json::record_keys(rule_json(rule)->Record_0);
    let three = seq!["operator"@].push("target"@).push("value"@);
    assert(keys =~= if rule.value_end is Some {
        three.push("value_end"@)
    } else {
        three
    });
    crate::table::lemma_index_from(keys, "operator"@, 0);
    crate::table::lemma_index_from(keys, "target"@, 0);
    crate::table::lemma_index_from(keys, "value"@, 0);
    crate::table::lemma_index_from(keys, "value_end"@, 0);
    assert(keys[0] == "operator"@ && keys[1] == "target"@ && keys[2] == "value"@);
    if rule.value_end is Some {
        assert(keys[3] == "value_end"@);
    }
    let inner = crate::json::record_keys(target_json(rule.target)->Record_0);
    assert(inner =~= if rule.target is Question {
        seq!["kind"@].push("question_id"@)
    } else {
        seq!["kind"@]
    });
    crate::table::lemma_index_from(inner, "kind"@, 0);
    crate::table::lemma_index_from(inner, "question_id"@, 0);
    assert(inner[0] == "kind"@);
    if rule.target is Question {
        assert(inner[1] == "question_id"@);
    }
}

/// What was saved is what the page shows again: the target as it was posted, and
/// the operator, the value and the end of the range as they were stored.
pub proof fn law_saved_conditions_are_shown_again(rule: Rule)
    ensures
        shown_condition(rule_json(rule)) == Json::empty()
            .with("operator"@, Json::Text(rule.operator.key()))
            .with(
                "target"@,
                Json::Text(
                    match rule.target {
                        Target::Question(id) => id,
                        Target::QuizTotalScore => SCORE_TARGET@,
                    },
                ),
            )
            .with("value"@, rule.value)
            .with(
                "value_end"@,
                match rule.value_end {
                    Some(end) => end,
                    None => Json::Null,
                },
            ),
{
    reveal_strlit("question");
    reveal_strlit("quiz_total_score");
    assert("question"@.len() == 8);
    assert("quiz_total_score"@.len() == 16);
    lemma_fields_of_rule(rule);
}

/// Nothing is written before the configuration was accepted, and every written
/// configuration has its role link worked out anew.
pub proof fn law_only_accepted_configs_are_written(
    at: SaveStage,
    answer: SaveAnswer,
    guild_id: Seq<char>,
    role_id: Seq<char>,
)
    ensures
        at !is Write ==> (save_next(at, answer, guild_id, role_id) matches SaveStage::Write(config)
            ==> {
            ||| at matches SaveStage::FindLink(body) && crate::schema::stored_config(
                body,
                None,
                false,
            ) == Ok::<Config, Seq<char>>(config)
            ||| at matches SaveStage::FindForm(body, form) && answer matches SaveAnswer::Form(
                Ok(Some(picked)),
            ) && crate::schema::stored_config(body, picked.schema, picked.is_quiz) == Ok::<
                Config,
                Seq<char>,
            >(config)
        }),
        at is Write ==> (answer matches SaveAnswer::Written(Ok(_)) ==> save_next(
            at,
            answer,
            guild_id,
            role_id,
        ) == SaveStage::Enqueue(crate::services::jobs::config_task(guild_id, role_id))),
{
}

/// The rule builder is told of every operator that there is.
pub proof fn law_every_operator_is_offered(op: ConditionOperator)
    ensures
        exists|i: int|
            0 <= i < operators_json().len() && (#[trigger] operators_json()[i]).field("key"@)
                == Some(Json::Text(op.key())),
{
    reveal_strlit("key");
    let all = operators_json();
    assert forall|o: ConditionOperator, label: Seq<char>, kinds: KindGroup| #[trigger]
        operator_json(o, label, kinds).field("key"@) == Some(Json::Text(o.key())) by {
        let keys = crate::json::record_keys(operator_json(o, label, kinds)->Record_0);
        crate::table::lemma_index_from(keys, "key"@, 0);
        assert(keys[0] == "key"@);
    }
    let i: int = match op {
        ConditionOperator::Eq => 0,
        ConditionOperator::Neq => 1,
        ConditionOperator::Contains => 2,
        ConditionOperator::Regex => 3,
        ConditionOperator::In => 4,
        ConditionOperator::ContainsAll => 5,
        ConditionOperator::ContainsAny => 6,
        ConditionOperator::NotContains => 7,
        ConditionOperator::Gt => 8,
        ConditionOperator::Gte => 9,
        ConditionOperator::Lt => 10,
        ConditionOperator::Lte => 11,
        ConditionOperator::Between => 12,
        ConditionOperator::Before => 13,
        ConditionOperator::After => 14,
    };
    assert(all[i].field("key"@) == Some(Json::Text(op.key())));
}

} // verus!
