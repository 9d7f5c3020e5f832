//! The admin pages, the role-config page, the respondent list and CSV.

use form_respondent_role::double::Double;
use form_respondent_role::error::{AppError, DatabaseError};
use form_respondent_role::json::{Number, Real, Value};
use form_respondent_role::models::condition::{Condition, ConditionOperator, ConditionTarget};
use form_respondent_role::models::form::{
    FormSchema, FormSettings, Page, Question, QuestionKind, QuestionOption,
};
use form_respondent_role::routes::access::{
    check_manager, escape_markup, manager_gate, permission_url, require_session, signin_gate,
};
use form_respondent_role::routes::admin::{
    builder_data, create_form, creation_next, default_success_message, delete_form,
    duplicate_form, form_number, form_page, form_update_next, list_data, list_page, new_form,
    random_preview_token, random_slug, responses_data, resync_jobs, set_view_permission,
    success_reply, template_schema, titled, update_form, view_permission_reply, Creation, FormCopy,
    FormSummary, FormUpdate, Template, UpdateAnswer, UpdateBody, ViewPermissionBody, SLUG_CHARS,
};
use form_respondent_role::routes::csv::{
    answer_to_csv, csv_disposition, csv_escape, csv_row, responses_csv, ResponseRow,
};
use form_respondent_role::routes::form_render::FormRow;
use form_respondent_role::routes::respondents::{
    check_viewer, data, render_respondents_page, viewer_session, DataQuery, Respondent,
};
use form_respondent_role::routes::role_config::{
    bearer_access, conditions_value, entry_key, entry_token, extract_bearer, operator_catalog,
    pick_form, render_iframe_error, render_role_config, role_config_data, role_config_save,
    role_save_next, verify_iframe_entry, BoundSession, FormChoice, LinkSettings, PickedForm,
    RlTokenError, RoleConfigPageQuery, RoleSave, SaveAnswer,
};
use form_respondent_role::schema::RoleConfigBody;
use form_respondent_role::services::auth_gateway::GatewayReply;
use form_respondent_role::services::jobs::JobKind;
use form_respondent_role::services::retry::{RetryConfig, RetryPolicy};
use form_respondent_role::time::Timestamp;

fn value_of(v: &serde_json::Value) -> Value {
    match v {
        serde_json::Value::Null => Value::Null,
        serde_json::Value::Bool(b) => Value::Bool(*b),
        serde_json::Value::Number(n) => {
            if let Some(u) = n.as_u64() {
                Value::Number(Number::PosInt(u))
            } else if let Some(i) = n.as_i64() {
                Value::Number(Number::NegInt(i))
            } else {
                let f = n.as_f64().unwrap();
                Value::Number(Number::Float { number: real_of(f), json: n.to_string() })
            }
        }
        serde_json::Value::String(s) => Value::String(s.clone()),
        serde_json::Value::Array(a) => Value::Array(a.iter().map(value_of).collect()),
        serde_json::Value::Object(o) => {
            Value::Object(o.iter().map(|(k, x)| (k.clone(), value_of(x))).collect())
        }
    }
}

/// The value of a JSON text.
fn js(text: &str) -> Value {
    value_of(&serde_json::from_str::<serde_json::Value>(text).unwrap())
}

fn real_of(f: f64) -> Real {
    Real { value: Double { bits: f.to_bits() }, display: f.to_string() }
}

fn s(x: &str) -> String {
    x.to_string()
}

fn at(secs: i64) -> Timestamp {
    Timestamp { secs, nanos: 0 }
}

fn serde(v: &Value) -> serde_json::Value {
    serde_json::from_str(&v.to_text()).unwrap()
}

const UUID: &str = "67e55044-10b1-426f-9247-bb680e5fe0c8";

fn question(id: &str, kind: QuestionKind) -> Question {
    Question {
        id: s(id),
        kind,
        title: format!("Title, {id}"),
        description: String::new(),
        required: false,
        max_length: None,
        min: None,
        max: None,
        options: None,
        correct: None,
        points: None,
        placeholder: None,
        help_text: None,
        image_url: None,
        alt_text: None,
    }
}

fn schema(questions: Vec<Question>) -> FormSchema {
    FormSchema {
        title: s("T"),
        description: s("D"),
        settings: FormSettings::default(),
        pages: vec![Page {
            id: s("p"),
            title: String::new(),
            description: String::new(),
            questions,
        }],
    }
}

fn form() -> FormRow {
    FormRow {
        guild_id: s("g"),
        slug: s("abc"),
        title: s("T"),
        description: s("D"),
        version: 3,
        schema: js("{}"),
        is_quiz: true,
        open_at: Some(at(0)),
        close_at: None,
        allow_edits: false,
        single_submission: true,
        require_verified: false,
        min_account_age_days: 7,
        success_message: s("Thanks!"),
        preview_token: s("tok"),
        webhook_url: None,
        archived: false,
        passing_score: None,
        retry: RetryConfig {
            max_attempts: 1,
            cooldown_seconds: 0,
            policy: RetryPolicy::KeepBest,
            lock_on_pass: false,
        },
    }
}

// ---------- access ----------

fn read(v: &str) -> GatewayReply<Value> {
    GatewayReply::Read(js(v))
}

#[test]
fn permissions_are_asked_of_the_gateway() {
    assert_eq!(
        permission_url("http://gw", "a&b=c"),
        "http://gw/auth/guild_permission?guild_id=a%26b%3Dc"
    );
}

#[test]
fn sessions_are_asked_for() {
    assert_eq!(
        require_session(false, false),
        Some(AppError::UnauthorizedWith(s("Sign in with Discord first.")))
    );
    assert_eq!(
        require_session(true, false),
        Some(AppError::UnauthorizedWith(s("Your session is invalid or expired. Sign in again.")))
    );
    assert_eq!(require_session(true, true), None);
    assert_eq!(
        viewer_session(false, false),
        Some(AppError::UnauthorizedWith(s("Sign in with Discord to view respondents.")))
    );
}

#[test]
fn only_managers_manage() {
    assert_eq!(check_manager(read(r#"{"is_manager": true}"#)), Ok(()));
    let denied = || Err(AppError::Forbidden(s("Only server managers can edit forms for this server.")));
    assert_eq!(check_manager(read(r#"{"is_manager": false}"#)), denied());
    assert_eq!(check_manager(read(r#"{"is_manager": "true"}"#)), denied());
    assert_eq!(check_manager(read("{}")), denied());
    assert_eq!(
        check_manager(GatewayReply::Refused { status_text: s("500"), body: s("x") }),
        Err(AppError::Forbidden(s("Could not verify your permissions for this guild.")))
    );
    assert_eq!(
        check_manager(GatewayReply::NoReply { error: s("t") }),
        Err(AppError::Internal(s("auth_gateway request failed: t")))
    );
}

#[test]
fn pages_show_why_access_is_denied() {
    assert_eq!(manager_gate("b", read(r#"{"is_manager": true}"#)), None);
    let page = manager_gate("https://b", read("{}")).unwrap();
    assert_eq!(page.status, 403);
    assert!(page.body.contains("<p>Only server managers can edit forms for this server.</p>"));
    // What went wrong inside is not shown.
    let page = manager_gate("https://b", GatewayReply::NoReply { error: s("secret") }).unwrap();
    assert!(!page.body.contains("secret"));
    assert!(page.body.contains("Could not verify your permissions for this guild. Try reloading."));
    let page = signin_gate("https://b", false).unwrap();
    assert_eq!(page.status, 200);
    assert!(page.body.contains("new URL('https://b').origin"));
    assert_eq!(signin_gate("https://b", true), None);
    assert_eq!(escape_markup("<a> & 'b'"), "&lt;a&gt; &amp; 'b'");
}

// ---------- pages ----------

#[test]
fn templates_are_filled_in() {
    assert_eq!(list_page("__BASE_URL__/__GUILD_ID__", "b", "g"), "b/g");
    assert_eq!(form_page("__BASE_URL__/__GUILD_ID__/__FORM_ID__", "b", "g", "f"), "b/g/f");
    assert_eq!(
        render_role_config("__BASE_URL__/__GUILD_ID__/__ROLE_ID__/__IFRAME_TOKEN__", "b", "g", "r", None),
        "b/g/r/"
    );
    assert_eq!(render_role_config("<__IFRAME_TOKEN__>", "b", "g", "r", Some("t")), "<t>");
    let page = render_respondents_page("https://b");
    assert!(page.contains("const API = 'https://b';"));
    assert!(page.contains("({\n            '&': '&amp;'"));
}

// ---------- identifiers ----------

#[test]
fn slugs_are_made_of_their_alphabet() {
    for _ in 0..50 {
        let slug = random_slug();
        assert_eq!(slug.chars().count(), 8);
        assert!(slug.chars().all(|c| SLUG_CHARS.contains(c)), "{slug}");
    }
    let first = random_slug();
    assert!((0..20).any(|_| random_slug() != first));
}

#[test]
fn preview_tokens_are_url_safe() {
    let token = random_preview_token();
    assert_eq!(token.len(), 16);
    let bytes = base64::Engine::decode(
        &base64::engine::general_purpose::URL_SAFE_NO_PAD,
        token.as_bytes(),
    )
    .unwrap();
    assert_eq!(bytes.len(), 12);
    assert!((0..20).any(|_| random_preview_token() != token));
}

#[test]
fn form_ids_are_uuids() {
    assert_eq!(form_number(UUID), Ok(uuid::Uuid::parse_str(UUID).unwrap().as_u128()));
    assert_eq!(form_number("abc"), Err(AppError::BadRequest(s("Invalid form id."))));
}

// ---------- lists ----------

#[test]
fn forms_are_listed() {
    let rows = vec![FormSummary {
        id: s("i"),
        slug: s("abc"),
        title: s("T"),
        is_quiz: true,
        archived: false,
        updated_at: at(0),
        response_count: Some(4),
        bound_role_links_count: None,
    }];
    assert_eq!(
        list_data(&rows, None),
        js(r#"{"forms": [{"id": "i", "slug": "abc", "title": "T", "is_quiz": true,
            "archived": false, "updated_at": "1970-01-01T00:00:00+00:00", "response_count": 4,
            "bound_role_links_count": 0}], "view_permission": "managers"}"#)
    );
    assert_eq!(list_data(&vec![], Some("members")), js(r#"{"forms": [], "view_permission": "members"}"#));
}

#[test]
fn view_permissions_are_checked() {
    for p in ["members", "managers"] {
        assert_eq!(set_view_permission(&ViewPermissionBody { view_permission: s(p) }), Ok(s(p)));
    }
    assert_eq!(
        set_view_permission(&ViewPermissionBody { view_permission: s("all") }),
        Err(AppError::BadRequest(s("Unknown view_permission 'all'. Use 'members' or 'managers'.")))
    );
    assert_eq!(
        view_permission_reply("members"),
        js(r#"{"success": true, "view_permission": "members"}"#)
    );
    assert_eq!(success_reply(), js(r#"{"success": true}"#));
}

// ---------- creating ----------

#[test]
fn templates_are_named() {
    assert_eq!(template_schema(""), Ok(Template::Blank));
    assert_eq!(template_schema("blank"), Ok(Template::Blank));
    assert_eq!(template_schema("application"), Ok(Template::Application));
    assert_eq!(template_schema("server_quiz"), Ok(Template::ServerQuiz));
    assert_eq!(
        template_schema("x"),
        Err(AppError::BadRequest(s(
            "Unknown template 'x'. Use blank, application, or server_quiz."
        )))
    );
}

#[test]
fn titles_are_set() {
    let starter = || js(r#"{"pages": [], "title": "Old"}"#);
    assert_eq!(titled(starter(), &None), starter());
    assert_eq!(titled(starter(), &Some(s("New"))), js(r#"{"pages": [], "title": "New"}"#));
    assert_eq!(titled(js("{}"), &Some(s("New"))), js(r#"{"title": "New"}"#));
    assert_eq!(titled(js("[]"), &Some(s("New"))), js("[]"));
}

#[test]
fn templates_with_keys_are_quizzes() {
    let plain = new_form(&Ok(schema(vec![question("a", QuestionKind::ShortText)]))).unwrap();
    assert!(!plain.is_quiz);
    assert_eq!(plain.title, "T");
    assert_eq!(plain.description, "D");
    let mut q = question("a", QuestionKind::ShortText);
    q.points = Some(1);
    assert!(new_form(&Ok(schema(vec![q]))).unwrap().is_quiz);
    let mut q = question("a", QuestionKind::ShortText);
    q.correct = Some(Value::Null);
    assert!(new_form(&Ok(schema(vec![q]))).unwrap().is_quiz);
    let mut untitled = schema(vec![]);
    untitled.title = s("  ");
    assert_eq!(new_form(&Ok(untitled)).unwrap().title, "Untitled form");
    match new_form(&Err(s("eof"))) {
        Err(e) => assert_eq!(e, AppError::Internal(s("starter template invalid: eof"))),
        Ok(_) => panic!("accepted"),
    }
}

fn taken() -> DatabaseError {
    DatabaseError {
        message: s("duplicate key"),
        code: Some(s("23505")),
        constraint: Some(s("forms_slug_key")),
    }
}

#[test]
fn taken_slugs_are_replaced_a_few_times() {
    let mut x = create_form();
    let mut tries = 0;
    while let Creation::Insert { attempt, slug } = x {
        tries += 1;
        assert_eq!(attempt, tries);
        x = creation_next(attempt, &slug, "tok", Err(taken()));
    }
    assert_eq!(tries, 5);
    match x {
        Creation::Done(Err(e)) => {
            assert_eq!(e, AppError::Internal(s("slug collision after 5 attempts")))
        }
        other => panic!("unexpected {other:?}"),
    }
    match creation_next(1, "abc", "tok", Ok(s("i"))) {
        Creation::Done(Ok(v)) => {
            assert_eq!(v, js(r#"{"id": "i", "preview_token": "tok", "slug": "abc"}"#))
        }
        other => panic!("unexpected {other:?}"),
    }
    let other = || DatabaseError { message: s("down"), code: None, constraint: None };
    match creation_next(1, "abc", "tok", Err(other())) {
        Creation::Done(Err(e)) => assert_eq!(e, AppError::Database(other())),
        other => panic!("unexpected {other:?}"),
    }
}

#[test]
fn copies_are_named_so() {
    let source = FormCopy {
        title: s("T"),
        description: s("D"),
        schema: js("{}"),
        is_quiz: true,
        allow_edits: false,
        single_submission: true,
        require_verified: true,
        min_account_age_days: 3,
        success_message: s("M"),
        webhook_url: Some(s("u")),
    };
    let copy = duplicate_form(Some(source)).unwrap();
    assert_eq!(copy.title, "T (copy)");
    assert_eq!(copy.webhook_url, Some(s("u")));
    assert!(copy.is_quiz && copy.require_verified && copy.min_account_age_days == 3);
    match duplicate_form(None) {
        Err(e) => assert_eq!(e, AppError::NotFound(s("Form not found."))),
        Ok(_) => panic!("accepted"),
    }
}

// ---------- the builder and the responses ----------

#[test]
fn the_builder_is_given_the_form() {
    assert_eq!(
        serde(&builder_data("i", &form(), 4, 2)),
        serde_json::from_str::<serde_json::Value>(
            r#"{"id": "i", "slug": "abc", "title": "T", "description": "D", "version": 3,
                "schema": {}, "is_quiz": true, "open_at": "1970-01-01T00:00:00+00:00",
                "close_at": null, "allow_edits": false, "single_submission": true,
                "require_verified": false, "min_account_age_days": 7,
                "success_message": "Thanks!", "preview_token": "tok", "webhook_url": null,
                "archived": false, "response_count": 4, "bound_role_links_count": 2}"#
        )
        .unwrap()
    );
}

fn row(id: &str, answers: &str, total_score: Option<i32>) -> ResponseRow {
    ResponseRow {
        id: s(id),
        discord_id: s("42"),
        answers: js(answers),
        total_score,
        submitted_at: at(0),
        last_edited_at: at(60),
    }
}

#[test]
fn responses_are_listed() {
    assert_eq!(
        serde(&responses_data(&form(), &vec![row("r", r#"{"a": "x"}"#, Some(5))])),
        serde_json::from_str::<serde_json::Value>(
            r#"{"title": "T", "schema": {}, "is_quiz": true, "slug": "abc", "preview_token": "tok",
                "responses": [{"id": "r", "discord_id": "42", "answers": {"a": "x"},
                    "total_score": 5, "submitted_at": "1970-01-01T00:00:00+00:00",
                    "last_edited_at": "1970-01-01T00:01:00+00:00"}]}"#
        )
        .unwrap()
    );
}

// ---------- CSV ----------

#[test]
fn cells_are_quoted_where_they_must_be() {
    assert_eq!(csv_escape("plain"), "plain");
    assert_eq!(csv_escape("a,b"), "\"a,b\"");
    assert_eq!(csv_escape("say \"hi\""), "\"say \"\"hi\"\"\"");
    assert_eq!(csv_escape("two\nlines"), "\"two\nlines\"");
    assert_eq!(csv_escape("cr\r"), "\"cr\r\"");
    assert_eq!(csv_row(&vec![s("a"), s("b,c"), s("")]), "a,\"b,c\",\n");
    assert_eq!(csv_row(&vec![]), "\n");
}

#[test]
fn answers_fit_into_cells() {
    let cell = |v: &str| answer_to_csv(Some(&js(v)));
    assert_eq!(answer_to_csv(None), "");
    assert_eq!(cell("null"), "");
    assert_eq!(cell(r#""x""#), "x");
    assert_eq!(cell("1.5"), "1.5");
    assert_eq!(cell("true"), "true");
    assert_eq!(cell(r#"["a", 1, "b"]"#), "a; b");
    assert_eq!(cell(r#"{"a": [1]}"#), r#"{"a":[1]}"#);
}

#[test]
fn responses_are_exported() {
    let f = schema(vec![
        question("a", QuestionKind::ShortText),
        question("note", QuestionKind::Info),
        question("b", QuestionKind::MultiChoice),
    ]);
    let rows = vec![
        row("1", r#"{"a": "x, y", "b": ["p", "q"]}"#, Some(5)),
        row("2", r#"{"a": "z"}"#, None),
    ];
    assert_eq!(
        responses_csv(&f, true, &rows),
        "discord_id,submitted_at,last_edited_at,total_score,\"Title, a\",\"Title, b\"\n\
         42,1970-01-01T00:00:00+00:00,1970-01-01T00:01:00+00:00,5,\"x, y\",p; q\n\
         42,1970-01-01T00:00:00+00:00,1970-01-01T00:01:00+00:00,,z,\n"
    );
    assert_eq!(
        responses_csv(&schema(vec![]), false, &vec![]),
        "discord_id,submitted_at,last_edited_at\n"
    );
    assert_eq!(csv_disposition("abc"), "attachment; filename=\"form-abc-responses.csv\"");
}

// ---------- editing ----------

fn edit() -> UpdateBody {
    UpdateBody {
        title: s("New"),
        description: s("Desc"),
        schema: js(r#"{"pages": [], "title": "Old"}"#),
        is_quiz: false,
        open_at: None,
        close_at: None,
        allow_edits: true,
        single_submission: false,
        require_verified: false,
        min_account_age_days: 0,
        success_message: default_success_message(),
        webhook_url: Some(String::new()),
        archived: false,
        version: 3,
    }
}

fn sound() -> FormSchema {
    schema(vec![question("a", QuestionKind::ShortText)])
}

fn reason(x: FormUpdate) -> AppError {
    match x {
        FormUpdate::Done(Err(e)) => e,
        other => panic!("no failure: {other:?}"),
    }
}

#[test]
fn edits_are_saved_with_their_title() {
    let x = update_form(UUID, edit());
    match &x {
        FormUpdate::ReadSchema { schema, .. } => assert_eq!(
            serde(schema),
            serde_json::from_str::<serde_json::Value>(
                r#"{"pages": [], "title": "New", "description": "Desc"}"#
            )
            .unwrap()
        ),
        other => panic!("unexpected {other:?}"),
    }
    match form_update_next(x, UpdateAnswer::Schema(Ok(sound()))) {
        FormUpdate::Save { saved, .. } => {
            assert_eq!(saved.title, "New");
            assert_eq!(saved.webhook_url, None);
            assert_eq!(saved.success_message, "Thanks for your response!");
            assert!(!saved.single_submission && saved.allow_edits && saved.version == 3);
        }
        other => panic!("unexpected {other:?}"),
    }
}

#[test]
fn edits_are_refused_with_a_reason() {
    assert_eq!(reason(update_form("x", edit())), AppError::BadRequest(s("Invalid form id.")));
    let go = |body: UpdateBody, schema: Result<FormSchema, String>| {
        reason(form_update_next(update_form(UUID, body), UpdateAnswer::Schema(schema)))
    };
    assert_eq!(
        go(edit(), Err(s("eof"))),
        AppError::BadRequest(s("Schema is not a valid form definition: eof"))
    );
    let mut two = schema(vec![]);
    two.title = String::new();
    two.pages = vec![];
    match go(edit(), Ok(two)) {
        AppError::BadRequest(m) => {
            assert!(m.starts_with("Form title is required. Form must have at least one page."), "{m}")
        }
        other => panic!("unexpected {other:?}"),
    }
    for days in [-1, 3651] {
        let mut body = edit();
        body.min_account_age_days = days;
        assert_eq!(
            go(body, Ok(sound())),
            AppError::BadRequest(s("min_account_age_days must be between 0 and 3650."))
        );
    }
    let mut body = edit();
    body.webhook_url = Some(s("http://example.com"));
    assert_eq!(
        go(body, Ok(sound())),
        AppError::BadRequest(s("webhook_url must be an https:// URL on a public host."))
    );
    // The keys of a quiz are checked, those of another form are not.
    let mut q = question("a", QuestionKind::SingleChoice);
    q.options = Some(vec![QuestionOption { id: s("x"), label: s("X") }]);
    q.correct = Some(js(r#""gone""#));
    q.points = Some(1);
    let mut body = edit();
    body.is_quiz = true;
    assert!(matches!(go(body, Ok(schema(vec![q]))), AppError::BadRequest(_)));
}

#[test]
fn quizzes_keep_one_response_for_each_member() {
    let mut body = edit();
    body.is_quiz = true;
    let x = form_update_next(update_form(UUID, body), UpdateAnswer::Schema(Ok(sound())));
    match &x {
        FormUpdate::Save { saved, .. } => assert!(saved.single_submission),
        other => panic!("unexpected {other:?}"),
    }
    // A quiz without graded questions is warned about.
    match form_update_next(x, UpdateAnswer::Saved(Ok(1))) {
        FormUpdate::LoadLinks { warnings, .. } => assert_eq!(warnings.len(), 1),
        other => panic!("unexpected {other:?}"),
    }
}

#[test]
fn stale_edits_are_refused() {
    let save = || FormUpdate::Save { saved: edit(), schema: sound() };
    let x = form_update_next(save(), UpdateAnswer::Saved(Ok(0)));
    assert_eq!(
        reason(form_update_next(x, UpdateAnswer::Version(Ok(Some(4))))),
        AppError::StaleVersion
    );
    let x = form_update_next(save(), UpdateAnswer::Saved(Ok(0)));
    assert_eq!(
        reason(form_update_next(x, UpdateAnswer::Version(Ok(None)))),
        AppError::NotFound(s("Form not found."))
    );
}

#[test]
fn roles_are_warned_about_and_worked_out_anew() {
    let x = FormUpdate::LoadLinks { schema: sound(), warnings: vec![] };
    let links = vec![(s("g"), s("r1")), (s("g"), s("r2"))];
    let x = form_update_next(x, UpdateAnswer::Links(Ok(links)));
    let conditions = js(
        r#"[{"target": {"kind": "question", "question_id": "a"}},
            {"target": {"kind": "question", "question_id": "gone"}},
            {"target": {"kind": "quiz_total_score"}}]"#,
    );
    let x = form_update_next(x, UpdateAnswer::Conditions(Ok(conditions)));
    match &x {
        FormUpdate::Enqueue { job, at: 0, .. } => {
            assert_eq!(job.kind, JobKind::ConfigSync);
            assert_eq!(job.payload, js(r#"{"guild_id": "g", "role_id": "r1"}"#));
        }
        other => panic!("unexpected {other:?}"),
    }
    let x = form_update_next(x, UpdateAnswer::Enqueued);
    let x = form_update_next(x, UpdateAnswer::Conditions(Ok(js("null"))));
    let x = form_update_next(x, UpdateAnswer::Enqueued);
    assert!(matches!(x, FormUpdate::LoadVersion { .. }));
    match form_update_next(x, UpdateAnswer::NewVersion(Ok(4))) {
        FormUpdate::Done(Ok(v)) => assert_eq!(
            v,
            js(r#"{"version": 4,
                "warnings": ["Role <r1> references question \"gone\" which no longer exists."]}"#)
        ),
        other => panic!("unexpected {other:?}"),
    }
}

#[test]
fn deletions_need_a_form() {
    assert_eq!(delete_form(0), Some(AppError::NotFound(s("Form not found."))));
    assert_eq!(delete_form(1), None);
    let jobs = resync_jobs(&vec![(s("g"), s("r"))]);
    assert_eq!(jobs.len(), 1);
    assert_eq!(jobs[0].payload, js(r#"{"guild_id": "g", "role_id": "r"}"#));
}

// ---------- role configuration ----------

fn session(guild: &str, role: &str) -> BoundSession {
    BoundSession { discord_id: s("42"), guild_id: s(guild), role_id: s(role) }
}

#[test]
fn tokens_open_one_role_link() {
    assert_eq!(verify_iframe_entry(Ok(session("g", "r")), "g", "r"), Ok(s("42")));
    assert_eq!(
        verify_iframe_entry(Ok(session("g", "x")), "g", "r"),
        Err(s("Token does not match this role link."))
    );
    let cases = [
        (
            RlTokenError::Expired,
            "Your session expired. Reopen the plugin in the RoleLogic dashboard.",
        ),
        (RlTokenError::BadSignature, "Invalid auth token."),
        (RlTokenError::Malformed, "Invalid auth token."),
        (RlTokenError::WrongAudience, "Token is for a different plugin."),
        (RlTokenError::WrongIssuer, "Token was not issued by RoleLogic."),
    ];
    for (e, expected) in cases {
        assert_eq!(verify_iframe_entry(Err(e), "g", "r"), Err(s(expected)));
    }
    assert_eq!(entry_key(Ok(Some(s("k")))), Ok(s("k")));
    assert_eq!(
        entry_key(Ok(None)),
        Err(s("This role link isn't registered with this plugin yet."))
    );
    assert_eq!(entry_key(Err(s("down"))), Err(s("Database error: down")));
    assert_eq!(entry_token(&RoleConfigPageQuery { rl_token: Some(s("")) }), None);
    assert_eq!(entry_token(&RoleConfigPageQuery { rl_token: Some(s("t")) }), Some("t"));
    let page = render_iframe_error("https://b", "<no>");
    assert_eq!(page.status, 403);
    assert!(page.body.contains("<p>&lt;no&gt;</p>"));
}

#[test]
fn bearers_are_bound_to_their_role_link() {
    assert_eq!(extract_bearer(Some("Bearer ifs:abc")), Some(s("ifs:abc")));
    assert_eq!(extract_bearer(Some("bearer x")), None);
    assert_eq!(extract_bearer(Some("Bearer ")), Some(s("")));
    assert_eq!(extract_bearer(None), None);
    assert_eq!(bearer_access(Some(session("g", "r")), "g", "r"), Ok(s("42")));
    assert_eq!(
        bearer_access(Some(session("h", "r")), "g", "r"),
        Err(AppError::Forbidden(s("Token does not grant access to this role link.")))
    );
    assert!(matches!(bearer_access(None, "g", "r"), Err(AppError::UnauthorizedWith(_))));
}

#[test]
fn the_rule_builder_is_given_all_it_needs() {
    let mut pick = question("pick", QuestionKind::MultiChoice);
    pick.options = Some(vec![QuestionOption { id: s("o"), label: s("O") }]);
    let forms = vec![
        FormChoice {
            id: s("f1"),
            title: s("F"),
            is_quiz: true,
            archived: false,
            schema: Some(schema(vec![pick, question("note", QuestionKind::Info)])),
        },
        FormChoice { id: s("f2"), title: s("X"), is_quiz: false, archived: true, schema: None },
    ];
    let link = LinkSettings {
        form_id: Some(s("f1")),
        grant_on_any_submission: false,
        conditions: js(
            r#"[{"target": {"kind": "quiz_total_score"}, "operator": "gte", "value": 5},
                {"target": {"kind": "question", "question_id": "pick"}, "operator": "between",
                 "value": 1, "value_end": 2}, {}]"#,
        ),
    };
    let v = serde(&role_config_data("g", "r", Some(&link), &forms).unwrap());
    assert_eq!(v["guild_id"], "g");
    assert_eq!(v["role_id"], "r");
    assert_eq!(v["max_conditions"], 12);
    assert_eq!(v["operators"].as_array().unwrap().len(), 15);
    assert_eq!(
        v["config"],
        serde_json::from_str::<serde_json::Value>(
            r#"{"form_id": "f1", "mode": "conditions", "conditions": [
                {"target": "__quiz_total_score__", "operator": "gte", "value": 5, "value_end": null},
                {"target": "pick", "operator": "between", "value": 1, "value_end": 2},
                {"target": "", "operator": null, "value": null, "value_end": null}]}"#
        )
        .unwrap()
    );
    assert_eq!(
        v["forms"],
        serde_json::from_str::<serde_json::Value>(
            r#"[{"id": "f1", "title": "F", "is_quiz": true, "archived": false, "questions": [
                    {"id": "pick", "title": "Title, pick", "kind": "multi_choice",
                     "is_array_valued": true, "options": [{"id": "o", "label": "O"}]}]},
                {"id": "f2", "title": "X", "is_quiz": false, "archived": true, "questions": []}]"#
        )
        .unwrap()
    );
    assert!(matches!(
        role_config_data("g", "r", None, &forms),
        Err(AppError::NotFound(m)) if m.starts_with("This role link doesn't exist.")
    ));
}

#[test]
fn new_links_are_shown_as_open() {
    let link = LinkSettings {
        form_id: None,
        grant_on_any_submission: false,
        conditions: js("null"),
    };
    let v = serde(&role_config_data("g", "r", Some(&link), &vec![]).unwrap());
    assert_eq!(v["config"]["mode"], "any_submission");
    assert_eq!(v["config"]["form_id"], "");
}

#[test]
fn operators_name_their_kinds() {
    let all = operator_catalog();
    assert_eq!(
        serde(&all[1]),
        serde_json::from_str::<serde_json::Value>(
            r#"{"key": "neq", "label": "≠ does not equal", "kinds": ["short_text", "long_text",
                "email", "single_choice", "dropdown", "agreement"]}"#
        )
        .unwrap()
    );
    assert_eq!(
        serde(&all[12]),
        serde_json::from_str::<serde_json::Value>(
            r#"{"key": "between", "label": "between (inclusive)",
                "kinds": ["number", "scale", "__quiz_total_score__"]}"#
        )
        .unwrap()
    );
}

fn config(mode: &str, form_id: Option<&str>) -> RoleConfigBody {
    RoleConfigBody {
        form_id: form_id.map(s),
        mode: s(mode),
        conditions: vec![],
        view_permission: None,
    }
}

#[test]
fn picked_forms_are_uuids() {
    assert_eq!(pick_form(&None), Ok(None));
    assert_eq!(pick_form(&Some(s("  "))), Ok(None));
    let n = uuid::Uuid::parse_str(UUID).unwrap().as_u128();
    assert_eq!(pick_form(&Some(format!(" {UUID} "))), Ok(Some(n)));
    assert_eq!(
        pick_form(&Some(s("f1"))),
        Err(AppError::BadRequest(s("form_id must be a valid form UUID from the dropdown.")))
    );
}

#[test]
fn configurations_are_saved_step_by_step() {
    let x = role_config_save(config("any_submission", Some(UUID)));
    let x = role_save_next(x, SaveAnswer::Link(Ok(true)), "g", "r");
    assert!(matches!(x, RoleSave::FindForm { .. }));
    let picked = PickedForm { schema: None, is_quiz: false };
    let x = role_save_next(x, SaveAnswer::Form(Ok(Some(picked))), "g", "r");
    match &x {
        RoleSave::Write { config } => {
            assert!(config.grant_on_any_submission);
            assert_eq!(config.form_id, Some(s(UUID)));
        }
        other => panic!("unexpected {other:?}"),
    }
    let x = role_save_next(x, SaveAnswer::Written(Ok(())), "g", "r");
    match &x {
        RoleSave::Enqueue { job } => {
            assert_eq!(job.payload, js(r#"{"guild_id": "g", "role_id": "r"}"#))
        }
        other => panic!("unexpected {other:?}"),
    }
    match role_save_next(x, SaveAnswer::Enqueued, "g", "r") {
        RoleSave::Done(Ok(v)) => assert_eq!(v, js(r#"{"success": true}"#)),
        other => panic!("unexpected {other:?}"),
    }
}

#[test]
fn configurations_without_a_link_or_form_are_refused() {
    let fail = |x: RoleSave| match x {
        RoleSave::Done(Err(e)) => e,
        other => panic!("no failure: {other:?}"),
    };
    let x = role_config_save(config("any_submission", None));
    assert!(matches!(
        fail(role_save_next(x, SaveAnswer::Link(Ok(false)), "g", "r")),
        AppError::NotFound(_)
    ));
    let x = role_config_save(config("sometimes", None));
    assert_eq!(
        fail(role_save_next(x, SaveAnswer::Link(Ok(true)), "g", "r")),
        AppError::BadRequest(s("Unknown eligibility mode 'sometimes'."))
    );
    let x = role_config_save(config("any_submission", Some(UUID)));
    let x = role_save_next(x, SaveAnswer::Link(Ok(true)), "g", "r");
    assert_eq!(
        fail(role_save_next(x, SaveAnswer::Form(Ok(None)), "g", "r")),
        AppError::BadRequest(s("Selected form does not exist for this guild."))
    );
}

#[test]
fn saved_conditions_are_shown_again() {
    let conditions = vec![
        Condition {
            target: ConditionTarget::Question { question_id: s("a") },
            operator: ConditionOperator::Between,
            value: js("1"),
            value_end: Some(js("2")),
        },
        Condition {
            target: ConditionTarget::QuizTotalScore,
            operator: ConditionOperator::Gte,
            value: js("8"),
            value_end: None,
        },
    ];
    let stored = conditions_value(&conditions);
    assert_eq!(
        serde(&stored),
        serde_json::from_str::<serde_json::Value>(
            r#"[{"target": {"kind": "question", "question_id": "a"}, "operator": "between",
                 "value": 1, "value_end": 2},
                {"target": {"kind": "quiz_total_score"}, "operator": "gte", "value": 8}]"#
        )
        .unwrap()
    );
    let link = LinkSettings { form_id: None, grant_on_any_submission: false, conditions: stored };
    let v = serde(&role_config_data("g", "r", Some(&link), &vec![]).unwrap());
    assert_eq!(v["config"]["conditions"][0]["target"], "a");
    assert_eq!(v["config"]["conditions"][1]["target"], "__quiz_total_score__");
    assert_eq!(v["config"]["mode"], "conditions");
}

// ---------- respondents ----------

#[test]
fn respondents_are_shown_to_the_entitled() {
    let member = r#"{"is_member": true, "is_manager": false}"#;
    let manager = r#"{"is_member": true, "is_manager": true}"#;
    assert_eq!(check_viewer(None, read(manager)), Ok(()));
    assert_eq!(check_viewer(Some("members"), read(member)), Ok(()));
    let denied = || {
        Err(AppError::Forbidden(s(
            "Only server managers can view the respondent list for this server.",
        )))
    };
    assert_eq!(check_viewer(None, read(member)), denied());
    assert_eq!(check_viewer(Some("managers"), read(member)), denied());
    assert_eq!(
        check_viewer(Some("members"), read("{}")),
        Err(AppError::Forbidden(s("You're not a member of this server.")))
    );
    assert_eq!(
        check_viewer(None, GatewayReply::Unreadable { error: s("eof") }),
        Err(AppError::Internal(s("auth_gateway response not JSON: eof")))
    );
}

#[test]
fn respondents_are_listed() {
    assert_eq!(DataQuery { limit: None }.row_limit(), 500);
    assert_eq!(DataQuery { limit: Some(10) }.row_limit(), 10);
    assert_eq!(DataQuery { limit: Some(5_000) }.row_limit(), 2_000);
    assert_eq!(DataQuery { limit: Some(-1) }.row_limit(), -1);
    let rows =
        vec![Respondent { discord_id: s("42"), submitted_at: at(0), last_edited_at: at(60) }];
    assert_eq!(
        data("g", Some("Guild"), &rows),
        js(r#"{"guild_id": "g", "guild_name": "Guild", "respondents": [{"discord_id": "42",
            "submitted_at": "1970-01-01T00:00:00+00:00",
            "last_edited_at": "1970-01-01T00:01:00+00:00"}]}"#)
    );
    assert_eq!(data("g", None, &vec![]), js(r#"{"guild_id": "g", "guild_name": null, "respondents": []}"#));
}

#[test]
fn the_address_stands_at_two_places() {
    let marked = render_respondents_page("@@");
    let page = render_respondents_page("https://b");
    assert_eq!(page, marked.replace("@@", "https://b"));
    assert_eq!(marked.matches("@@").count(), 2);
    assert!(page.contains(r#"href="https://b/favicon.ico""#));
    assert!(page.contains("const API = 'https://b';"));
}

#[test]
fn one_of_two_saves_takes_effect() {
    // Both edit version 3; the first write leaves version 4 behind.
    let save = || FormUpdate::Save { saved: edit(), schema: sound() };
    let first = form_update_next(save(), UpdateAnswer::Saved(Ok(1)));
    assert!(matches!(first, FormUpdate::LoadLinks { .. }));
    let second = form_update_next(save(), UpdateAnswer::Saved(Ok(0)));
    let second = form_update_next(second, UpdateAnswer::Version(Ok(Some(4))));
    assert_eq!(reason(second), AppError::StaleVersion);
}
