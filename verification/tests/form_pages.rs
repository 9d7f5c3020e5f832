//! The member-facing pages and submissions.

use form_respondent_role::double::Double;
use form_respondent_role::error::AppError;
use form_respondent_role::json::{Number, NumberTable, Real, Value};
use form_respondent_role::models::form::{FormSchema, FormSettings, Page, Question, QuestionKind};
use form_respondent_role::routes::form_render::{
    constant_time_eq, discord_account_age_days, escape_html, get_form, get_preview, grade, hide_keys,
    membership_checked, post_submit, render_form_page, submission_next, submit_reply, FormRow,
    PreviewQuery, Storing, SubmitAnswer, SubmitBody, SubmitRequest, Submission, Visit,
};
use form_respondent_role::services::jobs::JobKind;
use form_respondent_role::services::retry::{ExistingAttempt, RetryConfig, RetryPolicy};
use form_respondent_role::time::Timestamp;

fn value_of(v: &serde_json::Value) -> Value {
    match v {
        serde_json::Value::Null => Value::Null,
        serde_json::Value::Bool(b) => Value::Bool(*b),
        serde_json::Value::Number(n) => {
            if let Some(u) = n.as_u64() {
                Value::Number(Number::PosInt(u))
            } else if let Some(i) = n.as_i64() {
                Value::Number(Number::NegInt(i))
            } else {
                let f = n.as_f64().unwrap();
                Value::Number(Number::Float { number: real_of(f), json: n.to_string() })
            }
        }
        serde_json::Value::String(s) => Value::String(s.clone()),
        serde_json::Value::Array(a) => Value::Array(a.iter().map(value_of).collect()),
        serde_json::Value::Object(o) => {
            Value::Object(o.iter().map(|(k, x)| (k.clone(), value_of(x))).collect())
        }
    }
}

/// The value of a JSON text.
fn js(text: &str) -> Value {
    value_of(&serde_json::from_str::<serde_json::Value>(text).unwrap())
}

fn real_of(f: f64) -> Real {
    Real { value: Double { bits: f.to_bits() }, display: f.to_string() }
}

fn s(x: &str) -> String {
    x.to_string()
}

fn at(secs: i64) -> Timestamp {
    Timestamp { secs, nanos: 0 }
}

const BASE: &str = "https://x.test/form-respondent-role";

fn form() -> FormRow {
    FormRow {
        guild_id: s("g"),
        slug: s("abc"),
        title: s("A & B"),
        description: s("It's <fun>"),
        version: 3,
        schema: js(
            r#"{"title": "A & B", "pages": [{"id": "p", "questions": [
                {"id": "q", "kind": "short_text", "title": "Q", "correct": "yes", "points": 5}]}]}"#,
        ),
        is_quiz: false,
        open_at: None,
        close_at: None,
        allow_edits: false,
        single_submission: true,
        require_verified: false,
        min_account_age_days: 0,
        success_message: s("Thanks!"),
        preview_token: s("tok"),
        webhook_url: None,
        archived: false,
        passing_score: None,
        retry: RetryConfig {
            max_attempts: 1,
            cooldown_seconds: 0,
            policy: RetryPolicy::KeepBest,
            lock_on_pass: false,
        },
    }
}

fn page_of(v: Visit) -> String {
    match v {
        Visit::Page(body) => body,
        other => panic!("no page: {other:?}"),
    }
}

// ---------- accounts ----------

#[test]
fn accounts_are_as_old_as_their_id() {
    // The first snowflake is of 2015-01-01T00:00:00Z.
    let start = 1_420_070_400;
    assert_eq!(discord_account_age_days("0", at(start)), Some(0));
    assert_eq!(discord_account_age_days("0", at(start + 86_399)), Some(0));
    assert_eq!(discord_account_age_days("0", at(start + 86_400)), Some(1));
    assert_eq!(discord_account_age_days("0", at(start - 86_400)), Some(-1));
    assert_eq!(discord_account_age_days("0", at(start - 1)), Some(0));
    // 175928847299117063 is of 2016-04-30 11:18:25.796 UTC.
    assert_eq!(discord_account_age_days("175928847299117063", at(1_462_015_105)), Some(0));
    assert_eq!(discord_account_age_days("175928847299117063", at(1_462_015_105 + 864_000)), Some(10));
    assert_eq!(discord_account_age_days("someone", at(start)), None);
    assert!(discord_account_age_days(&u64::MAX.to_string(), at(start)).is_some());
}

// ---------- escaping ----------

#[test]
fn html_is_escaped() {
    assert_eq!(escape_html(r#"<a href="x">&'"#), "&lt;a href=&quot;x&quot;&gt;&amp;&#39;");
    assert_eq!(escape_html("plain"), "plain");
}

// ---------- visits ----------

#[test]
fn archived_forms_are_not_found() {
    let mut f = form();
    f.archived = true;
    match get_form(BASE, &f, "abc", at(0), None) {
        Visit::Fail(AppError::FormNotFound(slug)) => assert_eq!(slug, "abc"),
        other => panic!("unexpected {other:?}"),
    }
}

#[test]
fn closed_forms_say_so() {
    let mut f = form();
    f.open_at = Some(at(1_000));
    let body = page_of(get_form(BASE, &f, "abc", at(999), Some("1")));
    assert!(body.contains("This form opens at 1970-01-01T00:16:40+00:00."), "{body}");
    assert!(body.contains("<h1>A &amp; B</h1>"));
    // Its first moment counts as open.
    assert!(matches!(get_form(BASE, &f, "abc", at(1_000), Some("1")), Visit::Show));
    let mut f = form();
    f.close_at = Some(at(1_000));
    let body = page_of(get_form(BASE, &f, "abc", at(1_001), Some("1")));
    assert!(body.contains("This form is no longer accepting submissions."));
    assert!(matches!(get_form(BASE, &f, "abc", at(1_000), Some("1")), Visit::Show));
}

#[test]
fn visitors_are_asked_to_sign_in() {
    let body = page_of(get_form(BASE, &form(), "a b/ü", at(0), None));
    assert!(body.starts_with("<!DOCTYPE html>"));
    assert!(body.contains("<title>A &amp; B</title>"));
    assert!(body.contains("<p>It&#39;s &lt;fun&gt;</p>"));
    assert!(body.contains("/auth/login?return_to=%2Fform-respondent-role%2Ff%2Fa%20b%2F%C3%BC\""));
    assert!(body.contains(&format!("{BASE}/f/a b/ü")));
    assert!(body.ends_with("</body></html>"));
}

#[test]
fn young_accounts_are_turned_away() {
    let mut f = form();
    f.min_account_age_days = 30;
    let now = at(1_420_070_400 + 10 * 86_400);
    let body = page_of(get_form(BASE, &f, "abc", now, Some("0")));
    assert!(body.contains(
        "Your Discord account must be at least 30 days old to submit this form (yours is 10 days)."
    ));
    let later = at(1_420_070_400 + 30 * 86_400);
    assert!(matches!(get_form(BASE, &f, "abc", later, Some("0")), Visit::Show));
    // An id that is no number has no age.
    let body = page_of(get_form(BASE, &f, "abc", later, Some("x")));
    assert!(body.contains("(yours is 0 days)"));
}

#[test]
fn membership_is_checked_where_it_is_asked_for() {
    let mut f = form();
    f.require_verified = true;
    assert!(matches!(get_form(BASE, &f, "abc", at(0), Some("1")), Visit::CheckMembership));
    assert!(matches!(membership_checked(BASE, &f, Some(&vec![s("h"), s("g")])), Visit::Show));
    let body = page_of(membership_checked(BASE, &f, Some(&vec![s("h")])));
    assert!(body.contains("You must be a member of the server before you can submit this form."));
    let body = page_of(membership_checked(BASE, &f, None));
    assert!(body.contains(
        "We couldn&#39;t verify your server membership right now. Please refresh in a moment."
    ));
}

// ---------- the form page ----------

#[test]
fn members_get_no_answer_keys() {
    let f = form();
    let hidden = hide_keys(&f.schema).to_text();
    assert!(!hidden.contains("correct"), "{hidden}");
    assert!(hidden.contains("\"points\":5"));
    // A question that is named so is not a key.
    let named = js(r#"{"correct": 1, "pages": [{"questions": [{"id": "correct", "correct": 2}]}]}"#);
    assert_eq!(
        hide_keys(&named).to_text(),
        r#"{"correct":1,"pages":[{"questions":[{"id":"correct"}]}]}"#
    );
}

#[test]
fn the_form_page_is_filled_in() {
    let template = "__TITLE__|__DESCRIPTION__|__SLUG__|__BASE_URL__|__BOOTSTRAP__";
    let body = render_form_page(template, BASE, &form(), "abc", "42", "Ann", false);
    assert!(body.starts_with(&format!("A &amp; B|It&#39;s &lt;fun&gt;|abc|{BASE}|")));
    let boot = body.splitn(5, '|').nth(4).unwrap();
    let v = serde_json::from_str::<serde_json::Value>(boot).unwrap();
    assert_eq!(v["discord_id"], "42");
    assert_eq!(v["display_name"], "Ann");
    assert_eq!(v["version"], 3);
    assert_eq!(v["preview"], false);
    assert_eq!(v["is_quiz"], false);
    assert_eq!(v["title"], "A & B");
    assert!(v["schema"]["pages"][0]["questions"][0].get("correct").is_none());
}

#[test]
fn previews_need_the_token() {
    let f = form();
    let body =
        get_preview("__BOOTSTRAP__", BASE, &f, "abc", &PreviewQuery { token: s("tok") }).unwrap();
    let v = serde_json::from_str::<serde_json::Value>(&body).unwrap();
    assert_eq!(v["preview"], true);
    assert_eq!(v["discord_id"], "preview");
    assert_eq!(v["schema"]["pages"][0]["questions"][0]["correct"], "yes");
    assert_eq!(
        get_preview("", BASE, &f, "abc", &PreviewQuery { token: s("tok2") }),
        Err(AppError::Forbidden(s("Invalid preview token.")))
    );
    assert!(constant_time_eq("abc", "abc") && !constant_time_eq("abc", "abd"));
    assert!(!constant_time_eq("abc", "ab") && constant_time_eq("", ""));
}

// ---------- submissions ----------

fn parsed() -> FormSchema {
    let mut q = Question {
        id: s("q"),
        kind: QuestionKind::ShortText,
        title: s("Q"),
        description: String::new(),
        required: true,
        max_length: None,
        min: None,
        max: None,
        options: None,
        correct: None,
        points: None,
        placeholder: None,
        help_text: None,
        image_url: None,
        alt_text: None,
    };
    q.correct = Some(Value::String(s("yes")));
    q.points = Some(5);
    FormSchema {
        title: s("T"),
        description: String::new(),
        settings: FormSettings::default(),
        pages: vec![Page {
            id: s("p"),
            title: String::new(),
            description: String::new(),
            questions: vec![q],
        }],
    }
}

fn request(answers: &str, version: i32) -> SubmitRequest {
    SubmitRequest {
        slug: s("abc"),
        base_url: s(BASE),
        discord_id: s("42"),
        display_name: s("Ann"),
        body: SubmitBody { answers: js(answers), version },
        now: at(2_000_000_000),
    }
}

fn with_schema() -> SubmitAnswer {
    SubmitAnswer::Schema { schema: Ok(parsed()), numbers: NumberTable::new() }
}

fn failure(x: Submission) -> AppError {
    match x {
        Submission::Done(Err(e)) => e,
        other => panic!("no failure: {other:?}"),
    }
}

#[test]
fn submissions_need_a_session() {
    assert_eq!(
        failure(post_submit(Some("1"), true, true)),
        AppError::Forbidden(s("Preview mode does not accept submissions."))
    );
    assert_eq!(
        failure(post_submit(None, false, false)),
        AppError::UnauthorizedWith(s("Sign in with Discord to submit."))
    );
    assert_eq!(
        failure(post_submit(Some("0"), true, false)),
        AppError::UnauthorizedWith(s("Your session expired. Sign in again."))
    );
    assert!(matches!(post_submit(None, true, true), Submission::LoadForm));
}

#[test]
fn submissions_are_refused_by_the_form() {
    let go = |f: Option<FormRow>, req: &SubmitRequest| {
        submission_next(Submission::LoadForm, SubmitAnswer::Form(Ok(f)), req)
    };
    let req = request("{}", 3);
    assert_eq!(failure(go(None, &req)), AppError::FormNotFound(s("abc")));
    let mut f = form();
    f.archived = true;
    assert_eq!(failure(go(Some(f), &req)), AppError::FormNotFound(s("abc")));
    assert_eq!(failure(go(Some(form()), &request("{}", 2))), AppError::StaleVersion);
    let mut f = form();
    f.close_at = Some(at(1_000));
    assert_eq!(failure(go(Some(f), &req)), AppError::FormClosed);
    let mut f = form();
    f.open_at = Some(at(3_000_000_000));
    assert_eq!(failure(go(Some(f), &req)), AppError::FormClosed);
    let mut f = form();
    f.min_account_age_days = 100_000;
    assert_eq!(
        failure(go(Some(f), &req)),
        AppError::Forbidden(s("Account must be ≥100000 days old."))
    );
    let mut f = form();
    f.require_verified = true;
    let x = go(Some(f), &req);
    assert!(matches!(x, Submission::FetchGuilds { .. }));
    assert_eq!(
        failure(submission_next(x, SubmitAnswer::Guilds(Ok(vec![s("h")])), &req)),
        AppError::Forbidden(s("You must be a member of the server first."))
    );
}

#[test]
fn wrong_answers_are_named() {
    let req = request("{}", 3);
    let x = Submission::ReadSchema { form: form() };
    match failure(submission_next(x, with_schema(), &req)) {
        AppError::ValidationFailed(errors) => assert_eq!(errors[0].question_id, "q"),
        other => panic!("unexpected {other:?}"),
    }
    let broken = SubmitAnswer::Schema { schema: Err(s("eof")), numbers: NumberTable::new() };
    let x = Submission::ReadSchema { form: form() };
    assert_eq!(
        failure(submission_next(x, broken, &req)),
        AppError::Internal(s("form schema invalid: eof"))
    );
}

/// A submission that has been graded, and what it is asked next.
fn graded(f: FormRow, req: &SubmitRequest) -> Submission {
    let x = submission_next(Submission::LoadForm, SubmitAnswer::Form(Ok(Some(f))), req);
    submission_next(x, with_schema(), req)
}

#[test]
fn a_first_submission_is_stored_and_followed_up() {
    let mut f = form();
    f.webhook_url = Some(s("https://hooks.test/x"));
    let req = request(r#"{"q": " Yes "}"#, 3);
    let x = graded(f, &req);
    assert!(matches!(x, Submission::FindPrior { .. }));
    let x = submission_next(x, SubmitAnswer::Prior(Ok(None)), &req);
    match &x {
        Submission::Store { write, .. } => {
            assert_eq!(write.how, Storing::Insert);
            assert_eq!(write.version, 3);
            assert_eq!(write.total_score, None);
        }
        other => panic!("unexpected {other:?}"),
    }
    let x = submission_next(x, SubmitAnswer::Stored(Ok(s("r1"))), &req);
    match &x {
        Submission::Enqueue { jobs, .. } => {
            assert_eq!(jobs.len(), 2);
            assert_eq!(jobs[0].kind, JobKind::PlayerSync);
            assert_eq!(jobs[1].kind, JobKind::Webhook);
            let payload = jobs[1].payload.to_text();
            let v = serde_json::from_str::<serde_json::Value>(&payload).unwrap();
            assert_eq!(v["url"], "https://hooks.test/x");
            assert_eq!(v["body"]["submitted_at"], "2033-05-18T03:33:20+00:00");
            assert_eq!(v["body"]["response_id"], "r1");
        }
        other => panic!("unexpected {other:?}"),
    }
    let x = submission_next(x, SubmitAnswer::Enqueued(Ok(())), &req);
    assert!(matches!(x, Submission::Commit { .. }));
    match submission_next(x, SubmitAnswer::Committed(Ok(())), &req) {
        Submission::Done(Ok(v)) => assert_eq!(
            v.to_text(),
            r#"{"message":"Thanks!","passed":null,"response_id":"r1","success":true}"#
        ),
        other => panic!("unexpected {other:?}"),
    }
}

#[test]
fn a_blank_webhook_is_none() {
    let mut f = form();
    f.webhook_url = Some(s("  "));
    f.single_submission = false;
    let req = request(r#"{"q": "x"}"#, 3);
    // A form that keeps every response does not look for an earlier one.
    let x = graded(f, &req);
    assert!(matches!(x, Submission::Store { .. }));
    match submission_next(x, SubmitAnswer::Stored(Ok(s("r"))), &req) {
        Submission::Enqueue { jobs, .. } => assert_eq!(jobs.len(), 1),
        other => panic!("unexpected {other:?}"),
    }
}

fn prior(attempt_count: i32, secs: i64, score: Option<i32>, passed: Option<bool>) -> SubmitAnswer {
    SubmitAnswer::Prior(Ok(Some(ExistingAttempt {
        attempt_count,
        last_attempt_at: at(secs),
        total_score: score,
        passed,
    })))
}

#[test]
fn one_shot_forms_take_one_response() {
    let req = request(r#"{"q": "x"}"#, 3);
    let x = graded(form(), &req);
    assert_eq!(
        failure(submission_next(x, prior(1, 0, None, None), &req)),
        AppError::DuplicateSubmission
    );
    let mut f = form();
    f.allow_edits = true;
    match submission_next(graded(f, &req), prior(1, 0, None, None), &req) {
        Submission::Store { write, .. } => assert_eq!(write.how, Storing::Edit),
        other => panic!("unexpected {other:?}"),
    }
}

fn quiz(max_attempts: i32, cooldown_seconds: i64) -> FormRow {
    let mut f = form();
    f.is_quiz = true;
    f.single_submission = false;
    f.passing_score = Some(5);
    f.retry.max_attempts = max_attempts;
    f.retry.cooldown_seconds = cooldown_seconds;
    f
}

#[test]
fn quizzes_are_graded_and_keep_the_best() {
    let right = request(r#"{"q": "YES"}"#, 3);
    match submission_next(graded(quiz(3, 0), &right), prior(1, 0, Some(0), Some(false)), &right) {
        Submission::Store { write, total_score, passed, .. } => {
            assert_eq!(write.how, Storing::Retry { attempt_count: 2, overwrite_answers: true });
            assert_eq!((write.total_score, write.passed), (Some(5), Some(true)));
            assert_eq!((total_score, passed), (Some(5), Some(true)));
        }
        other => panic!("unexpected {other:?}"),
    }
    let wrong = request(r#"{"q": "no"}"#, 3);
    match submission_next(graded(quiz(3, 0), &wrong), prior(1, 0, Some(5), Some(true)), &wrong) {
        Submission::Store { write, total_score, passed, .. } => {
            assert_eq!(write.how, Storing::Retry { attempt_count: 2, overwrite_answers: false });
            assert_eq!((write.total_score, write.passed), (Some(5), Some(true)));
            // What the member is told is of this attempt.
            assert_eq!((total_score, passed), (Some(0), Some(false)));
        }
        other => panic!("unexpected {other:?}"),
    }
}

#[test]
fn refused_attempts_say_why() {
    let req = request(r#"{"q": "x"}"#, 3);
    assert_eq!(
        failure(submission_next(graded(quiz(2, 0), &req), prior(2, 0, Some(1), Some(false)), &req)),
        AppError::AttemptsExhausted { max: 2 }
    );
    assert_eq!(
        failure(submission_next(
            graded(quiz(0, 60), &req),
            prior(2, 2_000_000_000 - 10, Some(1), Some(false)),
            &req
        )),
        AppError::RetryCooldown { retry_after_seconds: 50 }
    );
    let mut f = quiz(0, 0);
    f.retry.lock_on_pass = true;
    assert_eq!(
        failure(submission_next(graded(f, &req), prior(1, 0, Some(5), Some(true)), &req)),
        AppError::AlreadyPassed
    );
    // Without retries a quiz answers as a one-shot form does.
    assert_eq!(
        failure(submission_next(graded(quiz(1, 0), &req), prior(1, 0, Some(5), Some(true)), &req)),
        AppError::DuplicateSubmission
    );
}

#[test]
fn a_failed_step_ends_a_submission() {
    let req = request(r#"{"q": "x"}"#, 3);
    let down = || AppError::Internal(s("down"));
    assert_eq!(
        failure(submission_next(Submission::LoadForm, SubmitAnswer::Form(Err(down())), &req)),
        down()
    );
    let x = Submission::Commit { reply: Value::Null };
    assert_eq!(failure(submission_next(x, SubmitAnswer::Committed(Err(down())), &req)), down());
    // An answer to another question changes nothing.
    let x = submission_next(Submission::LoadForm, SubmitAnswer::Enqueued(Ok(())), &req);
    assert!(matches!(x, Submission::LoadForm));
}

#[test]
fn replies_hold_no_score() {
    for passed in [Some(true), Some(false), None] {
        let v = submit_reply("m", passed, "r");
        assert_eq!(v.get("total_score"), None);
        assert_eq!(
            v.get("passed"),
            Some(&match passed {
                Some(p) => Value::Bool(p),
                None => Value::Null,
            })
        );
    }
}

// ---------- grading of numbers ----------

fn numeric(id: &str, key: &str, points: i32) -> Question {
    Question {
        id: s(id),
        kind: QuestionKind::Number,
        title: s(id),
        description: String::new(),
        required: false,
        max_length: None,
        min: None,
        max: None,
        options: None,
        correct: Some(js(key)),
        points: Some(points),
        placeholder: None,
        help_text: None,
        image_url: None,
        alt_text: None,
    }
}

fn numeric_quiz(questions: Vec<Question>) -> FormSchema {
    let mut schema = parsed();
    schema.pages[0].questions = questions;
    schema
}

/// A table with the texts and what they denote, and nothing else.
fn listing(texts: &[&str]) -> NumberTable {
    let mut table = NumberTable::new();
    for text in texts {
        table.list(text, real_of(text.parse::<f64>().unwrap()));
    }
    table
}

/// The score of one answer to a question with the key, worth 3 points.
fn scored(key: &str, answer: &str, texts: &[&str]) -> Option<i32> {
    let mut f = form();
    f.is_quiz = true;
    let answers = js(&format!("{{\"n\": {answer}}}"));
    let schema = Ok(numeric_quiz(vec![numeric("n", key, 3)]));
    grade(&f, schema, &answers, &listing(texts)).expect("valid").total_score
}

#[test]
fn numbers_are_graded_as_numbers() {
    assert_eq!(scored("5", "5", &[]), Some(3));
    assert_eq!(scored("\"5.0\"", "\"5.0\"", &["5.0"]), Some(3));
    assert_eq!(scored("\"5.0\"", "5", &["5.0"]), Some(3));
    assert_eq!(scored("5", "\" 5.00 \"", &["5.00"]), Some(3));
    assert_eq!(scored("2.5", "\"2.50\"", &["2.50"]), Some(3));
    assert_eq!(scored("\"2.50\"", "2.5", &["2.50"]), Some(3));
    assert_eq!(scored("-7", "\"-7e0\"", &["-7e0"]), Some(3));
    assert_eq!(scored("0", "\"-0.0\"", &["-0.0"]), Some(3));
    assert_eq!(scored("[4, \"5.0\"]", "5", &["5.0"]), Some(3));
    assert_eq!(scored("[4, \"5.0\"]", "4", &["5.0"]), Some(3));
}

#[test]
fn wrong_numbers_earn_nothing() {
    assert_eq!(scored("5", "6", &[]), Some(0));
    assert_eq!(scored("\"5.0\"", "\"5.1\"", &["5.0", "5.1"]), Some(0));
    assert_eq!(scored("[4, \"5.0\"]", "6", &["5.0"]), Some(0));
    assert_eq!(scored("true", "1", &[]), Some(0));
    // A number that is cut when it is stored is graded as it is stored.
    assert_eq!(scored("\"1e19\"", "\"1e19\"", &["1e19"]), Some(0));
    assert_eq!(scored("\"4e18\"", "\"4e18\"", &["4e18"]), Some(3));
}

#[test]
fn numbers_of_several_questions_are_graded_apart() {
    let mut f = form();
    f.is_quiz = true;
    f.passing_score = Some(6);
    let schema = || {
        Ok(numeric_quiz(vec![
            numeric("a", "5", 1),
            numeric("b", "\"2.5\"", 2),
            numeric("c", "\"5\"", 4),
        ]))
    };
    let table = listing(&["2.5", "5", "5.0", "2.50"]);
    let go = |answers: &str| {
        let g = grade(&f, schema(), &js(answers), &table).expect("valid");
        (g.total_score, g.passed)
    };
    assert_eq!(go(r#"{"a": "5.0", "b": "2.50", "c": 5}"#), (Some(7), Some(true)));
    assert_eq!(go(r#"{"a": "2.50", "b": "5.0", "c": 5.0}"#), (Some(4), Some(false)));
    assert_eq!(go("{}"), (Some(0), Some(false)));
}

#[test]
fn the_score_of_numbers_is_stored() {
    let mut f = form();
    f.is_quiz = true;
    f.passing_score = Some(3);
    let req = request(r#"{"n": "5.0"}"#, f.version);
    let answer = SubmitAnswer::Schema {
        schema: Ok(numeric_quiz(vec![numeric("n", "\"5.0\"", 3)])),
        numbers: listing(&["5.0"]),
    };
    let x = submission_next(Submission::ReadSchema { form: f }, answer, &req);
    match submission_next(x, SubmitAnswer::Prior(Ok(None)), &req) {
        Submission::Store { write, total_score, passed, .. } => {
            assert_eq!((write.total_score, write.passed), (Some(3), Some(true)));
            assert_eq!((total_score, passed), (Some(3), Some(true)));
        }
        other => panic!("unexpected {other:?}"),
    }
}
