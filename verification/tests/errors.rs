//! Errors and the replies that they turn into.

use form_respondent_role::error::{classify_db_error, AppError, DatabaseError, FieldError};

fn body(e: AppError) -> (u16, Option<String>, serde_json::Value) {
    let r = e.into_response();
    (r.status, r.retry_after, serde_json::from_str(&r.body.to_text()).unwrap())
}

fn database(code: Option<&str>, constraint: Option<&str>) -> DatabaseError {
    DatabaseError {
        message: "duplicate key".into(),
        code: code.map(|c| c.to_string()),
        constraint: constraint.map(|c| c.to_string()),
    }
}

fn json(s: &str) -> serde_json::Value {
    serde_json::from_str(s).unwrap()
}

#[test]
fn simple_errors_have_their_status_and_text() {
    let cases = vec![
        (AppError::RoleLogic("x".into()), 502, "Failed to sync roles"),
        (AppError::RoleLinkNotFound, 404, "Role link not found"),
        (AppError::RoleLinkDisabled, 403, "Role link is disabled"),
        (AppError::UserLimitReached { limit: 3 }, 403, "Role link user limit reached"),
        (AppError::BadRequest("b".into()), 400, "b"),
        (AppError::Unauthorized, 401, "Invalid or missing authorization"),
        (AppError::UnauthorizedWith("u".into()), 401, "u"),
        (AppError::Forbidden("f".into()), 403, "f"),
        (AppError::NotFound("n".into()), 404, "n"),
        (AppError::FormNotFound("abc".into()), 404, "Form not found: abc"),
        (AppError::FormClosed, 403, "This form is not currently accepting submissions."),
        (AppError::SubmissionRateLimited, 429, "Too many submissions. Please slow down."),
        (AppError::Internal("secret".into()), 500, "Internal server error"),
    ];
    for (e, status, text) in cases {
        let (s, retry, b) = body(e);
        assert_eq!(s, status);
        assert_eq!(retry, None);
        assert_eq!(b["error"], text);
        assert_eq!(b.as_object().unwrap().len(), 1);
    }
}

#[test]
fn attempt_errors_have_codes() {
    let (s, _, b) = body(AppError::DuplicateSubmission);
    assert_eq!(s, 409);
    assert_eq!(
        b,
        json(r#"{"error": "You've already submitted this form.", "code": "DUPLICATE_SUBMISSION"}"#)
    );
    let (s, _, b) = body(AppError::AttemptsExhausted { max: 3 });
    assert_eq!(s, 409);
    assert_eq!(
        b,
        json(
            r#"{"error": "You've used all 3 of your attempts for this form.",
                "code": "ATTEMPTS_EXHAUSTED", "max_attempts": 3}"#
        )
    );
    let (s, retry, b) = body(AppError::RetryCooldown { retry_after_seconds: 90 });
    assert_eq!(s, 429);
    assert_eq!(retry, Some("90".to_string()));
    assert_eq!(
        b,
        json(
            r#"{"error": "Please wait before trying again.", "code": "RETRY_COOLDOWN",
                "retry_after_seconds": 90}"#
        )
    );
    let (s, _, b) = body(AppError::AlreadyPassed);
    assert_eq!(s, 409);
    assert_eq!(b["code"], "ALREADY_PASSED");
    assert_eq!(b["error"], "You've already passed — no further attempts are needed.");
    let (s, _, b) = body(AppError::StaleVersion);
    assert_eq!(s, 409);
    assert_eq!(b["code"], "STALE_VERSION");
}

#[test]
fn validation_errors_name_the_questions() {
    let (s, _, b) = body(AppError::ValidationFailed(vec![FieldError {
        question_id: "q1".into(),
        message: "Required.".into(),
    }]));
    assert_eq!(s, 422);
    assert_eq!(
        b,
        json(
            r#"{"error": "Validation failed",
                "field_errors": [{"question_id": "q1", "message": "Required."}]}"#
        )
    );
}

#[test]
fn constraint_violations_are_client_errors() {
    for (code, status, name) in [
        ("23505", 409, "UNIQUE_VIOLATION"),
        ("23503", 409, "FOREIGN_KEY_VIOLATION"),
        ("23514", 400, "CHECK_VIOLATION"),
    ] {
        let r = classify_db_error(&database(Some(code), Some("c")));
        assert_eq!(r.status, status);
        let b = serde_json::from_str::<serde_json::Value>(&r.body.to_text()).unwrap();
        assert_eq!(b["code"], name);
        assert_eq!(b["constraint"], "c");
    }
    let r = classify_db_error(&database(Some("23502"), None));
    assert_eq!(r.status, 400);
}

#[test]
fn other_database_errors_are_not_told() {
    for e in [database(None, None), database(Some("08006"), None)] {
        let (s, _, b) = body(AppError::Database(e));
        assert_eq!(s, 500);
        assert_eq!(b, json(r#"{"error": "Internal server error"}"#));
    }
}

#[test]
fn messages_are_for_logs() {
    assert_eq!(AppError::Internal("x".into()).message(), "Internal error: x");
    assert_eq!(AppError::Database(database(None, None)).message(), "Database error: duplicate key");
    assert_eq!(AppError::UserLimitReached { limit: 7 }.message(), "Role link user limit reached (7)");
    assert_eq!(AppError::FormNotFound("s".into()).message(), "Form not found: s");
}
