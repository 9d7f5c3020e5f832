//! Errors and the replies that they turn into.

use vstd::prelude::*;

use crate::json::{integer, list, no_fields, no_items, object, object1, push_field, push_item, text};
use crate::json::{Json, Numeral, Value};
use crate::numerals::{i32_text, i64_text, usize_text};
use crate::text::{cat2, cat3, owned, same};

verus! {

/// What is wrong with the answer to one question.
#[derive(Debug, PartialEq)]
pub struct FieldError {
    pub question_id: String,
    pub message: String,
}

/// What a `FieldError` stands for.
pub struct Fault {
    pub question_id: Seq<char>,
    pub message: Seq<char>,
}

impl View for FieldError {
    type V = Fault;

    open spec fn view(&self) -> Fault {
        Fault { question_id: self.question_id@, message: self.message@ }
    }
}

/// The views of a list of field errors.
pub open spec fn faults(errors: Seq<FieldError>) -> Seq<Fault> {
    errors.map_values(|e: FieldError| e@)
}

/// A failure of a database call: what the driver says of it and, where the
/// database itself reported it, its SQLSTATE code and the constraint at fault.
#[derive(Debug, PartialEq)]
pub struct DatabaseError {
    pub message: String,
    pub code: Option<String>,
    pub constraint: Option<String>,
}

/// Why a request or a piece of background work fails.
#[derive(Debug, PartialEq)]
pub enum AppError {
    Database(DatabaseError),
    RoleLogic(String),
    RoleLinkNotFound,
    RoleLinkDisabled,
    UserLimitReached { limit: usize },
    BadRequest(String),
    Unauthorized,
    UnauthorizedWith(String),
    Forbidden(String),
    NotFound(String),
    FormNotFound(String),
    FormClosed,
    SubmissionRateLimited,
    ValidationFailed(Vec<FieldError>),
    DuplicateSubmission,
    AttemptsExhausted { max: i32 },
    RetryCooldown { retry_after_seconds: i64 },
    AlreadyPassed,
    StaleVersion,
    Internal(String),
}

/// What an `AppError` stands for.
#[verifier::ext_equal]
pub enum Failure {
    Database { message: Seq<char>, code: Option<Seq<char>>, constraint: Option<Seq<char>> },
    RoleLogic(Seq<char>),
    RoleLinkNotFound,
    RoleLinkDisabled,
    UserLimitReached { limit: usize },
    BadRequest(Seq<char>),
    Unauthorized,
    UnauthorizedWith(Seq<char>),
    Forbidden(Seq<char>),
    NotFound(Seq<char>),
    FormNotFound(Seq<char>),
    FormClosed,
    SubmissionRateLimited,
    ValidationFailed(Seq<Fault>),
    DuplicateSubmission,
    AttemptsExhausted { max: i32 },
    RetryCooldown { retry_after_seconds: i64 },
    AlreadyPassed,
    StaleVersion,
    Internal(Seq<char>),
}

/// The view of an optional text.
pub open spec fn optional_text(s: Option<String>) -> Option<Seq<char>> {
    match s {
        Some(x) => Some(x@),
        None => None,
    }
}

impl View for AppError {
    type V = Failure;

    open spec fn view(&self) -> Failure {
        match *self {
            AppError::Database(e) => Failure::Database {
                message: e.message@,
                code: optional_text(e.code),
                constraint: optional_text(e.constraint),
            },
            AppError::RoleLogic(s) => Failure::RoleLogic(s@),
            AppError::RoleLinkNotFound => Failure::RoleLinkNotFound,
            AppError::RoleLinkDisabled => Failure::RoleLinkDisabled,
            AppError::UserLimitReached { limit } => Failure::UserLimitReached { limit },
            AppError::BadRequest(s) => Failure::BadRequest(s@),
            AppError::Unauthorized => Failure::Unauthorized,
            AppError::UnauthorizedWith(s) => Failure::UnauthorizedWith(s@),
            AppError::Forbidden(s) => Failure::Forbidden(s@),
            AppError::NotFound(s) => Failure::NotFound(s@),
            AppError::FormNotFound(s) => Failure::FormNotFound(s@),
            AppError::FormClosed => Failure::FormClosed,
            AppError::SubmissionRateLimited => Failure::SubmissionRateLimited,
            AppError::ValidationFailed(v) => Failure::ValidationFailed(faults(v@)),
            AppError::DuplicateSubmission => Failure::DuplicateSubmission,
            AppError::AttemptsExhausted { max } => Failure::AttemptsExhausted { max },
            AppError::RetryCooldown { retry_after_seconds } => Failure::RetryCooldown {
                retry_after_seconds,
            },
            AppError::AlreadyPassed => Failure::AlreadyPassed,
            AppError::StaleVersion => Failure::StaleVersion,
            AppError::Internal(s) => Failure::Internal(s@),
        }
    }
}

impl Failure {
    /// The failure in words, as logs and job records have it.
    pub open spec fn message(self) -> Seq<char> {
        match self {
            Failure::Database { message, code, constraint } => "Database error: "@ + message,
            Failure::RoleLogic(s) => "RoleLogic API error: "@ + s,
            Failure::RoleLinkNotFound => "Role link not found on RoleLogic"@,
            Failure::RoleLinkDisabled => "Role link is disabled on RoleLogic"@,
            Failure::UserLimitReached { limit } => "Role link user limit reached ("@
                + crate::numerals::nat_text(limit as nat) + ")"@,
            Failure::BadRequest(s) => "Invalid request: "@ + s,
            Failure::Unauthorized => "Unauthorized"@,
            Failure::UnauthorizedWith(s) => "Unauthorized: "@ + s,
            Failure::Forbidden(s) => "Forbidden: "@ + s,
            Failure::NotFound(s) => "Not found: "@ + s,
            Failure::FormNotFound(s) => "Form not found: "@ + s,
            Failure::FormClosed => "Form is not currently accepting submissions"@,
            Failure::SubmissionRateLimited => "Submission rate limited"@,
            Failure::ValidationFailed(_) => "Validation failed"@,
            Failure::DuplicateSubmission => "Duplicate submission"@,
            Failure::AttemptsExhausted { max } => "No attempts remaining"@,
            Failure::RetryCooldown { retry_after_seconds } => "Retry cooldown active"@,
            Failure::AlreadyPassed => "Already passed; no further attempts"@,
            Failure::StaleVersion => "Form was edited; reload and try again"@,
            Failure::Internal(s) => "Internal error: "@ + s,
        }
    }
}

impl AppError {
    /// The failure in words, as logs and job records have it.
    pub fn message(&self) -> (r: String)
        ensures
            r@ == self@.message(),
    {
        match self {
            AppError::Database(e) => cat2("Database error: ", e.message.as_str()),
            AppError::RoleLogic(s) => cat2("RoleLogic API error: ", s.as_str()),
            AppError::RoleLinkNotFound => owned("Role link not found on RoleLogic"),
            AppError::RoleLinkDisabled => owned("Role link is disabled on RoleLogic"),
            AppError::UserLimitReached { limit } => cat3(
                "Role link user limit reached (",
                usize_text(*limit).as_str(),
                ")",
            ),
            AppError::BadRequest(s) => cat2("Invalid request: ", s.as_str()),
            AppError::Unauthorized => owned("Unauthorized"),
            AppError::UnauthorizedWith(s) => cat2("Unauthorized: ", s.as_str()),
            AppError::Forbidden(s) => cat2("Forbidden: ", s.as_str()),
            AppError::NotFound(s) => cat2("Not found: ", s.as_str()),
            AppError::FormNotFound(s) => cat2("Form not found: ", s.as_str()),
            AppError::FormClosed => owned("Form is not currently accepting submissions"),
            AppError::SubmissionRateLimited => owned("Submission rate limited"),
            AppError::ValidationFailed(_) => owned("Validation failed"),
            AppError::DuplicateSubmission => owned("Duplicate submission"),
            AppError::AttemptsExhausted { max } => owned("No attempts remaining"),
            AppError::RetryCooldown { retry_after_seconds } => owned("Retry cooldown active"),
            AppError::AlreadyPassed => owned("Already passed; no further attempts"),
            AppError::StaleVersion => owned("Form was edited; reload and try again"),
            AppError::Internal(s) => cat2("Internal error: ", s.as_str()),
        }
    }
}

// ---------------------------------------------------------------------------
// Replies
// ---------------------------------------------------------------------------

/// A reply to a failed request: its HTTP status, the `Retry-After` header where
/// it has one, and its JSON body.
#[derive(Debug, PartialEq)]
pub struct ErrorReply {
    pub status: u16,
    pub retry_after: Option<String>,
    pub body: Value,
}

/// What an `ErrorReply` stands for.
pub struct Reply {
    pub status: u16,
    pub retry_after: Option<Seq<char>>,
    pub body: Json,
}

impl View for ErrorReply {
    type V = Reply;

    open spec fn view(&self) -> Reply {
        Reply {
            status: self.status,
            retry_after: optional_text(self.retry_after),
            body: self.body@,
        }
    }
}

/// A reply with nothing but an error text.
pub open spec fn plain_reply(status: u16, message: Seq<char>) -> Reply {
    Reply {
        status,
        retry_after: None,
        body: Json::empty().with("error"@, Json::Text(message)),
    }
}

/// A reply with an error text and a code for clients.
pub open spec fn coded_reply(status: u16, code: Seq<char>, message: Seq<char>) -> Reply {
    Reply {
        status,
        retry_after: None,
        body: Json::empty()
            .with("code"@, Json::Text(code))
            .with("error"@, Json::Text(message)),
    }
}

/// A reply about a constraint of the database.
pub open spec fn constraint_reply(
    status: u16,
    code: Seq<char>,
    constraint: Seq<char>,
    message: Seq<char>,
) -> Reply {
    Reply {
        status,
        retry_after: None,
        body: Json::empty()
            .with("code"@, Json::Text(code))
            .with("constraint"@, Json::Text(constraint))
            .with("error"@, Json::Text(message)),
    }
}

/// The text, or an empty one where there is none.
pub open spec fn or_empty(s: Option<Seq<char>>) -> Seq<char> {
    match s {
        Some(x) => x,
        None => Seq::empty(),
    }
}

/// The reply to a failed database call. Constraint violations are
/// client-causable so they get 4xx codes; everything else is a 500 with a
/// generic body, which never says what went wrong.
pub open spec fn database_reply(code: Option<Seq<char>>, constraint: Option<Seq<char>>) -> Reply {
    if code == Some("23505"@) {
        constraint_reply(
            409,
            "UNIQUE_VIOLATION"@,
            or_empty(constraint),
            "A record with that value already exists."@,
        )
    } else if code == Some("23503"@) {
        constraint_reply(
            409,
            "FOREIGN_KEY_VIOLATION"@,
            or_empty(constraint),
            "Operation would violate a referential constraint."@,
        )
    } else if code == Some("23514"@) {
        constraint_reply(
            400,
            "CHECK_VIOLATION"@,
            or_empty(constraint),
            "One or more fields failed a database check."@,
        )
    } else if code == Some("23502"@) {
        coded_reply(400, "NOT_NULL_VIOLATION"@, "A required field was missing."@)
    } else {
        plain_reply(500, "Internal server error"@)
    }
}

/// A fault as JSON.
pub open spec fn fault_json(f: Fault) -> Json {
    Json::empty()
        .with("message"@, Json::Text(f.message))
        .with("question_id"@, Json::Text(f.question_id))
}

impl Failure {
    /// The reply to the request that failed.
    pub open spec fn reply(self) -> Reply {
        match self {
            Failure::Database { message, code, constraint } => database_reply(code, constraint),
            Failure::RoleLogic(_) => plain_reply(502, "Failed to sync roles"@),
            Failure::RoleLinkNotFound => plain_reply(404, "Role link not found"@),
            Failure::RoleLinkDisabled => plain_reply(403, "Role link is disabled"@),
            Failure::UserLimitReached { limit } => plain_reply(403, "Role link user limit reached"@),
            Failure::BadRequest(s) => plain_reply(400, s),
            Failure::Unauthorized => plain_reply(401, "Invalid or missing authorization"@),
            Failure::UnauthorizedWith(s) => plain_reply(401, s),
            Failure::Forbidden(s) => plain_reply(403, s),
            Failure::NotFound(s) => plain_reply(404, s),
            Failure::FormNotFound(slug) => plain_reply(404, "Form not found: "@ + slug),
            Failure::FormClosed => plain_reply(
                403,
                "This form is not currently accepting submissions."@,
            ),
            Failure::SubmissionRateLimited => plain_reply(
                429,
                "Too many submissions. Please slow down."@,
            ),
            Failure::ValidationFailed(wrong) => Reply {
                status: 422,
                retry_after: None,
                body: Json::empty()
                    .with("error"@, Json::Text("Validation failed"@))
                    .with("field_errors"@, Json::List(wrong.map_values(|f: Fault| fault_json(f)))),
            },
            Failure::DuplicateSubmission => coded_reply(
                409,
                "DUPLICATE_SUBMISSION"@,
                "You've already submitted this form."@,
            ),
            Failure::AttemptsExhausted { max } => Reply {
                status: 409,
                retry_after: None,
                body: Json::empty()
                    .with("code"@, Json::Text("ATTEMPTS_EXHAUSTED"@))
                    .with(
                        "error"@,
                        Json::Text(
                            "You've used all "@ + crate::numerals::int_text(max as int)
                                + " of your attempts for this form."@,
                        ),
                    )
                    .with("max_attempts"@, Json::Number(Numeral::of_int(max as i64))),
            },
            Failure::RetryCooldown { retry_after_seconds } => Reply {
                status: 429,
                retry_after: Some(crate::numerals::int_text(retry_after_seconds as int)),
                body: Json::empty()
                    .with("code"@, Json::Text("RETRY_COOLDOWN"@))
                    .with("error"@, Json::Text("Please wait before trying again."@))
                    .with(
                        "retry_after_seconds"@,
                        Json::Number(Numeral::of_int(retry_after_seconds)),
                    ),
            },
            Failure::AlreadyPassed => coded_reply(
                409,
                "ALREADY_PASSED"@,
                "You've already passed — no further attempts are needed."@,
            ),
            Failure::StaleVersion => coded_reply(
                409,
                "STALE_VERSION"@,
                "The form was edited while you were filling it out. Please reload."@,
            ),
            Failure::Internal(_) => plain_reply(500, "Internal server error"@),
        }
    }
}

fn plain(status: u16, message: &str) -> (r: ErrorReply)
    ensures
        r@ == plain_reply(status, message@),
{
    ErrorReply { status, retry_after: None, body: object1("error", text(message)) }
}

fn coded(status: u16, code: &str, message: &str) -> (r: ErrorReply)
    ensures
        r@ == coded_reply(status, code@, message@),
{
    let mut o = no_fields();
    push_field(&mut o, "code", text(code));
    push_field(&mut o, "error", text(message));
    ErrorReply { status, retry_after: None, body: object(o) }
}

fn about_constraint(status: u16, code: &str, constraint: &str, message: &str) -> (r: ErrorReply)
    ensures
        r@ == constraint_reply(status, code@, constraint@, message@),
{
    let mut o = no_fields();
    push_field(&mut o, "code", text(code));
    push_field(&mut o, "constraint", text(constraint));
    push_field(&mut o, "error", text(message));
    ErrorReply { status, retry_after: None, body: object(o) }
}

/// Map a failed database call to a reply. Constraint violations are
/// client-causable so they get 4xx codes; everything else falls through to
/// 500 with a generic body.
pub fn classify_db_error(e: &DatabaseError) -> (r: ErrorReply)
    ensures
        r@ == database_reply(optional_text(e.code), optional_text(e.constraint)),
{
    proof {
        reveal_strlit("");
        assert(""@ =~= Seq::<char>::empty());
    }
    let constraint = match &e.constraint {
        Some(c) => c.as_str(),
        None => "",
    };
    // PostgreSQL SQLSTATE codes
    if let Some(code) = &e.code {
        let code = code.as_str();
        // unique_violation
        if same(code, "23505") {
            return about_constraint(
                409,
                "UNIQUE_VIOLATION",
                constraint,
                "A record with that value already exists.",
            );
        }
        // foreign_key_violation
        if same(code, "23503") {
            return about_constraint(
                409,
                "FOREIGN_KEY_VIOLATION",
                constraint,
                "Operation would violate a referential constraint.",
            );
        }
        // check_violation
        if same(code, "23514") {
            return about_constraint(
                400,
                "CHECK_VIOLATION",
                constraint,
                "One or more fields failed a database check.",
            );
        }
        // not_null_violation
        if same(code, "23502") {
            return coded(400, "NOT_NULL_VIOLATION", "A required field was missing.");
        }
    }
    plain(500, "Internal server error")
}

fn field_errors_json(errors: &Vec<FieldError>) -> (r: Value)
    ensures
        r@ == Json::List(faults(errors@).map_values(|f: Fault| fault_json(f))),
{
    let mut items = no_items();
    let ghost wanted = faults(errors@).map_values(|f: Fault| fault_json(f));
    for i in 0..errors.len()
        invariant
            wanted == faults(errors@).map_values(|f: Fault| fault_json(f)),
            crate::json::jsons(items@) == wanted.take(i as int),
    {
        let mut o = no_fields();
        push_field(&mut o, "message", text(errors[i].message.as_str()));
        push_field(&mut o, "question_id", text(errors[i].question_id.as_str()));
        push_item(&mut items, object(o));
        assert(wanted[i as int] == fault_json(errors@[i as int]@));
        assert(wanted.take(i + 1) =~= wanted.take(i as int).push(wanted[i as int]));
    }
    assert(wanted.take(wanted.len() as int) =~= wanted);
    list(items)
}

impl AppError {
    /// The reply to the request that failed.
    pub fn into_response(self) -> (r: ErrorReply)
        ensures
            r@ == self@.reply(),
    {
        match self {
            AppError::Database(e) => classify_db_error(&e),
            AppError::RoleLogic(_) => plain(502, "Failed to sync roles"),
            AppError::RoleLinkNotFound => plain(404, "Role link not found"),
            AppError::RoleLinkDisabled => plain(403, "Role link is disabled"),
            AppError::UserLimitReached { limit } => plain(403, "Role link user limit reached"),
            AppError::BadRequest(s) => plain(400, s.as_str()),
            AppError::Unauthorized => plain(401, "Invalid or missing authorization"),
            AppError::UnauthorizedWith(s) => plain(401, s.as_str()),
            AppError::Forbidden(s) => plain(403, s.as_str()),
            AppError::NotFound(s) => plain(404, s.as_str()),
            AppError::FormNotFound(slug) => plain(
                404,
                cat2("Form not found: ", slug.as_str()).as_str(),
            ),
            AppError::FormClosed => plain(
                403,
                "This form is not currently accepting submissions.",
            ),
            AppError::SubmissionRateLimited => plain(
                429,
                "Too many submissions. Please slow down.",
            ),
            AppError::ValidationFailed(errors) => {
                let mut o = no_fields();
                push_field(&mut o, "error", text("Validation failed"));
                push_field(&mut o, "field_errors", field_errors_json(&errors));
                ErrorReply { status: 422, retry_after: None, body: object(o) }
            },
            AppError::DuplicateSubmission => coded(
                409,
                "DUPLICATE_SUBMISSION",
                "You've already submitted this form.",
            ),
            AppError::AttemptsExhausted { max } => {
                let message = cat3(
                    "You've used all ",
                    i32_text(max).as_str(),
                    " of your attempts for this form.",
                );
                let mut o = no_fields();
                push_field(&mut o, "code", text("ATTEMPTS_EXHAUSTED"));
                push_field(&mut o, "error", text(message.as_str()));
                push_field(&mut o, "max_attempts", integer(max as i64));
                ErrorReply { status: 409, retry_after: None, body: object(o) }
            },
            AppError::RetryCooldown { retry_after_seconds } => {
                let mut o = no_fields();
                push_field(&mut o, "code", text("RETRY_COOLDOWN"));
                push_field(&mut o, "error", text("Please wait before trying again."));
                push_field(&mut o, "retry_after_seconds", integer(retry_after_seconds));
                ErrorReply {
                    status: 429,
                    retry_after: Some(i64_text(retry_after_seconds)),
                    body: object(o),
                }
            },
            AppError::AlreadyPassed => coded(
                409,
                "ALREADY_PASSED",
                "You've already passed — no further attempts are needed.",
            ),
            AppError::StaleVersion => coded(
                409,
                "STALE_VERSION",
                "The form was edited while you were filling it out. Please reload.",
            ),
            AppError::Internal(_) => plain(500, "Internal server error"),
        }
    }
}

// ---------------------------------------------------------------------------
// Laws
// ---------------------------------------------------------------------------

/// Every failed request is answered with a client or server error.
pub proof fn law_replies_are_errors(f: Failure)
    ensures
        400 <= f.reply().status < 600,
        f.reply().body is Record,
        f.reply().retry_after is Some <==> f is RetryCooldown,
{
}

/// What the database driver, RoleLogic or an internal step said of a failure
/// does not reach the client: two failures that differ only there get one
/// reply.
pub proof fn law_causes_are_not_leaked(a: Seq<char>, b: Seq<char>)
    ensures
        forall|code: Option<Seq<char>>, constraint: Option<Seq<char>>|
            (Failure::Database { message: a, code, constraint }).reply() == #[trigger] (
            Failure::Database { message: b, code, constraint }).reply(),
        Failure::RoleLogic(a).reply() == Failure::RoleLogic(b).reply(),
        Failure::Internal(a).reply() == Failure::Internal(b).reply(),
{
}

} // verus!
