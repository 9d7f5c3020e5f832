//! What replies to failed requests are for: the client is told what to do, and no more.

use vstd::prelude::*;

use crate::error;
use crate::error::{Failure, Fault};
use crate::json::{Json, Numeral};

verus! {

/// Whether the database reports a violation of the kind.
pub open spec fn violates(f: Failure, code: Seq<char>) -> bool {
    f is Database && f->code == Some(code)
}

/// The status of a reply says whose fault the failure is and what kind of it.
pub proof fn law_statuses_tell_the_kind_of_failure(f: Failure)
    ensures
        ({
            let status = f.reply().status;
            let conflict = violates(f, "23505"@) || violates(f, "23503"@);
            let bad_data = violates(f, "23514"@) || violates(f, "23502"@);
            &&& status == 400 <==> f is BadRequest || bad_data
            &&& status == 401 <==> f is Unauthorized || f is UnauthorizedWith
            &&& status == 403 <==> f is Forbidden || f is FormClosed || f is RoleLinkDisabled || f
                is UserLimitReached
            &&& status == 404 <==> f is NotFound || f is FormNotFound || f is RoleLinkNotFound
            &&& status == 409 <==> f is DuplicateSubmission || f is AttemptsExhausted || f
                is AlreadyPassed || f is StaleVersion || conflict
            &&& status == 422 <==> f is ValidationFailed
            &&& status == 429 <==> f is SubmissionRateLimited || f is RetryCooldown
            &&& status == 500 <==> f is Internal || (f is Database && !conflict && !bad_data)
            &&& status == 502 <==> f is RoleLogic
        }),
{
    reveal_strlit("23505");
    reveal_strlit("23503");
    reveal_strlit("23514");
    reveal_strlit("23502");
    assert("23505"@[4] == '5' && "23503"@[4] == '3' && "23514"@[4] == '4' && "23502"@[4] == '2');
}

proof fn lemma_plain(status: u16, message: Seq<char>)
    ensures
        error::plain_reply(status, message).body.field("error"@) == Some(Json::Text(message)),
{
    crate::laws::submissions::lemma_no_field("error"@);
    crate::laws::submissions::lemma_with(
        Json::empty(),
        "error"@,
        Json::Text(message),
        "error"@,
    );
}

proof fn lemma_coded(status: u16, code: Seq<char>, message: Seq<char>)
    ensures
        ({
            let r = error::coded_reply(status, code, message).body;
            &&& r.field("code"@) == Some(Json::Text(code))
            &&& r.field("error"@) == Some(Json::Text(message))
        }),
{
    let f = error::coded_reply(status, code, message).body->Record_0;
    reveal_strlit("code");
    reveal_strlit("error");
    assert("code"@.len() == 4);
    assert("error"@.len() == 5);
    assert(f.len() == 2);
    assert(f[0].0 == "code"@);
    assert(f[1].0 == "error"@);
    crate::laws::queue::lemma_field_at(f, 0);
    crate::laws::queue::lemma_field_at(f, 1);
}

/// A request that was refused for a reason of its own is told the reason.
pub proof fn law_refusals_are_told_in_their_words(s: Seq<char>)
    ensures
        Failure::BadRequest(s).reply().body.field("error"@) == Some(Json::Text(s)),
        Failure::UnauthorizedWith(s).reply().body.field("error"@) == Some(Json::Text(s)),
        Failure::Forbidden(s).reply().body.field("error"@) == Some(Json::Text(s)),
        Failure::NotFound(s).reply().body.field("error"@) == Some(Json::Text(s)),
        Failure::FormNotFound(s).reply().body.field("error"@) == Some(
            Json::Text("Form not found: "@ + s),
        ),
{
    lemma_plain(400, s);
    lemma_plain(401, s);
    lemma_plain(403, s);
    lemma_plain(404, s);
    lemma_plain(404, "Form not found: "@ + s);
}

/// A submission that is refused is told why by a code, and how long to wait or how many
/// attempts there were.
pub proof fn law_submissions_are_refused_by_code(max: i32, seconds: i64)
    ensures
        Failure::DuplicateSubmission.reply().body.field("code"@) == Some(
            Json::Text("DUPLICATE_SUBMISSION"@),
        ),
        Failure::AlreadyPassed.reply().body.field("code"@) == Some(Json::Text("ALREADY_PASSED"@)),
        Failure::StaleVersion.reply().body.field("code"@) == Some(Json::Text("STALE_VERSION"@)),
        ({
            let r = (Failure::AttemptsExhausted { max }).reply();
            &&& r.body.field("code"@) == Some(Json::Text("ATTEMPTS_EXHAUSTED"@))
            &&& r.body.field("max_attempts"@) == Some(Json::Number(Numeral::of_int(max as i64)))
        }),
        ({
            let r = (Failure::RetryCooldown { retry_after_seconds: seconds }).reply();
            &&& r.body.field("code"@) == Some(Json::Text("RETRY_COOLDOWN"@))
            &&& r.body.field("retry_after_seconds"@) == Some(
                Json::Number(Numeral::of_int(seconds)),
            )
            &&& r.retry_after == Some(crate::numerals::int_text(seconds as int))
        }),
{
    lemma_coded(409, "DUPLICATE_SUBMISSION"@, "You've already submitted this form."@);
    lemma_coded(
        409,
        "ALREADY_PASSED"@,
        "You've already passed — no further attempts are needed."@,
    );
    lemma_coded(
        409,
        "STALE_VERSION"@,
        "The form was edited while you were filling it out. Please reload."@,
    );
    let a = (Failure::AttemptsExhausted { max }).reply().body->Record_0;
    reveal_strlit("code");
    reveal_strlit("error");
    reveal_strlit("max_attempts");
    assert("code"@.len() == 4);
    assert("error"@.len() == 5);
    assert("max_attempts"@.len() == 12);
    assert(a.len() == 3);
    assert(a[0].0 == "code"@);
    assert(a[1].0 == "error"@);
    assert(a[2].0 == "max_attempts"@);
    crate::laws::queue::lemma_field_at(a, 0);
    crate::laws::queue::lemma_field_at(a, 1);
    crate::laws::queue::lemma_field_at(a, 2);
    let b = (Failure::RetryCooldown { retry_after_seconds: seconds }).reply().body->Record_0;
    reveal_strlit("retry_after_seconds");
    assert("code"@.len() == 4);
    assert("error"@.len() == 5);
    assert("retry_after_seconds"@.len() == 19);
    assert(b.len() == 3);
    assert(b[0].0 == "code"@);
    assert(b[1].0 == "error"@);
    assert(b[2].0 == "retry_after_seconds"@);
    crate::laws::queue::lemma_field_at(b, 0);
    crate::laws::queue::lemma_field_at(b, 1);
    crate::laws::queue::lemma_field_at(b, 2);
}

/// Every wrong answer is told, in order, with the question that it belongs to.
pub proof fn law_wrong_answers_are_told(wrong: Seq<Fault>, i: int)
    requires
        0 <= i < wrong.len(),
    ensures
        ({
            let r = Failure::ValidationFailed(wrong).reply().body.field("field_errors"@);
            let item = r->0->List_0[i];
            &&& r is Some
            &&& r->0 is List
            &&& r->0->List_0.len() == wrong.len()
            &&& item.field("message"@) == Some(Json::Text(wrong[i].message))
            &&& item.field("question_id"@) == Some(Json::Text(wrong[i].question_id))
        }),
{
    let f = Failure::ValidationFailed(wrong).reply().body->Record_0;
    reveal_strlit("error");
    reveal_strlit("field_errors");
    assert("error"@.len() == 5);
    assert("field_errors"@.len() == 12);
    assert(f.len() == 2);
    assert(f[0].0 == "error"@);
    assert(f[1].0 == "field_errors"@);
    crate::laws::queue::lemma_field_at(f, 0);
    crate::laws::queue::lemma_field_at(f, 1);
    let g = error::fault_json(wrong[i])->Record_0;
    reveal_strlit("message");
    reveal_strlit("question_id");
    assert("message"@.len() == 7);
    assert("question_id"@.len() == 11);
    assert(g.len() == 2);
    assert(g[0].0 == "message"@);
    assert(g[1].0 == "question_id"@);
    crate::laws::queue::lemma_field_at(g, 0);
    crate::laws::queue::lemma_field_at(g, 1);
}

/// A violation of the database names its constraint.
pub proof fn law_violations_name_their_constraint(
    message: Seq<char>,
    constraint: Seq<char>,
)
    ensures
        (Failure::Database {
            message,
            code: Some("23505"@),
            constraint: Some(constraint),
        }).reply().body.field("constraint"@) == Some(Json::Text(constraint)),
        (Failure::Database {
            message,
            code: Some("23503"@),
            constraint: Some(constraint),
        }).reply().body.field("constraint"@) == Some(Json::Text(constraint)),
        (Failure::Database {
            message,
            code: Some("23514"@),
            constraint: Some(constraint),
        }).reply().body.field("constraint"@) == Some(Json::Text(constraint)),
{
    reveal_strlit("23505");
    reveal_strlit("23503");
    reveal_strlit("23514");
    assert("23505"@[4] == '5' && "23503"@[4] == '3' && "23514"@[4] == '4');
    lemma_constraint(
        409,
        "UNIQUE_VIOLATION"@,
        constraint,
        "A record with that value already exists."@,
    );
    lemma_constraint(
        409,
        "FOREIGN_KEY_VIOLATION"@,
        constraint,
        "Operation would violate a referential constraint."@,
    );
    lemma_constraint(
        400,
        "CHECK_VIOLATION"@,
        constraint,
        "One or more fields failed a database check."@,
    );
}

proof fn lemma_constraint(
    status: u16,
    code: Seq<char>,
    constraint: Seq<char>,
    message: Seq<char>,
)
    ensures
        error::constraint_reply(status, code, constraint, message).body.field("constraint"@) == Some(
            Json::Text(constraint),
        ),
{
    let f = error::constraint_reply(status, code, constraint, message).body->Record_0;
    reveal_strlit("code");
    reveal_strlit("constraint");
    reveal_strlit("error");
    assert("code"@.len() == 4);
    assert("constraint"@.len() == 10);
    assert("error"@.len() == 5);
    assert(f.len() == 3);
    assert(f[0].0 == "code"@);
    assert(f[1].0 == "constraint"@);
    assert(f[2].0 == "error"@);
    crate::laws::queue::lemma_field_at(f, 1);
}

} // verus!
