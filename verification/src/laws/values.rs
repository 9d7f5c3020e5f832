//! What stored values stand for, and how they are written.

use vstd::prelude::*;

use crate::error::{AppError, Failure};
use crate::json;
use crate::json::{Json, Number, Numeral, RealView, Value};
use crate::models::condition::{Condition, ConditionTarget, Target};
use crate::services::condition_eval::{Bind, ConditionBind};
use crate::services::jobs::{PlayerEvent, PlayerSyncPayload};
use crate::services::sync;
use crate::services::sync::{LinkRow, RoleAction, RoleLink, StoredResponse};
use crate::tasks::job_worker::{JobPlan, Work};

verus! {

/// A JSON value stands for the same value: lists item by item, and objects field by field.
pub proof fn law_values_stand_for_themselves(
    b: bool,
    n: Number,
    s: String,
    a: Vec<Value>,
    o: Vec<(String, Value)>,
    i: int,
    k: int,
)
    requires
        0 <= i < a@.len(),
        0 <= k < o@.len(),
    ensures
        Value::Null@ == Json::Null,
        Value::Bool(b)@ == Json::Bool(b),
        Value::Number(n)@ == Json::Number(n@),
        Value::String(s)@ == Json::Text(s@),
        Value::Array(a)@ is List,
        Value::Array(a)@->List_0.len() == a@.len(),
        Value::Array(a)@->List_0[i] == a@[i]@,
        Value::Object(o)@ is Record,
        Value::Object(o)@->Record_0.len() == o@.len(),
        Value::Object(o)@->Record_0[k].0 == o@[k].0@,
        Value::Object(o)@->Record_0[k].1 == o@[k].1@,
{
}

/// A number stands for the same number.
pub proof fn law_numbers_stand_for_themselves(n: Number)
    ensures
        n matches Number::PosInt(k) ==> n@ == Numeral::PosInt(k),
        n matches Number::NegInt(k) ==> n@ == Numeral::NegInt(k),
        n matches Number::Float { number, json } ==> (n@ matches Numeral::Float {
            number: x,
            json: text,
        } && x.value == number.value && x.display == number.display@ && text == json@),
{
}

/// A condition stands for its target, its operator and its values.
pub proof fn law_conditions_stand_for_themselves(c: Condition)
    ensures
        c@.operator == c.operator,
        c@.value == c.value@,
        c@.value_end is Some <==> c.value_end is Some,
        c.value_end is Some ==> c@.value_end->0 == c.value_end->0@,
        c.target matches ConditionTarget::Question { question_id } ==> c@.target
            == Target::Question(question_id@),
        c.target is QuizTotalScore <==> c@.target is QuizTotalScore,
{
}

/// A role link stands for its guild, its role, its token, its form and all its
/// conditions; one that has no form stands for nothing to be worked out.
pub proof fn law_links_stand_for_themselves(l: RoleLink, row: LinkRow, i: int)
    ensures
        l@.guild_id == l.guild_id@,
        l@.role_id == l.role_id@,
        l@.api_token == l.api_token@,
        l@.form_id == l.form_id@,
        l@.grant_on_any_submission == l.grant_on_any_submission,
        l@.rules.len() == l.conditions@.len(),
        0 <= i < l.conditions@.len() ==> l@.rules[i] == l.conditions@[i]@,
        sync::bound_link(None) is None,
        sync::bound_link(Some(row)) is Some <==> row.form_id is Some,
        sync::bound_link(Some(row)) matches Some(b) ==> {
            &&& b.form_id == row.form_id->0@
            &&& b.api_token == row.api_token@
            &&& b.grant_on_any_submission == row.grant_on_any_submission
            &&& b.rules.len() == row.conditions@.len()
            &&& 0 <= i < row.conditions@.len() ==> b.rules[i] == row.conditions@[i]@
        },
{
}

/// A stored response stands for its answers and its score.
pub proof fn law_responses_stand_for_themselves(r: StoredResponse)
    ensures
        r@.answers == r.answers@,
        r@.total_score is Some <==> r.total_score is Some,
        r.total_score is Some ==> r@.total_score->0 == r.total_score->0,
        r@.numbers == r.numbers@,
{
}

/// A bound parameter stands for its text or its number.
pub proof fn law_binds_stand_for_themselves(s: String, n: i64)
    ensures
        ConditionBind::Text(s)@ == Bind::Text(s@),
        ConditionBind::Int(n)@ == Bind::Int(n),
{
}

/// A text that a number is listed for reads as that number, and every other as before.
pub proof fn law_listed_numbers_are_read(
    numbers: spec_fn(Seq<char>) -> Option<RealView>,
    t: Seq<char>,
    n: RealView,
    other: Seq<char>,
)
    ensures
        json::reading(numbers, t, n)(t) == Some(n),
        other != t ==> json::reading(numbers, t, n)(other) == numbers(other),
{
}

/// The value under a key is the one of the first field that has it.
pub proof fn law_fields_are_found_by_their_key(
    before: Seq<(Seq<char>, Json)>,
    key: Seq<char>,
    value: Json,
    after: Seq<(Seq<char>, Json)>,
)
    requires
        forall|i: int| 0 <= i < before.len() ==> (#[trigger] before[i]).0 != key,
    ensures
        Json::Record(before.push((key, value)) + after).field(key) == Some(value),
        Json::Record(before).field(key) is None,
{
    let all = before.push((key, value)) + after;
    let i = before.len() as int;
    assert(all[i] == (key, value));
    assert forall|j: int| 0 <= j < i implies (#[trigger] all[j]).0 != all[i].0 by {
        assert(all[j] == before[j]);
    }
    crate::laws::queue::lemma_field_at(all, i);
    let keys = json::record_keys(before);
    crate::table::lemma_index_from(keys, key, 0);
    if let Some(j) = crate::table::index_of(keys, key) {
        assert(keys[j] == before[j].0);
    }
}

/// A value that is neither a list nor an object is written as JSON has it.
pub proof fn law_scalars_are_written_as_json(n: Numeral, s: Seq<char>)
    ensures
        json::json_text(Json::Null) == "null"@,
        json::json_text(Json::Bool(true)) == "true"@,
        json::json_text(Json::Bool(false)) == "false"@,
        json::json_text(Json::Number(n)) == n.text(),
        json::json_text(Json::Text(s)) == json::quoted(s),
{
}

proof fn lemma_joined_push(parts: Seq<Seq<char>>, part: Seq<char>, sep: Seq<char>)
    requires
        parts.len() > 0,
    ensures
        crate::text::joined(parts.push(part), sep) == crate::text::joined(parts, sep) + sep + part,
{
    assert(parts.push(part).drop_last() =~= parts);
}

proof fn lemma_enclosed(open: char, inner: Seq<char>, more: Seq<char>, close: char)
    ensures
        seq![open] + (inner + seq![','] + more) + seq![close] == (seq![open] + inner + seq![
            close,
        ]).drop_last() + seq![','] + more + seq![close],
{
    assert((seq![open] + inner + seq![close]).drop_last() =~= seq![open] + inner);
    assert(seq![open] + (inner + seq![','] + more) + seq![close] =~= seq![open] + inner + seq![','] + more
        + seq![close]);
}

/// A list is written with its items between commas, in their order.
pub proof fn law_lists_are_written_as_json(items: Seq<Json>, x: Json)
    ensures
        json::json_text(Json::List(Seq::empty())) == seq!['[', ']'],
        json::json_text(Json::List(seq![x])) == seq!['['] + json::json_text(x) + seq![']'],
        items.len() > 0 ==> json::json_text(Json::List(items.push(x))) == json::json_text(
            Json::List(items),
        ).drop_last() + seq![','] + json::json_text(x) + seq![']'],
{
    assert(json::item_texts(Seq::empty()) =~= Seq::empty());
    assert(json::json_text(Json::List(Seq::empty())) =~= seq!['[', ']']);
    assert(json::item_texts(seq![x]) =~= seq![json::json_text(x)]);
    if items.len() > 0 {
        let texts = json::item_texts(items);
        assert(json::item_texts(items.push(x)) =~= texts.push(json::json_text(x)));
        lemma_joined_push(texts, json::json_text(x), seq![',']);
        lemma_enclosed('[', crate::text::joined(texts, seq![',']), json::json_text(x), ']');
    }
}

/// An object is written with its fields between commas, each with its key before its
/// value.
pub proof fn law_objects_are_written_as_json(
    fields: Seq<(Seq<char>, Json)>,
    key: Seq<char>,
    x: Json,
)
    ensures
        ({
            let pair = json::quoted(key) + seq![':'] + json::json_text(x);
            &&& json::json_text(Json::Record(Seq::empty())) == seq!['{', '}']
            &&& json::json_text(Json::Record(seq![(key, x)])) == seq!['{'] + pair + seq!['}']
            &&& fields.len() > 0 ==> json::json_text(Json::Record(fields.push((key, x))))
                == json::json_text(Json::Record(fields)).drop_last() + seq![','] + pair + seq!['}']
        }),
{
    let pair = json::quoted(key) + seq![':'] + json::json_text(x);
    assert(json::field_texts(Seq::empty()) =~= Seq::empty());
    assert(json::json_text(Json::Record(Seq::empty())) =~= seq!['{', '}']);
    assert(json::field_texts(seq![(key, x)]) =~= seq![pair]);
    if fields.len() > 0 {
        let texts = json::field_texts(fields);
        assert(json::field_texts(fields.push((key, x))) =~= texts.push(pair));
        lemma_joined_push(texts, pair, seq![',']);
        lemma_enclosed('{', crate::text::joined(texts, seq![',']), pair, '}');
    }
}

/// In a quoted text quotes, backslashes and control characters are escaped, and every
/// other character stands as it is.
pub proof fn law_texts_are_quoted(s: Seq<char>, c: char)
    ensures
        json::quoted(Seq::empty()) == seq!['"', '"'],
        json::quoted(s.push(c)) == json::quoted(s).drop_last() + (if c == '"' || c == '\\' {
            seq!['\\', c]
        } else if c == '\n' {
            seq!['\\', 'n']
        } else if c == '\r' {
            seq!['\\', 'r']
        } else if c == '\t' {
            seq!['\\', 't']
        } else if c == '\u{8}' {
            seq!['\\', 'b']
        } else if c == '\u{c}' {
            seq!['\\', 'f']
        } else if (c as u32) < 32 {
            seq!['\\', 'u', '0', '0', json::hex_digit(c as int / 16), json::hex_digit(c as int % 16)]
        } else {
            seq![c]
        }) + seq!['"'],
{
    let f = |x: char| json::json_escape(x);
    assert(s.push(c).drop_last() =~= s);
    let inner = crate::text::spelled(s, f);
    assert(crate::text::spelled(Seq::empty(), f) =~= Seq::empty());
    assert(json::quoted(Seq::empty()) =~= seq!['"', '"']);
    assert((seq!['"'] + inner + seq!['"']).drop_last() =~= seq!['"'] + inner);
    assert(json::quoted(s.push(c)) =~= seq!['"'] + inner + json::json_escape(c) + seq!['"']);
}

/// A failure stands for the same failure, with what it tells.
pub proof fn law_failures_stand_for_themselves(e: AppError)
    ensures
        e is RoleLinkNotFound <==> e@ is RoleLinkNotFound,
        e is RoleLinkDisabled <==> e@ is RoleLinkDisabled,
        e is Unauthorized <==> e@ is Unauthorized,
        e is FormClosed <==> e@ is FormClosed,
        e is SubmissionRateLimited <==> e@ is SubmissionRateLimited,
        e is DuplicateSubmission <==> e@ is DuplicateSubmission,
        e is AlreadyPassed <==> e@ is AlreadyPassed,
        e is StaleVersion <==> e@ is StaleVersion,
        e matches AppError::RoleLogic(s) ==> e@ == Failure::RoleLogic(s@),
        e matches AppError::BadRequest(s) ==> e@ == Failure::BadRequest(s@),
        e matches AppError::UnauthorizedWith(s) ==> e@ == Failure::UnauthorizedWith(s@),
        e matches AppError::Forbidden(s) ==> e@ == Failure::Forbidden(s@),
        e matches AppError::NotFound(s) ==> e@ == Failure::NotFound(s@),
        e matches AppError::FormNotFound(s) ==> e@ == Failure::FormNotFound(s@),
        e matches AppError::Internal(s) ==> e@ == Failure::Internal(s@),
        e matches AppError::UserLimitReached { limit } ==> e@ == (Failure::UserLimitReached {
            limit,
        }),
        e matches AppError::AttemptsExhausted { max } ==> e@ == (Failure::AttemptsExhausted { max }),
        e matches AppError::RetryCooldown { retry_after_seconds } ==> e@
            == (Failure::RetryCooldown { retry_after_seconds }),
        e matches AppError::Database(d) ==> (e@ matches Failure::Database {
            message,
            code,
            constraint,
        } && message == d.message@ && (code is Some <==> d.code is Some) && (code is Some ==> code->0
            == d.code->0@) && (constraint is Some <==> d.constraint is Some) && (constraint is Some
            ==> constraint->0 == d.constraint->0@)),
        e matches AppError::ValidationFailed(wrong) ==> (e@ matches Failure::ValidationFailed(f)
            && f.len() == wrong@.len() && forall|i: int|
            0 <= i < f.len() ==> (#[trigger] f[i]).message == wrong@[i].message@ && f[i].question_id
                == wrong@[i].question_id@),
{
}

/// A change of a role, and the plan of a job, stand for what they say.
pub proof fn law_plans_stand_for_themselves(a: RoleAction, plan: JobPlan, p: PlayerSyncPayload)
    ensures
        a matches RoleAction::Add { guild_id, role_id, api_token } ==> a@ == (sync::Change::Add {
            guild_id: guild_id@,
            role_id: role_id@,
            api_token: api_token@,
        }),
        a matches RoleAction::Remove { guild_id, role_id, api_token } ==> a@ == (
        sync::Change::Remove { guild_id: guild_id@, role_id: role_id@, api_token: api_token@ }),
        plan matches JobPlan::SyncPlayer { discord_id } ==> plan@ == Work::SyncPlayer(discord_id@),
        plan matches JobPlan::RemoveAssignments { discord_id } ==> plan@
            == Work::RemoveAssignments(discord_id@),
        plan matches JobPlan::SyncRoleLink { guild_id, role_id } ==> plan@ == Work::SyncRoleLink(
            guild_id@,
            role_id@,
        ),
        plan matches JobPlan::Deliver { url, body } ==> plan@ == Work::Deliver(url@, body@),
        p matches PlayerSyncPayload::Updated { discord_id } ==> p@ == PlayerEvent::Updated(
            discord_id@,
        ),
        p matches PlayerSyncPayload::Unlinked { discord_id } ==> p@ == PlayerEvent::Unlinked(
            discord_id@,
        ),
{
}

} // verus!
