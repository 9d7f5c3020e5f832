//! Role-link configuration: the reply to RoleLogic's config request and the
//! validator of the structured payload that the role-config page posts.

use vstd::prelude::*;

use crate::error::{AppError, Failure};
use crate::json::{integer, list, no_fields, no_items, object, object1, push_field, push_item, text};
use crate::json::{Json, Numeral, Value};
use crate::models::condition::{Condition, ConditionOperator, ConditionTarget, Rule, Target};
use crate::models::form::{FormSchema, Question};
use crate::numerals::{parse_i64, usize_text};
use crate::outside::regex_builds;
use crate::services::condition_eval::REGEX_SIZE_LIMIT;
use crate::text::{blank, cat3, cat5, owned, same, split, trim};

verus! {

/// Hard cap on conditions per role, kept low so admins don't try to express
/// rule trees in a flat AND-list.
pub const MAX_CONDITIONS: usize = 12;

/// The target that stands for the quiz total score.
pub const SCORE_TARGET: &'static str = "__quiz_total_score__";

/// A role configuration that was accepted.
#[derive(Debug, PartialEq)]
pub struct ParsedConfig {
    pub form_id: Option<String>,
    pub grant_on_any_submission: bool,
    pub conditions: Vec<Condition>,
    /// `Some(_)` when the request explicitly set view_permission, `None`
    /// when the field was omitted. The admin-list page owns this setting, so
    /// role-config saves pass `None` and the existing value is preserved.
    pub view_permission: Option<String>,
}

/// What a `ParsedConfig` stands for.
#[verifier::ext_equal]
pub struct Config {
    pub form_id: Option<Seq<char>>,
    pub grant_on_any_submission: bool,
    pub conditions: Seq<Rule>,
    pub view_permission: Option<Seq<char>>,
}

impl View for ParsedConfig {
    type V = Config;

    open spec fn view(&self) -> Config {
        Config {
            form_id: crate::error::optional_text(self.form_id),
            grant_on_any_submission: self.grant_on_any_submission,
            conditions: crate::models::condition::rules(self.conditions@),
            view_permission: crate::error::optional_text(self.view_permission),
        }
    }
}

/// The payload that the role-config page posts.
#[derive(Debug, PartialEq)]
pub struct RoleConfigBody {
    pub form_id: Option<String>,
    pub mode: String,
    pub conditions: Vec<ConditionInput>,
    pub view_permission: Option<String>,
}

/// A condition as it is posted.
#[derive(Debug, PartialEq)]
pub struct ConditionInput {
    pub target: String,
    pub operator: String,
    pub value: Value,
    pub value_end: Option<Value>,
}

// ---------------------------------------------------------------------------
// Replies to RoleLogic
// ---------------------------------------------------------------------------

/// Build the iframe-mode response returned by GET /config. RoleLogic appends
/// `?rl_token=<jwt>` to `embed_url` before rendering the iframe; that token
/// authenticates the admin on the role-config page.
pub fn build_iframe_config(base_url: &str, guild_id: &str, role_id: &str) -> (r: Value)
    ensures
        r@ == Json::empty()
            .with(
                "description"@,
                Json::Text(
                    "Build a form, gate Discord roles on submissions or answer-conditions."@,
                ),
            )
            .with(
                "embed_url"@,
                Json::Text(base_url@ + "/admin/"@ + guild_id@ + "/role/"@ + role_id@),
            )
            .with("name"@, Json::Text("Form Respondent Role"@))
            .with("ui_mode"@, Json::Text("iframe"@))
            .with("version"@, Json::Number(Numeral::of_int(1))),
{
    let embed_url = cat5(base_url, "/admin/", guild_id, "/role/", role_id);
    let mut o = no_fields();
    push_field(
        &mut o,
        "description",
        text("Build a form, gate Discord roles on submissions or answer-conditions."),
    );
    push_field(&mut o, "embed_url", text(embed_url.as_str()));
    push_field(&mut o, "name", text("Form Respondent Role"));
    push_field(&mut o, "ui_mode", text("iframe"));
    push_field(&mut o, "version", integer(1));
    object(o)
}

/// POST /config is unreachable in iframe mode (the RoleLogic backend rejects
/// it before forwarding) but the contract still expects 200 on the off chance
/// an older backend forwards a call.
pub fn accept_empty_config() -> (r: Value)
    ensures
        r@ == Json::empty().with("success"@, Json::Bool(true)),
{
    object1("success", Value::Bool(true))
}

// ---------------------------------------------------------------------------
// What a condition may be
// ---------------------------------------------------------------------------

/// A complaint about condition number `n`.
pub open spec fn about(n: nat, what: Seq<char>) -> Seq<char> {
    "Condition #"@ + crate::numerals::nat_text(n) + what
}

/// Whether the operator compares numbers.
pub open spec fn is_numeric(op: ConditionOperator) -> bool {
    op is Gt || op is Gte || op is Lt || op is Lte || op is Between
}

/// Whether the operator takes a list of values.
pub open spec fn takes_list(op: ConditionOperator) -> bool {
    op is In || crate::services::condition_eval::tests_choices(op)
}

/// The integer in a posted value.
pub open spec fn posted_integer(raw: Json) -> Option<i64> {
    match raw {
        Json::Number(_) => crate::services::condition_eval::whole_number(raw),
        Json::Text(s) => crate::numerals::i64_of_text(crate::text::trimmed(s)),
        _ => None,
    }
}

/// The items that are neither null nor an empty text.
pub open spec fn proper_items(items: Seq<Json>) -> Seq<Json>
    decreases items.len(),
{
    if items.len() == 0 {
        Seq::empty()
    } else {
        let before = proper_items(items.drop_last());
        match items.last() {
            Json::Null => before,
            Json::Text(s) => if s.len() == 0 {
                before
            } else {
                before.push(items.last())
            },
            _ => before.push(items.last()),
        }
    }
}

/// The texts, trimmed, without those that are then empty.
pub open spec fn trimmed_items(parts: Seq<Seq<char>>) -> Seq<Json>
    decreases parts.len(),
{
    if parts.len() == 0 {
        Seq::empty()
    } else {
        let before = trimmed_items(parts.drop_last());
        let s = crate::text::trimmed(parts.last());
        if s.len() == 0 {
            before
        } else {
            before.push(Json::Text(s))
        }
    }
}

/// The list in a posted value: an array, or a text with commas.
pub open spec fn posted_list(raw: Json) -> Seq<Json> {
    match raw {
        Json::List(a) => proper_items(a),
        Json::Text(s) => trimmed_items(crate::text::split_parts(s, ","@)),
        Json::Null => Seq::empty(),
        _ => Seq::empty().push(raw),
    }
}

/// The posted value as it is stored, or the complaint about it.
pub open spec fn stored_value(op: ConditionOperator, raw: Json, n: nat) -> Result<Json, Seq<char>> {
    if is_numeric(op) {
        match posted_integer(raw) {
            Some(i) => Ok(Json::Number(Numeral::of_int(i))),
            None => Err(
                about(n, ": numeric value required (got "@ + crate::json::json_text(raw) + ")."@),
            ),
        }
    } else if takes_list(op) {
        if posted_list(raw).len() == 0 {
            Err(about(n, ": list operator needs at least one value."@))
        } else {
            Ok(Json::List(posted_list(raw)))
        }
    } else if op is Before || op is After {
        match raw {
            Json::Text(s) if !crate::text::is_blank_text(s) => Ok(
                Json::Text(crate::text::trimmed(s)),
            ),
            _ => Err(about(n, ": date value required."@)),
        }
    } else {
        match raw {
            Json::Text(s) if crate::text::is_blank_text(s) => Err(about(n, ": value required."@)),
            Json::Null => Err(about(n, ": value required."@)),
            Json::Number(num) => Ok(Json::Text(num.text())),
            _ => Ok(raw),
        }
    }
}

/// Whether the operator can test a quiz total score.
pub open spec fn tests_scores(op: ConditionOperator) -> bool {
    op is Eq || op is Neq || is_numeric(op)
}

/// Whether the operator can test the answer to a checkbox question.
pub open spec fn tests_checkboxes(op: ConditionOperator) -> bool {
    op is Eq || op is Neq || crate::services::condition_eval::tests_choices(op)
}

/// The target of a condition, or the complaint about it.
pub open spec fn stored_target(
    target: Seq<char>,
    op: ConditionOperator,
    form: Option<FormSchema>,
    quiz: bool,
    n: nat,
) -> Result<Target, Seq<char>> {
    if target == SCORE_TARGET@ {
        if !quiz {
            Err(about(n, ": \"Quiz total score\" only works on quiz forms."@))
        } else if !tests_scores(op) {
            Err(about(n, ": quiz total score only supports numeric comparisons."@))
        } else {
            Ok(Target::QuizTotalScore)
        }
    } else {
        match form {
            Some(form) => match form.question_with(target) {
                None => Err(
                    about(
                        n,
                        ": question \""@ + target + "\" doesn't exist on the chosen form."@,
                    ),
                ),
                Some(q) => if q.kind is MultiChoice && !tests_checkboxes(op) {
                    Err(
                        about(
                            n,
                            ": checkbox questions need a list operator (contains all / any / none)."@,
                        ),
                    )
                } else {
                    Ok(Target::Question(target))
                },
            },
            // Without a form the target is trusted; the check runs again once
            // one is picked.
            None => Ok(Target::Question(target)),
        }
    }
}

/// The upper end of a condition's range, or the complaint about it.
pub open spec fn stored_end(op: ConditionOperator, raw: Option<Json>, n: nat) -> Result<
    Option<Json>,
    Seq<char>,
> {
    if op is Between {
        match raw {
            Some(end) => match stored_value(op, end, n) {
                Ok(v) => Ok(Some(v)),
                Err(e) => Err(e),
            },
            None => Err(about(n, ": \"between\" needs both a min and a max value."@)),
        }
    } else {
        Ok(None)
    }
}

/// The text of a pattern, empty where the value is none.
pub open spec fn pattern_of(value: Json) -> Seq<char> {
    match value.text() {
        Some(s) => s,
        None => Seq::empty(),
    }
}

/// The condition that a posted one becomes, or the complaint about it.
pub open spec fn stored_rule(
    input: ConditionInput,
    form: Option<FormSchema>,
    quiz: bool,
    n: nat,
) -> Result<Rule, Seq<char>> {
    let target = crate::text::trimmed(input.target@);
    let named = ConditionOperator::named(crate::text::trimmed(input.operator@));
    if target.len() == 0 {
        Err(about(n, ": pick a question (or quiz total score)."@))
    } else if named is None {
        Err(about(n, ": unknown operator '"@ + input.operator@ + "'."@))
    } else {
        let op = named->0;
        match stored_target(target, op, form, quiz, n) {
            Err(e) => Err(e),
            Ok(target) => match stored_value(op, input.value@, n) {
                Err(e) => Err(e),
                Ok(value) => match stored_end(
                    op,
                    crate::models::condition::optional(input.value_end),
                    n,
                ) {
                    Err(e) => Err(e),
                    Ok(value_end) => if op is Regex && !crate::outside::regex_valid(
                        pattern_of(value),
                        REGEX_SIZE_LIMIT,
                    ) {
                        Err(about(n, ": regex pattern is invalid."@))
                    } else {
                        Ok(Rule { target, operator: op, value, value_end })
                    },
                },
            },
        }
    }
}

/// The conditions that posted ones become, or the first complaint about them.
pub open spec fn stored_rules(
    inputs: Seq<ConditionInput>,
    form: Option<FormSchema>,
    quiz: bool,
) -> Result<Seq<Rule>, Seq<char>>
    decreases inputs.len(),
{
    if inputs.len() == 0 {
        Ok(Seq::empty())
    } else {
        match stored_rules(inputs.drop_last(), form, quiz) {
            Err(e) => Err(e),
            Ok(before) => match stored_rule(inputs.last(), form, quiz, inputs.len()) {
                Err(e) => Err(e),
                Ok(rule) => Ok(before.push(rule)),
            },
        }
    }
}

/// The id of the chosen form, where one is chosen.
pub open spec fn chosen_form(form_id: Option<String>) -> Option<Seq<char>> {
    match form_id {
        Some(id) => if crate::text::is_blank_text(id@) {
            None
        } else {
            Some(crate::text::trimmed(id@))
        },
        None => None,
    }
}

/// The configuration that a posted one becomes, or the complaint about it.
pub open spec fn stored_config(
    body: RoleConfigBody,
    form: Option<FormSchema>,
    quiz: bool,
) -> Result<Config, Seq<char>> {
    let any = body.mode@ == "any_submission"@;
    let permission = crate::error::or_empty(crate::error::optional_text(body.view_permission));
    let view_permission = if permission.len() == 0 {
        None
    } else {
        Some(permission)
    };
    let form_id = chosen_form(body.form_id);
    if !any && body.mode@ != "conditions"@ {
        Err("Unknown eligibility mode '"@ + body.mode@ + "'."@)
    } else if permission.len() > 0 && permission != "members"@ && permission != "managers"@ {
        Err("Unknown view_permission '"@ + permission + "'."@)
    } else if any {
        Ok(
            Config {
                form_id,
                grant_on_any_submission: true,
                conditions: Seq::empty(),
                view_permission,
            },
        )
    } else if body.conditions@.len() == 0 {
        Err("Eligibility is set to \"match conditions\" but no conditions were added."@)
    } else if body.conditions@.len() > MAX_CONDITIONS {
        Err(
            "At most "@ + crate::numerals::nat_text(MAX_CONDITIONS as nat)
                + " conditions per role."@,
        )
    } else {
        match stored_rules(body.conditions@, form, quiz) {
            Err(e) => Err(e),
            Ok(conditions) => Ok(
                Config { form_id, grant_on_any_submission: false, conditions, view_permission },
            ),
        }
    }
}

// ---------------------------------------------------------------------------
// The validator
// ---------------------------------------------------------------------------

/// The form behind an optional reference.
pub open spec fn pointed(form: Option<&FormSchema>) -> Option<FormSchema> {
    match form {
        Some(f) => Some(*f),
        None => None,
    }
}

fn complain(n: usize, what: &str) -> (r: AppError)
    ensures
        r@ == Failure::BadRequest(about(n as nat, what@)),
{
    AppError::BadRequest(cat3("Condition #", usize_text(n).as_str(), what))
}

/// Validate a structured role-config payload from the plugin web. `bound_form`
/// is the chosen form's parsed schema (None if `form_id` is empty or unknown;
/// partial config is let save so admins can come back later).
pub fn parse_role_config(
    body: RoleConfigBody,
    bound_form: Option<&FormSchema>,
    form_is_quiz: bool,
) -> (r: Result<ParsedConfig, AppError>)
    ensures
        match r {
            Ok(config) => stored_config(body, pointed(bound_form), form_is_quiz) == Ok::<
                Config,
                Seq<char>,
            >(config@),
            Err(e) => e@ is BadRequest && stored_config(body, pointed(bound_form), form_is_quiz)
                == Err::<Config, Seq<char>>(e@->BadRequest_0),
        },
{
    proof {
        reveal_strlit("members");
        reveal_strlit("managers");
    }
    let form_id: Option<String> = match &body.form_id {
        Some(id) => {
            let id = trim(id.as_str());
            if id.unicode_len() == 0 {
                None
            } else {
                Some(owned(id))
            }
        },
        None => None,
    };
    let mode = body.mode.as_str();
    let any: bool = same(mode, "any_submission");
    if !any && !same(mode, "conditions") {
        return Err(AppError::BadRequest(cat3("Unknown eligibility mode '", mode, "'.")));
    }
    let view_permission: Option<String> = match &body.view_permission {
        None => None,
        Some(p) => {
            let p = p.as_str();
            if p.unicode_len() == 0 {
                None
            } else if same(p, "members") || same(p, "managers") {
                Some(owned(p))
            } else {
                return Err(AppError::BadRequest(cat3("Unknown view_permission '", p, "'.")));
            }
        },
    };
    let mut conditions: Vec<Condition> = Vec::new();
    let ghost form = pointed(bound_form);
    assert(crate::models::condition::rules(conditions@) =~= Seq::empty());
    if !any {
        if body.conditions.len() == 0 {
            return Err(
                AppError::BadRequest(
                    owned(
                        "Eligibility is set to \"match conditions\" but no conditions were added.",
                    ),
                ),
            );
        }
        if body.conditions.len() > MAX_CONDITIONS {
            return Err(
                AppError::BadRequest(
                    cat3("At most ", usize_text(MAX_CONDITIONS).as_str(), " conditions per role."),
                ),
            );
        }
        let ghost all = body.conditions@;
        let mut i: usize = 0;
        while i < body.conditions.len()
            invariant
                i <= body.conditions.len() <= MAX_CONDITIONS,
                all == body.conditions@,
                form == pointed(bound_form),
                stored_rules(all.take(i as int), form, form_is_quiz) == Ok::<Seq<Rule>, Seq<char>>(
                    crate::models::condition::rules(conditions@),
                ),
                // what went before
                stored_config(body, form, form_is_quiz) == (match stored_rules(
                    all,
                    form,
                    form_is_quiz,
                ) {
                    Err(e) => Err::<Config, Seq<char>>(e),
                    Ok(rules) => Ok(
                        Config {
                            form_id: crate::error::optional_text(form_id),
                            grant_on_any_submission: false,
                            conditions: rules,
                            view_permission: crate::error::optional_text(view_permission),
                        },
                    ),
                }),
            decreases body.conditions.len() - i,
        {
            let ghost longer = all.take(i + 1);
            proof {
                assert(longer.drop_last() =~= all.take(i as int));
                assert(longer.last() == all[i as int]);
            }
            let ghost before = conditions@;
            match validate_condition(i, &body.conditions[i], bound_form, form_is_quiz) {
                Ok(c) => {
                    conditions.push(c);
                    assert(crate::models::condition::rules(conditions@)
                        =~= crate::models::condition::rules(before).push(c@));
                },
                Err(e) => {
                    proof {
                        lemma_first_complaint(all, i + 1, form, form_is_quiz);
                    }
                    return Err(e);
                },
            }
            i = i + 1;
        }
        assert(all.take(all.len() as int) =~= all);
    }
    Ok(
        ParsedConfig { form_id, grant_on_any_submission: any, conditions, view_permission },
    )
}

proof fn lemma_first_complaint(
    inputs: Seq<ConditionInput>,
    k: int,
    form: Option<FormSchema>,
    quiz: bool,
)
    requires
        0 <= k <= inputs.len(),
        stored_rules(inputs.take(k), form, quiz) is Err,
    ensures
        stored_rules(inputs, form, quiz) == stored_rules(inputs.take(k), form, quiz),
    decreases inputs.len() - k,
{
    if k == inputs.len() {
        assert(inputs.take(k) =~= inputs);
    } else {
        let before = inputs.drop_last();
        assert(before.take(k) =~= inputs.take(k));
        lemma_first_complaint(before, k, form, quiz);
    }
}

fn tests_score(op: ConditionOperator) -> (r: bool)
    ensures
        r == tests_scores(op),
{
    match op {
        ConditionOperator::Eq
        | ConditionOperator::Neq
        | ConditionOperator::Gt
        | ConditionOperator::Gte
        | ConditionOperator::Lt
        | ConditionOperator::Lte
        | ConditionOperator::Between => true,
        _ => false,
    }
}

fn tests_checkbox(op: ConditionOperator) -> (r: bool)
    ensures
        r == tests_checkboxes(op),
{
    match op {
        ConditionOperator::ContainsAll
        | ConditionOperator::ContainsAny
        | ConditionOperator::NotContains
        | ConditionOperator::Eq
        | ConditionOperator::Neq => true,
        _ => false,
    }
}

/// Validates the condition at `index` of a posted configuration.
pub fn validate_condition(
    index: usize,
    raw: &ConditionInput,
    bound_form: Option<&FormSchema>,
    form_is_quiz: bool,
) -> (r: Result<Condition, AppError>)
    requires
        index < usize::MAX,
    ensures
        match r {
            Ok(c) => stored_rule(*raw, pointed(bound_form), form_is_quiz, (index + 1) as nat)
                == Ok::<Rule, Seq<char>>(c@),
            Err(e) => e@ is BadRequest && stored_rule(
                *raw,
                pointed(bound_form),
                form_is_quiz,
                (index + 1) as nat,
            ) == Err::<Rule, Seq<char>>(e@->BadRequest_0),
        },
{
    let n: usize = index + 1;
    let target_raw = trim(raw.target.as_str());
    if target_raw.unicode_len() == 0 {
        return Err(complain(n, ": pick a question (or quiz total score)."));
    }
    let operator = match ConditionOperator::from_key(trim(raw.operator.as_str())) {
        Some(op) => op,
        None => {
            let what = cat3(": unknown operator '", raw.operator.as_str(), "'.");
            return Err(complain(n, what.as_str()));
        },
    };
    let target = if same(target_raw, SCORE_TARGET) {
        if !form_is_quiz {
            return Err(complain(n, ": \"Quiz total score\" only works on quiz forms."));
        }
        if !tests_score(operator) {
            return Err(complain(n, ": quiz total score only supports numeric comparisons."));
        }
        ConditionTarget::QuizTotalScore
    } else {
        if let Some(form) = bound_form {
            let q = match form.find_question(target_raw) {
                Some(q) => q,
                None => {
                    let what = cat3(
                        ": question \"",
                        target_raw,
                        "\" doesn't exist on the chosen form.",
                    );
                    return Err(complain(n, what.as_str()));
                },
            };
            if q.kind.is_array_valued() && !tests_checkbox(operator) {
                return Err(
                    complain(
                        n,
                        ": checkbox questions need a list operator (contains all / any / none).",
                    ),
                );
            }
        }
        ConditionTarget::Question { question_id: owned(target_raw) }
    };
    let value = match normalize_condition_value(operator, &raw.value, n) {
        Ok(v) => v,
        Err(e) => return Err(e),
    };
    let value_end: Option<Value> = match operator {
        ConditionOperator::Between => match &raw.value_end {
            Some(end) => match normalize_condition_value(operator, end, n) {
                Ok(v) => Some(v),
                Err(e) => return Err(e),
            },
            None => {
                return Err(complain(n, ": \"between\" needs both a min and a max value."));
            },
        },
        _ => None,
    };
    if let ConditionOperator::Regex = operator {
        // The caps of evaluation, so a pattern that compiles at save time also
        // compiles at eval time.
        if !regex_builds(value.str_or_empty(), REGEX_SIZE_LIMIT) {
            return Err(complain(n, ": regex pattern is invalid."));
        }
    }
    Ok(Condition { target, operator, value, value_end })
}

fn keep_proper(items: &Vec<Value>) -> (r: Vec<Value>)
    ensures
        crate::json::jsons(r@) == proper_items(crate::json::jsons(items@)),
{
    let ghost all = crate::json::jsons(items@);
    let mut out = no_items();
    for i in 0..items.len()
        invariant
            all == crate::json::jsons(items@),
            crate::json::jsons(out@) == proper_items(all.take(i as int)),
    {
        proof {
            assert(all.take(i + 1).drop_last() =~= all.take(i as int));
            assert(all.take(i + 1).last() == items@[i as int]@);
        }
        let keep: bool = match &items[i] {
            Value::Null => false,
            Value::String(s) => s.as_str().unicode_len() > 0,
            _ => true,
        };
        if keep {
            push_item(&mut out, items[i].copy());
        }
    }
    assert(all.take(all.len() as int) =~= all);
    out
}

fn split_list(s: &str) -> (r: Vec<Value>)
    ensures
        crate::json::jsons(r@) == trimmed_items(crate::text::split_parts(s@, ","@)),
{
    proof {
        reveal_strlit(",");
    }
    let parts = split(s, ",");
    let ghost all = crate::text::split_parts(s@, ","@);
    assert(all.len() == parts.len());
    let mut out = no_items();
    for i in 0..parts.len()
        invariant
            all == parts@.map_values(|p: String| p@),
            crate::json::jsons(out@) == trimmed_items(all.take(i as int)),
    {
        proof {
            assert(all.take(i + 1).drop_last() =~= all.take(i as int));
            assert(all.take(i + 1).last() == parts@[i as int]@);
        }
        let part = trim(parts[i].as_str());
        if part.unicode_len() > 0 {
            push_item(&mut out, text(part));
        }
    }
    assert(all.take(all.len() as int) =~= all);
    out
}

fn to_posted_integer(raw: &Value) -> (r: Option<i64>)
    ensures
        r == posted_integer(raw@),
{
    match raw {
        Value::Number(num) => match num.as_i64() {
            Some(i) => Some(i),
            None => Some(num.as_double().to_i64()),
        },
        Value::String(s) => parse_i64(trim(s.as_str())),
        _ => None,
    }
}

/// The posted value of condition number `n` as it is stored.
pub fn normalize_condition_value(op: ConditionOperator, raw: &Value, n: usize) -> (r: Result<
    Value,
    AppError,
>)
    ensures
        match r {
            Ok(v) => stored_value(op, raw@, n as nat) == Ok::<Json, Seq<char>>(v@),
            Err(e) => e@ is BadRequest && stored_value(op, raw@, n as nat) == Err::<
                Json,
                Seq<char>,
            >(e@->BadRequest_0),
        },
{
    match op {
        ConditionOperator::Gt
        | ConditionOperator::Gte
        | ConditionOperator::Lt
        | ConditionOperator::Lte
        | ConditionOperator::Between => match to_posted_integer(raw) {
            Some(i) => Ok(integer(i)),
            None => {
                let what = cat3(
                    ": numeric value required (got ",
                    raw.to_text().as_str(),
                    ").",
                );
                Err(complain(n, what.as_str()))
            },
        },
        ConditionOperator::In
        | ConditionOperator::ContainsAll
        | ConditionOperator::ContainsAny
        | ConditionOperator::NotContains => {
            let items: Vec<Value> = match raw {
                Value::Array(a) => {
                    assert(raw@->List_0 =~= crate::json::jsons(a@));
                    keep_proper(a)
                },
                Value::String(s) => split_list(s.as_str()),
                Value::Null => no_items(),
                _ => {
                    let mut one = no_items();
                    push_item(&mut one, raw.copy());
                    one
                },
            };
            assert(crate::json::jsons(items@).len() == items.len());
            if items.len() == 0 {
                Err(complain(n, ": list operator needs at least one value."))
            } else {
                Ok(list(items))
            }
        },
        ConditionOperator::Before | ConditionOperator::After => match raw {
            Value::String(s) => {
                let s = trim(s.as_str());
                if s.unicode_len() == 0 {
                    Err(complain(n, ": date value required."))
                } else {
                    Ok(text(s))
                }
            },
            _ => Err(complain(n, ": date value required.")),
        },
        _ => match raw {
            Value::String(s) => if blank(s.as_str()) {
                Err(complain(n, ": value required."))
            } else {
                Ok(text(s.as_str()))
            },
            Value::Number(num) => Ok(Value::String(num.to_text())),
            Value::Null => Err(complain(n, ": value required.")),
            _ => Ok(raw.copy()),
        },
    }
}

// ---------------------------------------------------------------------------
// Laws
// ---------------------------------------------------------------------------

/// Whether a condition is fit to be stored for a role link that is bound to
/// the form.
pub open spec fn is_fit(rule: Rule, form: Option<FormSchema>, quiz: bool) -> bool {
    &&& rule.target is QuizTotalScore ==> quiz && tests_scores(rule.operator)
    &&& rule.target matches Target::Question(id) ==> {
        &&& id.len() > 0
        &&& form matches Some(f) ==> {
            &&& f.question_with(id) matches Some(q)
            &&& q.kind is MultiChoice ==> tests_checkboxes(rule.operator)
        }
    }
    &&& rule.operator is Between <==> rule.value_end is Some
    &&& is_numeric(rule.operator) ==> rule.value is Number
    &&& takes_list(rule.operator) ==> rule.value is List && rule.value->List_0.len() > 0
    &&& rule.operator is Before || rule.operator is After ==> rule.value is Text
    &&& rule.operator is Regex ==> crate::outside::regex_valid(
        pattern_of(rule.value),
        REGEX_SIZE_LIMIT,
    )
    &&& rule.value !is Null
    &&& !crate::services::condition_eval::senseless(rule)
}

proof fn lemma_stored_rule_is_fit(
    input: ConditionInput,
    form: Option<FormSchema>,
    quiz: bool,
    n: nat,
)
    ensures
        stored_rule(input, form, quiz, n) matches Ok(rule) ==> is_fit(rule, form, quiz),
{
}

/// Every condition that is stored is fit for the form it is bound to: the quiz
/// total score is tested on quizzes only and by comparison only, questions
/// exist, checkboxes are tested by list operators, "between" has two ends, and
/// a pattern builds under the limits of evaluation.
pub proof fn law_stored_conditions_are_fit(
    inputs: Seq<ConditionInput>,
    form: Option<FormSchema>,
    quiz: bool,
)
    ensures
        stored_rules(inputs, form, quiz) matches Ok(rules) ==> rules.len() == inputs.len() && (
        forall|i: int| 0 <= i < rules.len() ==> is_fit(#[trigger] rules[i], form, quiz)),
    decreases inputs.len(),
{
    if inputs.len() > 0 {
        law_stored_conditions_are_fit(inputs.drop_last(), form, quiz);
        lemma_stored_rule_is_fit(inputs.last(), form, quiz, inputs.len());
    }
}

/// A configuration that is stored either grants for any submission and has no
/// conditions, or has between one condition and the most allowed.
pub proof fn law_stored_config_grants_to_someone(
    body: RoleConfigBody,
    form: Option<FormSchema>,
    quiz: bool,
)
    ensures
        stored_config(body, form, quiz) matches Ok(config) ==> {
            &&& config.grant_on_any_submission ==> config.conditions.len() == 0
            &&& !config.grant_on_any_submission ==> 1 <= config.conditions.len() <= MAX_CONDITIONS
            &&& config.view_permission matches Some(p) ==> p == "members"@ || p == "managers"@
            &&& config.form_id matches Some(id) ==> id.len() > 0
        },
{
    law_stored_conditions_are_fit(body.conditions@, form, quiz);
}

/// A pattern that was stored never fails to build when a response is
/// evaluated: what evaluation answers is what the pattern finds.
pub proof fn law_stored_pattern_builds_at_evaluation(
    rule: Rule,
    form: Option<FormSchema>,
    quiz: bool,
    actual: Json,
    numbers: spec_fn(Seq<char>) -> Option<crate::json::RealView>,
)
    requires
        is_fit(rule, form, quiz),
        rule.operator is Regex,
        rule.value is Text,
        actual !is Null,
    ensures
        crate::services::condition_eval::meets(actual, rule, numbers)
            == crate::outside::regex_found(
            rule.value->Text_0,
            REGEX_SIZE_LIMIT,
            crate::services::condition_eval::as_text_or_empty(actual),
        ),
{
}

} // verus!
