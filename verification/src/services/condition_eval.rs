//! Condition evaluation, both per user (in memory) and per role link (as a
//! SQL WHERE clause).
//!
//! An unconfigured role link grants the role to nobody: no conditions and
//! `grant_on_any_submission = false` match nobody. Both paths hold to this
//! before they look at the conditions.

use vstd::prelude::*;

use crate::double::Double;
use crate::json::{Json, Number, NumberTable, Numeral, RealView, Value};
use crate::models::condition::{Condition, ConditionOperator, ConditionTarget, Rule, Target};
use crate::numerals::usize_text;
use crate::outside::{parse_day, parse_rfc3339, regex_search};
use crate::table::member;
use crate::text::{cat2, cat3, cat5, chars_of, contains, join, owned, same};

verus! {

/// The limit on the compiled size of a pattern and on its matching cache.
pub const REGEX_SIZE_LIMIT: usize = 1_048_576;

/// The form in which date answers are stored.
pub const DATE_FORMAT: &'static str = "%Y-%m-%d";

/// The number of the day 1970-01-01, counted from the first day of the year 1.
pub const EPOCH_DAY: i64 = 719_163;

/// A response record's data needed to evaluate conditions.
pub struct ResponseEvalData<'a> {
    /// The answers, by question id.
    pub answers: &'a Value,
    /// Total quiz score (only for graded quiz responses).
    pub total_score: Option<i64>,
    /// The numbers that the texts among the answers and the conditions denote.
    pub numbers: &'a NumberTable,
}

/// What a `ResponseEvalData` stands for.
pub struct Response {
    pub answers: Json,
    pub total_score: Option<i64>,
    pub numbers: spec_fn(Seq<char>) -> Option<RealView>,
}

impl<'a> View for ResponseEvalData<'a> {
    type V = Response;

    open spec fn view(&self) -> Response {
        Response {
            answers: self.answers@,
            total_score: self.total_score,
            numbers: self.numbers@,
        }
    }
}

// ---------------------------------------------------------------------------
// What a condition means
// ---------------------------------------------------------------------------

/// What a condition looks at in a response; null where there is nothing.
pub open spec fn tested(target: Target, data: Response) -> Json {
    match target {
        Target::Question(id) => match data.answers.field(id) {
            Some(v) => v,
            None => Json::Null,
        },
        Target::QuizTotalScore => match data.total_score {
            Some(n) => Json::Number(Numeral::of_int(n)),
            None => Json::Null,
        },
    }
}

/// A text, number or truth value as text.
pub open spec fn as_text(j: Json) -> Option<Seq<char>> {
    match j {
        Json::Text(s) => Some(s),
        Json::Number(n) => Some(n.text()),
        Json::Bool(b) => Some(if b {
            "true"@
        } else {
            "false"@
        }),
        _ => None,
    }
}

/// As `as_text`, empty where there is no text.
pub open spec fn as_text_or_empty(j: Json) -> Seq<char> {
    match as_text(j) {
        Some(s) => s,
        None => Seq::empty(),
    }
}

/// The texts that were chosen: those of a list, or a text alone.
pub open spec fn as_choices(j: Json) -> Seq<Seq<char>> {
    match j {
        Json::List(_) => j.text_items(),
        Json::Text(s) => seq![s],
        _ => Seq::empty(),
    }
}

/// A number, or the number that a text denotes.
pub open spec fn as_number(j: Json, numbers: spec_fn(Seq<char>) -> Option<RealView>) -> Option<
    Double,
> {
    match j {
        Json::Number(n) => Some(n.double()),
        Json::Text(s) => match numbers(s) {
            Some(x) => Some(x.value),
            None => None,
        },
        _ => None,
    }
}

/// The instant that a text denotes: an RFC 3339 time, or a date, which stands
/// for the start of its day in UTC.
pub open spec fn as_instant(s: Seq<char>) -> Option<(int, int)> {
    match crate::outside::rfc3339_instant(s) {
        Some((secs, nanos)) => Some((secs as int, nanos as int)),
        None => match crate::outside::day_number(s, DATE_FORMAT@) {
            Some(day) => Some(((day - EPOCH_DAY) * 86_400, 0)),
            None => None,
        },
    }
}

/// Whether the instant `a` comes before `b`.
pub open spec fn earlier(a: (int, int), b: (int, int)) -> bool {
    a.0 < b.0 || (a.0 == b.0 && a.1 < b.1)
}

/// Whether some text is in both lists.
pub open spec fn overlap(a: Seq<Seq<char>>, b: Seq<Seq<char>>) -> bool {
    exists|i: int| 0 <= i < a.len() && b.contains(#[trigger] a[i])
}

/// Whether every text of the first list is in the second.
pub open spec fn covered(a: Seq<Seq<char>>, b: Seq<Seq<char>>) -> bool {
    forall|i: int| 0 <= i < a.len() ==> b.contains(#[trigger] a[i])
}

/// Whether the values of a condition's numeric operator hold.
pub open spec fn number_holds(
    op: ConditionOperator,
    actual: Double,
    value: Double,
    end: Double,
) -> bool {
    match op {
        ConditionOperator::Gt => value.below(actual),
        ConditionOperator::Gte => value.at_most(actual),
        ConditionOperator::Lt => actual.below(value),
        ConditionOperator::Lte => actual.at_most(value),
        _ => value.at_most(actual) && actual.at_most(end),
    }
}

/// Whether `actual` meets the operator and the values of a condition.
pub open spec fn meets(
    actual: Json,
    rule: Rule,
    numbers: spec_fn(Seq<char>) -> Option<RealView>,
) -> bool {
    let value = rule.value;
    match rule.operator {
        ConditionOperator::Eq => as_text(actual) is Some && as_text(actual) == as_text(value),
        ConditionOperator::Neq => if actual is Null {
            value.text() is Some && value.text()->0.len() > 0
        } else {
            as_text(actual) is Some && as_text(value) is Some && as_text(actual) != as_text(value)
        },
        ConditionOperator::Contains => as_text(actual) is Some && as_text(value) is Some
            && crate::text::has_text(as_text(actual)->0, as_text(value)->0),
        ConditionOperator::Regex => {
            &&& actual !is Null
            &&& value.text() is Some
            &&& crate::outside::regex_valid(value.text()->0, REGEX_SIZE_LIMIT)
            &&& crate::outside::regex_found(
                value.text()->0,
                REGEX_SIZE_LIMIT,
                as_text_or_empty(actual),
            )
        },
        ConditionOperator::In => actual !is Null && value.text_items().contains(
            as_text_or_empty(actual),
        ),
        ConditionOperator::ContainsAll => actual !is Null && value is List && covered(
            value.text_items(),
            as_choices(actual),
        ),
        ConditionOperator::ContainsAny => actual !is Null && overlap(
            value.text_items(),
            as_choices(actual),
        ),
        ConditionOperator::NotContains => actual !is Null && !overlap(
            value.text_items(),
            as_choices(actual),
        ),
        ConditionOperator::Gt
        | ConditionOperator::Gte
        | ConditionOperator::Lt
        | ConditionOperator::Lte
        | ConditionOperator::Between => match (as_number(actual, numbers), as_number(
            value,
            numbers,
        )) {
            (Some(a), Some(v)) => {
                let end = match rule.value_end {
                    Some(e) => match as_number(e, numbers) {
                        Some(n) => n,
                        None => v,
                    },
                    None => v,
                };
                number_holds(rule.operator, a, v, end)
            },
            _ => false,
        },
        ConditionOperator::Before => match (actual.text(), value.text()) {
            (Some(a), Some(v)) => as_instant(a) is Some && as_instant(v) is Some && earlier(
                as_instant(a)->0,
                as_instant(v)->0,
            ),
            _ => false,
        },
        ConditionOperator::After => match (actual.text(), value.text()) {
            (Some(a), Some(v)) => as_instant(a) is Some && as_instant(v) is Some && earlier(
                as_instant(v)->0,
                as_instant(a)->0,
            ),
            _ => false,
        },
    }
}

/// Whether a response meets a condition.
pub open spec fn holds(rule: Rule, data: Response) -> bool {
    meets(tested(rule.target, data), rule, data.numbers)
}

/// Whether a role link grants its role for a response.
pub open spec fn granted(any_submission: bool, rules: Seq<Rule>, data: Response) -> bool {
    any_submission || (rules.len() > 0 && forall|i: int|
        0 <= i < rules.len() ==> holds(#[trigger] rules[i], data))
}

// ---------------------------------------------------------------------------
// Evaluation
// ---------------------------------------------------------------------------

/// Evaluate the role-link's eligibility for a given response.
///
/// - If `grant_on_any_submission` is true, returns true regardless of conditions.
/// - Otherwise, an empty `conditions` slice returns false.
/// - Otherwise, all conditions must pass (AND).
pub fn evaluate(
    grant_on_any_submission: bool,
    conditions: &[Condition],
    data: &ResponseEvalData,
) -> (r: bool)
    ensures
        r == granted(
            grant_on_any_submission,
            crate::models::condition::rules(conditions@),
            data@,
        ),
{
    if grant_on_any_submission {
        return true;
    }
    if conditions.len() == 0 {
        return false;
    }
    let ghost all = crate::models::condition::rules(conditions@);
    for i in 0..conditions.len()
        invariant
            !grant_on_any_submission,
            conditions.len() > 0,
            all == crate::models::condition::rules(conditions@),
            forall|j: int| 0 <= j < i ==> holds(#[trigger] all[j], data@),
    {
        assert(all[i as int] == conditions@[i as int]@);
        if !evaluate_single(&conditions[i], data) {
            return false;
        }
    }
    true
}

/// Whether a response meets a condition.
pub fn evaluate_single(condition: &Condition, data: &ResponseEvalData) -> (r: bool)
    ensures
        r == holds(condition@, data@),
{
    match &condition.target {
        ConditionTarget::Question { question_id } => match data.answers.get(question_id.as_str()) {
            Some(v) => meets_condition(v, condition, data.numbers),
            None => meets_condition(&Value::Null, condition, data.numbers),
        },
        ConditionTarget::QuizTotalScore => match data.total_score {
            Some(n) => meets_condition(
                &Value::Number(Number::from_i64(n)),
                condition,
                data.numbers,
            ),
            None => meets_condition(&Value::Null, condition, data.numbers),
        },
    }
}

/// Whether `actual` meets the operator and the values of a condition.
pub fn meets_condition(actual: &Value, condition: &Condition, numbers: &NumberTable) -> (r: bool)
    ensures
        r == meets(actual@, condition@, numbers@),
{
    let value = &condition.value;
    if actual.is_null() {
        // No answer to test against: only `neq` can be satisfied by absence.
        return match condition.operator {
            ConditionOperator::Neq => match value.as_str() {
                Some(s) => s.unicode_len() > 0,
                None => false,
            },
            _ => false,
        };
    }
    match condition.operator {
        ConditionOperator::Eq => match (string_value(actual), string_value(value)) {
            (Some(a), Some(b)) => same(a.as_str(), b.as_str()),
            _ => false,
        },
        ConditionOperator::Neq => match (string_value(actual), string_value(value)) {
            (Some(a), Some(b)) => !same(a.as_str(), b.as_str()),
            _ => false,
        },
        ConditionOperator::Contains => match (string_value(actual), string_value(value)) {
            (Some(a), Some(b)) => contains(a.as_str(), b.as_str()),
            _ => false,
        },
        ConditionOperator::Regex => match value.as_str() {
            Some(pattern) => {
                let text = string_or_empty(actual);
                match regex_search(pattern, REGEX_SIZE_LIMIT, text.as_str()) {
                    Some(found) => found,
                    None => false,
                }
            },
            None => false,
        },
        ConditionOperator::In => {
            let text = string_or_empty(actual);
            member(&value.strings(), text.as_str())
        },
        ConditionOperator::ContainsAll => match value {
            Value::Array(_) => is_covered(&value.strings(), &array_values(actual)),
            _ => false,
        },
        ConditionOperator::ContainsAny => has_overlap(&value.strings(), &array_values(actual)),
        ConditionOperator::NotContains => !has_overlap(&value.strings(), &array_values(actual)),
        ConditionOperator::Gt
        | ConditionOperator::Gte
        | ConditionOperator::Lt
        | ConditionOperator::Lte
        | ConditionOperator::Between => {
            let (a, v) = match (numeric_value(actual, numbers), numeric_value(value, numbers)) {
                (Some(a), Some(v)) => (a, v),
                _ => return false,
            };
            let end = match &condition.value_end {
                Some(e) => match numeric_value(e, numbers) {
                    Some(n) => n,
                    None => v,
                },
                None => v,
            };
            match condition.operator {
                ConditionOperator::Gt => v.lt(a),
                ConditionOperator::Gte => v.le(a),
                ConditionOperator::Lt => a.lt(v),
                ConditionOperator::Lte => a.le(v),
                _ => v.le(a) && a.le(end),
            }
        },
        ConditionOperator::Before | ConditionOperator::After => {
            let (a, v) = match (parse_datetime(actual), parse_datetime(value)) {
                (Some(a), Some(v)) => (a, v),
                _ => return false,
            };
            match condition.operator {
                ConditionOperator::Before => comes_before(a, v),
                _ => comes_before(v, a),
            }
        },
    }
}

fn string_value(v: &Value) -> (r: Option<String>)
    ensures
        match r {
            Some(s) => as_text(v@) == Some(s@),
            None => as_text(v@) is None,
        },
{
    match v {
        Value::String(s) => Some(owned(s.as_str())),
        Value::Number(n) => Some(n.to_text()),
        Value::Bool(b) => Some(
            if *b {
                owned("true")
            } else {
                owned("false")
            },
        ),
        _ => None,
    }
}

fn string_or_empty(v: &Value) -> (r: String)
    ensures
        r@ == as_text_or_empty(v@),
{
    match string_value(v) {
        Some(s) => s,
        None => String::new(),
    }
}

fn array_values(v: &Value) -> (r: Vec<String>)
    ensures
        crate::text::texts(r@) == as_choices(v@),
{
    match v {
        Value::String(s) => {
            let mut out: Vec<String> = Vec::new();
            out.push(owned(s.as_str()));
            assert(crate::text::texts(out@) =~= seq![s@]);
            out
        },
        _ => v.strings(),
    }
}

fn has_overlap(a: &Vec<String>, b: &Vec<String>) -> (r: bool)
    ensures
        r == overlap(crate::text::texts(a@), crate::text::texts(b@)),
{
    let ghost left = crate::text::texts(a@);
    let ghost right = crate::text::texts(b@);
    for i in 0..a.len()
        invariant
            left == crate::text::texts(a@),
            right == crate::text::texts(b@),
            forall|j: int| 0 <= j < i ==> !right.contains(#[trigger] left[j]),
    {
        assert(left[i as int] == a@[i as int]@);
        if member(b, a[i].as_str()) {
            return true;
        }
    }
    false
}

/// Whether every text of the first list is in the second.
pub fn is_covered(a: &Vec<String>, b: &Vec<String>) -> (r: bool)
    ensures
        r == covered(crate::text::texts(a@), crate::text::texts(b@)),
{
    let ghost left = crate::text::texts(a@);
    let ghost right = crate::text::texts(b@);
    for i in 0..a.len()
        invariant
            left == crate::text::texts(a@),
            right == crate::text::texts(b@),
            forall|j: int| 0 <= j < i ==> right.contains(#[trigger] left[j]),
    {
        assert(left[i as int] == a@[i as int]@);
        if !member(b, a[i].as_str()) {
            return false;
        }
    }
    true
}

fn numeric_value(v: &Value, numbers: &NumberTable) -> (r: Option<Double>)
    ensures
        r == as_number(v@, numbers@),
{
    match v {
        Value::Number(n) => Some(n.as_double()),
        Value::String(s) => match numbers.get(s.as_str()) {
            Some(x) => Some(x.value),
            None => None,
        },
        _ => None,
    }
}

fn parse_datetime(v: &Value) -> (r: Option<(i64, u32)>)
    ensures
        match r {
            Some(t) => v@.text() is Some && as_instant(v@.text()->0) == Some(
                (t.0 as int, t.1 as int),
            ),
            None => v@.text() is Some ==> as_instant(v@.text()->0) is None,
        },
{
    match v {
        Value::String(s) => parse_datetime_str(s.as_str()),
        _ => None,
    }
}

/// The instant that `s` denotes, as seconds and nanoseconds since the start of
/// 1970 in UTC: an RFC 3339 time, or a date, promoted to the start of its day.
pub fn parse_datetime_str(s: &str) -> (r: Option<(i64, u32)>)
    ensures
        match r {
            Some(t) => as_instant(s@) == Some((t.0 as int, t.1 as int)),
            None => as_instant(s@) is None,
        },
{
    match parse_rfc3339(s) {
        Some(t) => Some(t),
        None => match parse_day(s, DATE_FORMAT) {
            Some(day) => Some(((day as i64 - EPOCH_DAY) * 86_400, 0)),
            None => None,
        },
    }
}

fn comes_before(a: (i64, u32), b: (i64, u32)) -> (r: bool)
    ensures
        r == earlier((a.0 as int, a.1 as int), (b.0 as int, b.1 as int)),
{
    a.0 < b.0 || (a.0 == b.0 && a.1 < b.1)
}

// ---------------------------------------------------------------------------
// Laws of evaluation
// ---------------------------------------------------------------------------

/// A role link without conditions that is not open to any submission grants
/// its role to nobody.
pub proof fn law_unconfigured_link_grants_nobody(data: Response)
    ensures
        !granted(false, Seq::empty(), data),
{
}

/// A role link that is open to any submission grants its role for every
/// response, whatever its conditions.
pub proof fn law_open_link_grants_everyone(rules: Seq<Rule>, data: Response)
    ensures
        granted(true, rules, data),
{
}

/// Conditions are joined by AND: two lists of conditions in one link grant just
/// what each of them grants alone.
pub proof fn law_conditions_are_joined_by_and(a: Seq<Rule>, b: Seq<Rule>, data: Response)
    requires
        a.len() > 0,
        b.len() > 0,
    ensures
        granted(false, a + b, data) <==> granted(false, a, data) && granted(false, b, data),
{
    let all = a + b;
    if granted(false, all, data) {
        assert forall|i: int| 0 <= i < a.len() implies holds(#[trigger] a[i], data) by {
            assert(all[i] == a[i]);
        }
        assert forall|i: int| 0 <= i < b.len() implies holds(#[trigger] b[i], data) by {
            assert(all[a.len() + i] == b[i]);
        }
    }
}

/// Where there is no answer to test, no condition holds but one of inequality
/// with a text that is not empty.
pub proof fn law_absence_meets_only_inequality(rule: Rule, data: Response)
    requires
        tested(rule.target, data) is Null,
    ensures
        holds(rule, data) <==> rule.operator is Neq && rule.value.text() is Some
            && rule.value.text()->0.len() > 0,
{
}

// ---------------------------------------------------------------------------
// SQL WHERE-clause builder for bulk per-role-link sync
// ---------------------------------------------------------------------------

/// A value that is bound to a placeholder of a SQL text.
#[derive(Debug, PartialEq)]
pub enum ConditionBind {
    Text(String),
    Int(i64),
}

/// What a `ConditionBind` stands for.
pub enum Bind {
    Text(Seq<char>),
    Int(i64),
}

impl View for ConditionBind {
    type V = Bind;

    open spec fn view(&self) -> Bind {
        match *self {
            ConditionBind::Text(s) => Bind::Text(s@),
            ConditionBind::Int(n) => Bind::Int(n),
        }
    }
}

/// The views of a list of bound values.
pub open spec fn bind_views(v: Seq<ConditionBind>) -> Seq<Bind> {
    v.map_values(|b: ConditionBind| b@)
}

/// The character as a LIKE pattern has to hold it to stand for itself.
pub open spec fn like_escape(c: char) -> Seq<char> {
    if c == '\\' || c == '%' || c == '_' {
        seq!['\\', c]
    } else {
        seq![c]
    }
}

/// `s` as a LIKE pattern has to hold it to stand for itself.
pub open spec fn like_escaped(s: Seq<char>) -> Seq<char> {
    crate::text::spelled(s, |c: char| like_escape(c))
}

/// `s` as a LIKE pattern has to hold it to stand for itself.
pub fn escape_like(s: &str) -> (r: String)
    ensures
        r@ == like_escaped(s@),
{
    let v = chars_of(s);
    let ghost f = |c: char| like_escape(c);
    let mut out: String = String::new();
    for i in 0..v.len()
        invariant
            v@ == s@,
            f == |c: char| like_escape(c),
            out@ == crate::text::spelled(s@.take(i as int), f),
    {
        let c = v[i];
        if c == '\\' || c == '%' || c == '_' {
            out.push('\\');
        }
        out.push(c);
        proof {
            assert(s@.take(i + 1).drop_last() =~= s@.take(i as int));
            assert(out@ =~= crate::text::spelled(s@.take(i as int), f) + like_escape(c));
        }
    }
    assert(s@.take(s@.len() as int) =~= s@);
    out
}

/// How many placeholders stand for the target of a condition.
pub open spec fn target_slots(target: Target) -> nat {
    if target is Question {
        1
    } else {
        0
    }
}

/// The SQL text of a condition's target, with `slot` as its placeholder.
pub open spec fn target_text(target: Target, slot: nat) -> Seq<char> {
    match target {
        Target::Question(_) => "(fr.answers ->> $"@ + crate::numerals::nat_text(slot) + ")"@,
        Target::QuizTotalScore => "fr.total_score::text"@,
    }
}

/// The SQL number of a condition's target, with `slot` as its placeholder.
pub open spec fn target_number(target: Target, slot: nat) -> Seq<char> {
    match target {
        Target::Question(_) => "NULLIF(fr.answers ->> $"@ + crate::numerals::nat_text(slot)
            + ", '')::numeric"@,
        Target::QuizTotalScore => "fr.total_score::numeric"@,
    }
}

/// The placeholder number `n`.
pub open spec fn placeholder(n: nat) -> Seq<char> {
    "$"@ + crate::numerals::nat_text(n)
}

/// `count` placeholders from the number `first` on, with commas between them.
pub open spec fn placeholders(first: nat, count: nat) -> Seq<char> {
    crate::text::joined(Seq::new(count, |i: int| placeholder((first + i) as nat)), ","@)
}

/// A number as an `i64`: an integer as it is, another number cut to a whole one.
pub open spec fn whole_number(j: Json) -> Option<i64> {
    match j.integer() {
        Some(n) => Some(n),
        None => match j.double() {
            Some(d) => Some(d.cut()),
            None => None,
        },
    }
}

/// The lower bound of a numeric condition.
pub open spec fn bound(rule: Rule) -> i64 {
    match whole_number(rule.value) {
        Some(n) => n,
        None => 0,
    }
}

/// The upper bound of a `between` condition.
pub open spec fn upper_bound(rule: Rule) -> i64 {
    match rule.value_end {
        Some(e) => match whole_number(e) {
            Some(n) => n,
            None => bound(rule),
        },
        None => bound(rule),
    }
}

/// The text of a condition's value, empty where it is none.
pub open spec fn value_text(rule: Rule) -> Seq<char> {
    match rule.value.text() {
        Some(s) => s,
        None => Seq::empty(),
    }
}

/// Whether the operator tests a list of choices.
pub open spec fn tests_choices(op: ConditionOperator) -> bool {
    op is ContainsAll || op is ContainsAny || op is NotContains
}

/// Whether a condition tests a list of choices where there can be none.
pub open spec fn senseless(rule: Rule) -> bool {
    tests_choices(rule.operator) && rule.target is QuizTotalScore
}

/// Texts to bind.
pub open spec fn text_binds(texts: Seq<Seq<char>>) -> Seq<Bind> {
    texts.map_values(|s: Seq<char>| Bind::Text(s))
}

/// The values that a condition binds for its target.
pub open spec fn target_binds(target: Target) -> Seq<Bind> {
    match target {
        Target::Question(id) => seq![Bind::Text(id)],
        Target::QuizTotalScore => Seq::empty(),
    }
}

/// The values that a condition binds after its target.
pub open spec fn value_binds(rule: Rule) -> Seq<Bind> {
    match rule.operator {
        ConditionOperator::Contains => seq![
            Bind::Text("%"@ + like_escaped(value_text(rule)) + "%"@),
        ],
        ConditionOperator::In => text_binds(rule.value.text_items()),
        ConditionOperator::ContainsAll
        | ConditionOperator::ContainsAny
        | ConditionOperator::NotContains => target_binds(rule.target) + text_binds(
            rule.value.text_items(),
        ),
        ConditionOperator::Gt
        | ConditionOperator::Gte
        | ConditionOperator::Lt
        | ConditionOperator::Lte => seq![Bind::Int(bound(rule))],
        ConditionOperator::Between => seq![Bind::Int(bound(rule)), Bind::Int(upper_bound(rule))],
        _ => seq![Bind::Text(value_text(rule))],
    }
}

/// The values that a condition binds.
pub open spec fn rule_binds(rule: Rule) -> Seq<Bind> {
    target_binds(rule.target) + value_binds(rule)
}

/// The SQL sign of an operator that compares two values.
pub open spec fn sign(op: ConditionOperator) -> Seq<char> {
    match op {
        ConditionOperator::Gt | ConditionOperator::After => ">"@,
        ConditionOperator::Gte => ">="@,
        ConditionOperator::Lt | ConditionOperator::Before => "<"@,
        _ => "<="@,
    }
}

/// The SQL array of the choices in an answer.
pub open spec fn chosen_array(slot: nat) -> Seq<char> {
    "ARRAY(SELECT jsonb_array_elements_text(COALESCE(fr.answers -> $"@ + crate::numerals::nat_text(
        slot,
    ) + ", '[]'::jsonb)))"@
}

/// The SQL array of the choices that a condition lists.
pub open spec fn listed_array(first: nat, count: nat) -> Seq<char> {
    "ARRAY["@ + placeholders(first, count) + "]::text[]"@
}

/// The SQL test for a condition; its placeholders start after the number
/// `base`.
pub open spec fn rule_clause(rule: Rule, base: nat) -> Seq<char> {
    let text = target_text(rule.target, base + 1);
    let number = target_number(rule.target, base + 1);
    let first = base + target_slots(rule.target) + 1;
    let n = crate::numerals::nat_text(first);
    let count = rule.value.text_items().len();
    match rule.operator {
        ConditionOperator::Eq => text + " = $"@ + n,
        ConditionOperator::Neq => "("@ + text + " IS DISTINCT FROM $"@ + n + ")"@,
        ConditionOperator::Contains => text + " LIKE $"@ + n,
        ConditionOperator::Regex => text + " ~ $"@ + n,
        ConditionOperator::In => if count == 0 {
            "FALSE"@
        } else {
            text + " IN ("@ + placeholders(first, count) + ")"@
        },
        ConditionOperator::ContainsAll => if count == 0 {
            "FALSE"@
        } else {
            chosen_array(first) + " @> "@ + listed_array(first + 1, count)
        },
        ConditionOperator::ContainsAny => if count == 0 {
            "FALSE"@
        } else {
            chosen_array(first) + " && "@ + listed_array(first + 1, count)
        },
        ConditionOperator::NotContains => if count == 0 {
            "TRUE"@
        } else {
            "NOT ("@ + chosen_array(first) + " && "@ + listed_array(first + 1, count) + ")"@
        },
        ConditionOperator::Gt
        | ConditionOperator::Gte
        | ConditionOperator::Lt
        | ConditionOperator::Lte => "("@ + number + ") "@ + sign(rule.operator) + " $"@ + n,
        ConditionOperator::Between => "("@ + number + ") >= $"@ + n + " AND ("@ + number
            + ") <= $"@ + crate::numerals::nat_text(first + 1),
        ConditionOperator::Before | ConditionOperator::After => "(NULLIF("@ + text
            + ", '')::timestamptz) "@ + sign(rule.operator) + " $"@ + n + "::timestamptz"@,
    }
}

/// The values that the conditions bind, in their order.
pub open spec fn all_binds(rules: Seq<Rule>) -> Seq<Bind>
    decreases rules.len(),
{
    if rules.len() == 0 {
        Seq::empty()
    } else {
        all_binds(rules.drop_last()) + rule_binds(rules.last())
    }
}

/// The SQL tests for the conditions; their placeholders start after `offset`.
pub open spec fn all_clauses(rules: Seq<Rule>, offset: nat) -> Seq<Seq<char>>
    decreases rules.len(),
{
    if rules.len() == 0 {
        Seq::empty()
    } else {
        all_clauses(rules.drop_last(), offset).push(
            rule_clause(rules.last(), offset + all_binds(rules.drop_last()).len()),
        )
    }
}

/// The WHERE clause for the conditions and the values it binds.
pub open spec fn where_clause(rules: Seq<Rule>, offset: nat) -> (Seq<char>, Seq<Bind>) {
    if rules.len() == 0 {
        ("TRUE"@, Seq::empty())
    } else if exists|i: int| 0 <= i < rules.len() && senseless(#[trigger] rules[i]) {
        ("FALSE"@, Seq::empty())
    } else {
        (crate::text::joined(all_clauses(rules, offset), " AND "@), all_binds(rules))
    }
}

fn text_bind(s: &str) -> (r: ConditionBind)
    ensures
        r@ == Bind::Text(s@),
{
    ConditionBind::Text(owned(s))
}

fn list_placeholders(first: usize, count: usize) -> (r: String)
    requires
        count > 0,
        first + count - 1 <= usize::MAX,
    ensures
        r@ == placeholders(first as nat, count as nat),
{
    let mut parts: Vec<String> = Vec::new();
    for i in 0..count
        invariant
            first + count - 1 <= usize::MAX,
            parts.len() == i,
            forall|j: int| 0 <= j < i ==> (#[trigger] parts@[j])@ == placeholder((first + j) as nat),
    {
        parts.push(cat2("$", usize_text(first + i).as_str()));
    }
    assert(crate::text::texts(parts@) =~= Seq::new(
        count as nat,
        |i: int| placeholder((first + i) as nat),
    ));
    join(&parts, ",")
}

fn to_whole_number(v: &Value) -> (r: Option<i64>)
    ensures
        r == whole_number(v@),
{
    match v.as_i64() {
        Some(n) => Some(n),
        None => match v.as_double() {
            Some(d) => Some(d.to_i64()),
            None => None,
        },
    }
}

fn push_texts(binds: &mut Vec<ConditionBind>, texts: &Vec<String>)
    ensures
        bind_views(final(binds)@) == bind_views(old(binds)@) + text_binds(crate::text::texts(texts@)),
{
    let ghost before = binds@;
    for i in 0..texts.len()
        invariant
            binds@.len() == before.len() + i,
            bind_views(binds@) == bind_views(before) + text_binds(
                crate::text::texts(texts@),
            ).take(i as int),
    {
        let ghost now = binds@;
        binds.push(text_bind(texts[i].as_str()));
        proof {
            let all = text_binds(crate::text::texts(texts@));
            assert(all[i as int] == Bind::Text(texts@[i as int]@));
            assert(bind_views(binds@) =~= bind_views(now).push(all[i as int]));
            assert(bind_views(binds@) =~= bind_views(before) + all.take(i + 1));
        }
    }
    proof {
        let all = text_binds(crate::text::texts(texts@));
        assert(all.take(all.len() as int) =~= all);
    }
}

fn sign_of(op: ConditionOperator) -> (r: &'static str)
    ensures
        r@ == sign(op),
{
    match op {
        ConditionOperator::Gt | ConditionOperator::After => ">",
        ConditionOperator::Gte => ">=",
        ConditionOperator::Lt | ConditionOperator::Before => "<",
        _ => "<=",
    }
}

/// The SQL test for a condition that is not senseless. The values it binds are
/// added to `binds`; its placeholders start after the number `base`.
fn push_condition(c: &Condition, base: usize, binds: &mut Vec<ConditionBind>) -> (r: String)
    requires
        base + rule_binds(c@).len() <= usize::MAX,
        !senseless(c@),
    ensures
        r@ == rule_clause(c@, base as nat),
        bind_views(final(binds)@) == bind_views(old(binds)@) + rule_binds(c@),
{
    let ghost rule = c@;
    let ghost start = bind_views(binds@);
    let ghost target_values = target_binds(rule.target);
    let text: String;
    let number: String;
    let first: usize;
    assert(value_binds(rule).len() > 0 || rule.operator is In) by {
        if tests_choices(rule.operator) {
            assert(target_values.len() == 1);
        }
    }
    match &c.target {
        ConditionTarget::Question { question_id } => {
            assert(target_values.len() == 1);
            binds.push(text_bind(question_id.as_str()));
            let slot = usize_text(base + 1);
            text = cat3("(fr.answers ->> $", slot.as_str(), ")");
            number = cat3("NULLIF(fr.answers ->> $", slot.as_str(), ", '')::numeric");
            first = base + 1;
        },
        ConditionTarget::QuizTotalScore => {
            text = owned("fr.total_score::text");
            number = owned("fr.total_score::numeric");
            first = base;
        },
    }
    assert(bind_views(binds@) =~= start + target_values);
    let ghost with_target = binds@;
    let clause: String;
    match c.operator {
        ConditionOperator::Eq => {
            binds.push(text_bind(c.value.str_or_empty()));
            clause = cat3(text.as_str(), " = $", usize_text(first + 1).as_str());
        },
        ConditionOperator::Neq => {
            binds.push(text_bind(c.value.str_or_empty()));
            clause = cat5(
                "(",
                text.as_str(),
                " IS DISTINCT FROM $",
                usize_text(first + 1).as_str(),
                ")",
            );
        },
        ConditionOperator::Contains => {
            let pattern = cat3("%", escape_like(c.value.str_or_empty()).as_str(), "%");
            binds.push(ConditionBind::Text(pattern));
            clause = cat3(text.as_str(), " LIKE $", usize_text(first + 1).as_str());
        },
        ConditionOperator::Regex => {
            binds.push(text_bind(c.value.str_or_empty()));
            clause = cat3(text.as_str(), " ~ $", usize_text(first + 1).as_str());
        },
        ConditionOperator::In => {
            let listed = c.value.strings();
            assert(crate::text::texts(listed@).len() == listed.len());
            push_texts(binds, &listed);
            if listed.len() == 0 {
                clause = owned("FALSE");
            } else {
                let slots = list_placeholders(first + 1, listed.len());
                let mut s: String = cat3(text.as_str(), " IN (", slots.as_str());
                s.append(")");
                clause = s;
            }
        },
        ConditionOperator::ContainsAll
        | ConditionOperator::ContainsAny
        | ConditionOperator::NotContains => {
            let listed = c.value.strings();
            assert(crate::text::texts(listed@).len() == listed.len());
            match &c.target {
                ConditionTarget::Question { question_id } => {
                    binds.push(text_bind(question_id.as_str()));
                },
                ConditionTarget::QuizTotalScore => {},
            }
            assert(bind_views(binds@) =~= bind_views(with_target) + target_values);
            push_texts(binds, &listed);
            if listed.len() == 0 {
                clause = match c.operator {
                    ConditionOperator::NotContains => owned("TRUE"),
                    _ => owned("FALSE"),
                };
            } else {
                let chosen = cat3(
                    "ARRAY(SELECT jsonb_array_elements_text(COALESCE(fr.answers -> $",
                    usize_text(first + 1).as_str(),
                    ", '[]'::jsonb)))",
                );
                let slots = list_placeholders(first + 2, listed.len());
                let wanted = cat3("ARRAY[", slots.as_str(), "]::text[]");
                clause = match c.operator {
                    ConditionOperator::ContainsAll => cat3(
                        chosen.as_str(),
                        " @> ",
                        wanted.as_str(),
                    ),
                    ConditionOperator::ContainsAny => cat3(
                        chosen.as_str(),
                        " && ",
                        wanted.as_str(),
                    ),
                    _ => cat5("NOT (", chosen.as_str(), " && ", wanted.as_str(), ")"),
                };
            }
        },
        ConditionOperator::Gt
        | ConditionOperator::Gte
        | ConditionOperator::Lt
        | ConditionOperator::Lte => {
            let n: i64 = match to_whole_number(&c.value) {
                Some(n) => n,
                None => 0,
            };
            binds.push(ConditionBind::Int(n));
            let mut s: String = cat5("(", number.as_str(), ") ", sign_of(c.operator), " $");
            s.append(usize_text(first + 1).as_str());
            clause = s;
        },
        ConditionOperator::Between => {
            let n: i64 = match to_whole_number(&c.value) {
                Some(n) => n,
                None => 0,
            };
            let end: i64 = match &c.value_end {
                Some(e) => match to_whole_number(e) {
                    Some(m) => m,
                    None => n,
                },
                None => n,
            };
            binds.push(ConditionBind::Int(n));
            binds.push(ConditionBind::Int(end));
            let mut s: String = cat5(
                "(",
                number.as_str(),
                ") >= $",
                usize_text(first + 1).as_str(),
                " AND (",
            );
            s.append(number.as_str());
            s.append(") <= $");
            s.append(usize_text(first + 2).as_str());
            clause = s;
        },
        ConditionOperator::Before | ConditionOperator::After => {
            binds.push(text_bind(c.value.str_or_empty()));
            let mut s: String = cat5(
                "(NULLIF(",
                text.as_str(),
                ", '')::timestamptz) ",
                sign_of(c.operator),
                " $",
            );
            s.append(usize_text(first + 1).as_str());
            s.append("::timestamptz");
            clause = s;
        },
    }
    assert(bind_views(binds@) =~= bind_views(with_target) + value_binds(rule));
    assert(bind_views(binds@) =~= start + rule_binds(rule));
    clause
}

proof fn lemma_all_binds_grow(rules: Seq<Rule>, k: int)
    requires
        0 <= k <= rules.len(),
    ensures
        all_binds(rules.take(k)).len() <= all_binds(rules).len(),
    decreases rules.len() - k,
{
    if k == rules.len() {
        assert(rules.take(k) =~= rules);
    } else {
        lemma_all_binds_grow(rules.drop_last(), k);
        assert(rules.drop_last().take(k) =~= rules.take(k));
    }
}

/// Build a SQL WHERE clause that filters `form_responses` rows.
///
/// Returns the clause and the values it binds. The clause references the `fr`
/// alias for the form_responses table and uses parameter indices starting at
/// `bind_offset + 1`.
///
/// Callers that mean to match nobody (no conditions, not open to any
/// submission) return before they call this: for no conditions the clause is
/// "TRUE", which keeps the SQL valid where every submission is to match.
pub fn build_condition_where(conditions: &[Condition], bind_offset: usize) -> (r: (
    String,
    Vec<ConditionBind>,
))
    requires
        bind_offset + all_binds(crate::models::condition::rules(conditions@)).len() <= usize::MAX,
    ensures
        (r.0@, bind_views(r.1@)) == where_clause(
            crate::models::condition::rules(conditions@),
            bind_offset as nat,
        ),
{
    let ghost all = crate::models::condition::rules(conditions@);
    let mut binds: Vec<ConditionBind> = Vec::new();
    assert(bind_views(binds@) =~= Seq::empty());
    if conditions.len() == 0 {
        return (owned("TRUE"), binds);
    }
    let mut clauses: Vec<String> = Vec::new();
    for i in 0..conditions.len()
        invariant
            conditions.len() > 0,
            all == crate::models::condition::rules(conditions@),
            bind_offset + all_binds(all).len() <= usize::MAX,
            forall|j: int| 0 <= j < i ==> !senseless(#[trigger] all[j]),
            crate::text::texts(clauses@) == all_clauses(all.take(i as int), bind_offset as nat),
            bind_views(binds@) == all_binds(all.take(i as int)),
    {
        let c = &conditions[i];
        assert(all[i as int] == c@);
        let pointless: bool = match (&c.target, c.operator) {
            (
                ConditionTarget::QuizTotalScore,
                ConditionOperator::ContainsAll
                | ConditionOperator::ContainsAny
                | ConditionOperator::NotContains,
            ) => true,
            _ => false,
        };
        if pointless {
            let none: Vec<ConditionBind> = Vec::new();
            assert(senseless(all[i as int]));
            assert(bind_views(none@) =~= Seq::empty());
            return (owned("FALSE"), none);
        }
        proof {
            lemma_all_binds_grow(all, i + 1);
            assert(all.take(i + 1).drop_last() =~= all.take(i as int));
            assert(bind_views(binds@).len() == binds.len());
        }
        let ghost before = clauses@;
        let clause = push_condition(c, bind_offset + binds.len(), &mut binds);
        clauses.push(clause);
        assert(crate::text::texts(clauses@) =~= crate::text::texts(before).push(clause@));
    }
    assert(all.take(all.len() as int) =~= all);
    (join(&clauses, " AND "), binds)
}

// ---------------------------------------------------------------------------
// Laws of the SQL path
// ---------------------------------------------------------------------------

/// Whether `text` matches the LIKE pattern: `%` stands for any text, `_` for
/// any character, and a character after `\` for itself.
pub open spec fn like(text: Seq<char>, pattern: Seq<char>) -> bool
    decreases pattern.len(),
{
    if pattern.len() == 0 {
        text.len() == 0
    } else if pattern[0] == '%' {
        exists|i: int| 0 <= i <= text.len() && like(#[trigger] text.skip(i), pattern.skip(1))
    } else if pattern[0] == '\\' && pattern.len() > 1 {
        text.len() > 0 && text[0] == pattern[1] && like(text.skip(1), pattern.skip(2))
    } else {
        text.len() > 0 && (pattern[0] == '_' || text[0] == pattern[0]) && like(
            text.skip(1),
            pattern.skip(1),
        )
    }
}

proof fn lemma_spelled_first(s: Seq<char>, f: spec_fn(char) -> Seq<char>)
    requires
        s.len() > 0,
    ensures
        crate::text::spelled(s, f) == f(s[0]) + crate::text::spelled(s.skip(1), f),
    decreases s.len(),
{
    if s.len() == 1 {
        assert(s.drop_last() =~= Seq::empty());
        assert(s.skip(1) =~= Seq::empty());
        assert(crate::text::spelled(s.drop_last(), f) =~= Seq::empty());
        assert(crate::text::spelled(s, f) =~= f(s[0]) + crate::text::spelled(s.skip(1), f));
    } else {
        lemma_spelled_first(s.drop_last(), f);
        assert(s.drop_last().skip(1) =~= s.skip(1).drop_last());
        assert(crate::text::spelled(s, f) =~= f(s[0]) + crate::text::spelled(s.skip(1), f));
    }
}

/// An escaped text followed by `rest` matches a text just where the text begins
/// with the plain one and goes on with what `rest` matches.
proof fn lemma_escaped_prefix(text: Seq<char>, plain: Seq<char>, rest: Seq<char>)
    ensures
        like(text, like_escaped(plain) + rest) <==> (crate::text::begins_with(text, plain) && like(
            text.skip(plain.len() as int),
            rest,
        )),
    decreases plain.len(),
{
    let pattern = like_escaped(plain) + rest;
    if plain.len() == 0 {
        assert(like_escaped(plain) =~= Seq::empty());
        assert(pattern =~= rest);
        assert(text.skip(0) =~= text);
        assert(text.subrange(0, 0) =~= plain);
    } else {
        let f = |c: char| like_escape(c);
        lemma_spelled_first(plain, f);
        let more = like_escaped(plain.skip(1)) + rest;
        let c = plain[0];
        let special = c == '\\' || c == '%' || c == '_';
        if special {
            assert(pattern.skip(2) =~= more);
            assert(pattern[0] == '\\' && pattern[1] == c);
        } else {
            assert(pattern.skip(1) =~= more);
            assert(pattern[0] == c);
        }
        assert(like(text, pattern) <==> text.len() > 0 && text[0] == c && like(text.skip(1), more));
        if text.len() > 0 {
            lemma_escaped_prefix(text.skip(1), plain.skip(1), rest);
            if plain.len() <= text.len() {
                assert(text.skip(1).skip(plain.len() - 1) =~= text.skip(plain.len() as int));
            }
            if text[0] == c && crate::text::begins_with(text.skip(1), plain.skip(1)) {
                assert(text.subrange(0, plain.len() as int) =~= plain) by {
                    assert(text.skip(1).subrange(0, plain.len() - 1) == plain.skip(1));
                    assert forall|i: int| 0 <= i < plain.len() implies text[i] == plain[i] by {
                        if i > 0 {
                            assert(text.skip(1).subrange(0, plain.len() - 1)[i - 1] == plain.skip(
                                1,
                            )[i - 1]);
                        }
                    }
                }
            }
            if crate::text::begins_with(text, plain) {
                assert(text.subrange(0, plain.len() as int)[0] == plain[0]);
                assert(text.skip(1).subrange(0, plain.len() - 1) =~= plain.skip(1)) by {
                    assert forall|i: int| 0 <= i < plain.len() - 1 implies text.skip(1)[i]
                        == plain.skip(1)[i] by {
                        assert(text.subrange(0, plain.len() as int)[i + 1] == plain[i + 1]);
                    }
                }
            }
        }
    }
}

/// The pattern that a `contains` condition binds matches just the texts that
/// contain its value, as evaluation in memory has it.
pub proof fn law_like_pattern_means_containment(text: Seq<char>, value: Seq<char>)
    ensures
        like(text, "%"@ + like_escaped(value) + "%"@) <==> crate::text::has_text(text, value),
{
    reveal_strlit("%");
    let any = seq!['%'];
    assert("%"@ =~= any);
    let pattern = any + like_escaped(value) + any;
    let rest = like_escaped(value) + any;
    assert(pattern.skip(1) =~= rest);
    assert(pattern[0] == '%');
    assert forall|t: Seq<char>| #[trigger] like(t, any) by {
        reveal_with_fuel(like, 2);
        assert(any.skip(1) =~= Seq::empty());
        assert(t.skip(t.len() as int) =~= Seq::empty());
        assert(like(t.skip(t.len() as int), any.skip(1)));
    }
    if like(text, pattern) {
        let i = choose|i: int| 0 <= i <= text.len() && like(#[trigger] text.skip(i), pattern.skip(1));
        lemma_escaped_prefix(text.skip(i), value, any);
        assert(crate::text::begins_with(text.skip(i), value));
        assert(text.skip(i).subrange(0, value.len() as int) =~= text.subrange(i, i + value.len()));
        assert(crate::text::occurs_at(text, value, i));
    }
    if crate::text::has_text(text, value) {
        let i = choose|i: int| crate::text::occurs_at(text, value, i);
        assert(text.skip(i).subrange(0, value.len() as int) =~= text.subrange(i, i + value.len()));
        lemma_escaped_prefix(text.skip(i), value, any);
        assert(like(text.skip(i), pattern.skip(1)));
    }
}

/// Whether the placeholder number `n` stands at `i`: a `$` and the numeral of
/// `n`, which no further digit follows.
pub open spec fn slot_at(sql: Seq<char>, i: int, n: nat) -> bool {
    let end = i + 1 + crate::numerals::nat_text(n).len();
    &&& 0 <= i && end <= sql.len()
    &&& sql[i] == '$'
    &&& sql.subrange(i + 1, end) == crate::numerals::nat_text(n)
    &&& end < sql.len() ==> !crate::numerals::is_digit(sql[end])
}

/// Whether every placeholder in `sql` has a number above `low` and up to `high`.
pub open spec fn slots_within(sql: Seq<char>, low: nat, high: nat) -> bool {
    forall|i: int|
        0 <= i < sql.len() && #[trigger] sql[i] == '$' ==> exists|n: nat|
            low < n <= high && slot_at(sql, i, n)
}

/// A piece of SQL that can follow a placeholder, with its own placeholders in
/// bounds.
spec fn tidy(s: Seq<char>, low: nat, high: nat) -> bool {
    slots_within(s, low, high) && (s.len() > 0 ==> !crate::numerals::is_digit(s[0]))
}

proof fn lemma_tidy_glue(a: Seq<char>, b: Seq<char>, low: nat, high: nat)
    requires
        tidy(a, low, high),
        tidy(b, low, high),
    ensures
        tidy(a + b, low, high),
{
    let s = a + b;
    assert forall|i: int| 0 <= i < s.len() && #[trigger] s[i] == '$' implies exists|n: nat|
        low < n <= high && slot_at(s, i, n) by {
        if i < a.len() {
            assert(a[i] == '$');
            let n = choose|n: nat| low < n <= high && slot_at(a, i, n);
            let end = i + 1 + crate::numerals::nat_text(n).len();
            assert(s.subrange(i + 1, end) =~= a.subrange(i + 1, end));
            assert(slot_at(s, i, n));
        } else {
            let j = i - a.len();
            assert(b[j] == '$');
            let n = choose|n: nat| low < n <= high && slot_at(b, j, n);
            let end = j + 1 + crate::numerals::nat_text(n).len();
            assert(s.subrange(i + 1, a.len() + end) =~= b.subrange(j + 1, end));
            assert(slot_at(s, i, n));
        }
    }
}

proof fn lemma_tidy_widens(s: Seq<char>, low: nat, high: nat, lower: nat, higher: nat)
    requires
        tidy(s, low, high),
        lower <= low,
        high <= higher,
    ensures
        tidy(s, lower, higher),
{
    assert forall|i: int| 0 <= i < s.len() && #[trigger] s[i] == '$' implies exists|n: nat|
        lower < n <= higher && slot_at(s, i, n) by {
        let n = choose|n: nat| low < n <= high && slot_at(s, i, n);
        assert(lower < n <= higher && slot_at(s, i, n));
    }
}

/// Whether the first `k` characters hold no `$`.
spec fn free_of_slots(s: Seq<char>, k: nat) -> bool
    decreases k,
{
    k == 0 || (s[k - 1] != '$' && free_of_slots(s, (k - 1) as nat))
}

proof fn lemma_free_of_slots(s: Seq<char>, k: nat)
    requires
        free_of_slots(s, k),
    ensures
        forall|i: int| 0 <= i < k ==> #[trigger] s[i] != '$',
    decreases k,
{
    if k > 0 {
        lemma_free_of_slots(s, (k - 1) as nat);
    }
}

/// A piece of SQL without a placeholder.
spec fn plain(s: Seq<char>) -> bool {
    free_of_slots(s, s.len()) && s.len() > 0 && !crate::numerals::is_digit(s[0])
}

/// A piece of SQL that ends in the `$` of a placeholder and holds no other.
spec fn opens_slot(s: Seq<char>) -> bool {
    &&& s.len() > 0
    &&& free_of_slots(s, (s.len() - 1) as nat)
    &&& s.last() == '$'
    &&& !crate::numerals::is_digit(s[0])
}

proof fn lemma_plain_is_tidy(s: Seq<char>, low: nat, high: nat)
    requires
        plain(s),
    ensures
        tidy(s, low, high),
{
    lemma_free_of_slots(s, s.len());
}

proof fn lemma_slot_is_tidy(s: Seq<char>, n: nat, low: nat, high: nat)
    requires
        opens_slot(s),
        low < n <= high,
    ensures
        tidy(s + crate::numerals::nat_text(n), low, high),
{
    let digits = crate::numerals::nat_text(n);
    let all = s + digits;
    let last = s.len() - 1;
    lemma_free_of_slots(s, last as nat);
    crate::numerals::lemma_nat_text(n);
    assert(all.subrange(last + 1, last + 1 + digits.len()) =~= digits);
    assert(slot_at(all, last, n));
    assert forall|i: int| 0 <= i < all.len() && #[trigger] all[i] == '$' implies i == last by {
        if i > last {
            assert(all[i] == digits[i - s.len()]);
        }
    }
}

/// Pieces of SQL that hold no placeholder.
proof fn lemma_plain_pieces()
    ensures
        plain("fr.total_score::text"@),
        plain("fr.total_score::numeric"@),
        plain("FALSE"@),
        plain("TRUE"@),
        plain(")"@),
        plain("("@),
        plain(" IN ("@),
        plain(") "@),
        plain(" AND ("@),
        plain(" AND "@),
{
    assert(plain("fr.total_score::text"@)) by {
        reveal_strlit("fr.total_score::text");
        reveal_with_fuel(free_of_slots, 21);
    }
    assert(plain("fr.total_score::numeric"@)) by {
        reveal_strlit("fr.total_score::numeric");
        reveal_with_fuel(free_of_slots, 24);
    }
    assert(plain("FALSE"@)) by {
        reveal_strlit("FALSE");
        reveal_with_fuel(free_of_slots, 6);
    }
    assert(plain("TRUE"@)) by {
        reveal_strlit("TRUE");
        reveal_with_fuel(free_of_slots, 5);
    }
    assert(plain(")"@)) by {
        reveal_strlit(")");
        reveal_with_fuel(free_of_slots, 2);
    }
    assert(plain("("@)) by {
        reveal_strlit("(");
        reveal_with_fuel(free_of_slots, 2);
    }
    assert(plain(" IN ("@)) by {
        reveal_strlit(" IN (");
        reveal_with_fuel(free_of_slots, 6);
    }
    assert(plain(") "@)) by {
        reveal_strlit(") ");
        reveal_with_fuel(free_of_slots, 3);
    }
    assert(plain(" AND ("@)) by {
        reveal_strlit(" AND (");
        reveal_with_fuel(free_of_slots, 7);
    }
    assert(plain(" AND "@)) by {
        reveal_strlit(" AND ");
        reveal_with_fuel(free_of_slots, 6);
    }
}

proof fn lemma_list_pieces()
    ensures
        plain(", '')::numeric"@),
        plain(","@),
        plain("NOT ("@),
        plain(" @> "@),
        plain(" && "@),
        plain(", '[]'::jsonb)))"@),
        plain("ARRAY["@),
        plain("]::text[]"@),
{
    assert(plain(", '')::numeric"@)) by {
        reveal_strlit(", '')::numeric");
        reveal_with_fuel(free_of_slots, 15);
    }
    assert(plain(","@)) by {
        reveal_strlit(",");
        reveal_with_fuel(free_of_slots, 2);
    }
    assert(plain("NOT ("@)) by {
        reveal_strlit("NOT (");
        reveal_with_fuel(free_of_slots, 6);
    }
    assert(plain(" @> "@)) by {
        reveal_strlit(" @> ");
        reveal_with_fuel(free_of_slots, 5);
    }
    assert(plain(" && "@)) by {
        reveal_strlit(" && ");
        reveal_with_fuel(free_of_slots, 5);
    }
    assert(plain(", '[]'::jsonb)))"@)) by {
        reveal_strlit(", '[]'::jsonb)))");
        reveal_with_fuel(free_of_slots, 17);
    }
    assert(plain("ARRAY["@)) by {
        reveal_strlit("ARRAY[");
        reveal_with_fuel(free_of_slots, 7);
    }
    assert(plain("]::text[]"@)) by {
        reveal_strlit("]::text[]");
        reveal_with_fuel(free_of_slots, 10);
    }
}

proof fn lemma_sign_pieces()
    ensures
        plain(">"@),
        plain(">="@),
        plain("<"@),
        plain("<="@),
        plain("(NULLIF("@),
        plain(", '')::timestamptz) "@),
        plain("::timestamptz"@),
{
    assert(plain(">"@)) by {
        reveal_strlit(">");
        reveal_with_fuel(free_of_slots, 2);
    }
    assert(plain(">="@)) by {
        reveal_strlit(">=");
        reveal_with_fuel(free_of_slots, 3);
    }
    assert(plain("<"@)) by {
        reveal_strlit("<");
        reveal_with_fuel(free_of_slots, 2);
    }
    assert(plain("<="@)) by {
        reveal_strlit("<=");
        reveal_with_fuel(free_of_slots, 3);
    }
    assert(plain("(NULLIF("@)) by {
        reveal_strlit("(NULLIF(");
        reveal_with_fuel(free_of_slots, 9);
    }
    assert(plain(", '')::timestamptz) "@)) by {
        reveal_strlit(", '')::timestamptz) ");
        reveal_with_fuel(free_of_slots, 21);
    }
    assert(plain("::timestamptz"@)) by {
        reveal_strlit("::timestamptz");
        reveal_with_fuel(free_of_slots, 14);
    }
}

/// Pieces of SQL that end where the number of a placeholder follows.
proof fn lemma_slot_pieces()
    ensures
        opens_slot("$"@),
        opens_slot(" = $"@),
        opens_slot(" IS DISTINCT FROM $"@),
        opens_slot(" LIKE $"@),
        opens_slot(" ~ $"@),
        opens_slot(" $"@),
        opens_slot(") >= $"@),
        opens_slot(") <= $"@),
{
    assert(opens_slot("$"@)) by {
        reveal_strlit("$");
        reveal_with_fuel(free_of_slots, 1);
    }
    assert(opens_slot(" = $"@)) by {
        reveal_strlit(" = $");
        reveal_with_fuel(free_of_slots, 4);
    }
    assert(opens_slot(" IS DISTINCT FROM $"@)) by {
        reveal_strlit(" IS DISTINCT FROM $");
        reveal_with_fuel(free_of_slots, 19);
    }
    assert(opens_slot(" LIKE $"@)) by {
        reveal_strlit(" LIKE $");
        reveal_with_fuel(free_of_slots, 7);
    }
    assert(opens_slot(" ~ $"@)) by {
        reveal_strlit(" ~ $");
        reveal_with_fuel(free_of_slots, 4);
    }
    assert(opens_slot(" $"@)) by {
        reveal_strlit(" $");
        reveal_with_fuel(free_of_slots, 2);
    }
    assert(opens_slot(") >= $"@)) by {
        reveal_strlit(") >= $");
        reveal_with_fuel(free_of_slots, 6);
    }
    assert(opens_slot(") <= $"@)) by {
        reveal_strlit(") <= $");
        reveal_with_fuel(free_of_slots, 6);
    }
}

proof fn lemma_target_pieces()
    ensures
        opens_slot("(fr.answers ->> $"@),
        opens_slot("NULLIF(fr.answers ->> $"@),
{
    assert(opens_slot("(fr.answers ->> $"@)) by {
        reveal_strlit("(fr.answers ->> $");
        reveal_with_fuel(free_of_slots, 17);
    }
    assert(opens_slot("NULLIF(fr.answers ->> $"@)) by {
        reveal_strlit("NULLIF(fr.answers ->> $");
        reveal_with_fuel(free_of_slots, 23);
    }
}

proof fn lemma_choice_piece()
    ensures
        opens_slot("ARRAY(SELECT jsonb_array_elements_text(COALESCE(fr.answers -> $"@),
{
    assert(opens_slot("ARRAY(SELECT jsonb_array_elements_text(COALESCE(fr.answers -> $"@)) by {
        reveal_strlit("ARRAY(SELECT jsonb_array_elements_text(COALESCE(fr.answers -> $");
        reveal_with_fuel(free_of_slots, 63);
    }
}

/// The pieces of SQL that the clauses are made of.
proof fn lemma_pieces()
    ensures
        plain("fr.total_score::text"@),
        plain("fr.total_score::numeric"@),
        plain("FALSE"@),
        plain("TRUE"@),
        plain(")"@),
        plain("("@),
        plain(" IN ("@),
        plain(") "@),
        plain(" AND ("@),
        plain(" AND "@),
        plain(", '')::numeric"@),
        plain(","@),
        plain("NOT ("@),
        plain(" @> "@),
        plain(" && "@),
        plain(", '[]'::jsonb)))"@),
        plain("ARRAY["@),
        plain("]::text[]"@),
        plain(">"@),
        plain(">="@),
        plain("<"@),
        plain("<="@),
        plain("(NULLIF("@),
        plain(", '')::timestamptz) "@),
        plain("::timestamptz"@),
        opens_slot("$"@),
        opens_slot(" = $"@),
        opens_slot(" IS DISTINCT FROM $"@),
        opens_slot(" LIKE $"@),
        opens_slot(" ~ $"@),
        opens_slot(" $"@),
        opens_slot(") >= $"@),
        opens_slot(") <= $"@),
        opens_slot("(fr.answers ->> $"@),
        opens_slot("NULLIF(fr.answers ->> $"@),
        opens_slot("ARRAY(SELECT jsonb_array_elements_text(COALESCE(fr.answers -> $"@),
{
    lemma_plain_pieces();
    lemma_list_pieces();
    lemma_sign_pieces();
    lemma_slot_pieces();
    lemma_target_pieces();
    lemma_choice_piece();
}

proof fn lemma_placeholders_are_tidy(first: nat, count: nat, low: nat, high: nat)
    requires
        low < first,
        first + count <= high + 1,
    ensures
        tidy(placeholders(first, count), low, high),
    decreases count,
{
    let of = |k: nat| Seq::new(k, |i: int| placeholder((first + i) as nat));
    lemma_pieces();
    if count > 0 {
        let last = (first + count - 1) as nat;
        lemma_slot_is_tidy("$"@, last, low, high);
        assert(of(count).last() == placeholder(last));
        if count > 1 {
            lemma_placeholders_are_tidy(first, (count - 1) as nat, low, high);
            assert(of(count).drop_last() =~= of((count - 1) as nat));
            let before = placeholders(first, (count - 1) as nat);
            lemma_plain_is_tidy(","@, low, high);
            lemma_tidy_glue(before, ","@, low, high);
            lemma_tidy_glue(before + ","@, placeholder(last), low, high);
        }
    }
}

proof fn lemma_target_is_tidy(target: Target, base: nat, high: nat)
    requires
        base + target_slots(target) <= high,
    ensures
        tidy(target_text(target, base + 1), base, high),
        tidy(target_number(target, base + 1), base, high),
{
    lemma_pieces();
    match target {
        Target::Question(_) => {
            lemma_slot_is_tidy("(fr.answers ->> $"@, base + 1, base, high);
            lemma_plain_is_tidy(")"@, base, high);
            lemma_tidy_glue(
                "(fr.answers ->> $"@ + crate::numerals::nat_text(base + 1),
                ")"@,
                base,
                high,
            );
            lemma_slot_is_tidy("NULLIF(fr.answers ->> $"@, base + 1, base, high);
            lemma_plain_is_tidy(", '')::numeric"@, base, high);
            lemma_tidy_glue(
                "NULLIF(fr.answers ->> $"@ + crate::numerals::nat_text(base + 1),
                ", '')::numeric"@,
                base,
                high,
            );
        },
        Target::QuizTotalScore => {
            lemma_plain_is_tidy("fr.total_score::text"@, base, high);
            lemma_plain_is_tidy("fr.total_score::numeric"@, base, high);
        },
    }
}

proof fn lemma_choices_are_tidy(first: nat, count: nat, low: nat, high: nat)
    requires
        low < first,
        first + count <= high,
    ensures
        tidy(chosen_array(first), low, high),
        tidy(listed_array(first + 1, count), low, high),
{
    lemma_pieces();
    let opening = "ARRAY(SELECT jsonb_array_elements_text(COALESCE(fr.answers -> $"@;
    lemma_slot_is_tidy(opening, first, low, high);
    lemma_plain_is_tidy(", '[]'::jsonb)))"@, low, high);
    lemma_tidy_glue(
        opening + crate::numerals::nat_text(first),
        ", '[]'::jsonb)))"@,
        low,
        high,
    );
    lemma_placeholders_are_tidy(first + 1, count, low, high);
    lemma_plain_is_tidy("ARRAY["@, low, high);
    lemma_plain_is_tidy("]::text[]"@, low, high);
    lemma_tidy_glue("ARRAY["@, placeholders(first + 1, count), low, high);
    lemma_tidy_glue("ARRAY["@ + placeholders(first + 1, count), "]::text[]"@, low, high);
}

/// `a`, then a piece that ends in `$`, then the number of the placeholder.
proof fn lemma_tidy_slot_after(a: Seq<char>, piece: Seq<char>, n: nat, low: nat, high: nat)
    requires
        tidy(a, low, high),
        opens_slot(piece),
        low < n <= high,
    ensures
        tidy(a + piece + crate::numerals::nat_text(n), low, high),
{
    let number = crate::numerals::nat_text(n);
    lemma_slot_is_tidy(piece, n, low, high);
    lemma_tidy_glue(a, piece + number, low, high);
    assert(a + piece + number =~= a + (piece + number));
}

/// `a`, then a piece without a placeholder.
proof fn lemma_tidy_plain_after(a: Seq<char>, piece: Seq<char>, low: nat, high: nat)
    requires
        tidy(a, low, high),
        plain(piece),
    ensures
        tidy(a + piece, low, high),
{
    lemma_plain_is_tidy(piece, low, high);
    lemma_tidy_glue(a, piece, low, high);
}

/// A piece without a placeholder, then `a`.
proof fn lemma_tidy_plain_before(piece: Seq<char>, a: Seq<char>, low: nat, high: nat)
    requires
        tidy(a, low, high),
        plain(piece),
    ensures
        tidy(piece + a, low, high),
{
    lemma_plain_is_tidy(piece, low, high);
    lemma_tidy_glue(piece, a, low, high);
}

proof fn lemma_rule_is_tidy(rule: Rule, base: nat)
    requires
        !senseless(rule),
    ensures
        tidy(rule_clause(rule, base), base, base + rule_binds(rule).len()),
{
    let high = base + rule_binds(rule).len();
    let text = target_text(rule.target, base + 1);
    let number = target_number(rule.target, base + 1);
    let first = base + target_slots(rule.target) + 1;
    let count = rule.value.text_items().len();
    lemma_pieces();
    lemma_target_is_tidy(rule.target, base, high);
    match rule.operator {
        ConditionOperator::Eq => {
            lemma_tidy_slot_after(text, " = $"@, first, base, high);
        },
        ConditionOperator::Neq => {
            lemma_tidy_plain_before("("@, text, base, high);
            lemma_tidy_slot_after("("@ + text, " IS DISTINCT FROM $"@, first, base, high);
            lemma_tidy_plain_after(
                "("@ + text + " IS DISTINCT FROM $"@ + crate::numerals::nat_text(first),
                ")"@,
                base,
                high,
            );
        },
        ConditionOperator::Contains => {
            lemma_tidy_slot_after(text, " LIKE $"@, first, base, high);
        },
        ConditionOperator::Regex => {
            lemma_tidy_slot_after(text, " ~ $"@, first, base, high);
        },
        ConditionOperator::In => {
            if count == 0 {
                lemma_plain_is_tidy("FALSE"@, base, high);
            } else {
                lemma_placeholders_are_tidy(first, count, base, high);
                lemma_tidy_plain_after(text, " IN ("@, base, high);
                lemma_tidy_glue(text + " IN ("@, placeholders(first, count), base, high);
                lemma_tidy_plain_after(
                    text + " IN ("@ + placeholders(first, count),
                    ")"@,
                    base,
                    high,
                );
            }
        },
        ConditionOperator::ContainsAll
        | ConditionOperator::ContainsAny
        | ConditionOperator::NotContains => {
            let chosen = chosen_array(first);
            let listed = listed_array(first + 1, count);
            lemma_plain_is_tidy("FALSE"@, base, high);
            lemma_plain_is_tidy("TRUE"@, base, high);
            lemma_choices_are_tidy(first, count, base, high);
            lemma_tidy_plain_after(chosen, " @> "@, base, high);
            lemma_tidy_glue(chosen + " @> "@, listed, base, high);
            lemma_tidy_plain_after(chosen, " && "@, base, high);
            lemma_tidy_glue(chosen + " && "@, listed, base, high);
            lemma_tidy_plain_before("NOT ("@, chosen, base, high);
            lemma_tidy_plain_after("NOT ("@ + chosen, " && "@, base, high);
            lemma_tidy_glue("NOT ("@ + chosen + " && "@, listed, base, high);
            lemma_tidy_plain_after("NOT ("@ + chosen + " && "@ + listed, ")"@, base, high);
        },
        ConditionOperator::Gt
        | ConditionOperator::Gte
        | ConditionOperator::Lt
        | ConditionOperator::Lte => {
            let sign = sign(rule.operator);
            lemma_tidy_plain_before("("@, number, base, high);
            lemma_tidy_plain_after("("@ + number, ") "@, base, high);
            lemma_tidy_plain_after("("@ + number + ") "@, sign, base, high);
            lemma_tidy_slot_after("("@ + number + ") "@ + sign, " $"@, first, base, high);
        },
        ConditionOperator::Between => {
            lemma_tidy_plain_before("("@, number, base, high);
            lemma_tidy_slot_after("("@ + number, ") >= $"@, first, base, high);
            let lower = "("@ + number + ") >= $"@ + crate::numerals::nat_text(first);
            lemma_tidy_plain_after(lower, " AND ("@, base, high);
            lemma_tidy_glue(lower + " AND ("@, number, base, high);
            lemma_tidy_slot_after(
                lower + " AND ("@ + number,
                ") <= $"@,
                first + 1,
                base,
                high,
            );
        },
        ConditionOperator::Before | ConditionOperator::After => {
            let sign = sign(rule.operator);
            let opened = "(NULLIF("@ + text;
            let closed = opened + ", '')::timestamptz) "@;
            lemma_tidy_plain_before("(NULLIF("@, text, base, high);
            lemma_tidy_plain_after(opened, ", '')::timestamptz) "@, base, high);
            lemma_tidy_plain_after(closed, sign, base, high);
            lemma_tidy_slot_after(closed + sign, " $"@, first, base, high);
            lemma_tidy_plain_after(
                closed + sign + " $"@ + crate::numerals::nat_text(first),
                "::timestamptz"@,
                base,
                high,
            );
        },
    }
}

proof fn lemma_clauses_are_tidy(rules: Seq<Rule>, offset: nat)
    requires
        forall|i: int| 0 <= i < rules.len() ==> !senseless(#[trigger] rules[i]),
    ensures
        tidy(
            crate::text::joined(all_clauses(rules, offset), " AND "@),
            offset,
            offset + all_binds(rules).len(),
        ),
        all_clauses(rules, offset).len() == rules.len(),
    decreases rules.len(),
{
    let high = offset + all_binds(rules).len();
    if rules.len() > 0 {
        let before = rules.drop_last();
        assert forall|i: int| 0 <= i < before.len() implies !senseless(#[trigger] before[i]) by {
            assert(before[i] == rules[i]);
        }
        lemma_clauses_are_tidy(before, offset);
        let base = offset + all_binds(before).len();
        assert(!senseless(rules[rules.len() - 1]));
        lemma_rule_is_tidy(rules.last(), base);
        let clause = rule_clause(rules.last(), base);
        lemma_tidy_widens(clause, base, high, offset, high);
        let clauses = all_clauses(rules, offset);
        assert(clauses.drop_last() =~= all_clauses(before, offset));
        assert(clauses.last() == clause);
        if rules.len() > 1 {
            let earlier = crate::text::joined(all_clauses(before, offset), " AND "@);
            lemma_tidy_widens(earlier, offset, base, offset, high);
            lemma_pieces();
            lemma_tidy_plain_after(earlier, " AND "@, offset, high);
            lemma_tidy_glue(earlier + " AND "@, clause, offset, high);
        }
    }
}

/// Every placeholder in the WHERE clause stands for one of the values that come
/// with it: their numbers start after the offset, and none goes beyond the last
/// value.
pub proof fn law_placeholders_have_values(rules: Seq<Rule>, offset: nat)
    ensures
        slots_within(
            where_clause(rules, offset).0,
            offset,
            offset + where_clause(rules, offset).1.len(),
        ),
{
    lemma_pieces();
    lemma_plain_is_tidy("TRUE"@, offset, offset);
    lemma_plain_is_tidy("FALSE"@, offset, offset);
    if forall|i: int| 0 <= i < rules.len() ==> !senseless(#[trigger] rules[i]) {
        lemma_clauses_are_tidy(rules, offset);
    }
}

/// Where the digits from `i` on end.
pub open spec fn digits_end(s: Seq<char>, i: int) -> int
    decreases s.len() - i,
{
    if 0 <= i < s.len() && crate::numerals::is_digit(s[i]) {
        digits_end(s, i + 1)
    } else {
        i
    }
}

/// `sql` with `by` added to the number of each placeholder.
pub open spec fn renumbered(sql: Seq<char>, by: nat) -> Seq<char>
    decreases sql.len(),
    via renumbered_decreases
{
    if sql.len() == 0 {
        Seq::empty()
    } else if sql[0] == '$' && digits_end(sql, 1) > 1 {
        let end = digits_end(sql, 1);
        seq!['$'] + crate::numerals::nat_text(
            crate::numerals::digits_value(sql.subrange(1, end)) + by,
        ) + renumbered(sql.skip(end), by)
    } else {
        seq![sql[0]] + renumbered(sql.skip(1), by)
    }
}

#[via_fn]
proof fn renumbered_decreases(sql: Seq<char>, by: nat) {
    if sql.len() > 0 {
        lemma_digits_end(sql, 1);
    }
}

proof fn lemma_digits_end(s: Seq<char>, i: int)
    requires
        0 <= i <= s.len(),
    ensures
        i <= digits_end(s, i) <= s.len(),
        forall|j: int| i <= j < digits_end(s, i) ==> crate::numerals::is_digit(#[trigger] s[j]),
        digits_end(s, i) < s.len() ==> !crate::numerals::is_digit(s[digits_end(s, i)]),
    decreases s.len() - i,
{
    if i < s.len() && crate::numerals::is_digit(s[i]) {
        lemma_digits_end(s, i + 1);
    }
}

proof fn lemma_digits_end_is(s: Seq<char>, i: int, end: int)
    requires
        0 <= i <= end <= s.len(),
        forall|j: int| i <= j < end ==> crate::numerals::is_digit(#[trigger] s[j]),
        end < s.len() ==> !crate::numerals::is_digit(s[end]),
    ensures
        digits_end(s, i) == end,
    decreases end - i,
{
    if i < end {
        lemma_digits_end_is(s, i + 1, end);
    }
}

/// Renumbering goes piece by piece, where no piece goes on with a digit.
proof fn lemma_renumbered_glue(a: Seq<char>, b: Seq<char>, by: nat)
    requires
        b.len() > 0 ==> !crate::numerals::is_digit(b[0]),
    ensures
        renumbered(a + b, by) == renumbered(a, by) + renumbered(b, by),
    decreases a.len(),
{
    let s = a + b;
    if a.len() == 0 {
        assert(s =~= b);
        assert(renumbered(a, by) + renumbered(b, by) =~= renumbered(b, by));
    } else {
        lemma_digits_end(a, 1);
        let end = digits_end(a, 1);
        lemma_digits_end_is(s, 1, end);
        assert(s[0] == a[0]);
        if a[0] == '$' && end > 1 {
            assert(s.subrange(1, end) =~= a.subrange(1, end));
            assert(s.skip(end) =~= a.skip(end) + b);
            lemma_renumbered_glue(a.skip(end), b, by);
        } else {
            assert(s.skip(1) =~= a.skip(1) + b);
            lemma_renumbered_glue(a.skip(1), b, by);
        }
        assert(renumbered(s, by) =~= renumbered(a, by) + renumbered(b, by));
    }
}

/// `a` becomes `b` when its placeholders are renumbered, and can follow a
/// placeholder.
#[verifier::opaque]
spec fn becomes(a: Seq<char>, b: Seq<char>, by: nat) -> bool {
    renumbered(a, by) == b && (a.len() > 0 ==> !crate::numerals::is_digit(a[0]))
}

proof fn lemma_becomes_glue(a: Seq<char>, x: Seq<char>, b: Seq<char>, y: Seq<char>, by: nat)
    requires
        becomes(a, x, by),
        becomes(b, y, by),
    ensures
        becomes(a + b, x + y, by),
{
    reveal(becomes);
    lemma_renumbered_glue(a, b, by);
}

proof fn lemma_free_stays(s: Seq<char>, by: nat)
    requires
        free_of_slots(s, s.len()),
    ensures
        renumbered(s, by) == s,
    decreases s.len(),
{
    if s.len() > 0 {
        lemma_free_of_slots(s, s.len());
        let rest = s.skip(1);
        lemma_free_from(rest, rest.len());
        lemma_free_stays(rest, by);
        assert(s[0] != '$');
        assert(seq![s[0]] + rest =~= s);
    }
}

proof fn lemma_free_from(s: Seq<char>, k: nat)
    requires
        k <= s.len(),
        forall|i: int| 0 <= i < k ==> #[trigger] s[i] != '$',
    ensures
        free_of_slots(s, k),
    decreases k,
{
    if k > 0 {
        lemma_free_from(s, (k - 1) as nat);
    }
}

proof fn lemma_plain_stays(s: Seq<char>, by: nat)
    requires
        plain(s),
    ensures
        becomes(s, s, by),
{
    reveal(becomes);
    lemma_free_stays(s, by);
}

proof fn lemma_slot_moves(s: Seq<char>, n: nat, by: nat)
    requires
        opens_slot(s),
    ensures
        becomes(
            s + crate::numerals::nat_text(n),
            s + crate::numerals::nat_text(n + by),
            by,
        ),
{
    reveal(becomes);
    let digits = crate::numerals::nat_text(n);
    let front = s.drop_last();
    let slot = seq!['$'] + digits;
    lemma_free_of_slots(s, front.len());
    lemma_free_from(front, front.len());
    lemma_free_stays(front, by);
    crate::numerals::lemma_nat_text(n);
    lemma_digits_end_is(slot, 1, slot.len() as int);
    assert(slot.subrange(1, slot.len() as int) =~= digits);
    assert(slot.skip(slot.len() as int) =~= Seq::empty());
    let moved = seq!['$'] + crate::numerals::nat_text(n + by);
    assert(renumbered(slot.skip(slot.len() as int), by) =~= Seq::empty());
    assert(renumbered(slot, by) =~= moved);
    lemma_renumbered_glue(front, slot, by);
    assert(front + slot =~= s + digits);
    assert(front + moved =~= s + crate::numerals::nat_text(n + by));
}

/// `a`, then a piece that ends in `$`, then the number of the placeholder.
proof fn lemma_becomes_slot_after(a: Seq<char>, x: Seq<char>, piece: Seq<char>, n: nat, by: nat)
    requires
        becomes(a, x, by),
        opens_slot(piece),
    ensures
        becomes(
            a + piece + crate::numerals::nat_text(n),
            x + piece + crate::numerals::nat_text(n + by),
            by,
        ),
{
    let number = crate::numerals::nat_text(n);
    let moved = crate::numerals::nat_text(n + by);
    lemma_slot_moves(piece, n, by);
    lemma_becomes_glue(a, x, piece + number, piece + moved, by);
    assert(a + piece + number =~= a + (piece + number));
    assert(x + piece + moved =~= x + (piece + moved));
}

/// `a`, then a piece without a placeholder.
proof fn lemma_becomes_plain_after(a: Seq<char>, x: Seq<char>, piece: Seq<char>, by: nat)
    requires
        becomes(a, x, by),
        plain(piece),
    ensures
        becomes(a + piece, x + piece, by),
{
    lemma_plain_stays(piece, by);
    lemma_becomes_glue(a, x, piece, piece, by);
}

/// A piece without a placeholder, then `a`.
proof fn lemma_becomes_plain_before(piece: Seq<char>, a: Seq<char>, x: Seq<char>, by: nat)
    requires
        becomes(a, x, by),
        plain(piece),
    ensures
        becomes(piece + a, piece + x, by),
{
    lemma_plain_stays(piece, by);
    lemma_becomes_glue(piece, piece, a, x, by);
}

/// The last of the placeholders stands behind the others.
proof fn lemma_last_placeholder(first: nat, count: nat)
    ensures
        count == 1 ==> placeholders(first, count) == placeholder(first),
        count > 1 ==> placeholders(first, count) == placeholders(first, (count - 1) as nat) + ","@
            + placeholder((first + count - 1) as nat),
{
    let of = Seq::new(count, |i: int| placeholder((first + i) as nat));
    if count > 0 {
        assert(of.last() == placeholder((first + count - 1) as nat));
        let fewer = (count - 1) as nat;
        assert(of.drop_last() =~= Seq::new(fewer, |i: int| placeholder((first + i) as nat)));
    }
}

proof fn lemma_placeholders_move(first: nat, count: nat, by: nat)
    ensures
        becomes(placeholders(first, count), placeholders(first + by, count), by),
    decreases count,
{
    if count == 0 {
        reveal(becomes);
        assert(placeholders(first, count) =~= Seq::empty());
        assert(placeholders(first + by, count) =~= Seq::empty());
    } else {
        let last = (first + count - 1) as nat;
        assert(opens_slot("$"@)) by {
            lemma_pieces();
        }
        lemma_slot_moves("$"@, last, by);
        lemma_last_placeholder(first, count);
        lemma_last_placeholder(first + by, count);
        assert((first + by + count - 1) as nat == last + by);
        if count > 1 {
            let fewer = (count - 1) as nat;
            lemma_placeholders_move(first, fewer, by);
            assert(plain(","@)) by {
                lemma_pieces();
            }
            let a = placeholders(first, fewer);
            let x = placeholders(first + by, fewer);
            lemma_becomes_plain_after(a, x, ","@, by);
            lemma_becomes_glue(a + ","@, x + ","@, placeholder(last), placeholder(last + by), by);
        }
    }
}

proof fn lemma_target_moves(target: Target, slot: nat, by: nat)
    ensures
        becomes(target_text(target, slot), target_text(target, slot + by), by),
        becomes(target_number(target, slot), target_number(target, slot + by), by),
{
    lemma_pieces();
    match target {
        Target::Question(_) => {
            let number = crate::numerals::nat_text(slot);
            let moved = crate::numerals::nat_text(slot + by);
            lemma_slot_moves("(fr.answers ->> $"@, slot, by);
            lemma_becomes_plain_after(
                "(fr.answers ->> $"@ + number,
                "(fr.answers ->> $"@ + moved,
                ")"@,
                by,
            );
            lemma_slot_moves("NULLIF(fr.answers ->> $"@, slot, by);
            lemma_becomes_plain_after(
                "NULLIF(fr.answers ->> $"@ + number,
                "NULLIF(fr.answers ->> $"@ + moved,
                ", '')::numeric"@,
                by,
            );
        },
        Target::QuizTotalScore => {
            lemma_plain_stays("fr.total_score::text"@, by);
            lemma_plain_stays("fr.total_score::numeric"@, by);
        },
    }
}

proof fn lemma_choices_move(first: nat, count: nat, by: nat)
    ensures
        becomes(chosen_array(first), chosen_array(first + by), by),
        becomes(listed_array(first + 1, count), listed_array(first + by + 1, count), by),
{
    lemma_pieces();
    let opening = "ARRAY(SELECT jsonb_array_elements_text(COALESCE(fr.answers -> $"@;
    lemma_slot_moves(opening, first, by);
    lemma_becomes_plain_after(
        opening + crate::numerals::nat_text(first),
        opening + crate::numerals::nat_text(first + by),
        ", '[]'::jsonb)))"@,
        by,
    );
    lemma_placeholders_move(first + 1, count, by);
    let a = placeholders(first + 1, count);
    let x = placeholders(first + by + 1, count);
    assert(first + 1 + by == first + by + 1);
    lemma_becomes_plain_before("ARRAY["@, a, x, by);
    lemma_becomes_plain_after("ARRAY["@ + a, "ARRAY["@ + x, "]::text[]"@, by);
}

proof fn lemma_rule_moves(rule: Rule, base: nat, by: nat)
    ensures
        becomes(rule_clause(rule, base), rule_clause(rule, base + by), by),
{
    let text = target_text(rule.target, base + 1);
    let text_moved = target_text(rule.target, base + by + 1);
    let number = target_number(rule.target, base + 1);
    let number_moved = target_number(rule.target, base + by + 1);
    let first = base + target_slots(rule.target) + 1;
    let first_moved = base + by + target_slots(rule.target) + 1;
    let n = crate::numerals::nat_text(first);
    let n_moved = crate::numerals::nat_text(first_moved);
    let count = rule.value.text_items().len();
    assert(base + 1 + by == base + by + 1);
    assert(first + by == first_moved);
    lemma_pieces();
    lemma_target_moves(rule.target, base + 1, by);
    match rule.operator {
        ConditionOperator::Eq => {
            lemma_becomes_slot_after(text, text_moved, " = $"@, first, by);
        },
        ConditionOperator::Neq => {
            lemma_becomes_plain_before("("@, text, text_moved, by);
            lemma_becomes_slot_after(
                "("@ + text,
                "("@ + text_moved,
                " IS DISTINCT FROM $"@,
                first,
                by,
            );
            lemma_becomes_plain_after(
                "("@ + text + " IS DISTINCT FROM $"@ + n,
                "("@ + text_moved + " IS DISTINCT FROM $"@ + n_moved,
                ")"@,
                by,
            );
        },
        ConditionOperator::Contains => {
            lemma_becomes_slot_after(text, text_moved, " LIKE $"@, first, by);
        },
        ConditionOperator::Regex => {
            lemma_becomes_slot_after(text, text_moved, " ~ $"@, first, by);
        },
        ConditionOperator::In => {
            if count == 0 {
                lemma_plain_stays("FALSE"@, by);
            } else {
                let a = placeholders(first, count);
                let x = placeholders(first_moved, count);
                lemma_placeholders_move(first, count, by);
                lemma_becomes_plain_after(text, text_moved, " IN ("@, by);
                lemma_becomes_glue(text + " IN ("@, text_moved + " IN ("@, a, x, by);
                lemma_becomes_plain_after(
                    text + " IN ("@ + a,
                    text_moved + " IN ("@ + x,
                    ")"@,
                    by,
                );
            }
        },
        ConditionOperator::ContainsAll
        | ConditionOperator::ContainsAny
        | ConditionOperator::NotContains => {
            lemma_plain_stays("FALSE"@, by);
            lemma_plain_stays("TRUE"@, by);
            lemma_choice_tests_move(first, first_moved, count, by);
        },
        ConditionOperator::Gt
        | ConditionOperator::Gte
        | ConditionOperator::Lt
        | ConditionOperator::Lte => {
            let sign = sign(rule.operator);
            lemma_becomes_plain_before("("@, number, number_moved, by);
            lemma_becomes_plain_after("("@ + number, "("@ + number_moved, ") "@, by);
            lemma_becomes_plain_after(
                "("@ + number + ") "@,
                "("@ + number_moved + ") "@,
                sign,
                by,
            );
            lemma_becomes_slot_after(
                "("@ + number + ") "@ + sign,
                "("@ + number_moved + ") "@ + sign,
                " $"@,
                first,
                by,
            );
        },
        ConditionOperator::Between => {
            let lower = "("@ + number + ") >= $"@ + n;
            let lower_moved = "("@ + number_moved + ") >= $"@ + n_moved;
            lemma_becomes_plain_before("("@, number, number_moved, by);
            lemma_becomes_slot_after("("@ + number, "("@ + number_moved, ") >= $"@, first, by);
            lemma_becomes_plain_after(lower, lower_moved, " AND ("@, by);
            lemma_becomes_glue(
                lower + " AND ("@,
                lower_moved + " AND ("@,
                number,
                number_moved,
                by,
            );
            assert(first + 1 + by == first_moved + 1);
            lemma_becomes_slot_after(
                lower + " AND ("@ + number,
                lower_moved + " AND ("@ + number_moved,
                ") <= $"@,
                first + 1,
                by,
            );
        },
        ConditionOperator::Before | ConditionOperator::After => {
            let sign = sign(rule.operator);
            let closed = "(NULLIF("@ + text + ", '')::timestamptz) "@;
            let closed_moved = "(NULLIF("@ + text_moved + ", '')::timestamptz) "@;
            lemma_becomes_plain_before("(NULLIF("@, text, text_moved, by);
            lemma_becomes_plain_after(
                "(NULLIF("@ + text,
                "(NULLIF("@ + text_moved,
                ", '')::timestamptz) "@,
                by,
            );
            lemma_becomes_plain_after(closed, closed_moved, sign, by);
            lemma_becomes_slot_after(closed + sign, closed_moved + sign, " $"@, first, by);
            lemma_becomes_plain_after(
                closed + sign + " $"@ + n,
                closed_moved + sign + " $"@ + n_moved,
                "::timestamptz"@,
                by,
            );
        },
    }
}

proof fn lemma_choice_tests_move(first: nat, first_moved: nat, count: nat, by: nat)
    requires
        first_moved == first + by,
    ensures
        becomes(
            chosen_array(first) + " @> "@ + listed_array(first + 1, count),
            chosen_array(first_moved) + " @> "@ + listed_array(first_moved + 1, count),
            by,
        ),
        becomes(
            chosen_array(first) + " && "@ + listed_array(first + 1, count),
            chosen_array(first_moved) + " && "@ + listed_array(first_moved + 1, count),
            by,
        ),
        becomes(
            "NOT ("@ + chosen_array(first) + " && "@ + listed_array(first + 1, count) + ")"@,
            "NOT ("@ + chosen_array(first_moved) + " && "@ + listed_array(first_moved + 1, count)
                + ")"@,
            by,
        ),
{
    lemma_pieces();
    lemma_choices_move(first, count, by);
    let chosen = chosen_array(first);
    let chosen_moved = chosen_array(first_moved);
    let list = listed_array(first + 1, count);
    let list_moved = listed_array(first_moved + 1, count);
    lemma_becomes_plain_after(chosen, chosen_moved, " @> "@, by);
    lemma_becomes_glue(chosen + " @> "@, chosen_moved + " @> "@, list, list_moved, by);
    lemma_becomes_plain_after(chosen, chosen_moved, " && "@, by);
    lemma_becomes_glue(chosen + " && "@, chosen_moved + " && "@, list, list_moved, by);
    lemma_becomes_plain_before("NOT ("@, chosen, chosen_moved, by);
    lemma_becomes_plain_after("NOT ("@ + chosen, "NOT ("@ + chosen_moved, " && "@, by);
    lemma_becomes_glue(
        "NOT ("@ + chosen + " && "@,
        "NOT ("@ + chosen_moved + " && "@,
        list,
        list_moved,
        by,
    );
    lemma_becomes_plain_after(
        "NOT ("@ + chosen + " && "@ + list,
        "NOT ("@ + chosen_moved + " && "@ + list_moved,
        ")"@,
        by,
    );
}

proof fn lemma_clauses_move(rules: Seq<Rule>, offset: nat, by: nat)
    ensures
        becomes(
            crate::text::joined(all_clauses(rules, offset), " AND "@),
            crate::text::joined(all_clauses(rules, offset + by), " AND "@),
            by,
        ),
        all_clauses(rules, offset).len() == rules.len(),
        all_clauses(rules, offset + by).len() == rules.len(),
    decreases rules.len(),
{
    if rules.len() == 0 {
        reveal(becomes);
    } else {
        let before = rules.drop_last();
        lemma_clauses_move(before, offset, by);
        let base = offset + all_binds(before).len();
        assert(offset + by + all_binds(before).len() == base + by);
        lemma_rule_moves(rules.last(), base, by);
        let clauses = all_clauses(rules, offset);
        let moved = all_clauses(rules, offset + by);
        assert(clauses.drop_last() =~= all_clauses(before, offset));
        assert(moved.drop_last() =~= all_clauses(before, offset + by));
        if rules.len() > 1 {
            let a = crate::text::joined(all_clauses(before, offset), " AND "@);
            let x = crate::text::joined(all_clauses(before, offset + by), " AND "@);
            assert(plain(" AND "@)) by {
                lemma_pieces();
            }
            lemma_becomes_plain_after(a, x, " AND "@, by);
            lemma_becomes_glue(a + " AND "@, x + " AND "@, clauses.last(), moved.last(), by);
        }
    }
}

/// Another offset only renumbers the placeholders: the values that are bound stay
/// the same, and every `$k` of the clause for no offset becomes `$(k + offset)`.
pub proof fn law_offsets_renumber_placeholders(rules: Seq<Rule>, offset: nat)
    ensures
        where_clause(rules, offset).0 == renumbered(where_clause(rules, 0).0, offset),
        where_clause(rules, offset).1 == where_clause(rules, 0).1,
{
    reveal(becomes);
    lemma_pieces();
    lemma_plain_stays("TRUE"@, offset);
    lemma_plain_stays("FALSE"@, offset);
    lemma_clauses_move(rules, 0, offset);
}

// ---------------------------------------------------------------------------
// What the clauses mean
// ---------------------------------------------------------------------------

/// A SQL test of the text of an answer, by the numbers of its placeholders: that
/// of the question's id, and those of the values.
pub enum SqlTest {
    Equals { key: nat, value: nat },
    Differs { key: nat, value: nat },
    Like { key: nat, pattern: nat },
    OneOf { key: nat, first: nat, count: nat },
}

/// What is bound to the placeholder number `n`, as text.
pub open spec fn bound_text(params: Seq<Bind>, n: nat) -> Seq<char> {
    match params[n - 1] {
        Bind::Text(s) => s,
        Bind::Int(_) => Seq::empty(),
    }
}

/// What `fr.answers ->> id` gives: the answer's text, or NULL.
pub open spec fn answer_text(answers: Json, id: Seq<char>) -> Option<Seq<char>> {
    match answers.field(id) {
        Some(v) => as_text(v),
        None => None,
    }
}

impl SqlTest {
    /// How the test is written.
    pub open spec fn sql(self) -> Seq<char> {
        let number = |n: nat| crate::numerals::nat_text(n);
        match self {
            SqlTest::Equals { key, value } => "(fr.answers ->> $"@ + number(key) + ")"@ + " = $"@
                + number(value),
            SqlTest::Differs { key, value } => "("@ + ("(fr.answers ->> $"@ + number(key) + ")"@)
                + " IS DISTINCT FROM $"@ + number(value) + ")"@,
            SqlTest::Like { key, pattern } => "(fr.answers ->> $"@ + number(key) + ")"@
                + " LIKE $"@ + number(pattern),
            SqlTest::OneOf { key, first, count } => "(fr.answers ->> $"@ + number(key) + ")"@
                + " IN ("@ + placeholders(first, count) + ")"@,
        }
    }

    /// Whether the test is true of a row with the answers, under the parameters.
    /// A comparison with NULL is not, but for `IS DISTINCT FROM`.
    pub open spec fn is_true(self, params: Seq<Bind>, answers: Json) -> bool {
        match self {
            SqlTest::Equals { key, value } => answer_text(answers, bound_text(params, key)) == Some(
                bound_text(params, value),
            ),
            SqlTest::Differs { key, value } => answer_text(answers, bound_text(params, key))
                != Some(bound_text(params, value)),
            SqlTest::Like { key, pattern } => match answer_text(answers, bound_text(params, key)) {
                Some(a) => like(a, bound_text(params, pattern)),
                None => false,
            },
            SqlTest::OneOf { key, first, count } => match answer_text(
                answers,
                bound_text(params, key),
            ) {
                Some(a) => exists|i: nat| i < count && a == #[trigger] bound_text(params, first + i),
                None => false,
            },
        }
    }
}

/// Whether a condition tests the text of an answer for equality, containment or
/// membership, with a value to test for.
pub open spec fn tests_text(rule: Rule) -> bool {
    &&& rule.target is Question
    &&& match rule.operator {
        ConditionOperator::Eq | ConditionOperator::Neq | ConditionOperator::Contains => {
            rule.value matches Json::Text(s) && s.len() > 0
        },
        ConditionOperator::In => rule.value.text_items().len() > 0,
        _ => false,
    }
}

/// The SQL test for a condition whose placeholders start after `base`.
pub open spec fn sql_test(rule: Rule, base: nat) -> SqlTest {
    match rule.operator {
        ConditionOperator::Eq => SqlTest::Equals { key: base + 1, value: base + 2 },
        ConditionOperator::Neq => SqlTest::Differs { key: base + 1, value: base + 2 },
        ConditionOperator::Contains => SqlTest::Like { key: base + 1, pattern: base + 2 },
        _ => SqlTest::OneOf {
            key: base + 1,
            first: base + 2,
            count: rule.value.text_items().len(),
        },
    }
}

/// The SQL tests for conditions whose placeholders start after `offset`.
pub open spec fn sql_tests(rules: Seq<Rule>, offset: nat) -> Seq<SqlTest>
    decreases rules.len(),
{
    if rules.len() == 0 {
        Seq::empty()
    } else {
        sql_tests(rules.drop_last(), offset).push(
            sql_test(rules.last(), offset + all_binds(rules.drop_last()).len()),
        )
    }
}

/// Tests that are joined by AND, as they are written.
pub open spec fn written(tests: Seq<SqlTest>) -> Seq<char> {
    crate::text::joined(tests.map_values(|t: SqlTest| t.sql()), " AND "@)
}

/// Whether all tests are true of a row with the answers, under the parameters.
pub open spec fn all_true(tests: Seq<SqlTest>, params: Seq<Bind>, answers: Json) -> bool {
    forall|i: int| 0 <= i < tests.len() ==> (#[trigger] tests[i]).is_true(params, answers)
}

proof fn lemma_test_agrees(rule: Rule, base: nat, params: Seq<Bind>, data: Response)
    requires
        tests_text(rule),
        base + rule_binds(rule).len() <= params.len(),
        forall|k: int|
            0 <= k < rule_binds(rule).len() ==> params[base + k] == #[trigger] rule_binds(rule)[k],
        forall|id: Seq<char>| #[trigger]
            data.answers.field(id) matches Some(v) ==> v is Text,
    ensures
        sql_test(rule, base).sql() == rule_clause(rule, base),
        sql_test(rule, base).is_true(params, data.answers) <==> holds(rule, data),
{
    let id = rule.target->Question_0;
    let binds = rule_binds(rule);
    assert(binds[0] == Bind::Text(id));
    assert(params[base as int + 0] == binds[0]);
    assert(bound_text(params, base + 1) == id);
    let answer = data.answers.field(id);
    match rule.operator {
        ConditionOperator::Eq | ConditionOperator::Neq => {
            assert(binds[1] == Bind::Text(value_text(rule)));
            assert(params[base as int + 1] == binds[1]);
            assert(bound_text(params, base + 2) == value_text(rule));
        },
        ConditionOperator::Contains => {
            let pattern = "%"@ + like_escaped(value_text(rule)) + "%"@;
            assert(binds[1] == Bind::Text(pattern));
            assert(params[base as int + 1] == binds[1]);
            assert(bound_text(params, base + 2) == pattern);
            if answer is Some {
                law_like_pattern_means_containment(answer->0->Text_0, value_text(rule));
            }
        },
        _ => {
            let items = rule.value.text_items();
            let count = items.len();
            assert forall|i: nat| i < count implies #[trigger] bound_text(params, base + 2 + i)
                == items[i as int] by {
                assert(binds[i as int + 1] == Bind::Text(items[i as int]));
                assert(params[base + (i as int + 1)] == binds[i as int + 1]);
            }
            if answer is Some {
                let a = answer->0->Text_0;
                if items.contains(a) {
                    let i = choose|i: int| 0 <= i < items.len() && items[i] == a;
                    assert(bound_text(params, base + 2 + i as nat) == a);
                }
                if exists|i: nat| i < count && a == #[trigger] bound_text(params, base + 2 + i) {
                    let i = choose|i: nat|
                        i < count && a == #[trigger] bound_text(params, base + 2 + i);
                    assert(items[i as int] == a);
                }
            }
        },
    }
}

proof fn lemma_tests_agree(rules: Seq<Rule>, offset: nat, params: Seq<Bind>, data: Response)
    requires
        forall|i: int| 0 <= i < rules.len() ==> tests_text(#[trigger] rules[i]),
        offset + all_binds(rules).len() <= params.len(),
        forall|k: int|
            0 <= k < all_binds(rules).len() ==> params[offset + k] == #[trigger] all_binds(
                rules,
            )[k],
        forall|id: Seq<char>| #[trigger]
            data.answers.field(id) matches Some(v) ==> v is Text,
    ensures
        sql_tests(rules, offset).len() == rules.len(),
        sql_tests(rules, offset).map_values(|t: SqlTest| t.sql()) == all_clauses(rules, offset),
        forall|i: int|
            0 <= i < rules.len() ==> ((#[trigger] sql_tests(rules, offset)[i]).is_true(
                params,
                data.answers,
            ) <==> holds(rules[i], data)),
    decreases rules.len(),
{
    let tests = sql_tests(rules, offset);
    let f = |t: SqlTest| t.sql();
    if rules.len() == 0 {
        assert(tests.map_values(f) =~= all_clauses(rules, offset));
    } else {
        let before = rules.drop_last();
        let earlier = all_binds(before);
        let base = offset + earlier.len();
        let own = rule_binds(rules.last());
        assert(all_binds(rules) == earlier + own);
        assert forall|i: int| 0 <= i < before.len() implies tests_text(#[trigger] before[i]) by {
            assert(before[i] == rules[i]);
        }
        assert forall|k: int| 0 <= k < earlier.len() implies params[offset + k]
            == #[trigger] earlier[k] by {
            assert(all_binds(rules)[k] == earlier[k]);
        }
        lemma_tests_agree(before, offset, params, data);
        assert(tests_text(rules[rules.len() - 1]));
        assert forall|k: int| 0 <= k < own.len() implies params[base + k] == #[trigger] own[k] by {
            assert(all_binds(rules)[earlier.len() + k] == own[k]);
            assert(params[offset + (earlier.len() + k)] == all_binds(rules)[earlier.len() + k]);
        }
        lemma_test_agrees(rules.last(), base, params, data);
        let sooner = sql_tests(before, offset);
        assert(tests.map_values(f) =~= sooner.map_values(f).push(f(tests.last())));
        assert forall|i: int| 0 <= i < rules.len() implies ((#[trigger] tests[i]).is_true(
            params,
            data.answers,
        ) <==> holds(rules[i], data)) by {
            if i < before.len() {
                assert(tests[i] == sooner[i]);
                assert(rules[i] == before[i]);
            }
        }
    }
}

/// The SQL path and the path in memory grant the role to the same respondents:
/// where conditions test the texts of answers for equality, containment or
/// membership, the clause is its tests joined by AND, and a row meets them, with
/// the bound values in their places, just where the role is granted.
pub proof fn law_both_paths_grant_alike(
    rules: Seq<Rule>,
    offset: nat,
    params: Seq<Bind>,
    data: Response,
)
    requires
        rules.len() > 0,
        forall|i: int| 0 <= i < rules.len() ==> tests_text(#[trigger] rules[i]),
        forall|id: Seq<char>| #[trigger]
            data.answers.field(id) matches Some(v) ==> v is Text,
        offset + where_clause(rules, offset).1.len() <= params.len(),
        params.subrange(offset as int, (offset + where_clause(rules, offset).1.len()) as int)
            == where_clause(rules, offset).1,
    ensures
        where_clause(rules, offset).0 == written(sql_tests(rules, offset)),
        all_true(sql_tests(rules, offset), params, data.answers) <==> granted(false, rules, data),
{
    assert forall|i: int| 0 <= i < rules.len() implies !senseless(#[trigger] rules[i]) by {
        assert(tests_text(rules[i]));
    }
    let binds = all_binds(rules);
    assert(where_clause(rules, offset).1 == binds);
    assert forall|k: int| 0 <= k < binds.len() implies params[offset + k] == #[trigger] binds[k] by {
        assert(params.subrange(offset as int, (offset + binds.len()) as int)[k] == binds[k]);
    }
    lemma_tests_agree(rules, offset, params, data);
    let tests = sql_tests(rules, offset);
    if all_true(tests, params, data.answers) {
        assert forall|i: int| 0 <= i < rules.len() implies holds(#[trigger] rules[i], data) by {
            assert(tests[i].is_true(params, data.answers));
        }
    }
    if granted(false, rules, data) {
        assert forall|i: int| 0 <= i < tests.len() implies (#[trigger] tests[i]).is_true(
            params,
            data.answers,
        ) by {
            assert(holds(rules[i], data));
        }
    }
}

} // verus!
