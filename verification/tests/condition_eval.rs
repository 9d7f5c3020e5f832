//! Condition evaluation, in memory and as SQL.

use form_respondent_role::double::Double;
use form_respondent_role::json::{Number, NumberTable, Real, Value};
use form_respondent_role::models::condition::{Condition, ConditionOperator, ConditionTarget};
use form_respondent_role::services::condition_eval::{
    build_condition_where, escape_like, evaluate, parse_datetime_str, ConditionBind,
    ResponseEvalData,
};

fn value_of(v: &serde_json::Value) -> Value {
    match v {
        serde_json::Value::Null => Value::Null,
        serde_json::Value::Bool(b) => Value::Bool(*b),
        serde_json::Value::Number(n) => {
            if let Some(u) = n.as_u64() {
                Value::Number(Number::PosInt(u))
            } else if let Some(i) = n.as_i64() {
                Value::Number(Number::NegInt(i))
            } else {
                let f = n.as_f64().unwrap();
                Value::Number(Number::Float { number: real_of(f), json: n.to_string() })
            }
        }
        serde_json::Value::String(s) => Value::String(s.clone()),
        serde_json::Value::Array(a) => Value::Array(a.iter().map(value_of).collect()),
        serde_json::Value::Object(o) => {
            Value::Object(o.iter().map(|(k, x)| (k.clone(), value_of(x))).collect())
        }
    }
}

/// The value of a JSON text.
fn js(text: &str) -> Value {
    value_of(&serde_json::from_str::<serde_json::Value>(text).unwrap())
}

fn real_of(f: f64) -> Real {
    Real { value: Double { bits: f.to_bits() }, display: f.to_string() }
}

fn list_texts(v: &Value, table: &mut NumberTable) {
    match v {
        Value::String(s) => {
            for text in [s.as_str(), s.trim()] {
                if let Ok(f) = text.parse::<f64>() {
                    table.list(text, real_of(f));
                }
            }
        }
        Value::Array(a) => a.iter().for_each(|x| list_texts(x, table)),
        Value::Object(o) => o.iter().for_each(|(_, x)| list_texts(x, table)),
        _ => {}
    }
}

/// The numbers that the texts in the values denote.
fn numbers(values: &[&Value]) -> NumberTable {
    let mut table = NumberTable::new();
    for v in values {
        list_texts(v, &mut table);
    }
    table
}

fn q(qid: &str, op: ConditionOperator, value: Value) -> Condition {
    Condition {
        target: ConditionTarget::Question { question_id: qid.into() },
        operator: op,
        value,
        value_end: None,
    }
}

fn on_score(op: ConditionOperator, value: Value) -> Condition {
    Condition { target: ConditionTarget::QuizTotalScore, operator: op, value, value_end: None }
}

fn answers(pairs: &[(&str, &str)]) -> Value {
    let mut pairs: Vec<(String, Value)> =
        pairs.iter().map(|(k, v)| (k.to_string(), js(v))).collect();
    pairs.sort_by(|a, b| a.0.cmp(&b.0));
    Value::Object(pairs)
}

fn eval(grant: bool, conditions: &[Condition], answers: &Value, score: Option<i64>) -> bool {
    let mut texts: Vec<&Value> = vec![answers];
    for c in conditions {
        texts.push(&c.value);
        if let Some(end) = &c.value_end {
            texts.push(end);
        }
    }
    let table = numbers(&texts);
    evaluate(
        grant,
        conditions,
        &ResponseEvalData { answers, total_score: score, numbers: &table },
    )
}

// ---------- an unconfigured link grants nobody ----------

#[test]
fn convention_42_no_conditions_no_grant_means_nobody() {
    let a = answers(&[]);
    // grant_on_any_submission=false AND no conditions: reject.
    assert!(!eval(false, &[], &a, None));
}

#[test]
fn grant_on_any_short_circuits_true() {
    let a = answers(&[]);
    // grant_on_any_submission=true should return true even with
    // an empty conditions slice: the conditions aren't even consulted.
    assert!(eval(true, &[], &a, None));
}

#[test]
fn all_conditions_must_match_and() {
    let a = answers(&[("q1", r#""yes""#), ("q2", r#""30""#)]);
    let conds = vec![
        q("q1", ConditionOperator::Eq, js(r#""yes""#)),
        q("q2", ConditionOperator::Gte, js("18")),
    ];
    assert!(eval(false, &conds, &a, None));

    // Flip one: overall must become false.
    let conds = vec![
        q("q1", ConditionOperator::Eq, js(r#""no""#)),
        q("q2", ConditionOperator::Gte, js("18")),
    ];
    assert!(!eval(false, &conds, &a, None));
}

// ---------- numeric ----------

#[test]
fn gte_compares_numeric() {
    let a = answers(&[("age", r#""21""#)]);
    assert!(eval(false, &[q("age", ConditionOperator::Gte, js("18"))], &a, None));
    assert!(!eval(false, &[q("age", ConditionOperator::Gte, js("25"))], &a, None));
}

#[test]
fn between_inclusive_bounds() {
    let a = answers(&[("score", r#""50""#)]);
    let mut c = q("score", ConditionOperator::Between, js("40"));
    c.value_end = Some(js("60"));
    assert!(eval(false, &[c], &a, None));

    let a = answers(&[("score", r#""39""#)]);
    let mut c = q("score", ConditionOperator::Between, js("40"));
    c.value_end = Some(js("60"));
    assert!(!eval(false, &[c], &a, None));
}

#[test]
fn between_takes_its_bounds_in() {
    for (answer, expected) in [("40", true), ("60", true), ("60.5", false), ("39.9", false)] {
        let a = answers(&[("score", &format!("\"{answer}\""))]);
        let mut c = q("score", ConditionOperator::Between, js("40"));
        c.value_end = Some(js("60"));
        assert_eq!(eval(false, &[c], &a, None), expected, "{answer}");
    }
}

#[test]
fn strict_comparisons_leave_the_bound_out() {
    let a = answers(&[("n", r#""10""#)]);
    assert!(!eval(false, &[q("n", ConditionOperator::Gt, js("10"))], &a, None));
    assert!(eval(false, &[q("n", ConditionOperator::Gt, js("9"))], &a, None));
    assert!(!eval(false, &[q("n", ConditionOperator::Lt, js("10"))], &a, None));
    assert!(eval(false, &[q("n", ConditionOperator::Lt, js("11"))], &a, None));
    assert!(eval(false, &[q("n", ConditionOperator::Lte, js("10"))], &a, None));
    // What is no number compares with none.
    let a = answers(&[("n", r#""ten""#)]);
    assert!(!eval(false, &[q("n", ConditionOperator::Lte, js("10"))], &a, None));
    assert!(!eval(false, &[q("n", ConditionOperator::Gte, js("10"))], &a, None));
}

// ---------- string ----------

#[test]
fn eq_string_exact_match() {
    let a = answers(&[("region", r#""EU""#)]);
    assert!(eval(false, &[q("region", ConditionOperator::Eq, js(r#""EU""#))], &a, None));
    // Case-sensitive: "eu" is not "EU".
    assert!(!eval(false, &[q("region", ConditionOperator::Eq, js(r#""eu""#))], &a, None));
}

#[test]
fn contains_substring() {
    let a = answers(&[("bio", r#""I love Rust and Discord""#)]);
    assert!(eval(false, &[q("bio", ConditionOperator::Contains, js(r#""Rust""#))], &a, None));
}

#[test]
fn regex_basic_match() {
    let a = answers(&[("zip", r#""90210""#)]);
    assert!(eval(false, &[q("zip", ConditionOperator::Regex, js(r#""^\\d{5}$""#))], &a, None));
    // Bad pattern: rejected (returns false), never panics.
    assert!(!eval(false, &[q("zip", ConditionOperator::Regex, js(r#""((""#))], &a, None));
}

#[test]
fn a_pattern_that_does_not_match_is_no_match() {
    let a = answers(&[("zip", r#""9021""#)]);
    assert!(!eval(false, &[q("zip", ConditionOperator::Regex, js(r#""^\\d{5}$""#))], &a, None));
}

#[test]
fn in_list_matches_one_of_several() {
    let a = answers(&[("region", r#""EU""#)]);
    assert!(eval(false, &[q("region", ConditionOperator::In, js(r#"["US", "EU"]"#))], &a, None));
    assert!(!eval(false, &[q("region", ConditionOperator::In, js(r#"["US"]"#))], &a, None));
    assert!(!eval(false, &[q("region", ConditionOperator::In, js("[]"))], &a, None));
}

// ---------- multi_choice ----------

#[test]
fn contains_any_for_multi_choice() {
    let a = answers(&[("hobbies", r#"["coding", "music"]"#)]);
    assert!(eval(
        false,
        &[q("hobbies", ConditionOperator::ContainsAny, js(r#"["music", "art"]"#))],
        &a,
        None,
    ));
    assert!(!eval(
        false,
        &[q("hobbies", ConditionOperator::ContainsAny, js(r#"["art", "writing"]"#))],
        &a,
        None,
    ));
}

#[test]
fn contains_all_requires_full_set() {
    let a = answers(&[("hobbies", r#"["coding", "music"]"#)]);
    assert!(eval(
        false,
        &[q("hobbies", ConditionOperator::ContainsAll, js(r#"["coding", "music"]"#))],
        &a,
        None,
    ));
    // Missing one of the required: false.
    assert!(!eval(
        false,
        &[q("hobbies", ConditionOperator::ContainsAll, js(r#"["coding", "music", "art"]"#))],
        &a,
        None,
    ));
}

#[test]
fn not_contains_refuses_any_listed_choice() {
    let a = answers(&[("hobbies", r#"["coding", "music"]"#)]);
    assert!(eval(
        false,
        &[q("hobbies", ConditionOperator::NotContains, js(r#"["art"]"#))],
        &a,
        None,
    ));
    assert!(!eval(
        false,
        &[q("hobbies", ConditionOperator::NotContains, js(r#"["art", "music"]"#))],
        &a,
        None,
    ));
}

// ---------- dates ----------

#[test]
fn dates_are_compared_as_instants() {
    let a = answers(&[("born", r#""2001-02-03""#)]);
    assert!(eval(false, &[q("born", ConditionOperator::Before, js(r#""2002-01-01""#))], &a, None));
    assert!(!eval(false, &[q("born", ConditionOperator::After, js(r#""2002-01-01""#))], &a, None));
    assert!(eval(
        false,
        &[q("born", ConditionOperator::After, js(r#""2001-02-02T23:59:59+00:00""#))],
        &a,
        None,
    ));
    // Neither before nor after itself.
    assert!(!eval(false, &[q("born", ConditionOperator::Before, js(r#""2001-02-03""#))], &a, None));
    assert!(!eval(false, &[q("born", ConditionOperator::After, js(r#""2001-02-03""#))], &a, None));
}

#[test]
fn a_day_is_its_first_instant_in_utc() {
    assert_eq!(parse_datetime_str("1970-01-01"), Some((0, 0)));
    assert_eq!(parse_datetime_str("1970-01-02"), Some((86_400, 0)));
    assert_eq!(parse_datetime_str("2020-05-06T07:08:09.5+02:00"), Some((1_588_741_689, 500_000_000)));
    assert_eq!(parse_datetime_str("not a date"), None);
    assert_eq!(parse_datetime_str("2020-13-01"), None);
}

// ---------- quiz total score target ----------

#[test]
fn quiz_total_score_gte() {
    let a = answers(&[]);
    let c = on_score(ConditionOperator::Gte, js("8"));
    assert!(eval(false, std::slice::from_ref(&c), &a, Some(8)));
    assert!(eval(false, std::slice::from_ref(&c), &a, Some(10)));
    assert!(!eval(false, std::slice::from_ref(&c), &a, Some(7)));
    // No total score at all (non-quiz response): false.
    assert!(!eval(false, &[c], &a, None));
}

// ---------- missing answer ----------

#[test]
fn missing_answer_fails_eq_but_neq_can_pass() {
    let a = answers(&[]); // q1 not answered
    // eq against an unanswered question is always false.
    assert!(!eval(false, &[q("q1", ConditionOperator::Eq, js(r#""yes""#))], &a, None));
    // neq against an unanswered question is true when expected is non-empty:
    // admins rely on this for "anyone who didn't pick option X".
    assert!(eval(
        false,
        &[q("q1", ConditionOperator::Neq, js(r#""forbidden_value""#))],
        &a,
        None,
    ));
}

// ---------- SQL ----------

#[test]
fn like_patterns_are_escaped() {
    assert_eq!(escape_like(r"50%_off\now"), r"50\%\_off\\now");
    assert_eq!(escape_like("plain"), "plain");
    assert_eq!(escape_like(""), "");
}

#[test]
fn no_conditions_give_a_true_clause() {
    let (clause, binds) = build_condition_where(&[], 1);
    assert_eq!(clause, "TRUE");
    assert!(binds.is_empty());
}

#[test]
fn clauses_number_their_placeholders_from_the_offset() {
    let mut between = q("n", ConditionOperator::Between, js("3"));
    between.value_end = Some(js("7"));
    let conds = vec![
        q("region", ConditionOperator::Eq, js(r#""EU""#)),
        q("bio", ConditionOperator::Contains, js(r#""50%""#)),
        between,
        on_score(ConditionOperator::Gte, js("8")),
    ];
    let (clause, binds) = build_condition_where(&conds, 1);
    assert_eq!(
        clause,
        "(fr.answers ->> $2) = $3 AND (fr.answers ->> $4) LIKE $5 AND \
         (NULLIF(fr.answers ->> $6, '')::numeric) >= $7 AND \
         (NULLIF(fr.answers ->> $6, '')::numeric) <= $8 AND \
         (fr.total_score::numeric) >= $9"
    );
    assert_eq!(
        binds,
        vec![
            ConditionBind::Text("region".into()),
            ConditionBind::Text("EU".into()),
            ConditionBind::Text("bio".into()),
            ConditionBind::Text(r"%50\%%".into()),
            ConditionBind::Text("n".into()),
            ConditionBind::Int(3),
            ConditionBind::Int(7),
            ConditionBind::Int(8),
        ]
    );
}

#[test]
fn choices_are_compared_as_arrays() {
    let conds = vec![q("h", ConditionOperator::NotContains, js(r#"["a", "b"]"#))];
    let (clause, binds) = build_condition_where(&conds, 0);
    assert_eq!(
        clause,
        "NOT (ARRAY(SELECT jsonb_array_elements_text(COALESCE(fr.answers -> $2, '[]'::jsonb))) \
         && ARRAY[$3,$4]::text[])"
    );
    assert_eq!(
        binds,
        vec![
            ConditionBind::Text("h".into()),
            ConditionBind::Text("h".into()),
            ConditionBind::Text("a".into()),
            ConditionBind::Text("b".into()),
        ]
    );
}

#[test]
fn a_score_has_no_choices() {
    let conds = vec![
        q("region", ConditionOperator::Eq, js(r#""EU""#)),
        on_score(ConditionOperator::ContainsAny, js(r#"["a"]"#)),
    ];
    let (clause, binds) = build_condition_where(&conds, 1);
    assert_eq!(clause, "FALSE");
    assert!(binds.is_empty());
}

#[test]
fn fractions_are_cut_for_sql() {
    let conds = vec![q("n", ConditionOperator::Lt, js("7.9"))];
    let (_, binds) = build_condition_where(&conds, 1);
    assert_eq!(binds[1], ConditionBind::Int(7));
}

#[test]
fn an_offset_only_moves_the_numbers() {
    let conds = vec![
        q("a", ConditionOperator::Eq, js(r#""EU""#)),
        q("b", ConditionOperator::In, js(r#"["x", "y"]"#)),
        on_score(ConditionOperator::Gte, js("8")),
    ];
    let (from_zero, binds) = build_condition_where(&conds, 0);
    let (moved, same_binds) = build_condition_where(&conds, 9);
    assert_eq!(binds, same_binds);
    let mut renumbered = from_zero;
    for n in (1..=binds.len()).rev() {
        renumbered = renumbered.replace(&format!("${n}"), &format!("#{}", n + 9));
    }
    assert_eq!(moved, renumbered.replace('#', "$"));
}

/// What the database makes of the clause of one condition on an answer text.
fn by_sql(c: &Condition, answer: &str) -> bool {
    let (clause, binds) = build_condition_where(std::slice::from_ref(c), 0);
    let texts: Vec<&str> = binds
        .iter()
        .map(|b| match b {
            ConditionBind::Text(t) => t.as_str(),
            other => panic!("unexpected {other:?}"),
        })
        .collect();
    match clause.as_str() {
        "(fr.answers ->> $1) = $2" => answer == texts[1],
        "((fr.answers ->> $1) IS DISTINCT FROM $2)" => answer != texts[1],
        "(fr.answers ->> $1) LIKE $2" => {
            let part = texts[1].strip_prefix('%').unwrap().strip_suffix('%').unwrap();
            answer.contains(&part.replace("\\%", "%"))
        }
        "(fr.answers ->> $1) IN ($2,$3)" => texts[1..].contains(&answer),
        other => panic!("unexpected {other}"),
    }
}

#[test]
fn both_paths_grant_alike() {
    let conds = [
        q("q1", ConditionOperator::Eq, js(r#""yes""#)),
        q("q1", ConditionOperator::Neq, js(r#""yes""#)),
        q("q1", ConditionOperator::Contains, js(r#""5%""#)),
        q("q1", ConditionOperator::In, js(r#"["yes", "maybe"]"#)),
    ];
    for answer in ["yes", "no", "maybe", "a 5% rise", "a 50 rise", "Yes"] {
        let a = Value::Object(vec![("q1".into(), Value::String(answer.into()))]);
        for c in &conds {
            let alone = std::slice::from_ref(c);
            assert_eq!(eval(false, alone, &a, None), by_sql(c, answer), "{answer}: {c:?}");
        }
    }
}
