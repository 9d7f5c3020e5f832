//! Role configurations: what is posted and what is stored.

use form_respondent_role::double::Double;
use form_respondent_role::error::AppError;
use form_respondent_role::json::{Number, Real, Value};
use form_respondent_role::models::condition::{Condition, ConditionOperator, ConditionTarget};
use form_respondent_role::models::form::{FormSchema, FormSettings, Page, Question, QuestionKind};
use form_respondent_role::schema::{
    accept_empty_config, build_iframe_config, normalize_condition_value, parse_role_config,
    validate_condition, ConditionInput, RoleConfigBody, MAX_CONDITIONS,
};

fn value_of(v: &serde_json::Value) -> Value {
    match v {
        serde_json::Value::Null => Value::Null,
        serde_json::Value::Bool(b) => Value::Bool(*b),
        serde_json::Value::Number(n) => {
            if let Some(u) = n.as_u64() {
                Value::Number(Number::PosInt(u))
            } else if let Some(i) = n.as_i64() {
                Value::Number(Number::NegInt(i))
            } else {
                let f = n.as_f64().unwrap();
                Value::Number(Number::Float { number: real_of(f), json: n.to_string() })
            }
        }
        serde_json::Value::String(s) => Value::String(s.clone()),
        serde_json::Value::Array(a) => Value::Array(a.iter().map(value_of).collect()),
        serde_json::Value::Object(o) => {
            Value::Object(o.iter().map(|(k, x)| (k.clone(), value_of(x))).collect())
        }
    }
}

/// The value of a JSON text.
fn js(text: &str) -> Value {
    value_of(&serde_json::from_str::<serde_json::Value>(text).unwrap())
}

fn real_of(f: f64) -> Real {
    Real { value: Double { bits: f.to_bits() }, display: f.to_string() }
}

fn input(target: &str, operator: &str, value: &str, end: Option<&str>) -> ConditionInput {
    ConditionInput {
        target: target.into(),
        operator: operator.into(),
        value: js(value),
        value_end: end.map(js),
    }
}

fn posted(mode: &str, conditions: Vec<ConditionInput>) -> RoleConfigBody {
    RoleConfigBody { form_id: None, mode: mode.into(), conditions, view_permission: None }
}

fn question(id: &str, kind: QuestionKind) -> Question {
    Question {
        id: id.into(),
        kind,
        title: id.into(),
        description: String::new(),
        required: false,
        max_length: None,
        min: None,
        max: None,
        options: None,
        correct: None,
        points: None,
        placeholder: None,
        help_text: None,
        image_url: None,
        alt_text: None,
    }
}

fn form() -> FormSchema {
    FormSchema {
        title: "F".into(),
        description: String::new(),
        settings: FormSettings::default(),
        pages: vec![Page {
            id: "p".into(),
            title: String::new(),
            description: String::new(),
            questions: vec![
                question("name", QuestionKind::ShortText),
                question("picks", QuestionKind::MultiChoice),
                question("note", QuestionKind::Info),
            ],
        }],
    }
}

fn complaint<T>(r: Result<T, AppError>) -> String {
    match r {
        Err(AppError::BadRequest(s)) => s,
        Err(other) => panic!("another failure: {}", other.message()),
        Ok(_) => panic!("accepted"),
    }
}

#[test]
fn any_submission_needs_no_conditions() {
    let mut body = posted("any_submission", vec![]);
    body.form_id = Some("  abc ".into());
    body.view_permission = Some("members".into());
    let got = parse_role_config(body, None, false).unwrap();
    assert!(got.grant_on_any_submission);
    assert_eq!(got.form_id, Some("abc".into()));
    assert!(got.conditions.is_empty());
    assert_eq!(got.view_permission, Some("members".into()));
}

#[test]
fn configurations_are_refused_with_a_reason() {
    assert_eq!(
        complaint(parse_role_config(posted("sometimes", vec![]), None, false)),
        "Unknown eligibility mode 'sometimes'."
    );
    let mut body = posted("any_submission", vec![]);
    body.view_permission = Some("everyone".into());
    assert_eq!(
        complaint(parse_role_config(body, None, false)),
        "Unknown view_permission 'everyone'."
    );
    assert_eq!(
        complaint(parse_role_config(posted("conditions", vec![]), None, false)),
        "Eligibility is set to \"match conditions\" but no conditions were added."
    );
    let many = (0..MAX_CONDITIONS + 1).map(|_| input("q", "eq", r#""x""#, None)).collect();
    assert_eq!(
        complaint(parse_role_config(posted("conditions", many), None, false)),
        "At most 12 conditions per role."
    );
}

#[test]
fn conditions_are_normalized() {
    let body = posted(
        "conditions",
        vec![
            input(" name ", " gte ", r#"" 18 ""#, None),
            input("__quiz_total_score__", "between", "3", Some("7.9")),
            input("picks", "contains_any", r#""a, b,,""#, None),
        ],
    );
    let got = parse_role_config(body, Some(&form()), true).unwrap();
    assert_eq!(
        got.conditions,
        vec![
            Condition {
                target: ConditionTarget::Question { question_id: "name".into() },
                operator: ConditionOperator::Gte,
                value: js("18"),
                value_end: None,
            },
            Condition {
                target: ConditionTarget::QuizTotalScore,
                operator: ConditionOperator::Between,
                value: js("3"),
                value_end: Some(js("7")),
            },
            Condition {
                target: ConditionTarget::Question { question_id: "picks".into() },
                operator: ConditionOperator::ContainsAny,
                value: js(r#"["a", "b"]"#),
                value_end: None,
            },
        ]
    );
}

#[test]
fn conditions_are_refused_with_their_number() {
    let f = form();
    let cases = vec![
        (input(" ", "eq", r#""x""#, None), "Condition #2: pick a question (or quiz total score)."),
        (input("name", "is", r#""x""#, None), "Condition #2: unknown operator 'is'."),
        (
            input("gone", "eq", r#""x""#, None),
            "Condition #2: question \"gone\" doesn't exist on the chosen form.",
        ),
        (
            input("note", "eq", r#""x""#, None),
            "Condition #2: question \"note\" doesn't exist on the chosen form.",
        ),
        (
            input("picks", "contains", r#""x""#, None),
            "Condition #2: checkbox questions need a list operator (contains all / any / none).",
        ),
        (
            input("__quiz_total_score__", "gte", "1", None),
            "Condition #2: \"Quiz total score\" only works on quiz forms.",
        ),
        (
            input("name", "between", "1", None),
            "Condition #2: \"between\" needs both a min and a max value.",
        ),
        (input("name", "regex", r#""((""#, None), "Condition #2: regex pattern is invalid."),
        (
            input("name", "gt", r#""many""#, None),
            "Condition #2: numeric value required (got \"many\").",
        ),
        (input("name", "in", "[]", None), "Condition #2: list operator needs at least one value."),
        (input("name", "before", r#"" ""#, None), "Condition #2: date value required."),
        (input("name", "eq", "null", None), "Condition #2: value required."),
        (input("name", "eq", r#""  ""#, None), "Condition #2: value required."),
    ];
    for (raw, expected) in cases {
        assert_eq!(complaint(validate_condition(1, &raw, Some(&f), false)), expected);
    }
    let raw = input("__quiz_total_score__", "contains", r#""x""#, None);
    assert_eq!(
        complaint(validate_condition(1, &raw, Some(&f), true)),
        "Condition #2: quiz total score only supports numeric comparisons."
    );
}

#[test]
fn values_fit_their_operator() {
    let op = ConditionOperator::Eq;
    assert_eq!(normalize_condition_value(op, &js("5"), 1).unwrap(), js(r#""5""#));
    assert_eq!(normalize_condition_value(op, &js("1.5"), 1).unwrap(), js(r#""1.5""#));
    assert_eq!(normalize_condition_value(op, &js("true"), 1).unwrap(), js("true"));
    let op = ConditionOperator::In;
    assert_eq!(normalize_condition_value(op, &js(r#"["a", null, ""]"#), 1).unwrap(), js(r#"["a"]"#));
    assert_eq!(normalize_condition_value(op, &js("4"), 1).unwrap(), js("[4]"));
    let op = ConditionOperator::After;
    assert_eq!(
        normalize_condition_value(op, &js(r#"" 2020-01-01 ""#), 1).unwrap(),
        js(r#""2020-01-01""#)
    );
    let op = ConditionOperator::Lt;
    assert_eq!(normalize_condition_value(op, &js("-7.9"), 1).unwrap(), js("-7"));
}

#[test]
fn patterns_that_are_too_large_are_refused() {
    let raw = input("name", "regex", r#""(\\w{100}){100}""#, None);
    assert_eq!(
        complaint(validate_condition(0, &raw, Some(&form()), false)),
        "Condition #1: regex pattern is invalid."
    );
}

#[test]
fn operator_keys_read_back() {
    for key in [
        "eq", "neq", "contains", "regex", "in", "contains_all", "contains_any", "not_contains",
        "gt", "gte", "lt", "lte", "between", "before", "after",
    ] {
        assert_eq!(ConditionOperator::from_key(key).unwrap().as_str(), key);
    }
    assert_eq!(ConditionOperator::from_key("EQ"), None);
}

#[test]
fn the_dashboard_is_told_where_to_look() {
    let v = build_iframe_config("https://x.test", "1", "2");
    let text = v.to_text();
    assert!(text.contains("https://x.test/admin/1/role/2"), "{text}");
    assert_eq!(accept_empty_config(), js(r#"{"success": true}"#));
}
