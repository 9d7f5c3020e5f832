//! Answers, grading and form structure.

use form_respondent_role::double::Double;
use form_respondent_role::json::{Number, NumberTable, Real, Value};
use form_respondent_role::models::form::{
    FormSchema, FormSettings, Page, Question, QuestionKind, QuestionOption,
};
use form_respondent_role::services::form_validator::{
    accepted_answers, check_answer, compute_quiz_score, is_safe_image_url, looks_like_email,
    quiz_graded_count, read_stored, sanity_check, validate, validate_quiz_keys, VerifiedAnswers,
    MAX_PAGES, MAX_QUESTIONS, MAX_QUESTION_POINTS,
};

fn value_of(v: &serde_json::Value) -> Value {
    match v {
        serde_json::Value::Null => Value::Null,
        serde_json::Value::Bool(b) => Value::Bool(*b),
        serde_json::Value::Number(n) => {
            if let Some(u) = n.as_u64() {
                Value::Number(Number::PosInt(u))
            } else if let Some(i) = n.as_i64() {
                Value::Number(Number::NegInt(i))
            } else {
                let f = n.as_f64().unwrap();
                Value::Number(Number::Float { number: real_of(f), json: n.to_string() })
            }
        }
        serde_json::Value::String(s) => Value::String(s.clone()),
        serde_json::Value::Array(a) => Value::Array(a.iter().map(value_of).collect()),
        serde_json::Value::Object(o) => {
            Value::Object(o.iter().map(|(k, x)| (k.clone(), value_of(x))).collect())
        }
    }
}

/// The value of a JSON text.
fn js(text: &str) -> Value {
    value_of(&serde_json::from_str::<serde_json::Value>(text).unwrap())
}

fn real_of(f: f64) -> Real {
    Real { value: Double { bits: f.to_bits() }, display: f.to_string() }
}

fn list_texts(v: &Value, table: &mut NumberTable) {
    match v {
        Value::String(s) => {
            for text in [s.as_str(), s.trim()] {
                if let Ok(f) = text.parse::<f64>() {
                    table.list(text, real_of(f));
                }
            }
        }
        Value::Array(a) => a.iter().for_each(|x| list_texts(x, table)),
        Value::Object(o) => o.iter().for_each(|(_, x)| list_texts(x, table)),
        _ => {}
    }
}

/// The numbers that the texts in the values denote.
fn numbers(values: &[&Value]) -> NumberTable {
    let mut table = NumberTable::new();
    for v in values {
        list_texts(v, &mut table);
    }
    table
}

fn q(id: &str, kind: QuestionKind, title: &str) -> Question {
    Question {
        id: id.into(),
        kind,
        title: title.into(),
        description: String::new(),
        required: false,
        max_length: None,
        min: None,
        max: None,
        options: None,
        correct: None,
        points: None,
        placeholder: None,
        help_text: None,
        image_url: None,
        alt_text: None,
    }
}

fn page(id: &str, questions: Vec<Question>) -> Page {
    Page { id: id.into(), title: String::new(), description: String::new(), questions }
}

fn schema(pages: Vec<Page>) -> FormSchema {
    FormSchema {
        title: "Test form".into(),
        description: String::new(),
        settings: FormSettings::default(),
        pages,
    }
}

fn opts(ids: &[&str]) -> Vec<QuestionOption> {
    ids.iter()
        .map(|id| QuestionOption { id: (*id).into(), label: format!("Label for {id}") })
        .collect()
}

#[test]
fn minimal_valid_schema_passes() {
    let s = schema(vec![page("p1", vec![q("q1", QuestionKind::ShortText, "First")])]);
    sanity_check(&s).expect("minimal form should validate");
}

#[test]
fn empty_title_rejected() {
    let mut s = schema(vec![page("p1", vec![q("q1", QuestionKind::ShortText, "First")])]);
    s.title = "   ".into();
    assert!(sanity_check(&s).is_err());
}

#[test]
fn no_pages_rejected() {
    let s = schema(vec![]);
    assert!(sanity_check(&s).is_err());
}

#[test]
fn duplicate_question_ids_rejected() {
    let s = schema(vec![page(
        "p1",
        vec![
            q("dup", QuestionKind::ShortText, "First"),
            q("dup", QuestionKind::ShortText, "Second"),
        ],
    )]);
    let errs = sanity_check(&s).expect_err("duplicate qid should fail");
    assert!(errs.iter().any(|e| e.to_ascii_lowercase().contains("duplicate")));
}

#[test]
fn duplicate_page_ids_rejected() {
    let s = schema(vec![
        page("same", vec![q("q1", QuestionKind::ShortText, "x")]),
        page("same", vec![q("q2", QuestionKind::ShortText, "y")]),
    ]);
    assert!(sanity_check(&s).is_err());
}

#[test]
fn missing_question_title_rejected_for_answerables() {
    let s = schema(vec![page("p1", vec![q("q1", QuestionKind::ShortText, "  ")])]);
    assert!(sanity_check(&s).is_err());
}

#[test]
fn info_question_can_have_blank_title() {
    // Info/image/video are display-only: no answer collected, so a blank
    // title is intentional (often used as a section heading).
    let s = schema(vec![page(
        "p1",
        vec![
            q("info1", QuestionKind::Info, ""),
            q("real", QuestionKind::ShortText, "Real question"),
        ],
    )]);
    sanity_check(&s).expect("info element without title is allowed");
}

#[test]
fn single_choice_needs_options() {
    let mut s = schema(vec![page("p1", vec![q("q1", QuestionKind::SingleChoice, "Pick one")])]);
    // No options set.
    assert!(sanity_check(&s).is_err());

    // With options it should pass.
    s.pages[0].questions[0].options = Some(opts(&["a", "b"]));
    sanity_check(&s).expect("single_choice with options is valid");
}

#[test]
fn duplicate_option_ids_rejected() {
    let mut s = schema(vec![page("p1", vec![q("q1", QuestionKind::SingleChoice, "Pick one")])]);
    s.pages[0].questions[0].options = Some(opts(&["a", "a"]));
    assert!(sanity_check(&s).is_err());
}

#[test]
fn agreement_must_be_required() {
    let mut s = schema(vec![page(
        "p1",
        vec![q("agree", QuestionKind::Agreement, "Agree to rules")],
    )]);
    // required=false (the default): should fail.
    assert!(sanity_check(&s).is_err());

    s.pages[0].questions[0].required = true;
    sanity_check(&s).expect("required agreement is valid");
}

#[test]
fn scale_min_greater_than_max_rejected() {
    let mut sq = q("s1", QuestionKind::Scale, "Rate");
    sq.min = Some(real_of(10.0));
    sq.max = Some(real_of(5.0));
    let s = schema(vec![page("p1", vec![sq])]);
    assert!(sanity_check(&s).is_err());
}

#[test]
fn image_url_must_be_http_scheme() {
    let mut qi = q("i1", QuestionKind::Image, "");
    qi.image_url = Some("javascript:alert(1)".into());
    let s = schema(vec![page("p1", vec![qi])]);
    assert!(sanity_check(&s).is_err());

    let mut qi = q("i2", QuestionKind::Image, "");
    qi.image_url = Some("https://cdn.example.com/x.png".into());
    let s = schema(vec![page("p1", vec![qi])]);
    sanity_check(&s).expect("https image url is valid");
}

#[test]
fn too_many_pages_rejected() {
    let pages = (0..MAX_PAGES + 1)
        .map(|i| {
            page(
                &format!("p{i}"),
                vec![q(&format!("q{i}"), QuestionKind::ShortText, "x")],
            )
        })
        .collect();
    assert!(sanity_check(&schema(pages)).is_err());
}

#[test]
fn too_many_questions_rejected() {
    let qs: Vec<Question> = (0..MAX_QUESTIONS + 1)
        .map(|i| q(&format!("q{i}"), QuestionKind::ShortText, "x"))
        .collect();
    let s = schema(vec![page("p1", qs)]);
    assert!(sanity_check(&s).is_err());
}

// ---------- quiz grading ----------

fn answers(pairs: &[(&str, &str)]) -> VerifiedAnswers {
    let mut m = VerifiedAnswers::new();
    for (k, v) in pairs {
        m.insert(k, js(v));
    }
    m
}

fn graded(mut question: Question, correct: &str, points: i32) -> Question {
    question.correct = Some(js(correct));
    question.points = Some(points);
    question
}

/// The score of the answers, with the numbers that their texts and the answer
/// keys denote.
fn score(s: &FormSchema, pairs: &[(&str, &str)]) -> i32 {
    let given: Vec<Value> = pairs.iter().map(|(_, v)| js(v)).collect();
    let mut values: Vec<&Value> = given.iter().collect();
    for p in &s.pages {
        for q in &p.questions {
            if let Some(c) = &q.correct {
                values.push(c);
            }
        }
    }
    compute_quiz_score(s, &answers(pairs), &numbers(&values))
}

#[test]
fn single_choice_scores_on_option_id() {
    let mut sc = graded(q("q1", QuestionKind::SingleChoice, "Pick"), r#""opt_b""#, 5);
    sc.options = Some(opts(&["opt_a", "opt_b"]));
    let s = schema(vec![page("p1", vec![sc])]);

    assert_eq!(score(&s, &[("q1", r#""opt_b""#)]), 5);
    assert_eq!(score(&s, &[("q1", r#""opt_a""#)]), 0);
    // Unanswered: 0.
    assert_eq!(score(&s, &[]), 0);
}

#[test]
fn multi_choice_requires_exact_set() {
    let mut mc = graded(q("q1", QuestionKind::MultiChoice, "Pick all"), r#"["a", "c"]"#, 4);
    mc.options = Some(opts(&["a", "b", "c"]));
    let s = schema(vec![page("p1", vec![mc])]);

    assert_eq!(score(&s, &[("q1", r#"["c", "a"]"#)]), 4, "order-independent set equality");
    assert_eq!(score(&s, &[("q1", r#"["a"]"#)]), 0, "partial selection earns nothing");
    assert_eq!(score(&s, &[("q1", r#"["a", "b", "c"]"#)]), 0, "extra selection earns nothing");
}

#[test]
fn text_match_is_forgiving_and_multi_answer() {
    let st = graded(q("q1", QuestionKind::ShortText, "Who?"), r#"["ModTeam", "the mods"]"#, 3);
    let s = schema(vec![page("p1", vec![st])]);

    // case + surrounding whitespace ignored
    assert_eq!(score(&s, &[("q1", r#""  modteam ""#)]), 3);
    // any accepted answer counts
    assert_eq!(score(&s, &[("q1", r#""THE MODS""#)]), 3);
    assert_eq!(score(&s, &[("q1", r#""nobody""#)]), 0);
}

#[test]
fn number_match_is_numeric() {
    let mut nq = graded(q("q1", QuestionKind::Number, "2+2?"), r#""4""#, 2);
    nq.min = None;
    let s = schema(vec![page("p1", vec![nq])]);

    // "4.0" stored answer still equals correct "4"
    assert_eq!(score(&s, &[("q1", r#""4.0""#)]), 2);
    assert_eq!(score(&s, &[("q1", r#""5""#)]), 0);
}

#[test]
fn zero_points_or_missing_key_is_ungraded() {
    // points present but zero: ungraded
    let mut a = graded(q("a", QuestionKind::ShortText, "x"), r#""yes""#, 0);
    a.id = "a".into();
    // correct present, points absent: ungraded
    let mut b = q("b", QuestionKind::ShortText, "y");
    b.correct = Some(js(r#""yes""#));
    b.points = None;
    let s = schema(vec![page("p1", vec![a, b])]);
    assert_eq!(quiz_graded_count(&s), 0);
    assert_eq!(score(&s, &[("a", r#""yes""#), ("b", r#""yes""#)]), 0);
}

#[test]
fn letters_of_any_script_are_folded() {
    // "É" and "é" differ by case only.
    let st = graded(q("q1", QuestionKind::ShortText, "Who?"), r#""É""#, 3);
    let s = schema(vec![page("p1", vec![st])]);
    assert_eq!(score(&s, &[("q1", r#""é""#)]), 3);
}

#[test]
fn scores_add_up_over_pages() {
    let a = graded(q("a", QuestionKind::ShortText, "x"), r#""yes""#, 2);
    let b = graded(q("b", QuestionKind::Date, "y"), r#""2020-01-01""#, 5);
    let s = schema(vec![page("p1", vec![a]), page("p2", vec![b])]);
    assert_eq!(score(&s, &[("a", r#""YES""#), ("b", r#"" 2020-01-01 ""#)]), 7);
    assert_eq!(score(&s, &[("b", r#""2020-01-01""#)]), 5);
}

#[test]
fn huge_scores_do_not_overflow() {
    let qs = (0..3)
        .map(|i| graded(q(&format!("q{i}"), QuestionKind::ShortText, "x"), r#""y""#, i32::MAX))
        .collect();
    let s = schema(vec![page("p1", qs)]);
    let all = [("q0", r#""y""#), ("q1", r#""y""#), ("q2", r#""y""#)];
    assert_eq!(score(&s, &all), i32::MAX);
}

#[test]
fn the_largest_quiz_scores_in_full() {
    let questions: Vec<Question> = (0..MAX_QUESTIONS)
        .map(|i| {
            let question = q(&format!("q{i}"), QuestionKind::ShortText, "x");
            graded(question, r#""y""#, MAX_QUESTION_POINTS)
        })
        .collect();
    let ids: Vec<String> = questions.iter().map(|q| q.id.clone()).collect();
    let s = schema(vec![page("p", questions)]);
    assert!(sanity_check(&s).is_ok());
    assert!(validate_quiz_keys(&s).is_ok());
    let all: Vec<(&str, &str)> = ids.iter().map(|id| (id.as_str(), r#""Y""#)).collect();
    assert_eq!(score(&s, &all), 50_000_000);
}

#[test]
fn blank_keys_are_dropped() {
    assert_eq!(accepted_answers(&js(r#"["a", " ", "b "]"#)).len(), 2);
    assert!(accepted_answers(&js(r#""""#)).is_empty());
    assert_eq!(accepted_answers(&js("4")), vec!["4".to_string()]);
}

// ---------- quiz answer-key validation ----------

#[test]
fn validate_quiz_keys_flags_stale_option_id() {
    let mut sc = graded(
        q("q1", QuestionKind::SingleChoice, "Pick"),
        r#""ghost""#, // not in options
        5,
    );
    sc.options = Some(opts(&["a", "b"]));
    let s = schema(vec![page("p1", vec![sc])]);
    assert!(validate_quiz_keys(&s).is_err());
}

#[test]
fn validate_quiz_keys_accepts_valid_keys() {
    let mut sc = graded(q("q1", QuestionKind::SingleChoice, "Pick"), r#""b""#, 5);
    sc.options = Some(opts(&["a", "b"]));
    let text = graded(q("q2", QuestionKind::ShortText, "Who?"), r#"["mods", "staff"]"#, 5);
    let s = schema(vec![page("p1", vec![sc, text])]);
    validate_quiz_keys(&s).expect("valid keys should pass");
    assert_eq!(quiz_graded_count(&s), 2);
}

#[test]
fn validate_quiz_keys_rejects_out_of_range_points() {
    let key = graded(q("q1", QuestionKind::ShortText, "x"), r#""y""#, MAX_QUESTION_POINTS + 1);
    let s = schema(vec![page("p1", vec![key])]);
    assert!(validate_quiz_keys(&s).is_err());
}

// ---------- answers ----------

fn check(question: &Question, raw: &str) -> Result<Option<Value>, String> {
    let raw = js(raw);
    check_answer(question, Some(&raw), &numbers(&[&raw]))
}

#[test]
fn answers_are_projected_onto_the_questions() {
    let s = schema(vec![page("p1", vec![q("name", QuestionKind::ShortText, "Name")])]);
    let raw = js(r#"{"name": "Ann", "extra": "ignored"}"#);
    let got = validate(&s, &raw, &numbers(&[&raw])).expect("valid");
    assert_eq!(got.get("name"), Some(&Value::String("Ann".into())));
    assert_eq!(got.get("extra"), None);
    assert_eq!(got.to_value().to_text(), r#"{"name":"Ann"}"#);
}

#[test]
fn required_questions_want_an_answer() {
    let mut name = q("name", QuestionKind::ShortText, "Name");
    name.required = true;
    let s = schema(vec![page("p1", vec![name])]);
    for raw in ["{}", r#"{"name": "  "}"#, r#"{"name": null}"#] {
        let raw = js(raw);
        let errors = validate(&s, &raw, &numbers(&[&raw])).expect_err("required");
        assert_eq!(errors.len(), 1);
        assert_eq!(errors[0].question_id, "name");
    }
}

#[test]
fn answers_must_be_an_object() {
    let s = schema(vec![page("p1", vec![q("name", QuestionKind::ShortText, "Name")])]);
    let errors = validate(&s, &js("[]"), &NumberTable::new()).expect_err("no object");
    assert_eq!(errors[0].message, "Answers must be a JSON object.");
    assert_eq!(errors[0].question_id, "");
}

#[test]
fn text_is_limited_in_length() {
    let mut short = q("t", QuestionKind::ShortText, "T");
    short.max_length = Some(3);
    assert!(check(&short, r#""abc""#).is_ok());
    assert!(check(&short, r#""abcd""#).is_err());
    // Characters count, not bytes.
    assert!(check(&short, r#""äöü""#).is_ok());
}

#[test]
fn numbers_are_bounded_and_stored_as_text() {
    let mut n = q("n", QuestionKind::Number, "N");
    n.min = Some(real_of(1.0));
    n.max = Some(real_of(10.0));
    assert_eq!(check(&n, r#""7""#), Ok(Some(Value::String("7".into()))));
    assert_eq!(check(&n, "7.5"), Ok(Some(Value::String("7.5".into()))));
    assert!(check(&n, r#""0.5""#).is_err());
    assert!(check(&n, r#""11""#).is_err());
    assert!(check(&n, r#""seven""#).is_err());
    assert!(check(&n, r#""inf""#).is_err());
}

#[test]
fn choices_must_be_offered() {
    let mut one = q("c", QuestionKind::SingleChoice, "C");
    one.options = Some(opts(&["a", "b"]));
    assert_eq!(check(&one, r#""a""#), Ok(Some(Value::String("a".into()))));
    assert!(check(&one, r#""z""#).is_err());
    let mut many = q("m", QuestionKind::MultiChoice, "M");
    many.options = Some(opts(&["a", "b", "c"]));
    assert_eq!(check(&many, r#"["a", "c"]"#), Ok(Some(js(r#"["a", "c"]"#))));
    assert!(check(&many, r#"["a", "z"]"#).is_err());
}

#[test]
fn dates_emails_and_agreements_are_checked() {
    let date = q("d", QuestionKind::Date, "D");
    assert!(check(&date, r#""2020-02-29""#).is_ok());
    assert!(check(&date, r#""2021-02-29""#).is_err());
    let email = q("e", QuestionKind::Email, "E");
    assert!(check(&email, r#""a@b.co""#).is_ok());
    assert!(check(&email, r#""a at b""#).is_err());
    let mut agree = q("g", QuestionKind::Agreement, "G");
    agree.required = true;
    assert_eq!(check(&agree, "true"), Ok(Some(Value::String("true".into()))));
    assert!(check(&agree, "false").is_err());
}

#[test]
fn emails_need_a_name_and_a_dotted_host() {
    assert!(looks_like_email("someone@example.com"));
    for bad in ["", "@example.com", "someone@", "someone@host", "a@b@c.com"] {
        assert!(!looks_like_email(bad), "{bad}");
    }
}

#[test]
fn image_addresses_are_web_addresses() {
    assert!(is_safe_image_url("https://cdn.example.com/x.png"));
    assert!(is_safe_image_url("http://cdn.example.com/x.png"));
    for bad in ["javascript:alert(1)", "data:image/png;base64,AA", "ftp://x/y", ""] {
        assert!(!is_safe_image_url(bad), "{bad}");
    }
}

#[test]
fn answers_stay_as_they_are_when_checked_again() {
    let mut choice = q("c", QuestionKind::MultiChoice, "C");
    choice.options = Some(opts(&["a", "b"]));
    let s = schema(vec![page(
        "p1",
        vec![
            q("name", QuestionKind::ShortText, "Name"),
            choice,
            q("age", QuestionKind::Number, "Age"),
            q("day", QuestionKind::Date, "Day"),
            q("mail", QuestionKind::Email, "Mail"),
        ],
    )]);
    let raw = js(r#"{"name": " Ann ", "c": ["b", "a"], "age": "41", "day": "2024-02-29",
        "mail": " a@b.test ", "extra": 1}"#);
    let once = validate(&s, &raw, &numbers(&[&raw])).expect("valid").to_value();
    let twice = validate(&s, &once, &numbers(&[&once])).expect("still valid").to_value();
    assert_eq!(once, twice);
}

// ---------- fields that a kind does not use ----------

fn complaints(question: Question) -> Vec<String> {
    sanity_check(&schema(vec![page("p1", vec![question])])).expect_err("a stray field")
}

fn stray(field: &str) -> Vec<String> {
    vec![format!("Question \"x\" sets {field}, which its kind does not use.")]
}

#[test]
fn bounds_are_refused_where_they_mean_nothing() {
    let mut x = q("x", QuestionKind::Number, "X");
    x.max_length = Some(5);
    assert_eq!(complaints(x), stray("max_length"));
    let mut x = q("x", QuestionKind::ShortText, "X");
    x.min = Some(real_of(1.0));
    assert_eq!(complaints(x), stray("min"));
    let mut x = q("x", QuestionKind::Date, "X");
    x.max = Some(real_of(1.0));
    assert_eq!(complaints(x), stray("max"));
}

#[test]
fn contents_are_refused_where_they_mean_nothing() {
    let mut x = q("x", QuestionKind::ShortText, "X");
    x.options = Some(opts(&["a", "b"]));
    assert_eq!(complaints(x), stray("options"));
    let mut x = q("x", QuestionKind::Email, "X");
    x.image_url = Some("https://x.test/a.png".into());
    assert_eq!(complaints(x), stray("image_url"));
    let mut x = q("x", QuestionKind::LongText, "X");
    x.alt_text = Some("a picture".into());
    assert_eq!(complaints(x), stray("alt_text"));
}

#[test]
fn grading_is_refused_where_nothing_is_answered() {
    let mut x = q("x", QuestionKind::Info, "X");
    x.correct = Some(js(r#""a""#));
    x.points = Some(1);
    let mut expected = stray("correct");
    expected.extend(stray("points"));
    assert_eq!(complaints(x), expected);
}

#[test]
fn stored_numbers_are_read() {
    let s = schema(vec![page(
        "p1",
        vec![q("a", QuestionKind::Number, "A"), q("b", QuestionKind::Scale, "B")],
    )]);
    let raw = js(r#"{"a": "5.0", "b": 2.50, "c": "7"}"#);
    let table = read_stored(&s, &raw, &numbers(&[&raw]));
    let value = |text: &str| table.get(text).map(|n| f64::from_bits(n.value.bits));
    assert_eq!(value("5"), Some(5.0));
    assert_eq!(value("2.5"), Some(2.5));
    assert_eq!(value("5.0"), Some(5.0));
    assert_eq!(value("7"), Some(7.0));
    assert_eq!(value("8"), None);
    let once = validate(&s, &raw, &numbers(&[&raw])).expect("valid").to_value();
    assert_eq!(validate(&s, &once, &table).expect("still valid").to_value(), once);
}
