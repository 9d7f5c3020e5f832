//! Texts, numerals, binary64 numbers, JSON and instants.

use form_respondent_role::double::Double;
use form_respondent_role::json::{Number, NumberTable, Real, Value};
use form_respondent_role::models::form::QuestionKind;
use form_respondent_role::numerals::{i32_text, i64_text, parse_i64, parse_u64, u64_text, usize_text};
use form_respondent_role::text::{
    blank, byte_len, contains, ends_with, has_char, join, replace, split, starts_with,
    to_ascii_lower, trim, white,
};
use form_respondent_role::time::{Timestamp, MAX_SECS, MIN_SECS};

fn value_of(v: &serde_json::Value) -> Value {
    match v {
        serde_json::Value::Null => Value::Null,
        serde_json::Value::Bool(b) => Value::Bool(*b),
        serde_json::Value::Number(n) => {
            if let Some(u) = n.as_u64() {
                Value::Number(Number::PosInt(u))
            } else if let Some(i) = n.as_i64() {
                Value::Number(Number::NegInt(i))
            } else {
                let f = n.as_f64().unwrap();
                Value::Number(Number::Float { number: real_of(f), json: n.to_string() })
            }
        }
        serde_json::Value::String(s) => Value::String(s.clone()),
        serde_json::Value::Array(a) => Value::Array(a.iter().map(value_of).collect()),
        serde_json::Value::Object(o) => {
            Value::Object(o.iter().map(|(k, x)| (k.clone(), value_of(x))).collect())
        }
    }
}

/// The value of a JSON text.
fn js(text: &str) -> Value {
    value_of(&serde_json::from_str::<serde_json::Value>(text).unwrap())
}

fn real_of(f: f64) -> Real {
    Real { value: Double { bits: f.to_bits() }, display: f.to_string() }
}

const TEXTS: [&str; 12] = [
    "",
    " ",
    "abc",
    "  abc  ",
    "\u{2003}a b\u{a0}",
    "a,b,,c",
    "Größe",
    "日本語",
    "aaa",
    "\u{feff}x",
    "line\nbreak\t",
    "MiXeD Å",
];

#[test]
fn white_space_is_that_of_the_standard_library() {
    for n in 0..=0x10ffff_u32 {
        if let Some(c) = char::from_u32(n) {
            assert_eq!(white(c), c.is_whitespace(), "{n:x}");
        }
    }
}

#[test]
fn texts_are_handled_as_by_the_standard_library() {
    for s in TEXTS {
        assert_eq!(trim(s), s.trim());
        assert_eq!(blank(s), s.trim().is_empty());
        assert_eq!(byte_len(s), s.len());
        assert_eq!(to_ascii_lower(s), s.to_ascii_lowercase());
        for c in [',', 'a', ' ', '語'] {
            assert_eq!(has_char(s, c), s.contains(c));
        }
        for pat in ["a", "aa", ",", "b,", "語", "xyz"] {
            assert_eq!(contains(s, pat), s.contains(pat));
            assert_eq!(starts_with(s, pat), s.starts_with(pat));
            assert_eq!(ends_with(s, pat), s.ends_with(pat));
            assert_eq!(replace(s, pat, "<>"), s.replace(pat, "<>"));
            let parts: Vec<String> = s.split(pat).map(|p| p.to_string()).collect();
            assert_eq!(split(s, pat), parts);
            assert_eq!(join(&parts, "+"), parts.join("+"));
        }
    }
}

#[test]
fn numerals_are_those_of_the_standard_library() {
    for n in [0, 7, 10, 99, 1_234_567_890, u64::MAX] {
        assert_eq!(u64_text(n), n.to_string());
        assert_eq!(parse_u64(&n.to_string()), Some(n));
    }
    for n in [0, -1, 42, i64::MIN, i64::MAX] {
        assert_eq!(i64_text(n), n.to_string());
        assert_eq!(parse_i64(&n.to_string()), Some(n));
    }
    assert_eq!(i32_text(i32::MIN), i32::MIN.to_string());
    assert_eq!(usize_text(12), "12");
    for s in [
        "", "+", "-", "+5", "-5", "007", "1 ", " 1", "1_0", "18446744073709551616",
        "9223372036854775808", "-9223372036854775808", "-9223372036854775809", "٣", "-0",
    ] {
        assert_eq!(parse_u64(s), s.parse::<u64>().ok(), "{s}");
        assert_eq!(parse_i64(s), s.parse::<i64>().ok(), "{s}");
    }
}

fn doubles() -> Vec<f64> {
    vec![
        0.0,
        -0.0,
        1.0,
        -1.0,
        0.5,
        4.0,
        4.0 + 1e-9,
        4.0 + 0.999e-9,
        4.0 - 1e-9,
        1e-9,
        0.999_999_999e-9,
        5e-324,
        2.225e-308,
        1e16,
        1e16 + 2.0,
        9_007_199_254_740_993.0,
        9.3e18,
        -9.3e18,
        1e300,
        f64::MAX,
        f64::MIN,
        f64::INFINITY,
        f64::NEG_INFINITY,
        f64::NAN,
        0.1 + 0.2,
        0.3,
        -2.75,
        2.75,
    ]
}

fn double(f: f64) -> Double {
    Double { bits: f.to_bits() }
}

#[test]
fn doubles_are_those_of_the_machine() {
    for a in doubles() {
        assert_eq!(double(a).nan(), a.is_nan());
        assert_eq!(double(a).finite(), a.is_finite());
        assert_eq!(double(a).integral(), a.is_finite() && a.fract() == 0.0, "{a}");
        assert_eq!(double(a).to_i64(), a as i64, "{a}");
        for b in doubles() {
            assert_eq!(double(a).lt(double(b)), a < b, "{a} {b}");
            assert_eq!(double(a).le(double(b)), a <= b, "{a} {b}");
            assert_eq!(double(a).near(double(b)), (a - b).abs() < 1e-9, "{a} {b}");
        }
    }
}

#[test]
fn integers_become_the_nearest_double() {
    for n in [0, 1, 3, 1 << 53, (1 << 53) + 1, (1 << 53) + 3, u64::MAX, u64::MAX - 1024, u64::MAX - 1023] {
        assert_eq!(Double::from_u64(n).bits, (n as f64).to_bits(), "{n}");
    }
    for n in [0, -1, 5, i64::MIN, i64::MAX, -(1 << 53) - 1] {
        assert_eq!(Double::from_i64(n).bits, (n as f64).to_bits(), "{n}");
    }
}

#[test]
fn close_pairs_are_compared_as_the_machine_does() {
    // Differences around the bound, at many magnitudes.
    let mut x = 1.0_f64;
    while x < 1e12 {
        for k in [0.0, 0.5e-9, 0.999_999e-9, 1e-9, 1.000_001e-9, 2e-9] {
            let y = x + k;
            assert_eq!(double(x).near(double(y)), (x - y).abs() < 1e-9, "{x} {y}");
            assert_eq!(double(-x).near(double(-y)), (x - y).abs() < 1e-9, "{x} {y}");
        }
        x = x * 1.7 + 0.3;
    }
}

#[test]
fn json_texts_are_those_of_serde() {
    for s in [
        "null",
        "true",
        "0",
        "-5",
        "18446744073709551615",
        "1.5",
        "1e300",
        r#""""#,
        r#""quote \" back \\ slash / \b\f\n\r\t \u0001 \u001f é 語""#,
        "[]",
        "{}",
        r#"[1,[2,{"a":null}],"x"]"#,
        r#"{"a":1,"b":{"c":[true,false]}}"#,
    ] {
        let parsed = serde_json::from_str::<serde_json::Value>(s).unwrap();
        assert_eq!(js(s).to_text(), parsed.to_string(), "{s}");
    }
}

#[test]
fn values_are_read_as_by_serde() {
    let s = r#"{"a": 3, "b": -4, "c": 2.5, "d": "t", "e": ["x", 1, "y"], "f": 18446744073709551615}"#;
    let parsed = serde_json::from_str::<serde_json::Value>(s).unwrap();
    let v = js(s);
    assert!(v.is_object());
    for k in ["a", "b", "c", "d", "e", "f", "g"] {
        match v.get(k) {
            None => assert!(parsed.get(k).is_none()),
            Some(x) => {
                assert_eq!(x.as_i64(), parsed[k].as_i64());
                assert_eq!(x.as_str(), parsed[k].as_str());
                assert_eq!(x.as_double().map(|d| d.bits), parsed[k].as_f64().map(|f| f.to_bits()));
                assert_eq!(x.as_array().is_some(), parsed[k].is_array());
            }
        }
    }
    assert_eq!(v.get("e").unwrap().strings(), vec!["x".to_string(), "y".to_string()]);
    assert_eq!(v.copy(), v);
}

#[test]
fn listed_numbers_are_found() {
    let mut table = NumberTable::new();
    table.list("4.0", real_of(4.0));
    table.list("4.0", real_of(5.0));
    assert_eq!(table.get("4.0"), Some(&real_of(4.0)));
    assert_eq!(table.get("4"), None);
}

#[test]
fn instants_are_written_as_by_chrono() {
    for (secs, nanos) in [(0, 0), (1_588_741_689, 500_000_000), (-1, 1), (MAX_SECS, 0), (MIN_SECS, 0)] {
        let expected = chrono::DateTime::from_timestamp(secs, nanos).unwrap().to_rfc3339();
        assert_eq!(Timestamp { secs, nanos }.to_rfc3339(), expected);
    }
    // The bounds are those of the calendar.
    assert_eq!(chrono::DateTime::<chrono::Utc>::MAX_UTC.timestamp(), MAX_SECS);
    assert_eq!(chrono::DateTime::<chrono::Utc>::MIN_UTC.timestamp(), MIN_SECS);
}

#[test]
fn instants_are_ordered_and_shifted() {
    let a = Timestamp { secs: 10, nanos: 5 };
    let b = Timestamp { secs: 10, nanos: 6 };
    assert!(a.before(b) && !b.before(a) && !a.before(a));
    assert_eq!(a.plus(-3), Timestamp { secs: 7, nanos: 5 });
    let c = Timestamp { secs: 12, nanos: 0 };
    assert_eq!(c.millis_since(a), 1_999);
}

#[test]
fn display_elements_take_no_answers() {
    for kind in [QuestionKind::Info, QuestionKind::Image, QuestionKind::Video] {
        assert!(!kind.is_answerable());
        assert!(!kind.is_conditionable());
        assert!(!kind.is_array_valued());
    }
    for kind in [QuestionKind::ShortText, QuestionKind::Scale, QuestionKind::Agreement] {
        assert!(kind.is_answerable());
        assert!(kind.is_conditionable());
        assert!(!kind.is_array_valued());
    }
    assert!(QuestionKind::MultiChoice.is_array_valued());
    assert_eq!(QuestionKind::MultiChoice.as_str(), "multi_choice");
}

#[test]
fn trimming_twice_is_trimming_once() {
    for x in ["", "  ", " a b\t", "a", "\u{a0}a\n"] {
        assert_eq!(trim(trim(x)), trim(x));
        assert_eq!(trim(x), x.trim());
    }
}

#[test]
fn tables_can_be_relisted() {
    let mut table = NumberTable::new();
    table.list("a", Real { value: Double { bits: 1 }, display: "x".into() });
    table.list("a", Real { value: Double { bits: 2 }, display: "y".into() });
    assert_eq!(table.get("a").map(|n| n.value.bits), Some(1));
    let before = table.copy();
    table.relist("a", Real { value: Double { bits: 3 }, display: "z".into() });
    table.relist("b", Real { value: Double { bits: 4 }, display: "w".into() });
    assert_eq!(table.get("a").map(|n| n.value.bits), Some(3));
    assert_eq!(table.get("b").map(|n| n.value.bits), Some(4));
    assert_eq!(before.get("a").map(|n| n.value.bits), Some(1));
    assert_eq!(before.get("b"), None);
}

#[test]
fn whole_numbers_are_kept() {
    for f in [0.0, -0.0, 1.0, -5.0, 9007199254740993.0, 4e18, -4e18, 9.2e18] {
        let d = Double { bits: f64::to_bits(f) };
        let back = Double::from_i64(d.to_i64());
        assert_eq!(f64::from_bits(back.bits), f);
    }
}
