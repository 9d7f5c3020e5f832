//! Server-side validation for form submissions and form-builder PUT bodies.
//!
//! `validate` runs at submit time: it type-checks the answer payload against
//! the form's question schema and produces normalized answers. The normalized
//! shape is what the evaluation of conditions expects.
//!
//! `sanity_check` runs at form-builder PUT time: structural invariants on the
//! schema itself (unique ids, limits on sizes and counts).

use vstd::prelude::*;

use crate::double::Double;
use crate::error::{Fault, FieldError};
use crate::json::{Json, NumberTable, Real, RealView, Value};
use crate::models::form::{FormSchema, Page, Question, QuestionKind, QuestionOption};
use crate::numerals::{i64_text, usize_text};
use crate::outside::{parse_day, parse_rfc3339, to_lowercase};
use crate::services::condition_eval::{is_covered, DATE_FORMAT};
use crate::table::{member, position};
use crate::text::{
    blank, byte_len, cat3, cat5, chars_of, has_char, owned, push_text, same, split, starts_with,
    to_ascii_lower, trim,
};

verus! {

pub const MAX_QUESTIONS: usize = 50;

pub const MAX_PAGES: usize = 10;

pub const MAX_OPTIONS_PER_QUESTION: usize = 50;

pub const DEFAULT_MAX_TEXT_LEN: usize = 100;

pub const DEFAULT_MAX_LONG_TEXT_LEN: usize = 4000;

/// Upper bound on the points a single quiz question may award. Mirrors the
/// per-form `passing_score` ceiling so a 50-question quiz can still out-score
/// any reachable threshold.
pub const MAX_QUESTION_POINTS: i32 = 1_000_000;

// ---------------------------------------------------------------------------
// Verified answers
// ---------------------------------------------------------------------------

/// Normalized answers, by question id:
/// - text/email/single_choice/dropdown/scale/number/date: a JSON string
/// - multi_choice: a JSON array of option-id strings
/// - agreement: the JSON string "true"
#[derive(Debug, PartialEq)]
pub struct VerifiedAnswers {
    entries: Vec<(String, Value)>,
}

/// What the first entry for `key` holds.
pub open spec fn answer_at(entries: Seq<(String, Value)>, key: Seq<char>) -> Option<Json> {
    match crate::table::index_of(crate::table::keys(entries), key) {
        Some(i) => Some(entries[i].1@),
        None => None,
    }
}

impl View for VerifiedAnswers {
    type V = Map<Seq<char>, Json>;

    closed spec fn view(&self) -> Map<Seq<char>, Json> {
        Map::new(
            |k: Seq<char>| answer_at(self.entries@, k) is Some,
            |k: Seq<char>| answer_at(self.entries@, k)->0,
        )
    }
}

impl VerifiedAnswers {
    /// Whether no question has two answers.
    #[verifier::type_invariant]
    closed spec fn wf(self) -> bool {
        crate::table::distinct(crate::table::keys(self.entries@))
    }

    /// No answers.
    pub fn new() -> (r: VerifiedAnswers)
        ensures
            r@ == Map::<Seq<char>, Json>::empty(),
    {
        let r = VerifiedAnswers { entries: Vec::new() };
        assert(r@ =~= Map::empty());
        r
    }

    /// Sets the answer to a question.
    pub fn insert(&mut self, key: &str, value: Value)
        ensures
            final(self)@ == old(self)@.insert(key@, value@),
    {
        proof {
            use_type_invariant(&*self);
        }
        let ghost before = self.entries@;
        let ghost was = crate::table::keys(before);
        let mut entries: Vec<(String, Value)> = Vec::new();
        std::mem::swap(&mut entries, &mut self.entries);
        match position(&entries, key) {
            Some(i) => {
                proof {
                    crate::table::lemma_index_from(was, key@, 0);
                }
                entries.set(i, (owned(key), value));
                assert(crate::table::keys(entries@) =~= was);
            },
            None => {
                proof {
                    crate::table::lemma_index_from(was, key@, 0);
                }
                entries.push((owned(key), value));
                assert(crate::table::keys(entries@) =~= was.push(key@));
            },
        }
        proof {
            let now = crate::table::keys(entries@);
            assert forall|k: Seq<char>| #[trigger]
                answer_at(entries@, k) == if k == key@ {
                    Some(value@)
                } else {
                    answer_at(before, k)
                } by {
                crate::table::lemma_index_from(was, k, 0);
                crate::table::lemma_index_from(now, k, 0);
                if k == key@ {
                    assert(now.contains(k)) by {
                        match crate::table::index_of(was, k) {
                            Some(i) => {
                                assert(now[i] == k);
                            },
                            None => {
                                assert(now[was.len() as int] == k);
                            },
                        }
                    }
                }
                if let Some(i) = crate::table::index_of(was, k) {
                    assert(now[i] == k);
                }
                if let Some(j) = crate::table::index_of(now, k) {
                    if j < was.len() {
                        assert(was[j] == k);
                    }
                }
            }
        }
        self.entries = entries;
        assert(self@ =~= old(self)@.insert(key@, value@));
    }

    /// The answer to a question.
    pub fn get(&self, key: &str) -> (r: Option<&Value>)
        ensures
            match r {
                Some(v) => self@.contains_key(key@) && self@[key@] == v@,
                None => !self@.contains_key(key@),
            },
    {
        match position(&self.entries, key) {
            Some(i) => Some(&self.entries[i].1),
            None => None,
        }
    }

    /// The answers as a JSON object.
    pub fn to_value(&self) -> (r: Value)
        ensures
            is_record_of(r@, self@),
            crate::table::distinct(crate::json::record_keys(r@->Record_0)),
    {
        proof {
            use_type_invariant(self);
        }
        let mut fields = crate::json::no_fields();
        for i in 0..self.entries.len()
            invariant
                crate::json::fields(fields@) =~= crate::json::fields(
                    self.entries@.take(i as int),
                ),
        {
            crate::json::push_field(
                &mut fields,
                self.entries[i].0.as_str(),
                self.entries[i].1.copy(),
            );
        }
        let r = crate::json::object(fields);
        proof {
            let entries = self.entries@;
            assert(entries.take(entries.len() as int) =~= entries);
            assert(crate::json::record_keys(r@->Record_0) =~= crate::table::keys(entries));
            assert forall|k: Seq<char>| #[trigger]
                r@.field(k) == if self@.contains_key(k) {
                    Some(self@[k])
                } else {
                    None
                } by {
                crate::table::lemma_index_from(crate::table::keys(entries), k, 0);
            }
        }
        r
    }
}

// ---------------------------------------------------------------------------
// What an answer has to be
// ---------------------------------------------------------------------------

/// What comes of checking the answer to a question: a normalized answer,
/// nothing, or a complaint.
pub enum Checked {
    Answer(Json),
    Skipped,
    Wrong(Seq<char>),
}

/// What `r` stands for.
pub open spec fn checked(r: Result<Option<Value>, String>) -> Checked {
    match r {
        Ok(Some(v)) => Checked::Answer(v@),
        Ok(None) => Checked::Skipped,
        Err(s) => Checked::Wrong(s@),
    }
}

/// Whether there is no answer, or one without content.
pub open spec fn is_empty_answer(raw: Option<Json>) -> bool {
    match raw {
        None | Some(Json::Null) => true,
        Some(Json::Text(s)) => crate::text::is_blank_text(s),
        Some(Json::List(a)) => a.len() == 0,
        _ => false,
    }
}

/// What a missing answer comes to.
pub open spec fn missing(q: Question) -> Checked {
    if q.required {
        Checked::Wrong("This question is required."@)
    } else {
        Checked::Skipped
    }
}

/// How long the answer to a text question may be.
pub open spec fn text_limit(q: Question) -> usize {
    match q.max_length {
        Some(n) => n as usize,
        None => if q.kind is LongText {
            DEFAULT_MAX_LONG_TEXT_LEN
        } else {
            DEFAULT_MAX_TEXT_LEN
        },
    }
}

pub open spec fn text_checked(q: Question, raw: Option<Json>) -> Checked {
    if is_empty_answer(raw) {
        missing(q)
    } else if raw->0 !is Text {
        Checked::Wrong("Answer must be text."@)
    } else {
        let s = crate::text::trimmed(raw->0->Text_0);
        if s.len() > text_limit(q) {
            Checked::Wrong(
                "Answer is too long (max "@ + crate::numerals::nat_text(text_limit(q) as nat)
                    + " characters)."@,
            )
        } else {
            Checked::Answer(Json::Text(s))
        }
    }
}

/// The number in an answer: a JSON number, or the one that a text denotes once
/// it is trimmed.
pub open spec fn answered_number(
    j: Json,
    numbers: spec_fn(Seq<char>) -> Option<RealView>,
) -> Option<RealView> {
    match j {
        Json::Number(n) => Some(
            match n {
                crate::json::Numeral::Float { number, json } => number,
                _ => RealView { value: n.double(), display: n.text() },
            },
        ),
        Json::Text(s) => numbers(crate::text::trimmed(s)),
        _ => None,
    }
}

/// A number as it is stored: a whole one without a fraction, another in its
/// shortest form.
pub open spec fn stored_number(n: RealView) -> Seq<char> {
    if n.value.is_integral() {
        crate::numerals::int_text(n.value.cut() as int)
    } else {
        n.display
    }
}

/// The number that a number is stored as: a whole one is cut to the range of
/// `i64`.
pub open spec fn stored_value(n: RealView) -> Double {
    if n.value.is_integral() {
        Double::of_int(n.value.cut() as int)
    } else {
        n.value
    }
}

/// The number in the answer to a numeric question.
pub open spec fn number_in(
    q: Question,
    raw: Json,
    numbers: spec_fn(Seq<char>) -> Option<RealView>,
) -> Option<RealView> {
    let answer = raw.field(q.id@);
    if is_numeric(q.kind) && !is_empty_answer(answer) {
        answered_number(answer->0, numbers)
    } else {
        None
    }
}

/// What texts denote once the answers are stored: the stored text of a number
/// denotes what the number is stored as, and any other text what it did before.
pub open spec fn with_stored(
    questions: Seq<Question>,
    raw: Json,
    numbers: spec_fn(Seq<char>) -> Option<RealView>,
) -> spec_fn(Seq<char>) -> Option<RealView>
    decreases questions.len(),
{
    if questions.len() == 0 {
        numbers
    } else {
        let before = with_stored(questions.drop_last(), raw, numbers);
        match number_in(questions.last(), raw, numbers) {
            Some(n) => crate::json::reading(
                before,
                crate::text::trimmed(stored_number(n)),
                RealView { value: stored_value(n), display: stored_number(n) },
            ),
            None => before,
        }
    }
}

pub open spec fn number_checked(
    q: Question,
    raw: Option<Json>,
    numbers: spec_fn(Seq<char>) -> Option<RealView>,
) -> Checked {
    if is_empty_answer(raw) {
        missing(q)
    } else {
        match answered_number(raw->0, numbers) {
            None => Checked::Wrong("Answer must be a number."@),
            Some(n) => if q.min matches Some(min) && n.value.below(min.value) {
                Checked::Wrong("Answer must be at least "@ + q.min->0.display@ + "."@)
            } else if q.max matches Some(max) && max.value.below(n.value) {
                Checked::Wrong("Answer must be at most "@ + q.max->0.display@ + "."@)
            } else {
                Checked::Answer(Json::Text(stored_number(n)))
            },
        }
    }
}

/// The ids of the options.
pub open spec fn option_ids(options: Seq<QuestionOption>) -> Seq<Seq<char>> {
    options.map_values(|o: QuestionOption| o.id@)
}

pub open spec fn single_choice_checked(q: Question, raw: Option<Json>) -> Checked {
    if is_empty_answer(raw) {
        missing(q)
    } else if raw->0 !is Text {
        Checked::Wrong("Answer must be a single option id."@)
    } else if q.options is None {
        Checked::Wrong("Question is misconfigured (no options)."@)
    } else if !option_ids(q.options->0@).contains(raw->0->Text_0) {
        Checked::Wrong("Selected option is not valid for this question."@)
    } else {
        Checked::Answer(raw->0)
    }
}

/// The complaint about the first item that is not the id of an option.
pub open spec fn choice_complaint(items: Seq<Json>, ids: Seq<Seq<char>>) -> Option<Seq<char>>
    decreases items.len(),
{
    if items.len() == 0 {
        None
    } else {
        match items[0] {
            Json::Text(s) => if ids.contains(s) {
                choice_complaint(items.skip(1), ids)
            } else {
                Some("Option \""@ + s + "\" is not valid for this question."@)
            },
            _ => Some("Each selection must be an option id string."@),
        }
    }
}

pub open spec fn multi_choice_checked(q: Question, raw: Option<Json>) -> Checked {
    if is_empty_answer(raw) {
        missing(q)
    } else if raw->0 !is List {
        Checked::Wrong("Answer must be a list of option ids."@)
    } else if q.options is None {
        Checked::Wrong("Question is misconfigured (no options)."@)
    } else {
        match choice_complaint(raw->0->List_0, option_ids(q.options->0@)) {
            Some(s) => Checked::Wrong(s),
            None => Checked::Answer(raw->0),
        }
    }
}

pub open spec fn date_checked(q: Question, raw: Option<Json>) -> Checked {
    if is_empty_answer(raw) {
        missing(q)
    } else if raw->0 !is Text {
        Checked::Wrong("Answer must be a date string."@)
    } else {
        let s = crate::text::trimmed(raw->0->Text_0);
        if crate::services::condition_eval::as_instant(s) is None {
            Checked::Wrong("Date must be in YYYY-MM-DD format."@)
        } else {
            Checked::Answer(Json::Text(s))
        }
    }
}

/// Whether `c` may stand in the domain of an email address.
pub open spec fn is_domain_char(c: char) -> bool {
    ||| '0' <= c <= '9'
    ||| 'a' <= c <= 'z'
    ||| 'A' <= c <= 'Z'
    ||| c == '.'
    ||| c == '-'
}

/// Whether `s` has the shape of an email address.
pub open spec fn is_email_shaped(s: Seq<char>) -> bool {
    let parts = crate::text::split_parts(s, "@"@);
    &&& parts.len() == 2
    &&& parts[0].len() > 0
    &&& crate::text::byte_size(parts[1]) >= 3
    &&& parts[1].contains('.')
    &&& forall|i: int| 0 <= i < parts[1].len() ==> is_domain_char(#[trigger] parts[1][i])
}

pub open spec fn email_checked(q: Question, raw: Option<Json>) -> Checked {
    if is_empty_answer(raw) {
        missing(q)
    } else if raw->0 !is Text {
        Checked::Wrong("Email must be text."@)
    } else {
        let s = crate::text::trimmed(raw->0->Text_0);
        if !is_email_shaped(s) {
            Checked::Wrong("That doesn't look like a valid email address."@)
        } else if crate::text::byte_size(s) > 320 {
            Checked::Wrong("Email is too long."@)
        } else {
            Checked::Answer(Json::Text(s))
        }
    }
}

/// Whether an answer says yes.
pub open spec fn agrees(raw: Option<Json>) -> bool {
    match raw {
        Some(Json::Bool(b)) => b,
        Some(Json::Text(s)) => s == "true"@ || s == "yes"@ || s == "on"@ || s == "1"@,
        Some(Json::Number(n)) => n.integer() is Some && n.integer() != Some(0i64),
        _ => false,
    }
}

pub open spec fn agreement_checked(q: Question, raw: Option<Json>) -> Checked {
    if agrees(raw) {
        Checked::Answer(Json::Text("true"@))
    } else if q.required {
        Checked::Wrong("You must agree to continue."@)
    } else {
        Checked::Skipped
    }
}

/// What comes of checking the answer `raw` to the question `q`.
pub open spec fn answer_checked(
    q: Question,
    raw: Option<Json>,
    numbers: spec_fn(Seq<char>) -> Option<RealView>,
) -> Checked {
    match q.kind {
        QuestionKind::ShortText | QuestionKind::LongText => text_checked(q, raw),
        QuestionKind::Number | QuestionKind::Scale => number_checked(q, raw, numbers),
        QuestionKind::SingleChoice | QuestionKind::Dropdown => single_choice_checked(q, raw),
        QuestionKind::MultiChoice => multi_choice_checked(q, raw),
        QuestionKind::Date => date_checked(q, raw),
        QuestionKind::Email => email_checked(q, raw),
        QuestionKind::Agreement => agreement_checked(q, raw),
        QuestionKind::Info | QuestionKind::Image | QuestionKind::Video => Checked::Skipped,
    }
}

/// What is wrong with the answers, question by question.
pub open spec fn answer_faults(
    questions: Seq<Question>,
    raw: Json,
    numbers: spec_fn(Seq<char>) -> Option<RealView>,
) -> Seq<Fault>
    decreases questions.len(),
{
    if questions.len() == 0 {
        Seq::empty()
    } else {
        let q = questions.last();
        let before = answer_faults(questions.drop_last(), raw, numbers);
        match answer_checked(q, raw.field(q.id@), numbers) {
            Checked::Wrong(s) => before.push(Fault { question_id: q.id@, message: s }),
            _ => before,
        }
    }
}

/// The normalized answers, by question id.
pub open spec fn normalized(
    questions: Seq<Question>,
    raw: Json,
    numbers: spec_fn(Seq<char>) -> Option<RealView>,
) -> Map<Seq<char>, Json>
    decreases questions.len(),
{
    if questions.len() == 0 {
        Map::empty()
    } else {
        let q = questions.last();
        let before = normalized(questions.drop_last(), raw, numbers);
        match answer_checked(q, raw.field(q.id@), numbers) {
            Checked::Answer(v) => before.insert(q.id@, v),
            _ => before,
        }
    }
}

// ---------------------------------------------------------------------------
// Validation
// ---------------------------------------------------------------------------

/// Validate an answer payload against the form schema.
///
/// `raw_answers` is the user-submitted JSON (whatever shape the browser sent).
/// It is projected down to the questions defined on the form, and anything
/// that doesn't match is rejected. `numbers` holds the numbers that the texts
/// among the answers denote once they are trimmed.
pub fn validate(schema: &FormSchema, raw_answers: &Value, numbers: &NumberTable) -> (r: Result<
    VerifiedAnswers,
    Vec<FieldError>,
>)
    ensures
        raw_answers@ !is Record ==> r is Err && crate::error::faults(r->Err_0@) == seq![
            Fault { question_id: Seq::empty(), message: "Answers must be a JSON object."@ },
        ],
        raw_answers@ is Record ==> {
            let wrong = answer_faults(schema.asked(), raw_answers@, numbers@);
            match r {
                Ok(out) => wrong.len() == 0 && out@ == normalized(
                    schema.asked(),
                    raw_answers@,
                    numbers@,
                ),
                Err(errors) => wrong.len() > 0 && crate::error::faults(errors@) == wrong,
            }
        },
{
    let mut errors: Vec<FieldError> = Vec::new();
    if !raw_answers.is_object() {
        errors.push(
            FieldError {
                question_id: String::new(),
                message: owned("Answers must be a JSON object."),
            },
        );
        assert(crate::error::faults(errors@) =~= seq![
            Fault { question_id: Seq::empty(), message: "Answers must be a JSON object."@ },
        ]);
        return Err(errors);
    }
    let mut out: VerifiedAnswers = VerifiedAnswers::new();
    let asked = schema.iter_questions();
    let ghost all = schema.asked();
    assert(crate::error::faults(errors@) =~= Seq::empty());
    for i in 0..asked.len()
        invariant
            asked@.map_values(|q: &Question| *q) == all,
            crate::error::faults(errors@) == answer_faults(
                all.take(i as int),
                raw_answers@,
                numbers@,
            ),
            out@ == normalized(all.take(i as int), raw_answers@, numbers@),
    {
        let q = asked[i];
        proof {
            assert(all[i as int] == *q);
            assert(all.take(i + 1).drop_last() =~= all.take(i as int));
        }
        let raw = raw_answers.get(q.id.as_str());
        let result = check_answer(q, raw, numbers);
        let ghost before = errors@;
        match result {
            Ok(Some(v)) => {
                out.insert(q.id.as_str(), v);
            },
            Ok(None) => {},
            Err(message) => {
                let e = FieldError { question_id: owned(q.id.as_str()), message };
                errors.push(e);
                assert(crate::error::faults(errors@) =~= crate::error::faults(before).push(e@));
            },
        }
    }
    assert(all.take(all.len() as int) =~= all);
    assert(crate::error::faults(errors@).len() == errors.len());
    if errors.len() == 0 {
        Ok(out)
    } else {
        Err(errors)
    }
}

/// The table with which the answers can be read once they are stored: `numbers`,
/// extended by what the stored text of each number among the answers denotes.
/// `numbers` holds the numbers that the texts among the answers denote.
pub fn read_stored(schema: &FormSchema, raw_answers: &Value, numbers: &NumberTable) -> (r:
    NumberTable)
    ensures
        r@ == with_stored(schema.asked(), raw_answers@, numbers@),
{
    let mut table = numbers.copy();
    let asked = schema.iter_questions();
    let ghost all = schema.asked();
    assert(all.take(0) =~= Seq::empty());
    for i in 0..asked.len()
        invariant
            asked@.map_values(|q: &Question| *q) == all,
            table@ == with_stored(all.take(i as int), raw_answers@, numbers@),
    {
        let q = asked[i];
        proof {
            assert(all[i as int] == *q);
            assert(all.take(i + 1).drop_last() =~= all.take(i as int));
        }
        let raw = raw_answers.get(q.id.as_str());
        let numeric: bool = match q.kind {
            QuestionKind::Number | QuestionKind::Scale => true,
            _ => false,
        };
        if numeric && !is_blank(raw) {
            let answer = match raw {
                Some(v) => number_of(v, numbers),
                None => None,
            };
            if let Some(n) = answer {
                let text = stored(&n);
                let value = if n.value.integral() {
                    Double::from_i64(n.value.to_i64())
                } else {
                    n.value
                };
                let display = owned(text.as_str());
                table.relist(trim(text.as_str()), Real { value, display });
            }
        }
    }
    assert(all.take(all.len() as int) =~= all);
    table
}

/// The view of an optional value that is borrowed.
pub open spec fn seen(v: Option<&Value>) -> Option<Json> {
    match v {
        Some(x) => Some(x@),
        None => None,
    }
}

/// Checks the answer `raw` to the question `q` and normalizes it.
pub fn check_answer(q: &Question, raw: Option<&Value>, numbers: &NumberTable) -> (r: Result<
    Option<Value>,
    String,
>)
    ensures
        checked(r) == answer_checked(*q, seen(raw), numbers@),
{
    match q.kind {
        QuestionKind::ShortText | QuestionKind::LongText => validate_text(q, raw),
        QuestionKind::Number | QuestionKind::Scale => validate_number(q, raw, numbers),
        QuestionKind::SingleChoice | QuestionKind::Dropdown => validate_single_choice(q, raw),
        QuestionKind::MultiChoice => validate_multi_choice(q, raw),
        QuestionKind::Date => validate_date(q, raw),
        QuestionKind::Email => validate_email(q, raw),
        QuestionKind::Agreement => validate_agreement(q, raw),
        QuestionKind::Info | QuestionKind::Image | QuestionKind::Video => Ok(None),
    }
}

fn is_blank(v: Option<&Value>) -> (r: bool)
    ensures
        r == is_empty_answer(seen(v)),
{
    match v {
        None => true,
        Some(Value::Null) => true,
        Some(Value::String(s)) => blank(s.as_str()),
        Some(Value::Array(a)) => a.len() == 0,
        _ => false,
    }
}

fn require(q: &Question) -> (r: Result<Option<Value>, String>)
    ensures
        checked(r) == missing(*q),
{
    if q.required {
        Err(owned("This question is required."))
    } else {
        Ok(None)
    }
}

fn validate_text(q: &Question, raw: Option<&Value>) -> (r: Result<Option<Value>, String>)
    ensures
        checked(r) == text_checked(*q, seen(raw)),
{
    if is_blank(raw) {
        return require(q);
    }
    let s = match raw {
        Some(Value::String(s)) => trim(s.as_str()),
        _ => return Err(owned("Answer must be text.")),
    };
    let max_len: usize = match q.max_length {
        Some(n) => n as usize,
        None => match q.kind {
            QuestionKind::LongText => DEFAULT_MAX_LONG_TEXT_LEN,
            _ => DEFAULT_MAX_TEXT_LEN,
        },
    };
    if s.unicode_len() > max_len {
        return Err(
            cat3("Answer is too long (max ", usize_text(max_len).as_str(), " characters)."),
        );
    }
    Ok(Some(Value::String(owned(s))))
}

fn stored(number: &Real) -> (r: String)
    ensures
        r@ == stored_number(number@),
{
    if number.value.integral() {
        i64_text(number.value.to_i64())
    } else {
        owned(number.display.as_str())
    }
}

/// The number in an answer.
fn number_of(answer: &Value, numbers: &NumberTable) -> (r: Option<Real>)
    ensures
        answered_number(answer@, numbers@) == (match r {
            Some(n) => Some(n@),
            None => None,
        }),
{
    match answer {
        Value::Number(n) => match n {
            crate::json::Number::Float { number, json } => Some(number.copy()),
            _ => Some(Real { value: n.as_double(), display: n.to_text() }),
        },
        Value::String(s) => match numbers.get(trim(s.as_str())) {
            Some(n) => Some(n.copy()),
            None => None,
        },
        _ => None,
    }
}

fn validate_number(q: &Question, raw: Option<&Value>, numbers: &NumberTable) -> (r: Result<
    Option<Value>,
    String,
>)
    ensures
        checked(r) == number_checked(*q, seen(raw), numbers@),
{
    if is_blank(raw) {
        return require(q);
    }
    let answer = match raw {
        Some(v) => number_of(v, numbers),
        None => None,
    };
    let number = match answer {
        Some(n) => n,
        None => return Err(owned("Answer must be a number.")),
    };
    let value = number.value;
    if let Some(min) = &q.min {
        if value.lt(min.value) {
            return Err(cat3("Answer must be at least ", min.display.as_str(), "."));
        }
    }
    if let Some(max) = &q.max {
        if max.value.lt(value) {
            return Err(cat3("Answer must be at most ", max.display.as_str(), "."));
        }
    }
    Ok(Some(Value::String(stored(&number))))
}

fn has_option(options: &Vec<QuestionOption>, id: &str) -> (r: bool)
    ensures
        r == option_ids(options@).contains(id@),
{
    for i in 0..options.len()
        invariant
            forall|j: int| 0 <= j < i ==> (#[trigger] options@[j]).id@ != id@,
    {
        if same(options[i].id.as_str(), id) {
            assert(option_ids(options@)[i as int] == id@);
            return true;
        }
    }
    false
}

fn validate_single_choice(q: &Question, raw: Option<&Value>) -> (r: Result<Option<Value>, String>)
    ensures
        checked(r) == single_choice_checked(*q, seen(raw)),
{
    if is_blank(raw) {
        return require(q);
    }
    let s = match raw {
        Some(Value::String(s)) => s,
        _ => return Err(owned("Answer must be a single option id.")),
    };
    match &q.options {
        None => Err(owned("Question is misconfigured (no options).")),
        Some(options) => if !has_option(options, s.as_str()) {
            Err(owned("Selected option is not valid for this question."))
        } else {
            Ok(Some(Value::String(owned(s.as_str()))))
        },
    }
}

fn validate_multi_choice(q: &Question, raw: Option<&Value>) -> (r: Result<Option<Value>, String>)
    ensures
        checked(r) == multi_choice_checked(*q, seen(raw)),
{
    if is_blank(raw) {
        return require(q);
    }
    let arr = match raw {
        Some(Value::Array(a)) => a,
        _ => return Err(owned("Answer must be a list of option ids.")),
    };
    let options = match &q.options {
        Some(options) => options,
        None => return Err(owned("Question is misconfigured (no options).")),
    };
    let ghost items = crate::json::jsons(arr@);
    let ghost ids = option_ids(options@);
    assert(seen(raw)->0->List_0 =~= items);
    let mut chosen: Vec<Value> = Vec::new();
    assert(items.skip(0) =~= items);
    for i in 0..arr.len()
        invariant
            items == crate::json::jsons(arr@),
            ids == option_ids(options@),
            q.options == Some(*options),
            !is_empty_answer(seen(raw)),
            seen(raw) == Some(Json::List(items)),
            choice_complaint(items, ids) == choice_complaint(items.skip(i as int), ids),
            chosen.len() == i,
            forall|j: int| 0 <= j < i ==> (#[trigger] chosen@[j])@ == items[j],
    {
        proof {
            assert(items.skip(i as int)[0] == arr@[i as int]@);
            assert(items.skip(i as int).skip(1) =~= items.skip(i + 1));
        }
        match &arr[i] {
            Value::String(s) => {
                if !has_option(options, s.as_str()) {
                    return Err(cat3("Option \"", s.as_str(), "\" is not valid for this question."));
                }
                chosen.push(Value::String(owned(s.as_str())));
            },
            _ => return Err(owned("Each selection must be an option id string.")),
        }
    }
    let r = Value::Array(chosen);
    assert(r@->List_0 =~= items);
    Ok(Some(r))
}

fn validate_date(q: &Question, raw: Option<&Value>) -> (r: Result<Option<Value>, String>)
    ensures
        checked(r) == date_checked(*q, seen(raw)),
{
    if is_blank(raw) {
        return require(q);
    }
    let s = match raw {
        Some(Value::String(s)) => trim(s.as_str()),
        _ => return Err(owned("Answer must be a date string.")),
    };
    // Either YYYY-MM-DD or full RFC 3339; the evaluation of conditions handles both.
    if parse_day(s, DATE_FORMAT).is_none() && parse_rfc3339(s).is_none() {
        return Err(owned("Date must be in YYYY-MM-DD format."));
    }
    Ok(Some(Value::String(owned(s))))
}

fn validate_email(q: &Question, raw: Option<&Value>) -> (r: Result<Option<Value>, String>)
    ensures
        checked(r) == email_checked(*q, seen(raw)),
{
    if is_blank(raw) {
        return require(q);
    }
    let s = match raw {
        Some(Value::String(s)) => trim(s.as_str()),
        _ => return Err(owned("Email must be text.")),
    };
    if !looks_like_email(s) {
        return Err(owned("That doesn't look like a valid email address."));
    }
    if byte_len(s) > 320 {
        return Err(owned("Email is too long."));
    }
    Ok(Some(Value::String(owned(s))))
}

fn validate_agreement(q: &Question, raw: Option<&Value>) -> (r: Result<Option<Value>, String>)
    ensures
        checked(r) == agreement_checked(*q, seen(raw)),
{
    let truthy: bool = match raw {
        Some(Value::Bool(b)) => *b,
        Some(Value::String(s)) => {
            let s = s.as_str();
            same(s, "true") || same(s, "yes") || same(s, "on") || same(s, "1")
        },
        Some(Value::Number(n)) => match n.as_i64() {
            Some(i) => i != 0,
            None => false,
        },
        _ => false,
    };
    if !truthy {
        if q.required {
            return Err(owned("You must agree to continue."));
        }
        return Ok(None);
    }
    Ok(Some(Value::String(owned("true"))))
}

/// Whether `s` has the shape of an email address.
pub fn looks_like_email(s: &str) -> (r: bool)
    ensures
        r == is_email_shaped(s@),
{
    proof {
        reveal_strlit("@");
    }
    let parts = split(s, "@");
    let ghost spec_parts = crate::text::split_parts(s@, "@"@);
    assert(spec_parts.len() == parts.len());
    if parts.len() != 2 {
        return false;
    }
    assert(spec_parts[0] == parts@[0]@ && spec_parts[1] == parts@[1]@);
    let domain = parts[1].as_str();
    if parts[0].as_str().unicode_len() == 0 || byte_len(domain) < 3 {
        return false;
    }
    if !has_char(domain, '.') {
        return false;
    }
    let v = chars_of(domain);
    for i in 0..v.len()
        invariant
            spec_parts == crate::text::split_parts(s@, "@"@),
            spec_parts.len() == 2,
            v@ == spec_parts[1],
            forall|j: int| 0 <= j < i ==> is_domain_char(#[trigger] spec_parts[1][j]),
    {
        let c = v[i];
        assert(spec_parts[1][i as int] == c);
        let fine: bool = (c >= '0' && c <= '9') || (c >= 'a' && c <= 'z') || (c >= 'A' && c <= 'Z')
            || c == '.' || c == '-';
        if !fine {
            return false;
        }
    }
    true
}

// ---------------------------------------------------------------------------
// Laws of validation
// ---------------------------------------------------------------------------

/// Whether `v` has the shape in which answers to `q` are stored.
pub open spec fn has_stored_shape(q: Question, v: Json) -> bool {
    match q.kind {
        QuestionKind::MultiChoice => {
            &&& v matches Json::List(items)
            &&& items.len() > 0
            &&& q.options is Some
            &&& forall|i: int|
                0 <= i < items.len() ==> (#[trigger] items[i]) is Text && option_ids(
                    q.options->0@,
                ).contains(items[i]->Text_0)
        },
        QuestionKind::SingleChoice | QuestionKind::Dropdown => v is Text && q.options is Some
            && option_ids(q.options->0@).contains(v->Text_0),
        QuestionKind::Agreement => v == Json::Text("true"@),
        _ => v is Text,
    }
}

pub proof fn lemma_choices_are_options(items: Seq<Json>, ids: Seq<Seq<char>>)
    requires
        choice_complaint(items, ids) is None,
    ensures
        forall|i: int|
            0 <= i < items.len() ==> (#[trigger] items[i]) is Text && ids.contains(items[i]->Text_0),
    decreases items.len(),
{
    if items.len() > 0 {
        lemma_choices_are_options(items.skip(1), ids);
        assert forall|i: int| 0 <= i < items.len() implies (#[trigger] items[i]) is Text
            && ids.contains(items[i]->Text_0) by {
            if i > 0 {
                assert(items[i] == items.skip(1)[i - 1]);
            }
        }
    }
}

/// Every answer that is accepted has the stored shape of its question's kind:
/// a list of option ids for checkboxes, "true" for an agreement, a text for
/// all others.
pub proof fn law_accepted_answers_have_stored_shape(
    q: Question,
    raw: Option<Json>,
    numbers: spec_fn(Seq<char>) -> Option<RealView>,
)
    ensures
        answer_checked(q, raw, numbers) matches Checked::Answer(v) ==> has_stored_shape(q, v),
{
    if q.kind is MultiChoice && raw is Some && raw->0 is List && q.options is Some {
        if choice_complaint(raw->0->List_0, option_ids(q.options->0@)) is None {
            lemma_choices_are_options(raw->0->List_0, option_ids(q.options->0@));
        }
    }
}

/// A question that takes an answer and is required does not accept an empty
/// one; a question that is not required passes over it.
pub proof fn law_required_questions_want_an_answer(
    q: Question,
    raw: Option<Json>,
    numbers: spec_fn(Seq<char>) -> Option<RealView>,
)
    requires
        !q.kind.display_only(),
        is_empty_answer(raw),
    ensures
        q.required ==> answer_checked(q, raw, numbers) is Wrong,
        !q.required ==> answer_checked(q, raw, numbers) is Skipped,
{
    reveal_strlit("true");
    reveal_strlit("yes");
    reveal_strlit("on");
    reveal_strlit("1");
    if q.kind is Agreement && agrees(raw) {
        let s = raw->0->Text_0;
        assert(s.len() > 0);
        lemma_blank_is_white(s);
        assert(s[0] == 't' || s[0] == 'y' || s[0] == 'o' || s[0] == '1');
    }
}

proof fn lemma_trimmed_end_white(s: Seq<char>)
    requires
        crate::text::trimmed_end(s).len() == 0,
    ensures
        forall|i: int| 0 <= i < s.len() ==> crate::text::is_white(#[trigger] s[i]),
    decreases s.len(),
{
    if s.len() > 0 {
        lemma_trimmed_end_white(s.drop_last());
        assert forall|i: int| 0 <= i < s.len() implies crate::text::is_white(#[trigger] s[i]) by {
            if i < s.len() - 1 {
                assert(s[i] == s.drop_last()[i]);
            }
        }
    }
}

proof fn lemma_blank_is_white(s: Seq<char>)
    requires
        crate::text::is_blank_text(s),
    ensures
        s.len() > 0 ==> crate::text::is_white(s[0]),
    decreases s.len(),
{
    if s.len() > 0 && !crate::text::is_white(s[0]) {
        lemma_trimmed_end_white(s);
    }
}

/// What is stored answers a question of the form and has the shape of its kind.
pub proof fn law_stored_answers_belong_to_questions(
    questions: Seq<Question>,
    raw: Json,
    numbers: spec_fn(Seq<char>) -> Option<RealView>,
    id: Seq<char>,
)
    requires
        normalized(questions, raw, numbers).contains_key(id),
    ensures
        exists|i: int|
            0 <= i < questions.len() && (#[trigger] questions[i]).id@ == id && has_stored_shape(
                questions[i],
                normalized(questions, raw, numbers)[id],
            ),
    decreases questions.len(),
{
    if questions.len() > 0 {
        let q = questions.last();
        let before = questions.drop_last();
        law_accepted_answers_have_stored_shape(q, raw.field(q.id@), numbers);
        if answer_checked(q, raw.field(q.id@), numbers) is Answer && q.id@ == id {
            assert(questions[questions.len() - 1] == q);
        } else {
            law_stored_answers_belong_to_questions(before, raw, numbers, id);
            let i = choose|i: int|
                0 <= i < before.len() && (#[trigger] before[i]).id@ == id && has_stored_shape(
                    before[i],
                    normalized(before, raw, numbers)[id],
                );
            assert(questions[i] == before[i]);
        }
    }
}

// ---------------------------------------------------------------------------
// Quiz grading
// ---------------------------------------------------------------------------

/// The texts and numbers among the items, in their order, as texts.
pub open spec fn keys_among(items: Seq<Json>) -> Seq<Seq<char>>
    decreases items.len(),
{
    if items.len() == 0 {
        Seq::empty()
    } else {
        let before = keys_among(items.drop_last());
        match items.last() {
            Json::Text(s) => before.push(s),
            Json::Number(n) => before.push(n.text()),
            _ => before,
        }
    }
}

/// The texts that are not blank, in their order.
pub open spec fn filled(texts: Seq<Seq<char>>) -> Seq<Seq<char>>
    decreases texts.len(),
{
    if texts.len() == 0 {
        Seq::empty()
    } else if crate::text::is_blank_text(texts.last()) {
        filled(texts.drop_last())
    } else {
        filled(texts.drop_last()).push(texts.last())
    }
}

/// The answers that an answer key accepts: one value, or any of an array.
/// Blank ones are left out, so that a stray empty text can't match an
/// unanswered question.
pub open spec fn accepted(correct: Json) -> Seq<Seq<char>> {
    filled(
        match correct {
            Json::Text(s) => seq![s],
            Json::Number(n) => seq![n.text()],
            Json::Bool(b) => seq![
                if b {
                    "true"@
                } else {
                    "false"@
                },
            ],
            Json::List(a) => keys_among(a),
            _ => Seq::empty(),
        },
    )
}

/// Whether a question is graded: it awards points and has an answer key that
/// accepts something.
pub open spec fn graded(q: Question) -> bool {
    &&& q.points matches Some(p)
    &&& p > 0
    &&& q.correct matches Some(c)
    &&& accepted(c@).len() > 0
}

/// How many of the questions are graded.
pub open spec fn graded_count(questions: Seq<Question>) -> nat
    decreases questions.len(),
{
    if questions.len() == 0 {
        0
    } else if graded(questions.last()) {
        graded_count(questions.drop_last()) + 1
    } else {
        graded_count(questions.drop_last())
    }
}

/// The number that an accepted answer denotes: a JSON number, or the one of a text
/// once it is trimmed.
pub open spec fn key_number(
    key: Json,
    numbers: spec_fn(Seq<char>) -> Option<RealView>,
) -> Option<Double> {
    match key {
        Json::Number(n) => Some(n.double()),
        Json::Text(s) => match numbers(crate::text::trimmed(s)) {
            Some(n) => if crate::text::is_blank_text(s) {
                None
            } else {
                Some(n.value)
            },
            None => None,
        },
        _ => None,
    }
}

/// Whether an accepted answer denotes a number near `got`.
pub open spec fn is_near_key(
    key: Json,
    got: Double,
    numbers: spec_fn(Seq<char>) -> Option<RealView>,
) -> bool {
    key_number(key, numbers) matches Some(want) && want.is_near(got)
}

/// Whether an answer key, which is one value or an array of them, accepts a number
/// near `got`.
pub open spec fn number_accepted(
    correct: Json,
    got: Double,
    numbers: spec_fn(Seq<char>) -> Option<RealView>,
) -> bool {
    match correct {
        Json::List(a) => exists|i: int|
            0 <= i < a.len() && is_near_key(#[trigger] a[i], got, numbers),
        _ => is_near_key(correct, got, numbers),
    }
}

/// Whether one of the accepted texts, trimmed and in lower case, is `got`.
pub open spec fn text_accepted(keys: Seq<Seq<char>>, got: Seq<char>) -> bool {
    exists|i: int|
        0 <= i < keys.len() && crate::outside::lowercase(
            crate::text::trimmed(#[trigger] keys[i]),
        ) == got
}

/// Whether one of the accepted texts, trimmed, is `got`.
pub open spec fn exactly_accepted(keys: Seq<Seq<char>>, got: Seq<char>) -> bool {
    exists|i: int| 0 <= i < keys.len() && crate::text::trimmed(#[trigger] keys[i]) == got
}

/// The trimmed text of an answer, empty where it is none.
pub open spec fn answer_text(actual: Json) -> Seq<char> {
    match actual {
        Json::Text(s) => crate::text::trimmed(s),
        _ => crate::text::trimmed(Seq::empty()),
    }
}

/// Whether an answer matches the answer key of a question of the kind.
///   - checkboxes match as the exact marked set;
///   - number/scale answers match numerically;
///   - text/email answers match case-insensitively after trimming, against any
///     of the accepted answers;
///   - all others match exactly after trimming.
pub open spec fn matches_key(
    kind: QuestionKind,
    correct: Json,
    actual: Json,
    numbers: spec_fn(Seq<char>) -> Option<RealView>,
) -> bool {
    let keys = accepted(correct);
    match kind {
        QuestionKind::MultiChoice => {
            let got = actual.text_items();
            &&& keys.len() > 0
            &&& crate::services::condition_eval::covered(keys, got)
            &&& crate::services::condition_eval::covered(got, keys)
        },
        QuestionKind::Number | QuestionKind::Scale => match answered_number(actual, numbers) {
            Some(got) => number_accepted(correct, got.value, numbers),
            None => false,
        },
        QuestionKind::ShortText | QuestionKind::LongText | QuestionKind::Email => {
            let got = crate::outside::lowercase(answer_text(actual));
            got.len() > 0 && text_accepted(keys, got)
        },
        _ => answer_text(actual).len() > 0 && exactly_accepted(keys, answer_text(actual)),
    }
}

/// The points that the answer to a question earns.
pub open spec fn earned(
    q: Question,
    verified: Map<Seq<char>, Json>,
    numbers: spec_fn(Seq<char>) -> Option<RealView>,
) -> nat {
    if graded(q) && verified.contains_key(q.id@) && matches_key(
        q.kind,
        q.correct->0@,
        verified[q.id@],
        numbers,
    ) {
        q.points->0 as nat
    } else {
        0
    }
}

/// The points that the answers earn together.
pub open spec fn total_earned(
    questions: Seq<Question>,
    verified: Map<Seq<char>, Json>,
    numbers: spec_fn(Seq<char>) -> Option<RealView>,
) -> nat
    decreases questions.len(),
{
    if questions.len() == 0 {
        0
    } else {
        total_earned(questions.drop_last(), verified, numbers) + earned(
            questions.last(),
            verified,
            numbers,
        )
    }
}

/// The score of a quiz: the points earned, held to the range of `i32`.
pub open spec fn quiz_score(
    questions: Seq<Question>,
    verified: Map<Seq<char>, Json>,
    numbers: spec_fn(Seq<char>) -> Option<RealView>,
) -> int {
    let total = total_earned(questions, verified, numbers);
    if total > i32::MAX {
        i32::MAX as int
    } else {
        total as int
    }
}

/// The answers that an answer key accepts.
///
/// Admins may store a single value (one accepted answer) or an array (any of
/// several accepted answers for text, or the full set of correct option ids
/// for checkboxes). Blank entries are dropped so a stray empty string can't
/// accidentally match an unanswered question.
pub fn accepted_answers(correct: &Value) -> (r: Vec<String>)
    ensures
        crate::text::texts(r@) == accepted(correct@),
{
    let mut raw: Vec<String> = Vec::new();
    let ghost empty = crate::text::texts(raw@);
    assert(empty =~= Seq::empty());
    match correct {
        Value::String(s) => {
            push_text(&mut raw, owned(s.as_str()));
            assert(crate::text::texts(raw@) =~= seq![s@]);
        },
        Value::Number(n) => {
            push_text(&mut raw, n.to_text());
            assert(crate::text::texts(raw@) =~= seq![n@.text()]);
        },
        Value::Bool(b) => {
            let s = if *b {
                owned("true")
            } else {
                owned("false")
            };
            push_text(&mut raw, s);
            assert(crate::text::texts(raw@) =~= seq![s@]);
        },
        Value::Array(a) => {
            let ghost items = correct@->List_0;
            assert(items =~= crate::json::jsons(a@));
            for i in 0..a.len()
                invariant
                    items == crate::json::jsons(a@),
                    crate::text::texts(raw@) == keys_among(items.take(i as int)),
            {
                proof {
                    assert(items.take(i + 1).drop_last() =~= items.take(i as int));
                    assert(items.take(i + 1).last() == a@[i as int]@);
                }
                match &a[i] {
                    Value::String(s) => push_text(&mut raw, owned(s.as_str())),
                    Value::Number(n) => push_text(&mut raw, n.to_text()),
                    _ => {},
                }
            }
            assert(items.take(items.len() as int) =~= items);
        },
        _ => {},
    }
    let ghost all = crate::text::texts(raw@);
    let mut out: Vec<String> = Vec::new();
    assert(crate::text::texts(out@) =~= Seq::empty());
    for i in 0..raw.len()
        invariant
            all == crate::text::texts(raw@),
            crate::text::texts(out@) == filled(all.take(i as int)),
    {
        proof {
            assert(all.take(i + 1).drop_last() =~= all.take(i as int));
            assert(all.take(i + 1).last() == raw@[i as int]@);
        }
        if !blank(raw[i].as_str()) {
            push_text(&mut out, owned(raw[i].as_str()));
        }
    }
    assert(all.take(all.len() as int) =~= all);
    out
}

/// Whether a question is actually graded: it awards positive points AND
/// carries a non-empty answer key. Both are required for it to count.
pub fn is_graded(q: &Question) -> (r: bool)
    ensures
        r == graded(*q),
{
    match (q.points, &q.correct) {
        (Some(p), Some(c)) => {
            let keys = accepted_answers(c);
            assert(crate::text::texts(keys@).len() == keys.len());
            p > 0 && keys.len() > 0
        },
        _ => false,
    }
}

/// Count how many questions will award points. Used to warn admins who turned
/// on quiz mode but haven't marked any correct answers yet.
pub fn quiz_graded_count(schema: &FormSchema) -> (r: usize)
    ensures
        r == graded_count(schema.asked()),
{
    let asked = schema.iter_questions();
    let ghost all = schema.asked();
    let mut n: usize = 0;
    for i in 0..asked.len()
        invariant
            asked@.map_values(|q: &Question| *q) == all,
            n == graded_count(all.take(i as int)),
            n <= i,
    {
        proof {
            assert(all[i as int] == *asked@[i as int]);
            assert(all.take(i + 1).drop_last() =~= all.take(i as int));
        }
        if is_graded(asked[i]) {
            n = n + 1;
        }
    }
    assert(all.take(all.len() as int) =~= all);
    n
}

fn answer_str(actual: &Value) -> (r: &str)
    ensures
        r@ == answer_text(actual@),
{
    trim(actual.str_or_empty())
}

/// Whether an accepted answer denotes a number near `got`.
fn near_key(key: &Value, got: Double, numbers: &NumberTable) -> (r: bool)
    ensures
        r == is_near_key(key@, got, numbers@),
{
    match key {
        Value::Number(n) => n.as_double().near(got),
        Value::String(s) => match numbers.get(trim(s.as_str())) {
            Some(want) => !blank(s.as_str()) && want.value.near(got),
            None => false,
        },
        _ => false,
    }
}

/// Whether an answer key accepts a number near `got`.
fn accepts_number(correct: &Value, got: Double, numbers: &NumberTable) -> (r: bool)
    ensures
        r == number_accepted(correct@, got, numbers@),
{
    match correct {
        Value::Array(a) => {
            let ghost items = correct@->List_0;
            assert(items =~= crate::json::jsons(a@));
            for i in 0..a.len()
                invariant
                    correct@ is List,
                    items == correct@->List_0,
                    items == crate::json::jsons(a@),
                    forall|j: int| 0 <= j < i ==> !is_near_key(#[trigger] items[j], got, numbers@),
            {
                assert(items[i as int] == a@[i as int]@);
                if near_key(&a[i], got, numbers) {
                    return true;
                }
            }
            false
        },
        _ => near_key(correct, got, numbers),
    }
}

/// Whether an answer matches the answer key of a question of the kind; `keys` are
/// the texts that the key accepts.
fn key_matches(
    kind: QuestionKind,
    correct: &Value,
    keys: &Vec<String>,
    actual: &Value,
    numbers: &NumberTable,
) -> (r: bool)
    requires
        crate::text::texts(keys@) == accepted(correct@),
    ensures
        r == matches_key(kind, correct@, actual@, numbers@),
{
    let ghost all = crate::text::texts(keys@);
    assert(all.len() == keys.len());
    match kind {
        QuestionKind::MultiChoice => {
            let got = actual.strings();
            keys.len() > 0 && is_covered(keys, &got) && is_covered(&got, keys)
        },
        QuestionKind::Number | QuestionKind::Scale => match number_of(actual, numbers) {
            Some(got) => accepts_number(correct, got.value, numbers),
            None => false,
        },
        QuestionKind::ShortText | QuestionKind::LongText | QuestionKind::Email => {
            let got = to_lowercase(answer_str(actual));
            if got.as_str().unicode_len() == 0 {
                return false;
            }
            for i in 0..keys.len()
                invariant
                    kind is ShortText || kind is LongText || kind is Email,
                    all == crate::text::texts(keys@),
                    all == accepted(correct@),
                    got@ == crate::outside::lowercase(answer_text(actual@)),
                    got@.len() > 0,
                    forall|j: int|
                        0 <= j < i ==> crate::outside::lowercase(
                            crate::text::trimmed(#[trigger] all[j]),
                        ) != got@,
            {
                assert(all[i as int] == keys@[i as int]@);
                let want = to_lowercase(trim(keys[i].as_str()));
                if same(want.as_str(), got.as_str()) {
                    return true;
                }
            }
            false
        },
        _ => {
            let got = answer_str(actual);
            if got.unicode_len() == 0 {
                return false;
            }
            for i in 0..keys.len()
                invariant
                    kind !is MultiChoice && kind !is Number && kind !is Scale && kind !is ShortText
                        && kind !is LongText && kind !is Email,
                    all == crate::text::texts(keys@),
                    all == accepted(correct@),
                    got@ == answer_text(actual@),
                    got@.len() > 0,
                    forall|j: int| 0 <= j < i ==> crate::text::trimmed(#[trigger] all[j]) != got@,
            {
                assert(all[i as int] == keys@[i as int]@);
                if same(trim(keys[i].as_str()), got) {
                    return true;
                }
            }
            false
        },
    }
}

/// Compute the quiz total score for a verified answer set against the schema.
///
/// A question contributes its `points` when it is graded (see `is_graded`)
/// AND the respondent's answer matches the key. Matching is intentionally
/// forgiving so quizzes "just work":
///   - choice questions match on option id (single/dropdown: the marked id;
///     checkboxes: the exact marked set, no partial credit);
///   - text/email answers match case-insensitively after trimming, against any
///     of the accepted answers;
///   - number/scale answers match numerically (so "5" == "5.0");
///   - date (and any other) answers fall back to an exact trimmed match.
///
/// `numbers` holds the numbers that the texts among the answers and the answer
/// keys denote once they are trimmed. The answers are those that were stored, so
/// for "5.0" it is asked what "5" denotes.
pub fn compute_quiz_score(
    schema: &FormSchema,
    verified: &VerifiedAnswers,
    numbers: &NumberTable,
) -> (r: i32)
    ensures
        r == quiz_score(schema.asked(), verified@, numbers@),
{
    let asked = schema.iter_questions();
    let ghost all = schema.asked();
    let mut total: i32 = 0;
    for i in 0..asked.len()
        invariant
            asked@.map_values(|q: &Question| *q) == all,
            total == quiz_score(all.take(i as int), verified@, numbers@),
            total >= 0,
    {
        let q = asked[i];
        proof {
            assert(all[i as int] == *q);
            assert(all.take(i + 1).drop_last() =~= all.take(i as int));
        }
        if let Some(points) = q.points {
            if points > 0 {
                if let Some(correct) = &q.correct {
                    let keys = accepted_answers(correct);
                    assert(crate::text::texts(keys@).len() == keys.len());
                    if let Some(actual) = verified.get(q.id.as_str()) {
                        if keys.len() > 0 && key_matches(q.kind, correct, &keys, actual, numbers) {
                            total = if total > i32::MAX - points {
                                i32::MAX
                            } else {
                                total + points
                            };
                        }
                    }
                }
            }
        }
    }
    assert(all.take(all.len() as int) =~= all);
    total
}

// ---------------------------------------------------------------------------
// Laws of grading
// ---------------------------------------------------------------------------

/// A question that is not graded earns nothing.
pub proof fn law_ungraded_questions_earn_nothing(
    q: Question,
    verified: Map<Seq<char>, Json>,
    numbers: spec_fn(Seq<char>) -> Option<RealView>,
)
    requires
        !graded(q),
    ensures
        earned(q, verified, numbers) == 0,
{
}

/// A question without an answer earns nothing.
pub proof fn law_unanswered_questions_earn_nothing(
    q: Question,
    verified: Map<Seq<char>, Json>,
    numbers: spec_fn(Seq<char>) -> Option<RealView>,
)
    requires
        !verified.contains_key(q.id@),
    ensures
        earned(q, verified, numbers) == 0,
{
}

/// The points that the questions can earn at most.
pub open spec fn points_at_stake(questions: Seq<Question>) -> nat
    decreases questions.len(),
{
    if questions.len() == 0 {
        0
    } else {
        points_at_stake(questions.drop_last()) + if graded(questions.last()) {
            questions.last().points->0 as nat
        } else {
            0
        }
    }
}

/// A score is never negative and never above the points at stake.
pub proof fn law_score_is_within_the_points(
    questions: Seq<Question>,
    verified: Map<Seq<char>, Json>,
    numbers: spec_fn(Seq<char>) -> Option<RealView>,
)
    ensures
        0 <= quiz_score(questions, verified, numbers) <= points_at_stake(questions),
    decreases questions.len(),
{
    if questions.len() > 0 {
        law_score_is_within_the_points(questions.drop_last(), verified, numbers);
        if !graded(questions.last()) {
            law_ungraded_questions_earn_nothing(questions.last(), verified, numbers);
        }
        lemma_total_within(questions, verified, numbers);
    }
}

proof fn lemma_total_within(
    questions: Seq<Question>,
    verified: Map<Seq<char>, Json>,
    numbers: spec_fn(Seq<char>) -> Option<RealView>,
)
    ensures
        total_earned(questions, verified, numbers) <= points_at_stake(questions),
    decreases questions.len(),
{
    if questions.len() > 0 {
        lemma_total_within(questions.drop_last(), verified, numbers);
        if !graded(questions.last()) {
            law_ungraded_questions_earn_nothing(questions.last(), verified, numbers);
        }
    }
}

/// A quiz that awards no points to any answer key scores 0.
pub proof fn law_quiz_without_keys_scores_zero(
    questions: Seq<Question>,
    verified: Map<Seq<char>, Json>,
    numbers: spec_fn(Seq<char>) -> Option<RealView>,
)
    requires
        graded_count(questions) == 0,
    ensures
        quiz_score(questions, verified, numbers) == 0,
    decreases questions.len(),
{
    if questions.len() > 0 {
        law_quiz_without_keys_scores_zero(questions.drop_last(), verified, numbers);
        law_ungraded_questions_earn_nothing(questions.last(), verified, numbers);
    }
}

// ---------------------------------------------------------------------------
// Quiz answer keys
// ---------------------------------------------------------------------------

/// What a question is called in a complaint: its title, or its id where the
/// title is blank.
pub open spec fn label(q: Question) -> Seq<char> {
    if crate::text::is_blank_text(q.title@) {
        q.id@
    } else {
        crate::text::trimmed(q.title@)
    }
}

/// Whether the kind offers options.
pub open spec fn has_options(kind: QuestionKind) -> bool {
    kind is SingleChoice || kind is MultiChoice || kind is Dropdown
}

/// The options of a question, none where it has no list of them.
pub open spec fn offered(q: Question) -> Seq<QuestionOption> {
    match q.options {
        Some(options) => options@,
        None => Seq::empty(),
    }
}

/// What is wrong with the points and the answer key of a question.
pub open spec fn key_errors(q: Question) -> Seq<Seq<char>> {
    let points = if q.points matches Some(p) && !(0 <= p <= MAX_QUESTION_POINTS) {
        seq![
            "Question \""@ + label(q) + "\": points must be between 0 and "@
                + crate::numerals::int_text(MAX_QUESTION_POINTS as int) + "."@,
        ]
    } else {
        Seq::empty()
    };
    let key = if q.correct matches Some(c) && has_options(q.kind)
        && !crate::services::condition_eval::covered(accepted(c@), option_ids(offered(q))) {
        seq![
            "Question \""@ + label(q)
                + "\": the correct answer points to an option that no longer exists — re-mark the correct option."@,
        ]
    } else {
        Seq::empty()
    };
    points + key
}

/// What is wrong with the points and answer keys of the questions.
pub open spec fn all_key_errors(questions: Seq<Question>) -> Seq<Seq<char>>
    decreases questions.len(),
{
    if questions.len() == 0 {
        Seq::empty()
    } else {
        all_key_errors(questions.drop_last()) + key_errors(questions.last())
    }
}

fn label_of(q: &Question) -> (r: &str)
    ensures
        r@ == label(*q),
{
    if blank(q.title.as_str()) {
        q.id.as_str()
    } else {
        trim(q.title.as_str())
    }
}

fn push_key_errors(q: &Question, errors: &mut Vec<String>)
    ensures
        crate::text::texts(final(errors)@) == crate::text::texts(old(errors)@) + key_errors(*q),
{
    let ghost start = crate::text::texts(errors@);
    if let Some(points) = q.points {
        if points < 0 || points > MAX_QUESTION_POINTS {
            let s = cat5(
                "Question \"",
                label_of(q),
                "\": points must be between 0 and ",
                crate::numerals::i32_text(MAX_QUESTION_POINTS).as_str(),
                ".",
            );
            push_text(errors, s);
        }
    }
    if let Some(correct) = &q.correct {
        let choice: bool = match q.kind {
            QuestionKind::SingleChoice | QuestionKind::MultiChoice | QuestionKind::Dropdown => true,
            _ => false,
        };
        if choice {
            let keys = accepted_answers(correct);
            let stale: bool = match &q.options {
                Some(options) => !all_offered(&keys, options),
                None => {
                    assert(option_ids(offered(*q)) =~= Seq::empty());
                    proof {
                        if keys.len() > 0 {
                            assert(!option_ids(offered(*q)).contains(crate::text::texts(keys@)[0]));
                        }
                    }
                    keys.len() > 0
                },
            };
            if stale {
                push_text(
                    errors,
                    cat3(
                        "Question \"",
                        label_of(q),
                        "\": the correct answer points to an option that no longer exists — re-mark the correct option.",
                    ),
                );
            }
        }
    }
    assert(crate::text::texts(errors@) =~= start + key_errors(*q));
}

fn all_offered(keys: &Vec<String>, options: &Vec<QuestionOption>) -> (r: bool)
    ensures
        r == crate::services::condition_eval::covered(
            crate::text::texts(keys@),
            option_ids(options@),
        ),
{
    let ghost all = crate::text::texts(keys@);
    for i in 0..keys.len()
        invariant
            all == crate::text::texts(keys@),
            forall|j: int| 0 <= j < i ==> option_ids(options@).contains(#[trigger] all[j]),
    {
        assert(all[i as int] == keys@[i as int]@);
        if !has_option(options, keys[i].as_str()) {
            return false;
        }
    }
    true
}

/// Validate the answer keys on a quiz form. Catches the mistakes that silently
/// break grading: a choice question whose `correct` references an option that
/// no longer exists, or a point value out of range. Called at save time only
/// for quiz forms. The visual builder makes these unreachable, but API clients
/// and imported templates can still hit them, so the server is the source of
/// truth.
pub fn validate_quiz_keys(schema: &FormSchema) -> (r: Result<(), Vec<String>>)
    ensures
        match r {
            Ok(_) => all_key_errors(schema.asked()).len() == 0,
            Err(errors) => errors.len() > 0 && crate::text::texts(errors@) == all_key_errors(
                schema.asked(),
            ),
        },
{
    let mut errors: Vec<String> = Vec::new();
    let asked = schema.iter_questions();
    let ghost all = schema.asked();
    assert(crate::text::texts(errors@) =~= Seq::empty());
    for i in 0..asked.len()
        invariant
            asked@.map_values(|q: &Question| *q) == all,
            crate::text::texts(errors@) == all_key_errors(all.take(i as int)),
    {
        proof {
            assert(all[i as int] == *asked@[i as int]);
            assert(all.take(i + 1).drop_last() =~= all.take(i as int));
        }
        push_key_errors(asked[i], &mut errors);
    }
    assert(all.take(all.len() as int) =~= all);
    assert(crate::text::texts(errors@).len() == errors.len());
    if errors.len() == 0 {
        Ok(())
    } else {
        Err(errors)
    }
}

// ---------------------------------------------------------------------------
// Structure of a form
// ---------------------------------------------------------------------------

/// A complaint, or none.
pub open spec fn complaint(wrong: bool, message: Seq<char>) -> Seq<Seq<char>> {
    if wrong {
        seq![message]
    } else {
        Seq::empty()
    }
}

/// What is wrong with one option of a question: `earlier` are the ids of the
/// options before it.
pub open spec fn option_errors(
    id: Seq<char>,
    option: QuestionOption,
    earlier: Seq<Seq<char>>,
) -> Seq<Seq<char>> {
    let name = if crate::text::is_blank_text(option.id@) {
        seq!["Question \""@ + id + "\" has an option with no id."@]
    } else {
        complaint(
            earlier.contains(option.id@),
            "Question \""@ + id + "\" has duplicate option id \""@ + option.id@ + "\"."@,
        )
    };
    name + complaint(
        option.label@.len() > 200,
        "Question \""@ + id + "\" option \""@ + option.id@ + "\" label is too long."@,
    )
}

/// What is wrong with the options of a question.
pub open spec fn options_errors(id: Seq<char>, options: Seq<QuestionOption>) -> Seq<Seq<char>>
    decreases options.len(),
{
    if options.len() == 0 {
        Seq::empty()
    } else {
        options_errors(id, options.drop_last()) + option_errors(
            id,
            options.last(),
            option_ids(options.drop_last()),
        )
    }
}

/// The address of an image or a video, trimmed; empty where there is none.
pub open spec fn media_url(q: Question) -> Seq<char> {
    match q.image_url {
        Some(url) => crate::text::trimmed(url@),
        None => crate::text::trimmed(Seq::empty()),
    }
}

/// Whether an address is one of an image that may be shown: HTTP or HTTPS.
pub open spec fn is_web_url(url: Seq<char>) -> bool {
    let lower = crate::text::ascii_lowered(crate::text::trimmed(url));
    ||| crate::text::begins_with(lower, "http://"@)
    ||| crate::text::begins_with(lower, "https://"@)
}

/// What is wrong with the address of an image or a video. `what` names the
/// element, `thing` what it shows.
pub open spec fn media_errors(q: Question, what: Seq<char>, thing: Seq<char>) -> Seq<Seq<char>> {
    let url = media_url(q);
    if url.len() == 0 {
        seq![what + " element \""@ + q.id@ + "\" needs "@ + thing + " URL."@]
    } else if !is_web_url(url) {
        seq![
            what + " element \""@ + q.id@
                + "\" URL must start with http:// or https:// (data: and javascript: URLs are not allowed)."@,
        ]
    } else {
        complaint(
            url.len() > 2048,
            what + " element \""@ + q.id@ + "\" URL is too long (max 2048 characters)."@,
        )
    }
}

/// Whether the kind takes a free text.
pub open spec fn is_text(kind: QuestionKind) -> bool {
    kind is ShortText || kind is LongText
}

/// Whether the kind takes a number.
pub open spec fn is_numeric(kind: QuestionKind) -> bool {
    kind is Number || kind is Scale
}

/// The complaint about a field that is set on a kind that does not use it.
pub open spec fn stray(q: Question, set: bool, used: bool, field: Seq<char>) -> Seq<Seq<char>> {
    complaint(
        set && !used,
        "Question \""@ + q.id@ + "\" sets "@ + field + ", which its kind does not use."@,
    )
}

/// Bounds that are set on a kind that does not use them.
pub open spec fn stray_bounds(q: Question) -> Seq<Seq<char>> {
    stray(q, q.max_length is Some, is_text(q.kind), "max_length"@) + stray(
        q,
        q.min is Some,
        is_numeric(q.kind),
        "min"@,
    ) + stray(q, q.max is Some, is_numeric(q.kind), "max"@)
}

/// Options and media that are set on a kind that does not use them.
pub open spec fn stray_contents(q: Question) -> Seq<Seq<char>> {
    stray(q, q.options is Some, has_options(q.kind), "options"@) + stray(
        q,
        q.image_url is Some,
        q.kind is Image || q.kind is Video,
        "image_url"@,
    ) + stray(q, q.alt_text is Some, q.kind is Image, "alt_text"@)
}

/// Grading that is set on a kind that takes no answer.
pub open spec fn stray_grading(q: Question) -> Seq<Seq<char>> {
    stray(q, q.correct is Some, !q.kind.display_only(), "correct"@) + stray(
        q,
        q.points is Some,
        !q.kind.display_only(),
        "points"@,
    )
}

/// What is wrong with a question for setting fields that its kind does not use.
pub open spec fn stray_errors(q: Question) -> Seq<Seq<char>> {
    stray_bounds(q) + stray_contents(q) + stray_grading(q)
}

/// What is wrong with a question by the rules of its kind: with the fields that
/// the kind uses, and with those that it does not.
pub open spec fn kind_errors(q: Question) -> Seq<Seq<char>> {
    used_field_errors(q) + stray_errors(q)
}

/// What is wrong with the fields of a question that its kind uses.
pub open spec fn used_field_errors(q: Question) -> Seq<Seq<char>> {
    match q.kind {
        QuestionKind::SingleChoice | QuestionKind::MultiChoice | QuestionKind::Dropdown => {
            complaint(
                offered(q).len() == 0,
                "Question \""@ + q.id@ + "\" needs at least one option."@,
            ) + complaint(
                offered(q).len() > MAX_OPTIONS_PER_QUESTION,
                "Question \""@ + q.id@ + "\" has too many options (max "@
                    + crate::numerals::nat_text(MAX_OPTIONS_PER_QUESTION as nat) + ")."@,
            ) + options_errors(q.id@, offered(q))
        },
        QuestionKind::Scale | QuestionKind::Number => complaint(
            q.min is Some && q.max is Some && q.max->0.value.below(q.min->0.value),
            "Question \""@ + q.id@ + "\" has min > max."@,
        ),
        QuestionKind::Agreement => complaint(
            !q.required,
            "Agreement question \""@ + q.id@ + "\" must be marked required."@,
        ),
        QuestionKind::Image => media_errors(q, "Image"@, "an image"@) + complaint(
            q.alt_text is Some && q.alt_text->0@.len() > 200,
            "Image element \""@ + q.id@ + "\" alt text is too long (max 200 characters)."@,
        ),
        QuestionKind::Video => media_errors(q, "Video"@, "a video"@),
        _ => Seq::empty(),
    }
}

/// What is wrong with a question: `page` and `place` count its page and its
/// place there from 1, `earlier` are the ids of the questions before it.
pub open spec fn question_errors(
    q: Question,
    page: nat,
    place: nat,
    earlier: Seq<Seq<char>>,
) -> Seq<Seq<char>> {
    let name = if crate::text::is_blank_text(q.id@) {
        seq![
            "Question #"@ + crate::numerals::nat_text(place) + " on page "@
                + crate::numerals::nat_text(page) + " has no id."@,
        ]
    } else {
        complaint(earlier.contains(q.id@), "Duplicate question id \""@ + q.id@ + "\"."@)
    };
    name + complaint(
        crate::text::is_blank_text(q.title@) && !q.kind.display_only(),
        "Question \""@ + q.id@ + "\" needs a title."@,
    ) + kind_errors(q)
}

/// What is wrong with the questions of a page.
pub open spec fn questions_errors(
    questions: Seq<Question>,
    page: nat,
    earlier: Seq<Seq<char>>,
) -> Seq<Seq<char>>
    decreases questions.len(),
{
    if questions.len() == 0 {
        Seq::empty()
    } else {
        let before = questions.drop_last();
        questions_errors(before, page, earlier) + question_errors(
            questions.last(),
            page,
            questions.len(),
            earlier + crate::models::form::question_ids(before),
        )
    }
}

/// The ids of the pages.
pub open spec fn page_ids(pages: Seq<Page>) -> Seq<Seq<char>> {
    pages.map_values(|p: Page| p.id@)
}

/// The ids of all questions on the pages, in their order.
pub open spec fn ids_on(pages: Seq<Page>) -> Seq<Seq<char>>
    decreases pages.len(),
{
    if pages.len() == 0 {
        Seq::empty()
    } else {
        ids_on(pages.drop_last()) + crate::models::form::question_ids(pages.last().questions@)
    }
}

/// What is wrong with the id of the page that is the `n`th, after those with the
/// ids `earlier`.
pub open spec fn page_id_errors(id: Seq<char>, n: nat, earlier: Seq<Seq<char>>) -> Seq<Seq<char>> {
    if crate::text::is_blank_text(id) {
        seq!["Page #"@ + crate::numerals::nat_text(n) + " has no id."@]
    } else {
        complaint(
            earlier.contains(id),
            "Page #"@ + crate::numerals::nat_text(n) + " has duplicate id \""@ + id + "\"."@,
        )
    }
}

/// What is wrong with the pages.
pub open spec fn pages_errors(pages: Seq<Page>) -> Seq<Seq<char>>
    decreases pages.len(),
{
    if pages.len() == 0 {
        Seq::empty()
    } else {
        let before = pages.drop_last();
        let page = pages.last();
        let n = pages.len();
        pages_errors(before) + page_id_errors(page.id@, n, page_ids(before)) + questions_errors(
            page.questions@,
            n,
            ids_on(before),
        )
    }
}

/// What is wrong with a form.
pub open spec fn form_errors(schema: FormSchema) -> Seq<Seq<char>> {
    complaint(crate::text::is_blank_text(schema.title@), "Form title is required."@) + complaint(
        schema.title@.len() > 200,
        "Form title must be ≤200 characters."@,
    ) + complaint(
        schema.description@.len() > 2000,
        "Form description must be ≤2000 characters."@,
    ) + complaint(schema.pages@.len() == 0, "Form must have at least one page."@) + complaint(
        schema.pages@.len() > MAX_PAGES,
        "Form has too many pages (max "@ + crate::numerals::nat_text(MAX_PAGES as nat) + ")."@,
    ) + pages_errors(schema.pages@) + complaint(
        ids_on(schema.pages@).len() > MAX_QUESTIONS,
        "Form has "@ + crate::numerals::nat_text(ids_on(schema.pages@).len())
            + " questions; max is "@ + crate::numerals::nat_text(MAX_QUESTIONS as nat) + "."@,
    )
}

/// Adds a complaint where there is reason for one.
fn complain(errors: &mut Vec<String>, wrong: bool, message: String)
    ensures
        crate::text::texts(final(errors)@) == crate::text::texts(old(errors)@) + complaint(
            wrong,
            message@,
        ),
{
    let ghost before = crate::text::texts(errors@);
    if wrong {
        push_text(errors, message);
    }
    assert(crate::text::texts(errors@) =~= before + complaint(wrong, message@));
}

/// Looser sibling of the check on webhook addresses, for image references:
/// HTTPS is preferred but HTTP is allowed (many community CDNs still serve
/// HTTP), while `javascript:`/`data:` and other smuggling schemes are refused.
pub fn is_safe_image_url(url: &str) -> (r: bool)
    ensures
        r == is_web_url(url@),
{
    let lower = to_ascii_lower(trim(url));
    let lower = lower.as_str();
    proof {
        if is_web_url(url@) {
            law_web_urls_are_not_smuggled(url@);
        }
    }
    if starts_with(lower, "javascript:") || starts_with(lower, "data:") || starts_with(
        lower,
        "vbscript:",
    ) || starts_with(lower, "file:") {
        return false;
    }
    starts_with(lower, "http://") || starts_with(lower, "https://")
}

fn check_media(q: &Question, what: &str, thing: &str, errors: &mut Vec<String>)
    ensures
        crate::text::texts(final(errors)@) == crate::text::texts(old(errors)@) + media_errors(
            *q,
            what@,
            thing@,
        ),
{
    let ghost before = crate::text::texts(errors@);
    let url = match &q.image_url {
        Some(url) => trim(url.as_str()),
        None => {
            proof {
                reveal_strlit("");
            }
            assert(""@ =~= Seq::<char>::empty());
            trim("")
        },
    };
    let start = cat3(what, " element \"", q.id.as_str());
    let start = start.as_str();
    if url.unicode_len() == 0 {
        push_text(errors, crate::text::cat4(start, "\" needs ", thing, " URL."));
    } else if !is_safe_image_url(url) {
        push_text(
            errors,
            crate::text::cat2(
                start,
                "\" URL must start with http:// or https:// (data: and javascript: URLs are not allowed).",
            ),
        );
    } else {
        complain(
            errors,
            url.unicode_len() > 2048,
            crate::text::cat2(start, "\" URL is too long (max 2048 characters)."),
        );
    }
    assert(crate::text::texts(errors@) =~= before + media_errors(*q, what@, thing@));
}

fn check_options(id: &str, options: &Vec<QuestionOption>, errors: &mut Vec<String>)
    ensures
        crate::text::texts(final(errors)@) == crate::text::texts(old(errors)@) + options_errors(
            id@,
            options@,
        ),
{
    let ghost start = crate::text::texts(errors@);
    let ghost all = options@;
    assert(start + options_errors(id@, all.take(0)) =~= start);
    let mut seen: Vec<String> = Vec::new();
    assert(crate::text::texts(seen@) =~= option_ids(all.take(0)));
    for i in 0..options.len()
        invariant
            all == options@,
            crate::text::texts(errors@) == start + options_errors(id@, all.take(i as int)),
            crate::text::texts(seen@) == option_ids(all.take(i as int)),
    {
        let o = &options[i];
        let ghost before = crate::text::texts(errors@);
        let ghost earlier = option_ids(all.take(i as int));
        if blank(o.id.as_str()) {
            push_text(errors, cat3("Question \"", id, "\" has an option with no id."));
        } else {
            complain(
                errors,
                member(&seen, o.id.as_str()),
                cat5("Question \"", id, "\" has duplicate option id \"", o.id.as_str(), "\"."),
            );
        }
        complain(
            errors,
            o.label.as_str().unicode_len() > 200,
            cat5("Question \"", id, "\" option \"", o.id.as_str(), "\" label is too long."),
        );
        push_text(&mut seen, owned(o.id.as_str()));
        proof {
            assert(all.take(i + 1).drop_last() =~= all.take(i as int));
            assert(all.take(i + 1).last() == *o);
            assert(option_ids(all.take(i + 1)) =~= earlier.push(o.id@));
            assert(crate::text::texts(errors@) =~= before + option_errors(id@, *o, earlier));
            assert(before + option_errors(id@, *o, earlier) =~= start + (options_errors(
                id@,
                all.take(i as int),
            ) + option_errors(id@, *o, earlier)));
        }
    }
    assert(all.take(all.len() as int) =~= all);
}

fn check_used_fields(q: &Question, errors: &mut Vec<String>)
    ensures
        crate::text::texts(final(errors)@) == crate::text::texts(old(errors)@) + used_field_errors(*q),
{
    let ghost before = crate::text::texts(errors@);
    let id = q.id.as_str();
    match q.kind {
        QuestionKind::SingleChoice | QuestionKind::MultiChoice | QuestionKind::Dropdown => {
            let count: usize = match &q.options {
                Some(options) => options.len(),
                None => 0,
            };
            complain(
                errors,
                count == 0,
                cat3("Question \"", id, "\" needs at least one option."),
            );
            complain(
                errors,
                count > MAX_OPTIONS_PER_QUESTION,
                cat5(
                    "Question \"",
                    id,
                    "\" has too many options (max ",
                    usize_text(MAX_OPTIONS_PER_QUESTION).as_str(),
                    ").",
                ),
            );
            if let Some(options) = &q.options {
                check_options(id, options, errors);
            }
            assert(crate::text::texts(errors@) =~= before + used_field_errors(*q));
        },
        QuestionKind::Scale | QuestionKind::Number => {
            if let (Some(min), Some(max)) = (&q.min, &q.max) {
                complain(
                    errors,
                    max.value.lt(min.value),
                    cat3("Question \"", id, "\" has min > max."),
                );
            }
            assert(crate::text::texts(errors@) =~= before + used_field_errors(*q));
        },
        QuestionKind::Agreement => {
            complain(
                errors,
                !q.required,
                cat3("Agreement question \"", id, "\" must be marked required."),
            );
        },
        QuestionKind::Image => {
            check_media(q, "Image", "an image", errors);
            if let Some(alt) = &q.alt_text {
                complain(
                    errors,
                    alt.as_str().unicode_len() > 200,
                    cat3("Image element \"", id, "\" alt text is too long (max 200 characters)."),
                );
            }
            assert(crate::text::texts(errors@) =~= before + used_field_errors(*q));
        },
        QuestionKind::Video => {
            check_media(q, "Video", "a video", errors);
        },
        _ => {
            assert(crate::text::texts(errors@) =~= before + used_field_errors(*q));
        },
    }
}

fn complain_of_stray(q: &Question, set: bool, used: bool, field: &str, errors: &mut Vec<String>)
    ensures
        crate::text::texts(final(errors)@) == crate::text::texts(old(errors)@) + stray(
            *q,
            set,
            used,
            field@,
        ),
{
    complain(
        errors,
        set && !used,
        cat5("Question \"", q.id.as_str(), "\" sets ", field, ", which its kind does not use."),
    );
}

fn check_stray_bounds(q: &Question, errors: &mut Vec<String>)
    ensures
        crate::text::texts(final(errors)@) == crate::text::texts(old(errors)@) + stray_bounds(*q),
{
    let ghost before = crate::text::texts(errors@);
    let text: bool = match q.kind {
        QuestionKind::ShortText | QuestionKind::LongText => true,
        _ => false,
    };
    let numeric: bool = match q.kind {
        QuestionKind::Number | QuestionKind::Scale => true,
        _ => false,
    };
    complain_of_stray(q, q.max_length.is_some(), text, "max_length", errors);
    complain_of_stray(q, q.min.is_some(), numeric, "min", errors);
    complain_of_stray(q, q.max.is_some(), numeric, "max", errors);
    assert(crate::text::texts(errors@) =~= before + stray_bounds(*q));
}

fn check_stray_contents(q: &Question, errors: &mut Vec<String>)
    ensures
        crate::text::texts(final(errors)@) == crate::text::texts(old(errors)@) + stray_contents(*q),
{
    let ghost before = crate::text::texts(errors@);
    let choice: bool = match q.kind {
        QuestionKind::SingleChoice | QuestionKind::MultiChoice | QuestionKind::Dropdown => true,
        _ => false,
    };
    let image: bool = match q.kind {
        QuestionKind::Image => true,
        _ => false,
    };
    let media: bool = match q.kind {
        QuestionKind::Image | QuestionKind::Video => true,
        _ => false,
    };
    complain_of_stray(q, q.options.is_some(), choice, "options", errors);
    complain_of_stray(q, q.image_url.is_some(), media, "image_url", errors);
    complain_of_stray(q, q.alt_text.is_some(), image, "alt_text", errors);
    assert(crate::text::texts(errors@) =~= before + stray_contents(*q));
}

fn check_stray_grading(q: &Question, errors: &mut Vec<String>)
    ensures
        crate::text::texts(final(errors)@) == crate::text::texts(old(errors)@) + stray_grading(*q),
{
    let ghost before = crate::text::texts(errors@);
    let answerable: bool = q.kind.is_answerable();
    complain_of_stray(q, q.correct.is_some(), answerable, "correct", errors);
    complain_of_stray(q, q.points.is_some(), answerable, "points", errors);
    assert(crate::text::texts(errors@) =~= before + stray_grading(*q));
}

proof fn lemma_joined_errors(
    start: Seq<Seq<char>>,
    a: Seq<Seq<char>>,
    b: Seq<Seq<char>>,
    c: Seq<Seq<char>>,
    d: Seq<Seq<char>>,
)
    ensures
        start + a + b + c + d == start + (a + (b + c + d)),
{
    assert(start + a + b + c + d =~= start + (a + (b + c + d)));
}

/// Checks a question by the rules of its kind.
pub fn check_question_kind(q: &Question, errors: &mut Vec<String>)
    ensures
        crate::text::texts(final(errors)@) == crate::text::texts(old(errors)@) + kind_errors(*q),
{
    check_used_fields(q, errors);
    check_stray_bounds(q, errors);
    check_stray_contents(q, errors);
    check_stray_grading(q, errors);
    proof {
        lemma_joined_errors(
            crate::text::texts(old(errors)@),
            used_field_errors(*q),
            stray_bounds(*q),
            stray_contents(*q),
            stray_grading(*q),
        );
    }
}

fn check_question(
    q: &Question,
    page: usize,
    place: usize,
    earlier: &Vec<String>,
    errors: &mut Vec<String>,
)
    ensures
        crate::text::texts(final(errors)@) == crate::text::texts(old(errors)@) + question_errors(
            *q,
            page as nat,
            place as nat,
            crate::text::texts(earlier@),
        ),
{
    let ghost before = crate::text::texts(errors@);
    let id = q.id.as_str();
    if blank(id) {
        push_text(
            errors,
            cat5(
                "Question #",
                usize_text(place).as_str(),
                " on page ",
                usize_text(page).as_str(),
                " has no id.",
            ),
        );
    } else {
        complain(
            errors,
            member(earlier, id),
            cat3("Duplicate question id \"", id, "\"."),
        );
    }
    complain(
        errors,
        blank(q.title.as_str()) && q.kind.is_answerable(),
        cat3("Question \"", id, "\" needs a title."),
    );
    check_question_kind(q, errors);
    assert(crate::text::texts(errors@) =~= before + question_errors(
        *q,
        page as nat,
        place as nat,
        crate::text::texts(earlier@),
    ));
}

fn check_questions(
    questions: &Vec<Question>,
    page: usize,
    seen: &mut Vec<String>,
    errors: &mut Vec<String>,
)
    ensures
        crate::text::texts(final(errors)@) == crate::text::texts(old(errors)@) + questions_errors(
            questions@,
            page as nat,
            crate::text::texts(old(seen)@),
        ),
        crate::text::texts(final(seen)@) == crate::text::texts(old(seen)@)
            + crate::models::form::question_ids(questions@),
{
    let ghost start = crate::text::texts(errors@);
    let ghost earlier = crate::text::texts(seen@);
    let ghost all = questions@;
    proof {
        assert(start + questions_errors(all.take(0), page as nat, earlier) =~= start);
        assert(earlier + crate::models::form::question_ids(all.take(0)) =~= earlier);
    }
    for i in 0..questions.len()
        invariant
            all == questions@,
            crate::text::texts(errors@) == start + questions_errors(
                all.take(i as int),
                page as nat,
                earlier,
            ),
            crate::text::texts(seen@) == earlier + crate::models::form::question_ids(
                all.take(i as int),
            ),
    {
        let q = &questions[i];
        let ghost known = crate::text::texts(seen@);
        check_question(q, page, i + 1, seen, errors);
        push_text(seen, owned(q.id.as_str()));
        proof {
            let longer = all.take(i + 1);
            assert(longer.drop_last() =~= all.take(i as int));
            assert(longer.last() == *q);
            assert(crate::models::form::question_ids(longer) =~= crate::models::form::question_ids(
                all.take(i as int),
            ).push(q.id@));
            assert(crate::text::texts(seen@) =~= earlier + crate::models::form::question_ids(longer));
            let found = question_errors(*q, page as nat, (i + 1) as nat, known);
            assert(crate::text::texts(errors@) =~= start + (questions_errors(
                all.take(i as int),
                page as nat,
                earlier,
            ) + found));
        }
    }
    assert(all.take(all.len() as int) =~= all);
}

fn check_page_id(id: &str, n: usize, earlier: &Vec<String>, errors: &mut Vec<String>)
    ensures
        crate::text::texts(final(errors)@) == crate::text::texts(old(errors)@) + page_id_errors(
            id@,
            n as nat,
            crate::text::texts(earlier@),
        ),
{
    let ghost before = crate::text::texts(errors@);
    if blank(id) {
        push_text(errors, cat3("Page #", usize_text(n).as_str(), " has no id."));
    } else {
        complain(
            errors,
            member(earlier, id),
            cat5("Page #", usize_text(n).as_str(), " has duplicate id \"", id, "\"."),
        );
    }
    assert(crate::text::texts(errors@) =~= before + page_id_errors(
        id@,
        n as nat,
        crate::text::texts(earlier@),
    ));
}

/// Checks the pages, and gives the ids of their questions.
fn check_pages(pages: &Vec<Page>, errors: &mut Vec<String>) -> (r: Vec<String>)
    ensures
        crate::text::texts(final(errors)@) == crate::text::texts(old(errors)@) + pages_errors(
            pages@,
        ),
        crate::text::texts(r@) == ids_on(pages@),
{
    let ghost start = crate::text::texts(errors@);
    let ghost all = pages@;
    let mut seen_pages: Vec<String> = Vec::new();
    let mut seen: Vec<String> = Vec::new();
    proof {
        assert(start + pages_errors(all.take(0)) =~= start);
        assert(crate::text::texts(seen_pages@) =~= page_ids(all.take(0)));
        assert(crate::text::texts(seen@) =~= ids_on(all.take(0)));
    }
    for i in 0..pages.len()
        invariant
            all == pages@,
            crate::text::texts(errors@) == start + pages_errors(all.take(i as int)),
            crate::text::texts(seen_pages@) == page_ids(all.take(i as int)),
            crate::text::texts(seen@) == ids_on(all.take(i as int)),
    {
        let page = &pages[i];
        let ghost done = all.take(i as int);
        let ghost before = pages_errors(done);
        let ghost named = page_id_errors(page.id@, (i + 1) as nat, page_ids(done));
        let ghost asked = questions_errors(page.questions@, (i + 1) as nat, ids_on(done));
        check_page_id(page.id.as_str(), i + 1, &seen_pages, errors);
        push_text(&mut seen_pages, owned(page.id.as_str()));
        check_questions(&page.questions, i + 1, &mut seen, errors);
        proof {
            let longer = all.take(i + 1);
            assert(longer.drop_last() =~= done);
            assert(longer.last() == *page);
            assert(page_ids(longer) =~= page_ids(done).push(page.id@));
            assert(pages_errors(longer) == before + named + asked);
            assert(start + before + named + asked =~= start + (before + named + asked));
        }
    }
    assert(all.take(all.len() as int) =~= all);
    seen
}

/// Structural sanity check on a form schema (PUT-time validator).
pub fn sanity_check(schema: &FormSchema) -> (r: Result<(), Vec<String>>)
    ensures
        match r {
            Ok(_) => form_errors(*schema).len() == 0,
            Err(errors) => errors.len() > 0 && crate::text::texts(errors@) == form_errors(*schema),
        },
{
    let mut errors: Vec<String> = Vec::new();
    assert(crate::text::texts(errors@) =~= Seq::empty());
    complain(&mut errors, blank(schema.title.as_str()), owned("Form title is required."));
    complain(
        &mut errors,
        schema.title.as_str().unicode_len() > 200,
        owned("Form title must be ≤200 characters."),
    );
    complain(
        &mut errors,
        schema.description.as_str().unicode_len() > 2000,
        owned("Form description must be ≤2000 characters."),
    );
    complain(&mut errors, schema.pages.len() == 0, owned("Form must have at least one page."));
    complain(
        &mut errors,
        schema.pages.len() > MAX_PAGES,
        cat3("Form has too many pages (max ", usize_text(MAX_PAGES).as_str(), ")."),
    );
    let seen = check_pages(&schema.pages, &mut errors);
    assert(crate::text::texts(seen@).len() == seen.len());
    complain(
        &mut errors,
        seen.len() > MAX_QUESTIONS,
        cat5(
            "Form has ",
            usize_text(seen.len()).as_str(),
            " questions; max is ",
            usize_text(MAX_QUESTIONS).as_str(),
            ".",
        ),
    );
    assert(crate::text::texts(errors@) =~= form_errors(*schema));
    assert(crate::text::texts(errors@).len() == errors.len());
    if errors.len() == 0 {
        Ok(())
    } else {
        Err(errors)
    }
}

// ---------------------------------------------------------------------------
// Validation of what was validated
// ---------------------------------------------------------------------------

/// Whether the stored text of a number reads as the number, so that it is stored
/// alike again.
pub open spec fn reads_back(
    numbers: spec_fn(Seq<char>) -> Option<RealView>,
    n: RealView,
) -> bool {
    let s = stored_number(n);
    &&& !crate::text::is_blank_text(s)
    &&& numbers(crate::text::trimmed(s)) matches Some(m)
    &&& m.value.rank() == n.value.rank()
    &&& !n.value.is_integral() ==> m.display == n.display
}

/// Whether an answer holds no number whose stored text reads as another by `again`.
pub open spec fn number_reads_back(
    q: Question,
    raw: Option<Json>,
    numbers: spec_fn(Seq<char>) -> Option<RealView>,
    again: spec_fn(Seq<char>) -> Option<RealView>,
) -> bool {
    is_numeric(q.kind) && !is_empty_answer(raw) ==> (answered_number(raw->0, numbers) matches Some(n)
        ==> reads_back(again, n))
}

proof fn lemma_checked_again(
    q: Question,
    raw: Option<Json>,
    numbers: spec_fn(Seq<char>) -> Option<RealView>,
    again: spec_fn(Seq<char>) -> Option<RealView>,
)
    requires
        number_reads_back(q, raw, numbers, again),
    ensures
        answer_checked(q, raw, numbers) matches Checked::Answer(v) ==> answer_checked(
            q,
            Some(v),
            again,
        ) == Checked::Answer(v),
        answer_checked(q, raw, numbers) is Skipped ==> answer_checked(q, None, again) is Skipped,
{
    if raw matches Some(Json::Text(s)) {
        crate::text::law_trimming_twice_is_trimming_once(raw->0->Text_0);
    }
    if is_numeric(q.kind) && answer_checked(q, raw, numbers) is Answer {
        let n = answered_number(raw->0, numbers)->0;
        let m = again(crate::text::trimmed(stored_number(n)))->0;
        crate::double::lemma_equal_ranks(m.value, n.value);
        assert(stored_number(m) == stored_number(n));
    }
}

pub proof fn lemma_normalized_at(
    questions: Seq<Question>,
    raw: Json,
    numbers: spec_fn(Seq<char>) -> Option<RealView>,
    id: Seq<char>,
)
    ensures
        crate::table::distinct(crate::models::form::question_ids(questions)) ==> {
            let out = normalized(questions, raw, numbers);
            &&& forall|i: int|
                0 <= i < questions.len() && (#[trigger] questions[i]).id@ == id ==> {
                    match answer_checked(questions[i], raw.field(id), numbers) {
                        Checked::Answer(v) => out.contains_key(id) && out[id] == v,
                        _ => !out.contains_key(id),
                    }
                }
            &&& (forall|i: int| 0 <= i < questions.len() ==> (#[trigger] questions[i]).id@ != id)
                ==> !out.contains_key(id)
        },
    decreases questions.len(),
{
    let ids = crate::models::form::question_ids(questions);
    if questions.len() > 0 && crate::table::distinct(ids) {
        let before = questions.drop_last();
        let earlier = crate::models::form::question_ids(before);
        assert(earlier =~= ids.drop_last());
        assert(crate::table::distinct(earlier)) by {
            assert forall|i: int, j: int| 0 <= i < j < earlier.len() implies earlier[i]
                != earlier[j] by {
                assert(ids[i] == earlier[i] && ids[j] == earlier[j]);
            }
        }
        lemma_normalized_at(before, raw, numbers, id);
        let n = questions.len() - 1;
        assert forall|i: int| 0 <= i < n implies (#[trigger] questions[i]).id@
            != questions.last().id@ by {
            assert(ids[i] != ids[n]);
        }
        assert forall|i: int| 0 <= i < n implies #[trigger] questions[i] == before[i] by {}
        if questions.last().id@ == id {
            assert forall|i: int| 0 <= i < before.len() implies (#[trigger] before[i]).id@
                != id by {
                assert(questions[i] == before[i]);
            }
        }
    }
}

pub proof fn lemma_no_faults(
    questions: Seq<Question>,
    raw: Json,
    numbers: spec_fn(Seq<char>) -> Option<RealView>,
    k: int,
)
    requires
        answer_faults(questions, raw, numbers).len() == 0,
        0 <= k < questions.len(),
    ensures
        answer_checked(questions[k], raw.field(questions[k].id@), numbers) !is Wrong,
    decreases questions.len(),
{
    if k < questions.len() - 1 {
        lemma_no_faults(questions.drop_last(), raw, numbers, k);
    }
}

/// Whether the record holds just the answers.
pub open spec fn is_record_of(j: Json, answers: Map<Seq<char>, Json>) -> bool {
    &&& j is Record
    &&& forall|k: Seq<char>| #[trigger]
        j.field(k) == if answers.contains_key(k) {
            Some(answers[k])
        } else {
            None
        }
}

proof fn lemma_validated_again(
    questions: Seq<Question>,
    raw: Json,
    stored: Json,
    numbers: spec_fn(Seq<char>) -> Option<RealView>,
    again: spec_fn(Seq<char>) -> Option<RealView>,
    k: int,
)
    requires
        0 <= k <= questions.len(),
        crate::table::distinct(crate::models::form::question_ids(questions)),
        answer_faults(questions, raw, numbers).len() == 0,
        is_record_of(stored, normalized(questions, raw, numbers)),
        forall|i: int|
            0 <= i < questions.len() ==> number_reads_back(
                #[trigger] questions[i],
                raw.field(questions[i].id@),
                numbers,
                again,
            ),
    ensures
        answer_faults(questions.take(k), stored, again).len() == 0,
        normalized(questions.take(k), stored, again) == normalized(
            questions.take(k),
            raw,
            numbers,
        ),
    decreases k,
{
    if k > 0 {
        lemma_validated_again(questions, raw, stored, numbers, again, k - 1);
        let q = questions[k - 1];
        assert(questions.take(k).drop_last() =~= questions.take(k - 1));
        assert(questions.take(k).last() == q);
        assert(number_reads_back(q, raw.field(q.id@), numbers, again));
        lemma_no_faults(questions, raw, numbers, k - 1);
        lemma_normalized_at(questions, raw, numbers, q.id@);
        lemma_checked_again(q, raw.field(q.id@), numbers, again);
        assert(stored.field(q.id@) == match answer_checked(q, raw.field(q.id@), numbers) {
            Checked::Answer(v) => Some(v),
            _ => None,
        });
    }
}

/// Answers whose numbers read back as they were stored can be validated again, by
/// the numbers `again`, and are stored alike.
pub proof fn law_answers_that_read_back_stay_as_they_are(
    schema: FormSchema,
    raw: Json,
    stored: Json,
    numbers: spec_fn(Seq<char>) -> Option<RealView>,
    again: spec_fn(Seq<char>) -> Option<RealView>,
)
    requires
        crate::table::distinct(crate::models::form::question_ids(schema.asked())),
        answer_faults(schema.asked(), raw, numbers).len() == 0,
        is_record_of(stored, normalized(schema.asked(), raw, numbers)),
        forall|i: int|
            0 <= i < schema.asked().len() ==> number_reads_back(
                #[trigger] schema.asked()[i],
                raw.field(schema.asked()[i].id@),
                numbers,
                again,
            ),
    ensures
        answer_faults(schema.asked(), stored, again).len() == 0,
        normalized(schema.asked(), stored, again) == normalized(schema.asked(), raw, numbers),
{
    let questions = schema.asked();
    lemma_validated_again(questions, raw, stored, numbers, again, questions.len() as int);
    assert(questions.take(questions.len() as int) =~= questions);
}

/// Whether `numbers` is part of what `reads` tells of all texts, where the numeral
/// of an integer denotes the number nearest to it.
pub open spec fn conforms(
    numbers: spec_fn(Seq<char>) -> Option<RealView>,
    reads: spec_fn(Seq<char>) -> Option<Double>,
) -> bool {
    &&& forall|t: Seq<char>|
        #![trigger numbers(t)]
        numbers(t) matches Some(n) ==> reads(t) == Some(n.value)
    &&& forall|i: i64|
        #![trigger crate::numerals::int_text(i as int)]
        reads(crate::numerals::int_text(i as int)) == Some(Double::of_int(i as int))
}

/// Whether two numbers are the same, or neither is finite.
pub open spec fn is_alike(a: Double, b: Double) -> bool {
    a == b || !a.is_finite() && !b.is_finite()
}

/// Whether a number with a fraction comes with a text that denotes it.
pub open spec fn is_written(n: RealView, reads: spec_fn(Seq<char>) -> Option<Double>) -> bool {
    !n.value.is_integral() ==> {
        &&& n.display.len() > 0
        &&& crate::text::trimmed(n.display) == n.display
        &&& reads(n.display) matches Some(v)
        &&& is_alike(v, n.value)
    }
}

/// Whether the numbers among the answers come with texts that denote them.
pub open spec fn are_written(
    questions: Seq<Question>,
    raw: Json,
    numbers: spec_fn(Seq<char>) -> Option<RealView>,
    reads: spec_fn(Seq<char>) -> Option<Double>,
) -> bool {
    forall|i: int|
        0 <= i < questions.len() ==> (number_in(#[trigger] questions[i], raw, numbers) matches Some(
            n,
        ) ==> is_written(n, reads))
}

proof fn lemma_stored_text(
    n: RealView,
    numbers: spec_fn(Seq<char>) -> Option<RealView>,
    reads: spec_fn(Seq<char>) -> Option<Double>,
)
    requires
        conforms(numbers, reads),
        is_written(n, reads),
    ensures
        stored_number(n).len() > 0,
        crate::text::trimmed(stored_number(n)) == stored_number(n),
        reads(stored_number(n)) is Some,
        is_alike(reads(stored_number(n))->0, stored_value(n)),
{
    if n.value.is_integral() {
        crate::numerals::lemma_int_text_is_trimmed(n.value.cut() as int);
    }
}

/// What the extended table tells of a text is what the text denotes, and it tells
/// it of every text that is listed or stored.
proof fn lemma_with_stored(
    questions: Seq<Question>,
    raw: Json,
    numbers: spec_fn(Seq<char>) -> Option<RealView>,
    reads: spec_fn(Seq<char>) -> Option<Double>,
    t: Seq<char>,
)
    requires
        conforms(numbers, reads),
        are_written(questions, raw, numbers, reads),
    ensures
        with_stored(questions, raw, numbers)(t) matches Some(x) ==> reads(t) is Some && is_alike(
            reads(t)->0,
            x.value,
        ),
        numbers(t) is Some ==> with_stored(questions, raw, numbers)(t) is Some,
        forall|i: int|
            0 <= i < questions.len() ==> (number_in(#[trigger] questions[i], raw, numbers)
                matches Some(n) ==> (stored_number(n) == t ==> (with_stored(
                questions,
                raw,
                numbers,
            )(t) matches Some(x) && x.display == t))),
    decreases questions.len(),
{
    if questions.len() > 0 {
        let before = questions.drop_last();
        let last = questions.last();
        assert forall|i: int| 0 <= i < before.len() implies (number_in(
            #[trigger] before[i],
            raw,
            numbers,
        ) matches Some(n) ==> is_written(n, reads)) by {
            assert(before[i] == questions[i]);
        }
        lemma_with_stored(before, raw, numbers, reads, t);
        assert(last == questions[questions.len() - 1]);
        if let Some(n) = number_in(last, raw, numbers) {
            lemma_stored_text(n, numbers, reads);
        }
        assert forall|i: int| 0 <= i < questions.len() implies (number_in(
            #[trigger] questions[i],
            raw,
            numbers,
        ) matches Some(n) ==> (stored_number(n) == t ==> (with_stored(questions, raw, numbers)(
            t,
        ) matches Some(x) && x.display == t))) by {
            if i < before.len() {
                assert(before[i] == questions[i]);
            }
        }
    }
}

/// Whether a number is finite and below 2^63 in size, so that it is kept when it is
/// stored.
pub open spec fn is_kept(n: Double) -> bool {
    n.is_finite() && n.whole() < 0x8000_0000_0000_0000
}

/// A number that is kept is stored in its place of the order.
proof fn lemma_kept(n: RealView)
    requires
        is_kept(n.value),
    ensures
        stored_value(n).is_finite(),
        stored_value(n).units() == n.value.units(),
        stored_value(n).rank() == n.value.rank(),
{
    if n.value.is_integral() {
        crate::double::law_whole_numbers_are_kept(n.value);
    }
}

/// Storing answers changes what no other text denotes.
pub proof fn law_other_texts_denote_what_they_did(
    questions: Seq<Question>,
    raw: Json,
    numbers: spec_fn(Seq<char>) -> Option<RealView>,
    t: Seq<char>,
)
    requires
        forall|i: int|
            0 <= i < questions.len() ==> (number_in(#[trigger] questions[i], raw, numbers)
                matches Some(n) ==> crate::text::trimmed(stored_number(n)) != t),
    ensures
        with_stored(questions, raw, numbers)(t) == numbers(t),
    decreases questions.len(),
{
    if questions.len() > 0 {
        let before = questions.drop_last();
        assert forall|i: int| 0 <= i < before.len() implies (number_in(
            #[trigger] before[i],
            raw,
            numbers,
        ) matches Some(n) ==> crate::text::trimmed(stored_number(n)) != t) by {
            assert(before[i] == questions[i]);
        }
        law_other_texts_denote_what_they_did(before, raw, numbers, t);
        assert(questions.last() == questions[questions.len() - 1]);
    }
}

/// The stored text of a number that is finite and below 2^63 in size reads as what
/// the number is stored as. `reads` tells what every text denotes.
pub proof fn law_stored_numbers_are_read(
    questions: Seq<Question>,
    raw: Json,
    numbers: spec_fn(Seq<char>) -> Option<RealView>,
    reads: spec_fn(Seq<char>) -> Option<Double>,
    k: int,
)
    requires
        conforms(numbers, reads),
        are_written(questions, raw, numbers, reads),
        0 <= k < questions.len(),
        number_in(questions[k], raw, numbers) is Some,
        is_kept(number_in(questions[k], raw, numbers)->0.value),
    ensures
        ({
            let n = number_in(questions[k], raw, numbers)->0;
            let s = stored_number(n);
            &&& s.len() > 0
            &&& crate::text::trimmed(s) == s
            &&& with_stored(questions, raw, numbers)(s) == Some(
                RealView { value: stored_value(n), display: s },
            )
        }),
{
    let n = number_in(questions[k], raw, numbers)->0;
    assert(is_written(n, reads));
    lemma_stored_text(n, numbers, reads);
    lemma_kept(n);
    lemma_with_stored(questions, raw, numbers, reads, stored_number(n));
}

/// Validating answers that were validated changes nothing: where the questions
/// have distinct ids and the numbers among the answers are finite and below 2^63 in
/// size, the stored answers, read with what the stored texts denote, are accepted
/// and are stored alike. `reads` tells what every text denotes.
pub proof fn law_validated_answers_stay_as_they_are(
    schema: FormSchema,
    raw: Json,
    stored: Json,
    numbers: spec_fn(Seq<char>) -> Option<RealView>,
    reads: spec_fn(Seq<char>) -> Option<Double>,
)
    requires
        conforms(numbers, reads),
        are_written(schema.asked(), raw, numbers, reads),
        crate::table::distinct(crate::models::form::question_ids(schema.asked())),
        answer_faults(schema.asked(), raw, numbers).len() == 0,
        is_record_of(stored, normalized(schema.asked(), raw, numbers)),
        forall|i: int|
            0 <= i < schema.asked().len() ==> (number_in(
                #[trigger] schema.asked()[i],
                raw,
                numbers,
            ) matches Some(n) ==> is_kept(n.value)),
    ensures
        ({
            let again = with_stored(schema.asked(), raw, numbers);
            &&& answer_faults(schema.asked(), stored, again).len() == 0
            &&& normalized(schema.asked(), stored, again) == normalized(
                schema.asked(),
                raw,
                numbers,
            )
        }),
{
    let questions = schema.asked();
    let again = with_stored(questions, raw, numbers);
    assert forall|i: int| 0 <= i < questions.len() implies number_reads_back(
        #[trigger] questions[i],
        raw.field(questions[i].id@),
        numbers,
        again,
    ) by {
        if let Some(n) = number_in(questions[i], raw, numbers) {
            law_stored_numbers_are_read(questions, raw, numbers, reads, i);
            lemma_kept(n);
        }
    }
    law_answers_that_read_back_stay_as_they_are(schema, raw, stored, numbers, again);
}

// ---------------------------------------------------------------------------
// Grading of numbers
// ---------------------------------------------------------------------------

/// Whether an answer key is `key`, or an array that holds it.
pub open spec fn is_among(key: Json, correct: Json) -> bool {
    correct == key || (correct matches Json::List(a) && a.contains(key))
}

/// Whether a number that is no integer comes with a JSON text.
pub open spec fn has_json_text(key: Json) -> bool {
    key matches Json::Number(crate::json::Numeral::Float { number, json })
        ==> !crate::text::is_blank_text(json)
}

/// Whether the answer to the question at `k`, which awards points, denotes a number
/// that is kept when it is stored and that is near the accepted answer `key`.
pub open spec fn is_right_number(
    questions: Seq<Question>,
    raw: Json,
    numbers: spec_fn(Seq<char>) -> Option<RealView>,
    k: int,
    key: Json,
) -> bool {
    let q = questions[k];
    &&& 0 <= k < questions.len()
    &&& q.points matches Some(points)
    &&& points > 0
    &&& q.correct matches Some(correct)
    &&& is_among(key, correct@)
    &&& has_json_text(key)
    &&& number_in(q, raw, numbers) matches Some(n)
    &&& is_kept(n.value)
    &&& is_near_key(key, n.value, numbers)
}

proof fn lemma_filled(texts: Seq<Seq<char>>, i: int)
    requires
        0 <= i < texts.len(),
        !crate::text::is_blank_text(texts[i]),
    ensures
        filled(texts).len() > 0,
    decreases texts.len(),
{
    if i < texts.len() - 1 {
        lemma_filled(texts.drop_last(), i);
    }
}

proof fn lemma_key_among(items: Seq<Json>, i: int) -> (j: int)
    requires
        0 <= i < items.len(),
        items[i] is Text || items[i] is Number,
    ensures
        0 <= j < keys_among(items).len(),
        keys_among(items)[j] == match items[i] {
            Json::Text(s) => s,
            _ => items[i]->Number_0.text(),
        },
    decreases items.len(),
{
    if i < items.len() - 1 {
        lemma_key_among(items.drop_last(), i)
    } else {
        keys_among(items.drop_last()).len() as int
    }
}

/// A key that denotes a number is one that accepts something.
proof fn lemma_number_keys_accept(
    key: Json,
    correct: Json,
    numbers: spec_fn(Seq<char>) -> Option<RealView>,
)
    requires
        is_among(key, correct),
        key_number(key, numbers) is Some,
        has_json_text(key),
    ensures
        accepted(correct).len() > 0,
{
    let text = match key {
        Json::Text(s) => s,
        _ => key->Number_0.text(),
    };
    assert(!crate::text::is_blank_text(text)) by {
        if let Json::Number(n) = key {
            match n {
                crate::json::Numeral::PosInt(i) => {
                    crate::numerals::lemma_int_text_is_trimmed(i as int);
                },
                crate::json::Numeral::NegInt(i) => {
                    crate::numerals::lemma_int_text_is_trimmed(i as int);
                },
                _ => {},
            }
        }
    }
    if correct == key {
        lemma_filled(seq![text], 0);
    } else {
        let items = correct->List_0;
        let i = items.index_of(key);
        let j = lemma_key_among(items, i);
        lemma_filled(keys_among(items), j);
    }
}

proof fn lemma_earned_counts(
    questions: Seq<Question>,
    verified: Map<Seq<char>, Json>,
    numbers: spec_fn(Seq<char>) -> Option<RealView>,
    k: int,
)
    requires
        0 <= k < questions.len(),
    ensures
        earned(questions[k], verified, numbers) <= total_earned(questions, verified, numbers),
    decreases questions.len(),
{
    if k < questions.len() - 1 {
        lemma_earned_counts(questions.drop_last(), verified, numbers, k);
    }
}

/// Number and scale answers match numerically: an answer that denotes a finite
/// number below 2^63 in size earns the points of its question where the answer key
/// holds a number near it, or a text that denotes one, however either of them is
/// written. `reads` tells what every text denotes.
pub proof fn law_right_numbers_earn_their_points(
    schema: FormSchema,
    raw: Json,
    numbers: spec_fn(Seq<char>) -> Option<RealView>,
    reads: spec_fn(Seq<char>) -> Option<Double>,
    k: int,
    key: Json,
)
    requires
        conforms(numbers, reads),
        are_written(schema.asked(), raw, numbers, reads),
        crate::table::distinct(crate::models::form::question_ids(schema.asked())),
        answer_faults(schema.asked(), raw, numbers).len() == 0,
        is_right_number(schema.asked(), raw, numbers, k, key),
    ensures
        ({
            let q = schema.asked()[k];
            let verified = normalized(schema.asked(), raw, numbers);
            let again = with_stored(schema.asked(), raw, numbers);
            &&& earned(q, verified, again) == q.points->0
            &&& quiz_score(schema.asked(), verified, again) >= q.points->0
        }),
{
    let questions = schema.asked();
    let q = questions[k];
    let c = q.correct->0@;
    let n = number_in(q, raw, numbers)->0;
    let verified = normalized(questions, raw, numbers);
    let again = with_stored(questions, raw, numbers);
    lemma_no_faults(questions, raw, numbers, k);
    lemma_normalized_at(questions, raw, numbers, q.id@);
    law_stored_numbers_are_read(questions, raw, numbers, reads, k);
    lemma_kept(n);
    lemma_number_keys_accept(key, c, numbers);
    assert(verified[q.id@] == Json::Text(stored_number(n)));
    let got = stored_value(n);
    assert(answered_number(verified[q.id@], again)->0.value == got);
    if let Json::Text(s) = key {
        lemma_with_stored(questions, raw, numbers, reads, crate::text::trimmed(s));
    }
    assert(is_near_key(key, got, again));
    if c != key {
        let items = c->List_0;
        assert(is_near_key(items[items.index_of(key)], got, again));
    } else {
        assert(c !is List);
    }
    lemma_earned_counts(questions, verified, again, k);
}

// ---------------------------------------------------------------------------
// Laws of structure
// ---------------------------------------------------------------------------

proof fn lemma_push_distinct(list: Seq<Seq<char>>, key: Seq<char>)
    requires
        crate::table::distinct(list),
        !list.contains(key),
    ensures
        crate::table::distinct(list.push(key)),
{
    let longer = list.push(key);
    assert forall|i: int, j: int| 0 <= i < j < longer.len() implies longer[i] != longer[j] by {
        assert(longer[i] == list[i]);
    }
}

proof fn lemma_options(id: Seq<char>, options: Seq<QuestionOption>)
    requires
        options_errors(id, options).len() == 0,
    ensures
        crate::table::distinct(option_ids(options)),
        forall|i: int| 0 <= i < options.len() ==> (#[trigger] options[i]).label@.len() <= 200,
    decreases options.len(),
{
    if options.len() > 0 {
        let before = options.drop_last();
        lemma_options(id, before);
        assert(option_ids(options) =~= option_ids(before).push(options.last().id@));
        lemma_push_distinct(option_ids(before), options.last().id@);
        assert forall|i: int| 0 <= i < options.len() implies (#[trigger] options[i]).label@.len()
            <= 200 by {
            if i < before.len() {
                assert(options[i] == before[i]);
            }
        }
    }
}

/// Whether a question is fit to be on a form.
pub open spec fn is_sound(q: Question) -> bool {
    &&& !crate::text::is_blank_text(q.id@)
    &&& crate::text::is_blank_text(q.title@) ==> q.kind.display_only()
    &&& has_options(q.kind) ==> {
        &&& 1 <= offered(q).len() <= MAX_OPTIONS_PER_QUESTION
        &&& crate::table::distinct(option_ids(offered(q)))
        &&& forall|i: int| 0 <= i < offered(q).len() ==> (#[trigger] offered(q)[i]).label@.len() <= 200
    }
    &&& q.kind is Agreement ==> q.required
    &&& (q.kind is Number || q.kind is Scale) && q.min is Some && q.max is Some
        ==> !q.max->0.value.below(q.min->0.value)
    &&& q.kind is Image || q.kind is Video ==> is_web_url(media_url(q)) && media_url(q).len() <= 2048
    &&& sets_only_its_fields(q)
}

/// Whether a question sets no field that its kind does not use.
pub open spec fn sets_only_its_fields(q: Question) -> bool {
    &&& q.max_length is Some ==> is_text(q.kind)
    &&& q.min is Some || q.max is Some ==> is_numeric(q.kind)
    &&& q.options is Some ==> has_options(q.kind)
    &&& q.image_url is Some ==> q.kind is Image || q.kind is Video
    &&& q.alt_text is Some ==> q.kind is Image
    &&& q.correct is Some || q.points is Some ==> !q.kind.display_only()
}

proof fn lemma_no_stray(q: Question)
    requires
        stray_errors(q).len() == 0,
    ensures
        sets_only_its_fields(q),
{
    assert(stray_bounds(q).len() == 0);
    assert(stray_contents(q).len() == 0);
    assert(stray_grading(q).len() == 0);
}

proof fn lemma_used_fields(q: Question)
    requires
        used_field_errors(q).len() == 0,
    ensures
        has_options(q.kind) ==> 1 <= offered(q).len() <= MAX_OPTIONS_PER_QUESTION && options_errors(
            q.id@,
            offered(q),
        ).len() == 0,
        q.kind is Agreement ==> q.required,
        is_numeric(q.kind) && q.min is Some && q.max is Some ==> !q.max->0.value.below(
            q.min->0.value,
        ),
        q.kind is Image || q.kind is Video ==> is_web_url(media_url(q)) && media_url(q).len()
            <= 2048,
{
}

proof fn lemma_question(q: Question, page: nat, place: nat, earlier: Seq<Seq<char>>)
    requires
        question_errors(q, page, place, earlier).len() == 0,
    ensures
        is_sound(q),
        !earlier.contains(q.id@),
{
    assert(kind_errors(q).len() == 0);
    lemma_no_stray(q);
    lemma_used_fields(q);
    if has_options(q.kind) {
        lemma_options(q.id@, offered(q));
    }
}

proof fn lemma_questions(questions: Seq<Question>, page: nat, earlier: Seq<Seq<char>>)
    requires
        questions_errors(questions, page, earlier).len() == 0,
        crate::table::distinct(earlier),
    ensures
        crate::table::distinct(earlier + crate::models::form::question_ids(questions)),
        forall|i: int| 0 <= i < questions.len() ==> is_sound(#[trigger] questions[i]),
    decreases questions.len(),
{
    let ids = crate::models::form::question_ids(questions);
    if questions.len() == 0 {
        assert(earlier + ids =~= earlier);
    } else {
        let before = questions.drop_last();
        let known = earlier + crate::models::form::question_ids(before);
        lemma_questions(before, page, earlier);
        lemma_question(questions.last(), page, questions.len(), known);
        lemma_push_distinct(known, questions.last().id@);
        assert(earlier + ids =~= known.push(questions.last().id@));
        assert forall|i: int| 0 <= i < questions.len() implies is_sound(#[trigger] questions[i]) by {
            if i < before.len() {
                assert(questions[i] == before[i]);
            }
        }
    }
}

proof fn lemma_pages(pages: Seq<Page>)
    requires
        pages_errors(pages).len() == 0,
    ensures
        crate::table::distinct(page_ids(pages)),
        crate::table::distinct(ids_on(pages)),
        forall|i: int, k: int|
            0 <= i < pages.len() && 0 <= k < pages[i].questions@.len() ==> is_sound(
                #[trigger] pages[i].questions@[k],
            ),
    decreases pages.len(),
{
    if pages.len() > 0 {
        let before = pages.drop_last();
        lemma_pages(before);
        lemma_questions(pages.last().questions@, pages.len(), ids_on(before));
        lemma_push_distinct(page_ids(before), pages.last().id@);
        assert(page_ids(pages) =~= page_ids(before).push(pages.last().id@));
        assert forall|i: int, k: int|
            0 <= i < pages.len() && 0 <= k < pages[i].questions@.len() implies is_sound(
            #[trigger] pages[i].questions@[k],
        ) by {
            if i < before.len() {
                assert(pages[i] == before[i]);
            }
        }
    }
}

/// A form that passes the sanity check has a title, between one page and the
/// most allowed, at most the allowed number of questions, pages and questions
/// with distinct ids, and sound questions only.
pub proof fn law_sane_form_is_well_structured(schema: FormSchema)
    requires
        form_errors(schema).len() == 0,
    ensures
        !crate::text::is_blank_text(schema.title@),
        1 <= schema.pages@.len() <= MAX_PAGES,
        ids_on(schema.pages@).len() <= MAX_QUESTIONS,
        crate::table::distinct(page_ids(schema.pages@)),
        crate::table::distinct(ids_on(schema.pages@)),
        forall|i: int, k: int|
            0 <= i < schema.pages@.len() && 0 <= k < schema.pages@[i].questions@.len() ==> is_sound(
                #[trigger] schema.pages@[i].questions@[k],
            ),
{
    assert(pages_errors(schema.pages@).len() == 0);
    lemma_pages(schema.pages@);
}

/// A form is refused where a question sets a field that its kind does not use.
pub proof fn law_stray_fields_are_refused(schema: FormSchema, page: int, place: int)
    requires
        0 <= page < schema.pages@.len(),
        0 <= place < schema.pages@[page].questions@.len(),
        !sets_only_its_fields(schema.pages@[page].questions@[place]),
    ensures
        form_errors(schema).len() > 0,
{
    if form_errors(schema).len() == 0 {
        law_sane_form_is_well_structured(schema);
        assert(is_sound(schema.pages@[page].questions@[place]));
    }
}

proof fn lemma_fewer_are_asked(questions: Seq<Question>)
    ensures
        crate::models::form::answerable(questions).len() <= questions.len(),
    decreases questions.len(),
{
    if questions.len() > 0 {
        lemma_fewer_are_asked(questions.drop_last());
    }
}

proof fn lemma_fewer_are_asked_on(pages: Seq<Page>)
    ensures
        crate::models::form::answerable_on(pages).len() <= ids_on(pages).len(),
    decreases pages.len(),
{
    if pages.len() > 0 {
        lemma_fewer_are_asked_on(pages.drop_last());
        lemma_fewer_are_asked(pages.last().questions@);
    }
}

proof fn lemma_points_in_range(
    questions: Seq<Question>,
    verified: Map<Seq<char>, Json>,
    numbers: spec_fn(Seq<char>) -> Option<RealView>,
)
    requires
        all_key_errors(questions).len() == 0,
    ensures
        total_earned(questions, verified, numbers) <= questions.len() * MAX_QUESTION_POINTS,
    decreases questions.len(),
{
    if questions.len() > 0 {
        let before = questions.drop_last();
        assert(all_key_errors(before).len() == 0);
        assert(key_errors(questions.last()).len() == 0);
        lemma_points_in_range(before, verified, numbers);
    }
}

/// On a quiz that could be saved the score is just the points that were earned:
/// it never runs into the limit of its type, so no threshold is out of reach for
/// that reason.
pub proof fn law_saved_quizzes_score_in_full(
    schema: FormSchema,
    verified: Map<Seq<char>, Json>,
    numbers: spec_fn(Seq<char>) -> Option<RealView>,
)
    requires
        form_errors(schema).len() == 0,
        all_key_errors(schema.asked()).len() == 0,
    ensures
        quiz_score(schema.asked(), verified, numbers) == total_earned(
            schema.asked(),
            verified,
            numbers,
        ),
{
    law_sane_form_is_well_structured(schema);
    lemma_fewer_are_asked_on(schema.pages@);
    lemma_points_in_range(schema.asked(), verified, numbers);
}

/// An address that may be shown is no script, no inline data and no file.
pub proof fn law_web_urls_are_not_smuggled(url: Seq<char>)
    requires
        is_web_url(url),
    ensures
        ({
            let lower = crate::text::ascii_lowered(crate::text::trimmed(url));
            &&& !crate::text::begins_with(lower, "javascript:"@)
            &&& !crate::text::begins_with(lower, "data:"@)
            &&& !crate::text::begins_with(lower, "vbscript:"@)
            &&& !crate::text::begins_with(lower, "file:"@)
        }),
{
    let lower = crate::text::ascii_lowered(crate::text::trimmed(url));
    reveal_strlit("javascript:");
    reveal_strlit("data:");
    reveal_strlit("vbscript:");
    reveal_strlit("file:");
    reveal_strlit("http://");
    reveal_strlit("https://");
    if crate::text::begins_with(lower, "http://"@) {
        assert(lower.subrange(0, 7)[0] == 'h');
    }
    if crate::text::begins_with(lower, "https://"@) {
        assert(lower.subrange(0, 8)[0] == 'h');
    }
    if crate::text::begins_with(lower, "javascript:"@) {
        assert(lower.subrange(0, 11)[0] == 'j');
    }
    if crate::text::begins_with(lower, "data:"@) {
        assert(lower.subrange(0, 5)[0] == 'd');
    }
    if crate::text::begins_with(lower, "vbscript:"@) {
        assert(lower.subrange(0, 9)[0] == 'v');
    }
    if crate::text::begins_with(lower, "file:"@) {
        assert(lower.subrange(0, 5)[0] == 'f');
    }
}

} // verus!
