//! What validation is for: which answers are accepted, kind by kind, and what is
//! stored of them.

use vstd::prelude::*;

use crate::error::Fault;
use crate::json::{Json, Numeral, RealView};
use crate::models::form::{Question, QuestionOption};
use crate::services::form_validator;
use crate::services::form_validator::Checked;

verus! {

/// Whether `id` is the id of an option.
pub open spec fn is_offered(options: Seq<QuestionOption>, id: Seq<char>) -> bool {
    exists|i: int| 0 <= i < options.len() && (#[trigger] options[i]).id@ == id
}

pub proof fn lemma_offered(options: Seq<QuestionOption>, id: Seq<char>)
    ensures
        form_validator::option_ids(options).contains(id) <==> is_offered(options, id),
{
    let ids = form_validator::option_ids(options);
    if ids.contains(id) {
        let i = ids.index_of(id);
        assert(options[i].id@ == id);
    }
    if is_offered(options, id) {
        let i = choose|i: int| 0 <= i < options.len() && (#[trigger] options[i]).id@ == id;
        assert(ids[i] == id);
    }
}

/// The answer to a single choice or a dropdown is accepted just where it is the id of
/// an option, and that id is stored.
pub proof fn law_offered_options_are_accepted(
    q: Question,
    s: Seq<char>,
    raw: Json,
    numbers: spec_fn(Seq<char>) -> Option<RealView>,
)
    requires
        q.kind is SingleChoice || q.kind is Dropdown,
        crate::text::trimmed(s).len() > 0,
        raw is Bool || raw is Number || raw is Record || (raw matches Json::List(a) && a.len() > 0),
    ensures
        ({
            let result = form_validator::answer_checked(q, Some(Json::Text(s)), numbers);
            let good = q.options matches Some(options) && is_offered(options@, s);
            &&& good ==> result == Checked::Answer(Json::Text(s))
            &&& !good ==> result is Wrong
        }),
        form_validator::answer_checked(q, Some(raw), numbers) is Wrong,
{
    if q.options is Some {
        lemma_offered(q.options->0@, s);
    }
}

proof fn lemma_choices(items: Seq<Json>, ids: Seq<Seq<char>>)
    requires
        forall|i: int|
            0 <= i < items.len() ==> (#[trigger] items[i]) is Text && ids.contains(
                items[i]->Text_0,
            ),
    ensures
        form_validator::choice_complaint(items, ids) is None,
    decreases items.len(),
{
    if items.len() > 0 {
        let rest = items.skip(1);
        assert forall|i: int| 0 <= i < rest.len() implies (#[trigger] rest[i]) is Text
            && ids.contains(rest[i]->Text_0) by {
            assert(rest[i] == items[i + 1]);
        }
        lemma_choices(rest, ids);
        assert(items[0] is Text && ids.contains(items[0]->Text_0));
    }
}

/// The answer to a question with checkboxes is accepted just where it is a list of
/// ids of options, and that list is stored as it is.
pub proof fn law_offered_choices_are_accepted(
    q: Question,
    items: Seq<Json>,
    raw: Json,
    numbers: spec_fn(Seq<char>) -> Option<RealView>,
)
    requires
        q.kind is MultiChoice,
        items.len() > 0,
        raw is Bool || raw is Number || raw is Record || (raw matches Json::Text(s)
            && crate::text::trimmed(s).len() > 0),
    ensures
        ({
            let result = form_validator::answer_checked(q, Some(Json::List(items)), numbers);
            let good = q.options matches Some(options) && forall|i: int|
                0 <= i < items.len() ==> (#[trigger] items[i]) is Text && is_offered(
                    options@,
                    items[i]->Text_0,
                );
            &&& good ==> result == Checked::Answer(Json::List(items))
            &&& !good ==> result is Wrong
        }),
        form_validator::answer_checked(q, Some(raw), numbers) is Wrong,
{
    if let Some(options) = q.options {
        let ids = form_validator::option_ids(options@);
        assert forall|i: int| 0 <= i < items.len() && (#[trigger] items[i]) is Text implies (
        ids.contains(items[i]->Text_0) <==> is_offered(options@, items[i]->Text_0)) by {
            lemma_offered(options@, items[i]->Text_0);
        }
        if form_validator::choice_complaint(items, ids) is None {
            form_validator::lemma_choices_are_options(items, ids);
        } else if forall|i: int|
            0 <= i < items.len() ==> (#[trigger] items[i]) is Text && is_offered(
                options@,
                items[i]->Text_0,
            ) {
            lemma_choices(items, ids);
        }
    }
}

/// A text is accepted just where it is not too long once it is trimmed, and it is
/// stored trimmed. It may have as many characters as the question allows, or else 100,
/// and 4000 in a long text.
pub proof fn law_texts_are_accepted_up_to_their_length(
    q: Question,
    s: Seq<char>,
    raw: Json,
    numbers: spec_fn(Seq<char>) -> Option<RealView>,
)
    requires
        q.kind is ShortText || q.kind is LongText,
        crate::text::trimmed(s).len() > 0,
        raw is Bool || raw is Number || raw is Record || (raw matches Json::List(a) && a.len() > 0),
        q.max_length matches Some(n) ==> 0 <= n <= usize::MAX,
    ensures
        ({
            let result = form_validator::answer_checked(q, Some(Json::Text(s)), numbers);
            let most: int = match q.max_length {
                Some(n) => n as int,
                None => if q.kind is LongText {
                    4000
                } else {
                    100
                },
            };
            let kept = crate::text::trimmed(s);
            &&& kept.len() <= most ==> result == Checked::Answer(Json::Text(kept))
            &&& kept.len() > most ==> result is Wrong
        }),
        form_validator::answer_checked(q, Some(raw), numbers) is Wrong,
{
}

/// A number is accepted just where it is within the bounds of the question. A text is
/// taken as the number that it denotes once it is trimmed, and is refused where it
/// denotes none.
pub proof fn law_numbers_are_accepted_within_their_bounds(
    q: Question,
    n: Numeral,
    s: Seq<char>,
    json: Seq<char>,
    raw: Json,
    numbers: spec_fn(Seq<char>) -> Option<RealView>,
)
    requires
        q.kind is Number || q.kind is Scale,
        crate::text::trimmed(s).len() > 0,
        n.double().is_finite(),
        q.min matches Some(min) ==> min.value.is_finite(),
        q.max matches Some(max) ==> max.value.is_finite(),
        raw is Bool || raw is Record || (raw matches Json::List(a) && a.len() > 0),
    ensures
        ({
            let result = form_validator::answer_checked(q, Some(Json::Number(n)), numbers);
            let inside = {
                &&& q.min matches Some(min) ==> min.value.units() <= n.double().units()
                &&& q.max matches Some(max) ==> n.double().units() <= max.value.units()
            };
            &&& inside ==> (result matches Checked::Answer(v) && v is Text)
            &&& !inside ==> result is Wrong
        }),
        numbers(crate::text::trimmed(s)) matches Some(x) ==> form_validator::answer_checked(
            q,
            Some(Json::Text(s)),
            numbers,
        ) == form_validator::answer_checked(
            q,
            Some(Json::Number(Numeral::Float { number: x, json })),
            numbers,
        ),
        numbers(crate::text::trimmed(s)) is None ==> form_validator::answer_checked(
            q,
            Some(Json::Text(s)),
            numbers,
        ) is Wrong,
        form_validator::answer_checked(q, Some(raw), numbers) is Wrong,
{
    if let Some(min) = q.min {
        crate::double::law_rank_is_the_order(n.double(), min.value);
    }
    if let Some(max) = q.max {
        crate::double::law_rank_is_the_order(max.value, n.double());
    }
}

/// A number that is infinite is accepted where no bound is past it, and what is no number
/// is not held by any bound.
pub proof fn law_bounds_hold_infinite_numbers(
    q: Question,
    x: RealView,
    json: Seq<char>,
    numbers: spec_fn(Seq<char>) -> Option<RealView>,
)
    requires
        q.kind is Number || q.kind is Scale,
        q.min matches Some(min) ==> min.value.is_finite(),
        q.max matches Some(max) ==> max.value.is_finite(),
    ensures
        ({
            let r = form_validator::answer_checked(
                q,
                Some(Json::Number(Numeral::Float { number: x, json })),
                numbers,
            );
            &&& x.value.is_nan() ==> r is Answer
            &&& x.value.bits == 0x7ff0_0000_0000_0000 ==> (r is Answer <==> q.max is None)
            &&& x.value.bits == 0xfff0_0000_0000_0000 ==> (r is Answer <==> q.min is None)
            &&& r is Answer || r is Wrong
        }),
{
}

/// A whole number is stored as its numeral, however it was written, and a number with a
/// fraction as its shortest text.
pub proof fn law_numbers_are_stored_as_numerals(
    q: Question,
    i: i64,
    x: RealView,
    json: Seq<char>,
    numbers: spec_fn(Seq<char>) -> Option<RealView>,
)
    requires
        q.kind is Number || q.kind is Scale,
        -0x20_0000_0000_0000 < i < 0x20_0000_0000_0000,
    ensures
        form_validator::answer_checked(
            q,
            Some(Json::Number(Numeral::of_int(i))),
            numbers,
        ) matches Checked::Answer(v) ==> v == Json::Text(crate::numerals::int_text(i as int)),
        !x.value.is_integral() ==> (form_validator::answer_checked(
            q,
            Some(Json::Number(Numeral::Float { number: x, json })),
            numbers,
        ) matches Checked::Answer(v) ==> v == Json::Text(x.display)),
        x.value.is_integral() ==> (form_validator::answer_checked(
            q,
            Some(Json::Number(Numeral::Float { number: x, json })),
            numbers,
        ) matches Checked::Answer(v) ==> v == Json::Text(
            crate::numerals::int_text(x.value.cut() as int),
        )),
        crate::text::trimmed(json).len() > 0 && numbers(crate::text::trimmed(json)) == Some(x) ==> (
        form_validator::answer_checked(q, Some(Json::Text(json)), numbers) matches Checked::Answer(v)
            ==> v == Json::Text(
            if x.value.is_integral() {
                crate::numerals::int_text(x.value.cut() as int)
            } else {
                x.display
            },
        )),
{
    let d = crate::double::Double::of_int(i as int);
    crate::double::law_small_integers_are_exact(i as int);
    let unit = vstd::arithmetic::power2::pow2(1074) as int;
    vstd::arithmetic::power2::lemma_pow2_pos(1074);
    let w = if i < 0 {
        -(i as int)
    } else {
        i as int
    };
    assert(d.size() == w * unit) by {
        assert((-w) * unit == -(w * unit)) by (nonlinear_arith);
        assert(w * unit >= 0) by (nonlinear_arith)
            requires
                w >= 0,
                unit > 0,
        ;
        if i > 0 {
            assert(w * unit > 0) by (nonlinear_arith)
                requires
                    w > 0,
                    unit > 0,
            ;
        }
        if i == 0 {
            assert(0 * unit == 0) by (nonlinear_arith);
        }
        if i < 0 {
            assert(w * unit > 0) by (nonlinear_arith)
                requires
                    w > 0,
                    unit > 0,
            ;
        }
    }
    vstd::arithmetic::div_mod::lemma_mod_multiples_basic(w, unit);
    vstd::arithmetic::div_mod::lemma_div_multiples_vanish(w, unit);
    assert(unit * w == w * unit) by (nonlinear_arith);
    assert(d.is_integral());
    assert(d.whole() == w);
    assert(d.cut() == i) by {
        if i < 0 {
            assert(d.units() < 0) by {
                assert(i * unit < 0) by (nonlinear_arith)
                    requires
                        i < 0,
                        unit > 0,
                ;
            }
            assert(d.is_negative());
        } else if i > 0 {
            assert(i * unit > 0) by (nonlinear_arith)
                requires
                    i > 0,
                    unit > 0,
            ;
            assert(!d.is_negative());
        }
    }
}

/// An email question takes a text just where it has the shape of an address, once the
/// white space around it is gone, and at most 320 bytes; and that is what is stored. What is
/// no text is refused.
pub proof fn law_emails_are_accepted_up_to_their_size(
    q: Question,
    s: Seq<char>,
    other: Json,
    numbers: spec_fn(Seq<char>) -> Option<RealView>,
)
    requires
        q.kind is Email,
        crate::text::trimmed(s).len() > 0,
    ensures
        ({
            let r = form_validator::answer_checked(q, Some(Json::Text(s)), numbers);
            let address = crate::text::trimmed(s);
            &&& r == Checked::Answer(Json::Text(address)) <==> form_validator::is_email_shaped(
                address,
            ) && vstd::utf8::encode_utf8(address).len() <= 320
            &&& r is Answer || r is Wrong
            &&& other is Bool || other is Number || other is Record ==> form_validator::answer_checked(
                q,
                Some(other),
                numbers,
            ) is Wrong
        }),
{
}

/// A date is accepted just where its text, trimmed, is an RFC 3339 time or a day of
/// the calendar, and it is stored trimmed.
pub proof fn law_dates_are_accepted(
    q: Question,
    s: Seq<char>,
    raw: Json,
    numbers: spec_fn(Seq<char>) -> Option<RealView>,
)
    requires
        q.kind is Date,
        crate::text::trimmed(s).len() > 0,
        raw is Bool || raw is Number || raw is Record || (raw matches Json::List(a) && a.len() > 0),
    ensures
        ({
            let result = form_validator::answer_checked(q, Some(Json::Text(s)), numbers);
            let kept = crate::text::trimmed(s);
            let good = crate::outside::rfc3339_instant(kept) is Some || crate::outside::day_number(
                kept,
                "%Y-%m-%d"@,
            ) is Some;
            &&& good ==> result == Checked::Answer(Json::Text(kept))
            &&& !good ==> result is Wrong
        }),
        form_validator::answer_checked(q, Some(raw), numbers) is Wrong,
{
}

/// An agreement is given by a true value, one of four words, or an integer that is not
/// zero, and is stored as "true"; anything else is no agreement, which is refused just
/// where the question is required.
pub proof fn law_agreements_are_given_explicitly(
    q: Question,
    raw: Option<Json>,
    numbers: spec_fn(Seq<char>) -> Option<RealView>,
)
    requires
        q.kind is Agreement,
    ensures
        ({
            let given = match raw {
                Some(Json::Bool(b)) => b,
                Some(Json::Text(s)) => s == "true"@ || s == "yes"@ || s == "on"@ || s == "1"@,
                Some(Json::Number(Numeral::PosInt(n))) => 0 < n <= i64::MAX,
                Some(Json::Number(Numeral::NegInt(n))) => n != 0,
                _ => false,
            };
            let result = form_validator::answer_checked(q, raw, numbers);
            &&& given ==> result == Checked::Answer(Json::Text("true"@))
            &&& !given && q.required ==> result is Wrong
            &&& !given && !q.required ==> result is Skipped
        }),
{
}

/// An element that only shows something takes no answer, whatever is sent for it.
pub proof fn law_shown_elements_take_no_answer(
    q: Question,
    raw: Option<Json>,
    numbers: spec_fn(Seq<char>) -> Option<RealView>,
)
    requires
        q.kind is Info || q.kind is Image || q.kind is Video,
    ensures
        form_validator::answer_checked(q, raw, numbers) is Skipped,
{
}

/// A question without an answer is skipped, or refused where it is required. No answer
/// is one that is missing, null, a text of white space, or an empty list.
pub proof fn law_no_answer_is_skipped_or_refused(
    q: Question,
    s: Seq<char>,
    numbers: spec_fn(Seq<char>) -> Option<RealView>,
)
    requires
        q.kind is ShortText || q.kind is LongText || q.kind is Number || q.kind is Scale || q.kind
            is SingleChoice || q.kind is Dropdown || q.kind is MultiChoice || q.kind is Date
            || q.kind is Email,
        crate::text::trimmed(s).len() == 0,
    ensures
        ({
            let none = if q.required {
                Checked::Wrong("This question is required."@)
            } else {
                Checked::Skipped
            };
            &&& form_validator::answer_checked(q, None, numbers) == none
            &&& form_validator::answer_checked(q, Some(Json::Null), numbers) == none
            &&& form_validator::answer_checked(q, Some(Json::Text(s)), numbers) == none
            &&& form_validator::answer_checked(q, Some(Json::List(Seq::empty())), numbers) == none
        }),
{
}

/// Answers are accepted just where none of them is wrong, and what is wrong is told
/// for every question whose answer is.
pub proof fn law_every_wrong_answer_is_told(
    questions: Seq<Question>,
    raw: Json,
    numbers: spec_fn(Seq<char>) -> Option<RealView>,
)
    ensures
        form_validator::answer_faults(questions, raw, numbers).len() == 0 <==> forall|i: int|
            0 <= i < questions.len() ==> form_validator::answer_checked(
                #[trigger] questions[i],
                raw.field(questions[i].id@),
                numbers,
            ) !is Wrong,
        forall|i: int|
            0 <= i < questions.len() ==> (form_validator::answer_checked(
                #[trigger] questions[i],
                raw.field(questions[i].id@),
                numbers,
            ) matches Checked::Wrong(message) ==> form_validator::answer_faults(
                questions,
                raw,
                numbers,
            ).contains(Fault { question_id: questions[i].id@, message })),
        forall|k: int|
            0 <= k < form_validator::answer_faults(questions, raw, numbers).len() ==> exists|i: int|
                0 <= i < questions.len() && (#[trigger] questions[i]).id@
                    == (#[trigger] form_validator::answer_faults(
                    questions,
                    raw,
                    numbers,
                )[k]).question_id && form_validator::answer_checked(
                    questions[i],
                    raw.field(questions[i].id@),
                    numbers,
                ) == Checked::Wrong(
                    form_validator::answer_faults(questions, raw, numbers)[k].message,
                ),
    decreases questions.len(),
{
    let faults = form_validator::answer_faults(questions, raw, numbers);
    if questions.len() > 0 {
        let before = questions.drop_last();
        let sooner = form_validator::answer_faults(before, raw, numbers);
        let n = questions.len() - 1;
        law_every_wrong_answer_is_told(before, raw, numbers);
        assert(questions[n] == questions.last());
        assert forall|i: int| 0 <= i < questions.len() implies (form_validator::answer_checked(
            #[trigger] questions[i],
            raw.field(questions[i].id@),
            numbers,
        ) matches Checked::Wrong(message) ==> faults.contains(
            Fault { question_id: questions[i].id@, message },
        )) by {
            if let Checked::Wrong(message) = form_validator::answer_checked(
                questions[i],
                raw.field(questions[i].id@),
                numbers,
            ) {
                let fault = Fault { question_id: questions[i].id@, message };
                if i < n {
                    assert(before[i] == questions[i]);
                    let k = sooner.index_of(fault);
                    assert(faults[k] == fault);
                } else {
                    assert(faults[faults.len() - 1] == fault);
                }
            }
        }
        assert forall|k: int| 0 <= k < faults.len() implies exists|i: int|
            0 <= i < questions.len() && (#[trigger] questions[i]).id@ == (
            #[trigger] faults[k]).question_id && form_validator::answer_checked(
                questions[i],
                raw.field(questions[i].id@),
                numbers,
            ) == Checked::Wrong(faults[k].message) by {
            if k < sooner.len() {
                assert(faults[k] == sooner[k]);
                let i = choose|i: int|
                    0 <= i < before.len() && (#[trigger] before[i]).id@ == sooner[k].question_id
                        && form_validator::answer_checked(
                        before[i],
                        raw.field(before[i].id@),
                        numbers,
                    ) == Checked::Wrong(sooner[k].message);
                assert(questions[i] == before[i]);
            } else {
                assert(questions[n].id@ == faults[k].question_id);
            }
        }
        if faults.len() == 0 {
            assert forall|i: int| 0 <= i < questions.len() implies form_validator::answer_checked(
                #[trigger] questions[i],
                raw.field(questions[i].id@),
                numbers,
            ) !is Wrong by {
                form_validator::lemma_no_faults(questions, raw, numbers, i);
            }
        } else {
            let i = choose|i: int|
                0 <= i < questions.len() && (#[trigger] questions[i]).id@ == faults[0].question_id
                    && form_validator::answer_checked(
                    questions[i],
                    raw.field(questions[i].id@),
                    numbers,
                ) == Checked::Wrong(faults[0].message);
            assert(faults[0] == faults[0]);
        }
    }
}

/// What is stored under the id of a question is what came of checking the answer that
/// was sent under that id; nothing is stored for a question that was skipped, nor
/// under any other id.
pub proof fn law_answers_are_stored_under_their_question(
    questions: Seq<Question>,
    raw: Json,
    numbers: spec_fn(Seq<char>) -> Option<RealView>,
    k: int,
    other: Seq<char>,
)
    requires
        crate::table::distinct(crate::models::form::question_ids(questions)),
        0 <= k < questions.len(),
        forall|i: int| 0 <= i < questions.len() ==> (#[trigger] questions[i]).id@ != other,
    ensures
        ({
            let stored = form_validator::normalized(questions, raw, numbers);
            let id = questions[k].id@;
            let result = form_validator::answer_checked(questions[k], raw.field(id), numbers);
            &&& result matches Checked::Answer(v) ==> stored.contains_key(id) && stored[id] == v
            &&& result !is Answer ==> !stored.contains_key(id)
            &&& !stored.contains_key(other)
        }),
{
    form_validator::lemma_normalized_at(questions, raw, numbers, questions[k].id@);
    form_validator::lemma_normalized_at(questions, raw, numbers, other);
}

/// What is wrong with an answer is told: that it is missing, of the wrong kind, too long,
/// out of its bounds, or none of the options.
pub proof fn law_wrong_answers_are_told_why(
    q: Question,
    raw: Json,
    numbers: spec_fn(Seq<char>) -> Option<RealView>,
    why: Seq<char>,
)
    requires
        form_validator::answer_checked(q, Some(raw), numbers) == Checked::Wrong(why),
        !form_validator::is_empty_answer(Some(raw)),
    ensures
        q.kind is ShortText || q.kind is LongText ==> (if raw is Text {
            why == "Answer is too long (max "@ + crate::numerals::nat_text(
                form_validator::text_limit(q) as nat,
            ) + " characters)."@
        } else {
            why == "Answer must be text."@
        }),
        q.kind is Number || q.kind is Scale ==> {
            ||| why == "Answer must be a number."@
            ||| q.min is Some && why == "Answer must be at least "@ + q.min->0.display@ + "."@
            ||| q.max is Some && why == "Answer must be at most "@ + q.max->0.display@ + "."@
        },
        q.kind is SingleChoice || q.kind is Dropdown ==> (if raw !is Text {
            why == "Answer must be a single option id."@
        } else if q.options is Some {
            why == "Selected option is not valid for this question."@
        } else {
            why == "Question is misconfigured (no options)."@
        }),
        q.kind is Date ==> (if raw is Text {
            why == "Date must be in YYYY-MM-DD format."@
        } else {
            why == "Answer must be a date string."@
        }),
        q.kind is Email && raw !is Text ==> why == "Email must be text."@,
        q.kind is Email && raw is Text ==> (if form_validator::is_email_shaped(
            crate::text::trimmed(raw->Text_0),
        ) {
            why == "Email is too long."@
        } else {
            why == "That doesn't look like a valid email address."@
        }),
        q.kind is Agreement ==> why == "You must agree to continue."@,
        q.kind is MultiChoice && raw !is List ==> why == "Answer must be a list of option ids."@,
{
}

} // verus!
