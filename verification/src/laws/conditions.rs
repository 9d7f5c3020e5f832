//! What conditions are for: which responses meet them, operator by operator.

use vstd::arithmetic::power2::pow2;
use vstd::prelude::*;

use crate::json::{Json, Numeral, RealView};
use crate::models::condition::{ConditionOperator, Rule, Target};
use crate::services::condition_eval;
use crate::services::condition_eval::Response;

verus! {

/// A condition on a question, without a second value.
pub open spec fn asks(operator: ConditionOperator, id: Seq<char>, value: Json) -> Rule {
    Rule { target: Target::Question(id), operator, value, value_end: None }
}

/// A condition on the total score of a quiz, without a second value.
pub open spec fn asks_score(operator: ConditionOperator, value: Json) -> Rule {
    Rule { target: Target::QuizTotalScore, operator, value, value_end: None }
}

pub proof fn lemma_texts_among(items: Seq<Json>, s: Seq<char>)
    ensures
        crate::json::texts_among(items).contains(s) <==> items.contains(Json::Text(s)),
    decreases items.len(),
{
    let texts = crate::json::texts_among(items);
    if items.len() == 0 {
        assert(!texts.contains(s));
        assert(!items.contains(Json::Text(s)));
    } else {
        let before = items.drop_last();
        let sooner = crate::json::texts_among(before);
        lemma_texts_among(before, s);
        if before.contains(Json::Text(s)) {
            let i = before.index_of(Json::Text(s));
            assert(items[i] == Json::Text(s));
            let j = sooner.index_of(s);
            assert(texts[j] == s);
        }
        if items.last() == Json::Text(s) {
            assert(items[items.len() - 1] == Json::Text(s));
            assert(texts[texts.len() - 1] == s);
        }
        if items.contains(Json::Text(s)) {
            let i = items.index_of(Json::Text(s));
            if i < before.len() {
                assert(before[i] == Json::Text(s));
            }
        }
        if texts.contains(s) {
            let j = texts.index_of(s);
            if j < sooner.len() {
                assert(sooner[j] == s);
            }
        }
    }
}

proof fn lemma_covered(needed: Seq<Json>, chosen: Seq<Json>)
    ensures
        condition_eval::covered(
            crate::json::texts_among(needed),
            crate::json::texts_among(chosen),
        ) <==> forall|s: Seq<char>|
            #![trigger needed.contains(Json::Text(s))]
            needed.contains(Json::Text(s)) ==> chosen.contains(Json::Text(s)),
{
    let a = crate::json::texts_among(needed);
    let b = crate::json::texts_among(chosen);
    if condition_eval::covered(a, b) {
        assert forall|s: Seq<char>| #[trigger] needed.contains(Json::Text(s)) implies chosen.contains(
            Json::Text(s),
        ) by {
            lemma_texts_among(needed, s);
            lemma_texts_among(chosen, s);
            assert(b.contains(a[a.index_of(s)]));
        }
    }
    if forall|s: Seq<char>|
        #![trigger needed.contains(Json::Text(s))]
        needed.contains(Json::Text(s)) ==> chosen.contains(Json::Text(s)) {
        assert forall|i: int| 0 <= i < a.len() implies b.contains(#[trigger] a[i]) by {
            let s = a[i];
            assert(a.contains(s));
            lemma_texts_among(needed, s);
            lemma_texts_among(chosen, s);
            assert(needed.contains(Json::Text(s)));
        }
    }
}

proof fn lemma_overlap(listed: Seq<Json>, chosen: Seq<Json>)
    ensures
        condition_eval::overlap(
            crate::json::texts_among(listed),
            crate::json::texts_among(chosen),
        ) <==> exists|s: Seq<char>|
            #![trigger listed.contains(Json::Text(s))]
            listed.contains(Json::Text(s)) && chosen.contains(Json::Text(s)),
{
    let a = crate::json::texts_among(listed);
    let b = crate::json::texts_among(chosen);
    if condition_eval::overlap(a, b) {
        let i = choose|i: int| 0 <= i < a.len() && b.contains(#[trigger] a[i]);
        let s = a[i];
        assert(a.contains(s));
        lemma_texts_among(listed, s);
        lemma_texts_among(chosen, s);
        assert(listed.contains(Json::Text(s)));
    }
    if exists|s: Seq<char>|
        #![trigger listed.contains(Json::Text(s))]
        listed.contains(Json::Text(s)) && chosen.contains(Json::Text(s)) {
        let s = choose|s: Seq<char>|
            #![trigger listed.contains(Json::Text(s))]
            listed.contains(Json::Text(s)) && chosen.contains(Json::Text(s));
        lemma_texts_among(listed, s);
        lemma_texts_among(chosen, s);
        assert(b.contains(a[a.index_of(s)]));
    }
}

/// Checkbox answers: `contains_all` holds just where every listed text was
/// chosen, whatever else was chosen; `contains_any` just where one of them was; and
/// `not_contains` just where none was.
pub proof fn law_choices_are_compared_as_sets(
    listed: Seq<Json>,
    chosen: Seq<Json>,
    target: Target,
    end: Option<Json>,
    numbers: spec_fn(Seq<char>) -> Option<RealView>,
)
    ensures
        condition_eval::meets(
            Json::List(chosen),
            Rule {
                target,
                operator: ConditionOperator::ContainsAll,
                value: Json::List(listed),
                value_end: end,
            },
            numbers,
        ) <==> (forall|s: Seq<char>|
            #![trigger listed.contains(Json::Text(s))]
            listed.contains(Json::Text(s)) ==> chosen.contains(Json::Text(s))),
        condition_eval::meets(
            Json::List(chosen),
            Rule {
                target,
                operator: ConditionOperator::ContainsAny,
                value: Json::List(listed),
                value_end: end,
            },
            numbers,
        ) <==> (exists|s: Seq<char>|
            #![trigger listed.contains(Json::Text(s))]
            listed.contains(Json::Text(s)) && chosen.contains(Json::Text(s))),
        condition_eval::meets(
            Json::List(chosen),
            Rule {
                target,
                operator: ConditionOperator::NotContains,
                value: Json::List(listed),
                value_end: end,
            },
            numbers,
        ) <==> (forall|s: Seq<char>|
            #![trigger listed.contains(Json::Text(s))]
            listed.contains(Json::Text(s)) ==> !chosen.contains(Json::Text(s))),
{
    lemma_covered(listed, chosen);
    lemma_overlap(listed, chosen);
}

/// A further choice leaves a `contains_all` and a `contains_any` condition met, and
/// cannot make a `not_contains` condition met.
pub proof fn law_further_choices_keep_what_is_met(
    rule: Rule,
    chosen: Seq<Json>,
    more: Json,
    numbers: spec_fn(Seq<char>) -> Option<RealView>,
)
    ensures
        rule.operator is ContainsAll || rule.operator is ContainsAny ==> (condition_eval::meets(
            Json::List(chosen),
            rule,
            numbers,
        ) ==> condition_eval::meets(Json::List(chosen.push(more)), rule, numbers)),
        rule.operator is NotContains ==> (condition_eval::meets(
            Json::List(chosen.push(more)),
            rule,
            numbers,
        ) ==> condition_eval::meets(Json::List(chosen), rule, numbers)),
{
    let longer = chosen.push(more);
    assert forall|j: Json| #[trigger] chosen.contains(j) implies longer.contains(j) by {
        assert(longer[chosen.index_of(j)] == j);
    }
    let a = crate::json::texts_among(chosen);
    let b = crate::json::texts_among(longer);
    assert forall|s: Seq<char>| #[trigger] a.contains(s) implies b.contains(s) by {
        lemma_texts_among(chosen, s);
        lemma_texts_among(longer, s);
    }
}

/// A text that is tested as a list of choices is a list of that one choice.
pub proof fn law_one_choice_may_stand_alone(
    s: Seq<char>,
    rule: Rule,
    numbers: spec_fn(Seq<char>) -> Option<RealView>,
)
    requires
        rule.operator is ContainsAll || rule.operator is ContainsAny || rule.operator
            is NotContains,
    ensures
        condition_eval::meets(Json::Text(s), rule, numbers) <==> condition_eval::meets(
            Json::List(seq![Json::Text(s)]),
            rule,
            numbers,
        ),
{
    let items = seq![Json::Text(s)];
    assert(items.drop_last() =~= Seq::empty());
    assert(crate::json::texts_among(items.drop_last()) =~= Seq::empty());
    assert(crate::json::texts_among(items) =~= seq![s]);
}

/// A condition on choices that lists none: `contains_all` and `contains_any` are not
/// met where the value is no list, and `not_contains` is, by every answer.
pub proof fn law_no_list_excludes_nothing(
    actual: Json,
    rule: Rule,
    numbers: spec_fn(Seq<char>) -> Option<RealView>,
)
    requires
        actual !is Null,
        rule.value !is List,
    ensures
        rule.operator is ContainsAll ==> !condition_eval::meets(actual, rule, numbers),
        rule.operator is ContainsAny ==> !condition_eval::meets(actual, rule, numbers),
        rule.operator is NotContains ==> condition_eval::meets(actual, rule, numbers),
        rule.operator is In ==> !condition_eval::meets(actual, rule, numbers),
{
    let none = rule.value.text_items();
    assert(none =~= Seq::empty());
    assert(!none.contains(condition_eval::as_text_or_empty(actual)));
}

/// An answer that is neither a list nor a text chooses nothing, and one that is a list or
/// an object has no text: it equals none, differs from none and contains none, and is
/// one of those listed just where an empty text is.
pub proof fn law_other_answers_choose_and_say_nothing(
    actual: Json,
    rule: Rule,
    listed: Seq<Json>,
    numbers: spec_fn(Seq<char>) -> Option<RealView>,
)
    requires
        rule.value == Json::List(listed) || rule.value is Text,
    ensures
        actual is Bool || actual is Number || actual is Record ==> {
            &&& rule.operator is ContainsAny ==> !condition_eval::meets(actual, rule, numbers)
            &&& rule.operator is NotContains ==> condition_eval::meets(actual, rule, numbers)
            &&& rule.operator is ContainsAll ==> (condition_eval::meets(actual, rule, numbers)
                <==> rule.value is List && forall|i: int|
                0 <= i < listed.len() ==> (#[trigger] listed[i]) !is Text)
        },
        actual is List || actual is Record ==> {
            &&& rule.operator is Eq || rule.operator is Neq || rule.operator is Contains
                ==> !condition_eval::meets(actual, rule, numbers)
            &&& rule.operator is In && rule.value is List ==> (condition_eval::meets(
                actual,
                rule,
                numbers,
            ) <==> listed.contains(Json::Text(Seq::empty())))
        },
{
    let none = Seq::<Seq<char>>::empty();
    if rule.value is List {
        let texts = crate::json::texts_among(listed);
        lemma_texts_among(listed, Seq::empty());
        assert(condition_eval::covered(texts, none) <==> texts.len() == 0) by {
            if texts.len() > 0 && condition_eval::covered(texts, none) {
                assert(none.contains(texts[0]));
            }
        }
        assert(texts.len() == 0 <==> forall|i: int|
            0 <= i < listed.len() ==> (#[trigger] listed[i]) !is Text) by {
            if texts.len() == 0 {
                assert forall|i: int| 0 <= i < listed.len() implies (#[trigger] listed[i])
                    !is Text by {
                    if let Json::Text(s) = listed[i] {
                        lemma_texts_among(listed, s);
                        assert(listed.contains(Json::Text(s)));
                        assert(texts.contains(s));
                    }
                }
            } else {
                lemma_texts_among(listed, texts[0]);
                assert(texts.contains(texts[0]));
                let k = listed.index_of(Json::Text(texts[0]));
                assert(listed[k] is Text);
            }
        }
    }
}

/// Numbers and truth values contain, and are one of, what their texts are.
pub proof fn law_scalars_are_searched_as_texts(
    actual: Json,
    text: Seq<char>,
    rule: Rule,
    numbers: spec_fn(Seq<char>) -> Option<RealView>,
)
    requires
        rule.operator is Contains || rule.operator is In || rule.operator is Neq,
        (actual matches Json::Number(n) && text == n.text()) || (actual == Json::Bool(true) && text
            == "true"@) || (actual == Json::Bool(false) && text == "false"@),
    ensures
        condition_eval::meets(actual, rule, numbers) <==> condition_eval::meets(
            Json::Text(text),
            rule,
            numbers,
        ),
{
}

/// Text answers: equality is that of the texts, inequality its opposite,
/// containment means that the value stands somewhere in the answer, and membership
/// that the answer is one of the listed texts.
pub proof fn law_texts_are_compared_as_they_are(
    answer: Seq<char>,
    value: Seq<char>,
    listed: Seq<Json>,
    target: Target,
    end: Option<Json>,
    numbers: spec_fn(Seq<char>) -> Option<RealView>,
)
    ensures
        condition_eval::meets(
            Json::Text(answer),
            Rule {
                target,
                operator: ConditionOperator::Eq,
                value: Json::Text(value),
                value_end: end,
            },
            numbers,
        ) <==> answer == value,
        condition_eval::meets(
            Json::Text(answer),
            Rule {
                target,
                operator: ConditionOperator::Neq,
                value: Json::Text(value),
                value_end: end,
            },
            numbers,
        ) <==> answer != value,
        condition_eval::meets(
            Json::Text(answer),
            Rule {
                target,
                operator: ConditionOperator::Contains,
                value: Json::Text(value),
                value_end: end,
            },
            numbers,
        ) <==> (exists|before: Seq<char>, after: Seq<char>|
            answer == #[trigger] (before + value + after)),
        condition_eval::meets(
            Json::Text(answer),
            Rule {
                target,
                operator: ConditionOperator::In,
                value: Json::List(listed),
                value_end: end,
            },
            numbers,
        ) <==> listed.contains(Json::Text(answer)),
{
    lemma_texts_among(listed, answer);
    if crate::text::has_text(answer, value) {
        let i = choose|i: int| crate::text::occurs_at(answer, value, i);
        let before = answer.take(i);
        let after = answer.skip(i + value.len());
        assert(answer =~= before + value + after) by {
            assert(answer.subrange(i, i + value.len()) == value);
            assert forall|k: int| 0 <= k < value.len() implies answer[i + k] == value[k] by {
                assert(answer.subrange(i, i + value.len())[k] == answer[i + k]);
            }
        }
    }
    if exists|before: Seq<char>, after: Seq<char>| answer == #[trigger] (before + value + after) {
        let (before, after) = choose|before: Seq<char>, after: Seq<char>|
            answer == #[trigger] (before + value + after);
        let i = before.len() as int;
        assert(answer.subrange(i, i + value.len()) =~= value);
        assert(crate::text::occurs_at(answer, value, i));
    }
}

/// An answer meets a pattern just where the pattern compiles within the limit of a
/// mebibyte and is found in the text of the answer: a number and a truth value have the
/// text that they are written as, and a list and an object an empty one.
pub proof fn law_patterns_are_searched_for(
    actual: Json,
    pattern: Seq<char>,
    id: Seq<char>,
    numbers: spec_fn(Seq<char>) -> Option<RealView>,
)
    ensures
        condition_eval::meets(
            actual,
            asks(ConditionOperator::Regex, id, Json::Text(pattern)),
            numbers,
        ) <==> actual !is Null && crate::outside::regex_valid(pattern, 1_048_576)
            && crate::outside::regex_found(
            pattern,
            1_048_576,
            match actual {
                Json::Text(s) => s,
                Json::Number(n) => n.text(),
                Json::Bool(true) => "true"@,
                Json::Bool(false) => "false"@,
                _ => Seq::empty(),
            },
        ),
{
}

/// Numbers and truth values are compared with texts by how they are written.
pub proof fn law_scalars_are_compared_as_texts(
    n: Numeral,
    b: bool,
    s: Seq<char>,
    id: Seq<char>,
    numbers: spec_fn(Seq<char>) -> Option<RealView>,
)
    ensures
        condition_eval::meets(
            Json::Number(n),
            asks(ConditionOperator::Eq, id, Json::Text(s)),
            numbers,
        ) <==> s == n.text(),
        condition_eval::meets(
            Json::Text(s),
            asks(ConditionOperator::Eq, id, Json::Number(n)),
            numbers,
        ) <==> s == n.text(),
        condition_eval::meets(
            Json::Bool(b),
            asks(ConditionOperator::Eq, id, Json::Text(s)),
            numbers,
        ) <==> s == if b {
            "true"@
        } else {
            "false"@
        },
{
}

/// Inequality is the opposite of equality, for answers and values that have a text;
/// an answer that has none, such as a list, is neither.
pub proof fn law_inequality_is_the_opposite(
    actual: Json,
    value: Json,
    target: Target,
    end: Option<Json>,
    numbers: spec_fn(Seq<char>) -> Option<RealView>,
)
    requires
        actual !is Null,
    ensures
        ({
            let eq = condition_eval::meets(
                actual,
                Rule { target, operator: ConditionOperator::Eq, value, value_end: end },
                numbers,
            );
            let neq = condition_eval::meets(
                actual,
                Rule { target, operator: ConditionOperator::Neq, value, value_end: end },
                numbers,
            );
            let written = |j: Json| j is Text || j is Number || j is Bool;
            if written(actual) && written(value) {
                neq == !eq
            } else {
                !neq && !eq
            }
        }),
{
}

/// The condition of a numeric operator.
pub open spec fn compares(operator: ConditionOperator, value: Json, end: Option<Json>) -> Rule {
    Rule { target: Target::QuizTotalScore, operator, value, value_end: end }
}

/// Numbers are compared by their values, and the ends of a range belong to it.
pub proof fn law_numbers_are_compared_by_value(
    a: Numeral,
    v: Numeral,
    e: Numeral,
    numbers: spec_fn(Seq<char>) -> Option<RealView>,
)
    requires
        a.double().is_finite(),
        v.double().is_finite(),
        e.double().is_finite(),
    ensures
        ({
            let (x, y, z) = (a.double().units(), v.double().units(), e.double().units());
            let end = Some(Json::Number(e));
            let answer = Json::Number(a);
            let value = Json::Number(v);
            let met = |operator: ConditionOperator|
                condition_eval::meets(answer, compares(operator, value, end), numbers);
            &&& met(ConditionOperator::Gt) <==> x > y
            &&& met(ConditionOperator::Gte) <==> x >= y
            &&& met(ConditionOperator::Lt) <==> x < y
            &&& met(ConditionOperator::Lte) <==> x <= y
            &&& met(ConditionOperator::Between) <==> y <= x <= z
            &&& condition_eval::meets(
                answer,
                compares(ConditionOperator::Between, value, None),
                numbers,
            ) <==> x == y
        }),
{
    crate::double::law_rank_is_the_order(a.double(), v.double());
    crate::double::law_rank_is_the_order(v.double(), a.double());
    crate::double::law_rank_is_the_order(a.double(), e.double());
}

/// A text that denotes a number is compared as that number, and one that denotes
/// none meets no comparison; nor does a truth value, a list or an object.
pub proof fn law_texts_are_compared_as_the_numbers_they_denote(
    s: Seq<char>,
    json: Seq<char>,
    other: Json,
    rule: Rule,
    numbers: spec_fn(Seq<char>) -> Option<RealView>,
)
    requires
        rule.operator is Gt || rule.operator is Gte || rule.operator is Lt || rule.operator is Lte
            || rule.operator is Between,
        other is Bool || other is List || other is Record,
    ensures
        numbers(s) matches Some(x) ==> (condition_eval::meets(Json::Text(s), rule, numbers)
            <==> condition_eval::meets(
            Json::Number(Numeral::Float { number: x, json }),
            rule,
            numbers,
        )),
        numbers(s) is None ==> !condition_eval::meets(Json::Text(s), rule, numbers),
        !condition_eval::meets(other, rule, numbers),
{
}

/// A condition whose value is a text compares with the number that it denotes.
pub proof fn law_values_are_the_numbers_they_denote(
    actual: Json,
    s: Seq<char>,
    x: RealView,
    json: Seq<char>,
    rule: Rule,
    numbers: spec_fn(Seq<char>) -> Option<RealView>,
)
    requires
        rule.operator is Gt || rule.operator is Gte || rule.operator is Lt || rule.operator is Lte
            || rule.operator is Between,
        numbers(s) == Some(x),
    ensures
        ({
            let number = Json::Number(Numeral::Float { number: x, json });
            &&& rule.value == Json::Text(s) ==> (condition_eval::meets(actual, rule, numbers)
                <==> condition_eval::meets(actual, Rule { value: number, ..rule }, numbers))
            &&& rule.value_end == Some(Json::Text(s)) ==> (condition_eval::meets(
                actual,
                rule,
                numbers,
            ) <==> condition_eval::meets(
                actual,
                Rule { value_end: Some(number), ..rule },
                numbers,
            ))
        }),
{
}

/// The score of a quiz is compared with whole thresholds as an integer.
pub proof fn law_scores_are_compared_as_integers(
    score: i64,
    threshold: i64,
    end: i64,
    data: Response,
)
    requires
        data.total_score == Some(score),
        -0x20_0000_0000_0000 < score < 0x20_0000_0000_0000,
        -0x20_0000_0000_0000 < threshold < 0x20_0000_0000_0000,
        -0x20_0000_0000_0000 < end < 0x20_0000_0000_0000,
    ensures
        ({
            let value = Json::Number(Numeral::of_int(threshold));
            let to = Some(Json::Number(Numeral::of_int(end)));
            let met = |operator: ConditionOperator|
                condition_eval::holds(compares(operator, value, to), data);
            &&& met(ConditionOperator::Gt) <==> score > threshold
            &&& met(ConditionOperator::Gte) <==> score >= threshold
            &&& met(ConditionOperator::Lt) <==> score < threshold
            &&& met(ConditionOperator::Lte) <==> score <= threshold
            &&& met(ConditionOperator::Between) <==> threshold <= score <= end
            &&& met(ConditionOperator::Eq) <==> score == threshold
            &&& met(ConditionOperator::Neq) <==> score != threshold
        }),
{
    let (a, v, e) = (Numeral::of_int(score), Numeral::of_int(threshold), Numeral::of_int(end));
    crate::double::law_small_integers_are_exact(score as int);
    crate::double::law_small_integers_are_exact(threshold as int);
    crate::double::law_small_integers_are_exact(end as int);
    law_numbers_are_compared_by_value(a, v, e, data.numbers);
    let unit = pow2(1074) as int;
    vstd::arithmetic::power2::lemma_pow2_pos(1074);
    assert forall|x: int, y: int|
        #![trigger x * unit, y * unit]
        (x * unit < y * unit) == (x < y) by {
        assert((x * unit < y * unit) == (x < y)) by (nonlinear_arith)
            requires
                unit > 0,
        ;
    }
    crate::numerals::law_numeral_reads_back(score);
    crate::numerals::law_numeral_reads_back(threshold);
}

/// The two infinite numbers are past all others, each at its end.
pub proof fn law_infinite_numbers_are_past_all_others(
    a: Numeral,
    v: Numeral,
    numbers: spec_fn(Seq<char>) -> Option<RealView>,
)
    requires
        a.double().is_finite(),
        v.double().bits == 0x7ff0_0000_0000_0000 || v.double().bits == 0xfff0_0000_0000_0000,
    ensures
        ({
            let over = v.double().bits == 0x7ff0_0000_0000_0000;
            let met = |x: Numeral, operator: ConditionOperator, y: Numeral|
                condition_eval::meets(
                    Json::Number(x),
                    compares(operator, Json::Number(y), None),
                    numbers,
                );
            &&& met(a, ConditionOperator::Gt, v) <==> !over
            &&& met(a, ConditionOperator::Gte, v) <==> !over
            &&& met(a, ConditionOperator::Lt, v) <==> over
            &&& met(a, ConditionOperator::Lte, v) <==> over
            &&& met(v, ConditionOperator::Gt, a) <==> over
            &&& met(v, ConditionOperator::Gte, a) <==> over
            &&& met(v, ConditionOperator::Lt, a) <==> !over
            &&& met(v, ConditionOperator::Lte, a) <==> !over
            &&& met(v, ConditionOperator::Gte, v) && met(v, ConditionOperator::Lte, v)
            &&& !met(v, ConditionOperator::Gt, v) && !met(v, ConditionOperator::Lt, v)
        }),
{
}

/// What is no number meets no comparison.
pub proof fn law_what_is_no_number_is_not_compared(
    a: Numeral,
    v: Numeral,
    rule: Rule,
    numbers: spec_fn(Seq<char>) -> Option<RealView>,
)
    requires
        rule.operator is Gt || rule.operator is Gte || rule.operator is Lt || rule.operator is Lte
            || rule.operator is Between,
        rule.value == Json::Number(v),
        a.double().is_nan() || v.double().is_nan(),
    ensures
        !condition_eval::meets(Json::Number(a), rule, numbers),
{
}

/// Whether the text `s` denotes the instant of the seconds and nanoseconds `at`: as
/// an RFC 3339 time, or else as a date, by the start of its day in UTC.
pub open spec fn is_instant_of(s: Seq<char>, at: (int, int)) -> bool {
    match crate::outside::rfc3339_instant(s) {
        Some(t) => at.0 == t.0 && at.1 == t.1,
        None => crate::outside::day_number(s, "%Y-%m-%d"@) matches Some(day) && at.0 == (day
            - 719_163) * 86_400 && at.1 == 0,
    }
}

/// Times and dates are compared by the instants that they denote; a text that
/// denotes none meets no such condition, nor does what is no text.
pub proof fn law_dates_are_compared_as_instants(
    a: Seq<char>,
    v: Seq<char>,
    at: (int, int),
    limit: (int, int),
    actual: Json,
    id: Seq<char>,
    numbers: spec_fn(Seq<char>) -> Option<RealView>,
)
    ensures
        ({
            let before = asks(ConditionOperator::Before, id, Json::Text(v));
            let after = asks(ConditionOperator::After, id, Json::Text(v));
            let sooner = at.0 < limit.0 || at.0 == limit.0 && at.1 < limit.1;
            let later = limit.0 < at.0 || limit.0 == at.0 && limit.1 < at.1;
            let denotes_none = crate::outside::rfc3339_instant(a) is None
                && crate::outside::day_number(a, "%Y-%m-%d"@) is None;
            &&& is_instant_of(a, at) && is_instant_of(v, limit) ==> {
                &&& condition_eval::meets(Json::Text(a), before, numbers) <==> sooner
                &&& condition_eval::meets(Json::Text(a), after, numbers) <==> later
            }
            &&& denotes_none ==> {
                &&& !condition_eval::meets(Json::Text(a), before, numbers)
                &&& !condition_eval::meets(Json::Text(a), after, numbers)
            }
            &&& actual !is Text ==> {
                &&& !condition_eval::meets(actual, before, numbers)
                &&& !condition_eval::meets(actual, after, numbers)
            }
        }),
{
}

/// A condition on a question looks at the answer to that question, and one on the
/// score at the score.
pub proof fn law_conditions_look_at_their_target(rule: Rule, data: Response)
    ensures
        rule.target matches Target::Question(id) ==> (data.answers.field(id) matches Some(v) ==> (
        condition_eval::holds(rule, data) <==> condition_eval::meets(v, rule, data.numbers))),
        rule.target is QuizTotalScore ==> (data.total_score matches Some(n) ==> (
        condition_eval::holds(rule, data) <==> condition_eval::meets(
            Json::Number(Numeral::of_int(n)),
            rule,
            data.numbers,
        ))),
        rule.target matches Target::Question(id) ==> (data.answers.field(id) is None ==> (
        condition_eval::holds(rule, data) <==> rule.operator is Neq && (rule.value matches Json::Text(s)
            && s.len() > 0))),
        rule.target is QuizTotalScore ==> (data.total_score is None ==> (condition_eval::holds(
            rule,
            data,
        ) <==> rule.operator is Neq && (rule.value matches Json::Text(s) && s.len() > 0))),
{
}

/// One condition alone grants the role just where it holds, and a further condition
/// takes the role from those who do not meet it.
pub proof fn law_each_condition_has_to_hold(rules: Seq<Rule>, rule: Rule, data: Response)
    ensures
        condition_eval::granted(false, seq![rule], data) <==> condition_eval::holds(rule, data),
        rules.len() > 0 ==> (condition_eval::granted(false, rules.push(rule), data) <==> (
        condition_eval::granted(false, rules, data) && condition_eval::holds(rule, data))),
        condition_eval::granted(true, rules, data),
        !condition_eval::granted(false, Seq::empty(), data),
{
    assert(seq![rule][0] == rule);
    let more = rules.push(rule);
    assert(more[rules.len() as int] == rule);
    if condition_eval::granted(false, more, data) {
        assert forall|i: int| 0 <= i < rules.len() implies condition_eval::holds(
            #[trigger] rules[i],
            data,
        ) by {
            assert(more[i] == rules[i]);
        }
    }
}

} // verus!
