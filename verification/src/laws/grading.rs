//! What grading is for: which answers earn the points of their question.

use vstd::prelude::*;

use crate::json::{Json, RealView};
use crate::models::form::Question;
use crate::services::form_validator;

verus! {

/// Whether `s` is one of the texts that an answer key gives: a text, a number or a
/// truth value alone, or the texts and numbers of a list.
pub open spec fn gives(correct: Json, s: Seq<char>) -> bool {
    match correct {
        Json::Text(t) => s == t,
        Json::Number(n) => s == n.text(),
        Json::Bool(b) => s == if b {
            "true"@
        } else {
            "false"@
        },
        Json::List(a) => exists|i: int|
            0 <= i < a.len() && match #[trigger] a[i] {
                Json::Text(t) => s == t,
                Json::Number(n) => s == n.text(),
                _ => false,
            },
        _ => false,
    }
}

proof fn lemma_filled(texts: Seq<Seq<char>>, s: Seq<char>)
    ensures
        form_validator::filled(texts).contains(s) <==> texts.contains(s) && crate::text::trimmed(
            s,
        ).len() > 0,
    decreases texts.len(),
{
    let out = form_validator::filled(texts);
    if texts.len() > 0 {
        let before = texts.drop_last();
        let sooner = form_validator::filled(before);
        lemma_filled(before, s);
        assert(texts[texts.len() - 1] == texts.last());
        if before.contains(s) {
            assert(texts[before.index_of(s)] == s);
        }
        if texts.contains(s) && texts.last() != s {
            let i = texts.index_of(s);
            assert(before[i] == s);
        }
        if sooner.contains(s) {
            assert(out[sooner.index_of(s)] == s);
        }
        if out.len() > sooner.len() {
            assert(out[out.len() - 1] == texts.last());
        }
        if out.contains(s) {
            let j = out.index_of(s);
            if j < sooner.len() {
                assert(sooner[j] == s);
            }
        }
    }
}

proof fn lemma_keys_among(items: Seq<Json>, s: Seq<char>)
    ensures
        form_validator::keys_among(items).contains(s) <==> gives(Json::List(items), s),
    decreases items.len(),
{
    let out = form_validator::keys_among(items);
    if items.len() > 0 {
        let before = items.drop_last();
        let sooner = form_validator::keys_among(before);
        lemma_keys_among(before, s);
        let n = items.len() - 1;
        assert(items[n] == items.last());
        assert forall|i: int| 0 <= i < n implies #[trigger] items[i] == before[i] by {}
        assert forall|i: int| 0 <= i < n implies #[trigger] before[i] == items[i] by {}
        if sooner.contains(s) {
            assert(out[sooner.index_of(s)] == s);
        }
        if out.len() > sooner.len() {
            assert(out[out.len() - 1] == match items.last() {
                Json::Text(t) => t,
                _ => items.last()->Number_0.text(),
            });
        }
        if out.contains(s) {
            let j = out.index_of(s);
            if j < sooner.len() {
                assert(sooner[j] == s);
            }
        }
    }
}

/// The texts that a key accepts are those that it gives, but for blank ones.
pub proof fn law_keys_accept_what_they_give(correct: Json, s: Seq<char>)
    ensures
        form_validator::accepted(correct).contains(s) <==> gives(correct, s)
            && crate::text::trimmed(s).len() > 0,
{
    match correct {
        Json::Text(t) => {
            assert(seq![t].contains(s) <==> s == t) by {
                assert(seq![t][0] == t);
            }
            lemma_filled(seq![t], s);
        },
        Json::Number(n) => {
            assert(seq![n.text()].contains(s) <==> s == n.text()) by {
                assert(seq![n.text()][0] == n.text());
            }
            lemma_filled(seq![n.text()], s);
        },
        Json::Bool(b) => {
            let t = if b {
                "true"@
            } else {
                "false"@
            };
            assert(seq![t].contains(s) <==> s == t) by {
                assert(seq![t][0] == t);
            }
            lemma_filled(seq![t], s);
        },
        Json::List(a) => {
            lemma_keys_among(a, s);
            lemma_filled(form_validator::keys_among(a), s);
        },
        _ => {
            lemma_filled(Seq::empty(), s);
        },
    }
}

/// A question is graded just where it awards points and its key gives a text that is
/// not blank.
pub proof fn law_questions_are_graded_by_points_and_key(q: Question)
    ensures
        form_validator::graded(q) <==> (q.points matches Some(p) && p > 0) && (q.correct
            matches Some(c) && exists|s: Seq<char>| #[trigger]
            gives(c@, s) && crate::text::trimmed(s).len() > 0),
{
    if let Some(c) = q.correct {
        let keys = form_validator::accepted(c@);
        if keys.len() > 0 {
            let s = keys[0];
            assert(keys.contains(s));
            law_keys_accept_what_they_give(c@, s);
            assert(gives(c@, s));
        }
        if exists|s: Seq<char>| #[trigger] gives(c@, s) && crate::text::trimmed(s).len() > 0 {
            let s = choose|s: Seq<char>| #[trigger]
                gives(c@, s) && crate::text::trimmed(s).len() > 0;
            law_keys_accept_what_they_give(c@, s);
            assert(keys.contains(s));
        }
    }
}

/// What a question earns is all of its points or nothing.
pub proof fn law_points_are_earned_in_full(
    q: Question,
    verified: Map<Seq<char>, Json>,
    numbers: spec_fn(Seq<char>) -> Option<RealView>,
)
    ensures
        form_validator::earned(q, verified, numbers) == 0 || (q.points matches Some(p) && p > 0
            && form_validator::earned(q, verified, numbers) == p),
        form_validator::earned(q, verified, numbers) > 0 ==> q.correct is Some
            && verified.contains_key(q.id@),
{
}

/// Text and email answers earn the points just where the trimmed answer, in lower case,
/// is that of a key, and is not empty.
pub proof fn law_texts_are_graded_in_lower_case(
    q: Question,
    a: Seq<char>,
    verified: Map<Seq<char>, Json>,
    numbers: spec_fn(Seq<char>) -> Option<RealView>,
)
    requires
        q.kind is ShortText || q.kind is LongText || q.kind is Email,
        q.points matches Some(p) && p > 0,
        q.correct is Some,
        verified.contains_key(q.id@),
        verified[q.id@] == Json::Text(a),
    ensures
        form_validator::earned(q, verified, numbers) > 0 <==> {
            let got = crate::outside::lowercase(crate::text::trimmed(a));
            &&& got.len() > 0
            &&& exists|s: Seq<char>| #[trigger]
                gives(q.correct->0@, s) && crate::text::trimmed(s).len() > 0
                    && crate::outside::lowercase(crate::text::trimmed(s)) == got
        },
{
    let c = q.correct->0@;
    let keys = form_validator::accepted(c);
    let got = crate::outside::lowercase(crate::text::trimmed(a));
    if form_validator::text_accepted(keys, got) {
        let i = choose|i: int|
            0 <= i < keys.len() && crate::outside::lowercase(
                crate::text::trimmed(#[trigger] keys[i]),
            ) == got;
        let s = keys[i];
        assert(keys.contains(s));
        law_keys_accept_what_they_give(c, s);
        assert(gives(c, s));
    }
    if exists|s: Seq<char>| #[trigger]
        gives(c, s) && crate::text::trimmed(s).len() > 0 && crate::outside::lowercase(
            crate::text::trimmed(s),
        ) == got {
        let s = choose|s: Seq<char>| #[trigger]
            gives(c, s) && crate::text::trimmed(s).len() > 0 && crate::outside::lowercase(
                crate::text::trimmed(s),
            ) == got;
        law_keys_accept_what_they_give(c, s);
        assert(keys[keys.index_of(s)] == s);
    }
}

/// Single choices, dropdowns, dates and agreements earn the points just where the
/// trimmed answer is a key, trimmed, and is not empty.
pub proof fn law_choices_are_graded_exactly(
    q: Question,
    a: Seq<char>,
    verified: Map<Seq<char>, Json>,
    numbers: spec_fn(Seq<char>) -> Option<RealView>,
)
    requires
        q.kind is SingleChoice || q.kind is Dropdown || q.kind is Date || q.kind is Agreement,
        q.points matches Some(p) && p > 0,
        q.correct is Some,
        verified.contains_key(q.id@),
        verified[q.id@] == Json::Text(a),
    ensures
        form_validator::earned(q, verified, numbers) > 0 <==> {
            &&& crate::text::trimmed(a).len() > 0
            &&& exists|s: Seq<char>| #[trigger]
                gives(q.correct->0@, s) && crate::text::trimmed(s) == crate::text::trimmed(a)
        },
{
    let c = q.correct->0@;
    let keys = form_validator::accepted(c);
    let got = crate::text::trimmed(a);
    if form_validator::exactly_accepted(keys, got) {
        let i = choose|i: int|
            0 <= i < keys.len() && crate::text::trimmed(#[trigger] keys[i]) == got;
        let s = keys[i];
        assert(keys.contains(s));
        law_keys_accept_what_they_give(c, s);
        assert(gives(c, s));
    }
    if got.len() > 0 && exists|s: Seq<char>| #[trigger]
        gives(c, s) && crate::text::trimmed(s) == got {
        let s = choose|s: Seq<char>| #[trigger] gives(c, s) && crate::text::trimmed(s) == got;
        law_keys_accept_what_they_give(c, s);
        assert(keys[keys.index_of(s)] == s);
    }
}

/// Checkboxes earn the points just where the chosen set is the marked set, and that is
/// not empty: no partial credit.
pub proof fn law_checkboxes_are_graded_as_sets(
    q: Question,
    chosen: Seq<Json>,
    verified: Map<Seq<char>, Json>,
    numbers: spec_fn(Seq<char>) -> Option<RealView>,
)
    requires
        q.kind is MultiChoice,
        q.points matches Some(p) && p > 0,
        q.correct is Some,
        verified.contains_key(q.id@),
        verified[q.id@] == Json::List(chosen),
    ensures
        form_validator::earned(q, verified, numbers) > 0 <==> {
            &&& exists|s: Seq<char>| #[trigger]
                gives(q.correct->0@, s) && crate::text::trimmed(s).len() > 0
            &&& forall|s: Seq<char>|
                (#[trigger] gives(q.correct->0@, s) && crate::text::trimmed(s).len() > 0)
                    <==> chosen.contains(Json::Text(s))
        },
{
    let c = q.correct->0@;
    let keys = form_validator::accepted(c);
    let got = crate::json::texts_among(chosen);
    assert forall|s: Seq<char>| (#[trigger] gives(c, s) && crate::text::trimmed(s).len() > 0)
        == keys.contains(s) by {
        law_keys_accept_what_they_give(c, s);
    }
    assert forall|s: Seq<char>| #[trigger] chosen.contains(Json::Text(s)) == got.contains(s) by {
        crate::laws::conditions::lemma_texts_among(chosen, s);
    }
    let there = crate::services::condition_eval::covered(keys, got);
    let back = crate::services::condition_eval::covered(got, keys);
    if keys.len() > 0 && there && back {
        assert(keys.contains(keys[0]));
        assert(gives(c, keys[0]));
        assert forall|s: Seq<char>| (#[trigger] gives(c, s) && crate::text::trimmed(s).len() > 0)
            <==> chosen.contains(Json::Text(s)) by {
            if keys.contains(s) {
                assert(got.contains(keys[keys.index_of(s)]));
            }
            if got.contains(s) {
                assert(keys.contains(got[got.index_of(s)]));
            }
        }
    }
    if (exists|s: Seq<char>| #[trigger] gives(c, s) && crate::text::trimmed(s).len() > 0) && (
    forall|s: Seq<char>|
        (#[trigger] gives(c, s) && crate::text::trimmed(s).len() > 0) <==> chosen.contains(
            Json::Text(s),
        )) {
        let s0 = choose|s: Seq<char>| #[trigger] gives(c, s) && crate::text::trimmed(s).len() > 0;
        assert(keys.contains(s0));
        assert forall|i: int| 0 <= i < keys.len() implies got.contains(#[trigger] keys[i]) by {
            assert(keys.contains(keys[i]));
            assert(gives(c, keys[i]));
            assert(chosen.contains(Json::Text(keys[i])));
        }
        assert forall|i: int| 0 <= i < got.len() implies keys.contains(#[trigger] got[i]) by {
            assert(got.contains(got[i]));
            assert(chosen.contains(Json::Text(got[i])));
            assert(gives(c, got[i]));
        }
    }
}

/// The numbers that an answer key gives: a number, or the one that a text denotes once
/// it is trimmed, alone or in a list.
pub open spec fn gives_number(
    correct: Json,
    key: Json,
    d: crate::double::Double,
    numbers: spec_fn(Seq<char>) -> Option<RealView>,
) -> bool {
    &&& correct == key && key !is List || (correct matches Json::List(a) && a.contains(key))
    &&& match key {
        Json::Number(n) => d == n.double(),
        Json::Text(s) => crate::text::trimmed(s).len() > 0 && (numbers(
            crate::text::trimmed(s),
        ) matches Some(x) && d == x.value),
        _ => false,
    }
}

/// Numbers earn the points of a graded question just where the answer denotes a finite
/// number and the key gives one that is less than a billionth away from it.
pub proof fn law_numbers_are_graded_by_nearness(
    q: Question,
    a: Seq<char>,
    verified: Map<Seq<char>, Json>,
    numbers: spec_fn(Seq<char>) -> Option<RealView>,
)
    requires
        q.kind is Number || q.kind is Scale,
        form_validator::graded(q),
        verified.contains_key(q.id@),
        verified[q.id@] == Json::Text(a),
    ensures
        form_validator::earned(q, verified, numbers) > 0 <==> (numbers(
            crate::text::trimmed(a),
        ) matches Some(x) && exists|key: Json, d: crate::double::Double| #[trigger]
            gives_number(q.correct->0@, key, d, numbers) && d.is_near(x.value)),
{
    let c = q.correct->0@;
    if let Some(x) = numbers(crate::text::trimmed(a)) {
        if form_validator::number_accepted(c, x.value, numbers) {
            let key = match c {
                Json::List(items) => items[choose|i: int|
                    0 <= i < items.len() && form_validator::is_near_key(
                        #[trigger] items[i],
                        x.value,
                        numbers,
                    )],
                _ => c,
            };
            let d = form_validator::key_number(key, numbers)->0;
            assert(gives_number(c, key, d, numbers));
        }
        if exists|key: Json, d: crate::double::Double| #[trigger]
            gives_number(c, key, d, numbers) && d.is_near(x.value) {
            let (key, d) = choose|key: Json, d: crate::double::Double| #[trigger]
                gives_number(c, key, d, numbers) && d.is_near(x.value);
            assert(form_validator::is_near_key(key, x.value, numbers));
            if let Json::List(items) = c {
                assert(items[items.index_of(key)] == key);
            }
        }
    }
}

/// The score is the sum of what the questions earn, up to the largest `i32`.
pub proof fn law_scores_add_up(
    questions: Seq<Question>,
    q: Question,
    verified: Map<Seq<char>, Json>,
    numbers: spec_fn(Seq<char>) -> Option<RealView>,
)
    ensures
        form_validator::quiz_score(Seq::empty(), verified, numbers) == 0,
        form_validator::total_earned(questions.push(q), verified, numbers)
            == form_validator::total_earned(questions, verified, numbers) + form_validator::earned(
            q,
            verified,
            numbers,
        ),
        form_validator::total_earned(questions, verified, numbers) <= 0x7fff_ffff
            ==> form_validator::quiz_score(questions, verified, numbers)
            == form_validator::total_earned(questions, verified, numbers),
        form_validator::total_earned(questions, verified, numbers) > 0x7fff_ffff
            ==> form_validator::quiz_score(questions, verified, numbers) == 0x7fff_ffff,
{
    assert(questions.push(q).drop_last() =~= questions);
}

} // verus!
