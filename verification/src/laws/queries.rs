//! What the SQL of conditions is for: it selects the rows whose response meets them.

use vstd::arithmetic::power2::pow2;
use vstd::prelude::*;

use crate::json::{Json, Numeral};
use crate::models::condition::{ConditionOperator, Rule, Target};
use crate::services::condition_eval;
use crate::services::condition_eval::{Bind, Response};

verus! {

/// What a test of a row looks at: the answer to the question whose id is bound to
/// the placeholder, or the score.
pub enum Subject {
    Answer(nat),
    Score,
}

/// How two numbers are compared.
pub enum Sign {
    Above,
    AtLeast,
    Below,
    AtMost,
}

/// A SQL test of a row, by the numbers of its placeholders.
pub enum RowTest {
    Equals { of: Subject, value: nat },
    Differs { of: Subject, value: nat },
    Like { of: Subject, pattern: nat },
    OneOf { of: Subject, first: nat, count: nat },
    HasAll { key: nat, first: nat, count: nat },
    HasAny { key: nat, first: nat, count: nat },
    HasNone { key: nat, first: nat, count: nat },
    Compares { of: Subject, sign: Sign, value: nat },
    Within { of: Subject, from: nat, to: nat },
}

/// What is bound to the placeholder number `n`, where it is a text.
pub open spec fn bound_text(params: Seq<Bind>, n: nat) -> Seq<char> {
    match params[n - 1] {
        Bind::Text(s) => s,
        Bind::Int(_) => Seq::empty(),
    }
}

/// What is bound to the placeholder number `n`, where it is an integer.
pub open spec fn bound_int(params: Seq<Bind>, n: nat) -> int {
    match params[n - 1] {
        Bind::Text(_) => 0,
        Bind::Int(i) => i as int,
    }
}

/// An integer in the units by which numbers count.
pub open spec fn in_units(i: int) -> int {
    i * pow2(1074)
}

impl Subject {
    /// The subject as a SQL text.
    pub open spec fn as_text(self) -> Seq<char> {
        match self {
            Subject::Answer(key) => "(fr.answers ->> $"@ + crate::numerals::nat_text(key) + ")"@,
            Subject::Score => "fr.total_score::text"@,
        }
    }

    /// The subject as a SQL number.
    pub open spec fn as_number(self) -> Seq<char> {
        match self {
            Subject::Answer(key) => "NULLIF(fr.answers ->> $"@ + crate::numerals::nat_text(key)
                + ", '')::numeric"@,
            Subject::Score => "fr.total_score::numeric"@,
        }
    }

    /// The text of the subject in a row; nothing where it is NULL.
    pub open spec fn text(self, params: Seq<Bind>, data: Response) -> Option<Seq<char>> {
        match self {
            Subject::Answer(key) => match data.answers.field(bound_text(params, key)) {
                Some(Json::Text(s)) => Some(s),
                _ => None,
            },
            Subject::Score => match data.total_score {
                Some(n) => Some(crate::numerals::int_text(n as int)),
                None => None,
            },
        }
    }

    /// The number of the subject in a row, in units; nothing where it is NULL.
    pub open spec fn number(self, params: Seq<Bind>, data: Response) -> Option<int> {
        match self {
            Subject::Answer(key) => match data.answers.field(bound_text(params, key)) {
                Some(Json::Text(s)) => match (data.numbers)(s) {
                    Some(x) => Some(x.value.units()),
                    None => None,
                },
                _ => None,
            },
            Subject::Score => match data.total_score {
                Some(n) => Some(in_units(n as int)),
                None => None,
            },
        }
    }
}

impl Sign {
    pub open spec fn sql(self) -> Seq<char> {
        match self {
            Sign::Above => ">"@,
            Sign::AtLeast => ">="@,
            Sign::Below => "<"@,
            Sign::AtMost => "<="@,
        }
    }

    pub open spec fn holds(self, a: int, b: int) -> bool {
        match self {
            Sign::Above => a > b,
            Sign::AtLeast => a >= b,
            Sign::Below => a < b,
            Sign::AtMost => a <= b,
        }
    }
}

/// Whether the answer to a question holds the choice `s`.
pub open spec fn chose(data: Response, id: Seq<char>, s: Seq<char>) -> bool {
    data.answers.field(id) matches Some(Json::List(a)) && a.contains(Json::Text(s))
}

/// The SQL array of the choices in the answer to a question.
pub open spec fn choices(key: nat) -> Seq<char> {
    "ARRAY(SELECT jsonb_array_elements_text(COALESCE(fr.answers -> $"@ + crate::numerals::nat_text(
        key,
    ) + ", '[]'::jsonb)))"@
}

/// The SQL array of the bound texts from the placeholder `first` on.
pub open spec fn array_of(first: nat, count: nat) -> Seq<char> {
    "ARRAY["@ + condition_eval::placeholders(first, count) + "]::text[]"@
}

impl RowTest {
    /// How the test is written.
    pub open spec fn sql(self) -> Seq<char> {
        let number = |n: nat| crate::numerals::nat_text(n);
        match self {
            RowTest::Equals { of, value } => of.as_text() + " = $"@ + number(value),
            RowTest::Differs { of, value } => "("@ + of.as_text() + " IS DISTINCT FROM $"@ + number(
                value,
            ) + ")"@,
            RowTest::Like { of, pattern } => of.as_text() + " LIKE $"@ + number(pattern),
            RowTest::OneOf { of, first, count } => of.as_text() + " IN ("@
                + condition_eval::placeholders(first, count) + ")"@,
            RowTest::HasAll { key, first, count } => choices(key) + " @> "@ + array_of(
                first,
                count,
            ),
            RowTest::HasAny { key, first, count } => choices(key) + " && "@ + array_of(
                first,
                count,
            ),
            RowTest::HasNone { key, first, count } => "NOT ("@ + choices(key) + " && "@ + array_of(
                first,
                count,
            ) + ")"@,
            RowTest::Compares { of, sign, value } => "("@ + of.as_number() + ") "@ + sign.sql()
                + " $"@ + number(value),
            RowTest::Within { of, from, to } => "("@ + of.as_number() + ") >= $"@ + number(from)
                + " AND ("@ + of.as_number() + ") <= $"@ + number(to),
        }
    }

    /// Whether the test is true of the row of a response, under the parameters. A
    /// comparison with NULL is not, but for `IS DISTINCT FROM`; `@>` means that the
    /// first array holds all of the second, and `&&` that they share something.
    pub open spec fn is_true(self, params: Seq<Bind>, data: Response) -> bool {
        match self {
            RowTest::Equals { of, value } => of.text(params, data) == Some(
                bound_text(params, value),
            ),
            RowTest::Differs { of, value } => of.text(params, data) != Some(
                bound_text(params, value),
            ),
            RowTest::Like { of, pattern } => match of.text(params, data) {
                Some(a) => condition_eval::like(a, bound_text(params, pattern)),
                None => false,
            },
            RowTest::OneOf { of, first, count } => match of.text(params, data) {
                Some(a) => exists|i: nat| i < count && a == #[trigger] bound_text(params, first + i),
                None => false,
            },
            RowTest::HasAll { key, first, count } => forall|i: nat|
                i < count ==> chose(
                    data,
                    bound_text(params, key),
                    #[trigger] bound_text(params, first + i),
                ),
            RowTest::HasAny { key, first, count } => exists|i: nat|
                i < count && chose(
                    data,
                    bound_text(params, key),
                    #[trigger] bound_text(params, first + i),
                ),
            RowTest::HasNone { key, first, count } => forall|i: nat|
                i < count ==> !chose(
                    data,
                    bound_text(params, key),
                    #[trigger] bound_text(params, first + i),
                ),
            RowTest::Compares { of, sign, value } => match of.number(params, data) {
                Some(a) => sign.holds(a, in_units(bound_int(params, value))),
                None => false,
            },
            RowTest::Within { of, from, to } => match of.number(params, data) {
                Some(a) => in_units(bound_int(params, from)) <= a <= in_units(
                    bound_int(params, to),
                ),
                None => false,
            },
        }
    }
}

/// The test that a condition is for, where its placeholders start after `base`.
pub open spec fn row_test(rule: Rule, base: nat) -> RowTest {
    let (of, next) = match rule.target {
        Target::Question(_) => (Subject::Answer(base + 1), base + 2),
        Target::QuizTotalScore => (Subject::Score, base + 1),
    };
    let count = rule.value.text_items().len();
    match rule.operator {
        ConditionOperator::Eq => RowTest::Equals { of, value: next },
        ConditionOperator::Neq => RowTest::Differs { of, value: next },
        ConditionOperator::Contains => RowTest::Like { of, pattern: next },
        ConditionOperator::In => RowTest::OneOf { of, first: next, count },
        ConditionOperator::ContainsAll => RowTest::HasAll { key: next, first: next + 1, count },
        ConditionOperator::ContainsAny => RowTest::HasAny { key: next, first: next + 1, count },
        ConditionOperator::NotContains => RowTest::HasNone { key: next, first: next + 1, count },
        ConditionOperator::Gt => RowTest::Compares { of, sign: Sign::Above, value: next },
        ConditionOperator::Gte => RowTest::Compares { of, sign: Sign::AtLeast, value: next },
        ConditionOperator::Lt => RowTest::Compares { of, sign: Sign::Below, value: next },
        ConditionOperator::Lte => RowTest::Compares { of, sign: Sign::AtMost, value: next },
        _ => RowTest::Within { of, from: next, to: next + 1 },
    }
}

/// The tests that conditions are for, where their placeholders start after `offset`.
pub open spec fn row_tests(rules: Seq<Rule>, offset: nat) -> Seq<RowTest>
    decreases rules.len(),
{
    if rules.len() == 0 {
        Seq::empty()
    } else {
        row_tests(rules.drop_last(), offset).push(
            row_test(rules.last(), offset + condition_eval::all_binds(rules.drop_last()).len()),
        )
    }
}

/// Whether `j` is a whole number that is kept as it is.
pub open spec fn is_small_integer(j: Json) -> bool {
    j matches Json::Number(n) && (n.integer() matches Some(i) && -0x20_0000_0000_0000 < i
        < 0x20_0000_0000_0000)
}

/// Whether a condition has a value of the kind that its operator is for, and the
/// response, where it has an answer, one of the kind.
pub open spec fn fits(rule: Rule, data: Response) -> bool {
    match rule.operator {
        ConditionOperator::Eq | ConditionOperator::Neq | ConditionOperator::Contains => {
            &&& rule.value matches Json::Text(s)
            &&& s.len() > 0
            &&& rule.target matches Target::Question(id) ==> (data.answers.field(id) matches Some(v)
                ==> v is Text)
        },
        ConditionOperator::In => {
            &&& rule.value.text_items().len() > 0
            &&& rule.target matches Target::Question(id) ==> (data.answers.field(id) matches Some(v)
                ==> v is Text)
        },
        ConditionOperator::ContainsAll
        | ConditionOperator::ContainsAny
        | ConditionOperator::NotContains => {
            &&& rule.value.text_items().len() > 0
            &&& rule.target matches Target::Question(id)
            &&& data.answers.field(id) matches Some(v)
            &&& v is List
        },
        ConditionOperator::Gt
        | ConditionOperator::Gte
        | ConditionOperator::Lt
        | ConditionOperator::Lte
        | ConditionOperator::Between => {
            &&& is_small_integer(rule.value)
            &&& rule.value_end matches Some(e) ==> is_small_integer(e)
            &&& rule.target matches Target::Question(id) ==> (data.answers.field(id) matches Some(v)
                ==> v is Text && ((data.numbers)(v->Text_0) matches Some(x)
                ==> x.value.is_finite()))
            &&& data.total_score matches Some(n) ==> -0x20_0000_0000_0000 < n
                < 0x20_0000_0000_0000
        },
        _ => false,
    }
}

proof fn lemma_units_grow(a: int, b: int)
    ensures
        in_units(a) < in_units(b) <==> a < b,
        in_units(a) <= in_units(b) <==> a <= b,
{
    vstd::arithmetic::power2::lemma_pow2_pos(1074);
    let u = pow2(1074) as int;
    assert((a * u < b * u <==> a < b) && (a * u <= b * u <==> a <= b)) by (nonlinear_arith)
        requires
            u > 0,
    ;
}

#[verifier::spinoff_prover]
proof fn lemma_row_test_choices(rule: Rule, base: nat, params: Seq<Bind>, data: Response)
    requires
        rule.operator is ContainsAll || rule.operator is ContainsAny || rule.operator
            is NotContains,
        fits(rule, data),
        base + condition_eval::rule_binds(rule).len() <= params.len(),
        forall|k: int|
            0 <= k < condition_eval::rule_binds(rule).len() ==> params[base + k]
                == #[trigger] condition_eval::rule_binds(rule)[k],
    ensures
        row_test(rule, base).sql() == condition_eval::rule_clause(rule, base),
        row_test(rule, base).is_true(params, data) <==> condition_eval::holds(rule, data),
{
    let id = rule.target->Question_0;
    let binds = condition_eval::rule_binds(rule);
    let items = rule.value.text_items();
    let count = items.len();
    let listed = rule.value->List_0;
    let chosen = data.answers.field(id)->0->List_0;
    assert(binds[1] == Bind::Text(id));
    assert(params[base as int + 1] == binds[1]);
    assert(bound_text(params, base + 2) == id);
    assert forall|i: nat| i < count implies #[trigger] bound_text(params, base + 3 + i)
        == items[i as int] by {
        assert(binds[i as int + 2] == Bind::Text(items[i as int]));
        assert(params[base + (i as int + 2)] == binds[i as int + 2]);
    }
    crate::laws::conditions::law_choices_are_compared_as_sets(
        listed,
        chosen,
        rule.target,
        rule.value_end,
        data.numbers,
    );
    crate::laws::conditions::law_conditions_look_at_their_target(rule, data);
    assert forall|s: Seq<char>| #[trigger] listed.contains(Json::Text(s)) implies exists|i: nat|
        i < count && #[trigger] bound_text(params, base + 3 + i) == s by {
        crate::laws::conditions::lemma_texts_among(listed, s);
        let i = items.index_of(s) as nat;
        assert(bound_text(params, base + 3 + i) == s);
    }
    assert forall|i: nat| i < count implies listed.contains(
        Json::Text(#[trigger] bound_text(params, base + 3 + i)),
    ) by {
        let s = items[i as int];
        assert(items.contains(s));
        crate::laws::conditions::lemma_texts_among(listed, s);
    }
    let test = row_test(rule, base);
    match rule.operator {
        ConditionOperator::ContainsAll => {
            if test.is_true(params, data) {
                assert forall|s: Seq<char>| #[trigger] listed.contains(
                    Json::Text(s),
                ) implies chosen.contains(Json::Text(s)) by {
                    let i = choose|i: nat|
                        i < count && #[trigger] bound_text(params, base + 3 + i) == s;
                    assert(test->HasAll_first + i == base + 3 + i);
                    assert(chose(data, id, bound_text(params, test->HasAll_first + i)));
                }
            }
        },
        ConditionOperator::ContainsAny => {
            if condition_eval::holds(rule, data) {
                let s = choose|s: Seq<char>|
                    #![trigger listed.contains(Json::Text(s))]
                    listed.contains(Json::Text(s)) && chosen.contains(Json::Text(s));
                let i = choose|i: nat|
                    i < count && #[trigger] bound_text(params, base + 3 + i) == s;
                assert(chose(data, id, bound_text(params, test->HasAny_first + i)));
            }
        },
        _ => {
            if test.is_true(params, data) {
                assert forall|s: Seq<char>| #[trigger] listed.contains(
                    Json::Text(s),
                ) implies !chosen.contains(Json::Text(s)) by {
                    let i = choose|i: nat|
                        i < count && #[trigger] bound_text(params, base + 3 + i) == s;
                    assert(test->HasNone_first + i == base + 3 + i);
                    assert(!chose(data, id, bound_text(params, test->HasNone_first + i)));
                }
            }
        },
    }
}

#[verifier::spinoff_prover]
proof fn lemma_row_test_equality(rule: Rule, base: nat, params: Seq<Bind>, data: Response)
    requires
        rule.operator is Eq || rule.operator is Neq,
        fits(rule, data),
        base + condition_eval::rule_binds(rule).len() <= params.len(),
        forall|k: int|
            0 <= k < condition_eval::rule_binds(rule).len() ==> params[base + k]
                == #[trigger] condition_eval::rule_binds(rule)[k],
    ensures
        row_test(rule, base).sql() == condition_eval::rule_clause(rule, base),
        row_test(rule, base).is_true(params, data) <==> condition_eval::holds(rule, data),
{
    let binds = condition_eval::rule_binds(rule);
    let slots = condition_eval::target_slots(rule.target);
    let next = (base + slots + 1) as nat;
    if let Target::Question(id) = rule.target {
        assert(binds[0] == Bind::Text(id));
        assert(params[base as int + 0] == binds[0]);
        assert(bound_text(params, base + 1) == id);
    }
    let of = match rule.target {
        Target::Question(_) => Subject::Answer(base + 1),
        Target::QuizTotalScore => Subject::Score,
    };
    let text = of.text(params, data);
    let actual = condition_eval::tested(rule.target, data);
    if let Some(n) = data.total_score {
        assert(Numeral::of_int(n).text() == crate::numerals::int_text(n as int));
    }
    assert(condition_eval::as_text(actual) == text);
    assert(text is None <==> actual is Null);
    let v = rule.value->Text_0;
    assert(rule.value == Json::Text(v));
    assert(condition_eval::as_text(rule.value) == Some(v));
    assert(condition_eval::value_text(rule) == v);
    assert(binds[slots as int] == Bind::Text(v));
    assert(params[base + slots as int] == binds[slots as int]);
    assert(bound_text(params, next) == v);
    let test = row_test(rule, base);
    if rule.operator is Eq {
        assert(test == RowTest::Equals { of, value: next });
        assert(test.is_true(params, data) <==> text == Some(v));
        assert(condition_eval::holds(rule, data) <==> text == Some(v));
    } else {
        assert(test == RowTest::Differs { of, value: next });
        assert(test.is_true(params, data) <==> text != Some(v));
        assert(condition_eval::holds(rule, data) <==> text != Some(v));
    }
    assert(test.is_true(params, data) <==> condition_eval::holds(rule, data));
}

#[verifier::spinoff_prover]
proof fn lemma_row_test_texts(rule: Rule, base: nat, params: Seq<Bind>, data: Response)
    requires
        rule.operator is Contains || rule.operator is In,
        fits(rule, data),
        base + condition_eval::rule_binds(rule).len() <= params.len(),
        forall|k: int|
            0 <= k < condition_eval::rule_binds(rule).len() ==> params[base + k]
                == #[trigger] condition_eval::rule_binds(rule)[k],
    ensures
        row_test(rule, base).sql() == condition_eval::rule_clause(rule, base),
        row_test(rule, base).is_true(params, data) <==> condition_eval::holds(rule, data),
{
    let binds = condition_eval::rule_binds(rule);
    let slots = condition_eval::target_slots(rule.target);
    let next = (base + slots + 1) as nat;
    if let Target::Question(id) = rule.target {
        assert(binds[0] == Bind::Text(id));
        assert(params[base as int + 0] == binds[0]);
        assert(bound_text(params, base + 1) == id);
    }
    let of = match rule.target {
        Target::Question(_) => Subject::Answer(base + 1),
        Target::QuizTotalScore => Subject::Score,
    };
    let text = of.text(params, data);
    let actual = condition_eval::tested(rule.target, data);
    if let Some(n) = data.total_score {
        assert(Numeral::of_int(n).text() == crate::numerals::int_text(n as int));
    }
    assert(condition_eval::as_text(actual) == text);
    assert(text is None <==> actual is Null);
    match rule.operator {
        ConditionOperator::Contains => {
            let v = rule.value->Text_0;
            let pattern = "%"@ + condition_eval::like_escaped(v) + "%"@;
            assert(binds[slots as int] == Bind::Text(pattern));
            assert(params[base + slots as int] == binds[slots as int]);
            assert(bound_text(params, next) == pattern);
            if text is Some {
                condition_eval::law_like_pattern_means_containment(text->0, v);
            }
        },
        _ => {
            let items = rule.value.text_items();
            let count = items.len();
            assert forall|i: nat| i < count implies #[trigger] bound_text(params, next + i)
                == items[i as int] by {
                assert(binds[i as int + slots as int] == Bind::Text(items[i as int]));
                assert(params[base + (i as int + slots as int)] == binds[i as int + slots as int]);
            }
            if text is Some {
                let a = text->0;
                if items.contains(a) {
                    let i = items.index_of(a) as nat;
                    assert(bound_text(params, next + i) == a);
                }
                if exists|i: nat| i < count && a == #[trigger] bound_text(params, next + i) {
                    let i = choose|i: nat| i < count && a == #[trigger] bound_text(params, next + i);
                    assert(items[i as int] == a);
                }
            }
        },
    }
}

#[verifier::spinoff_prover]
proof fn lemma_row_test_numbers(rule: Rule, base: nat, params: Seq<Bind>, data: Response)
    requires
        rule.operator is Gt || rule.operator is Gte || rule.operator is Lt || rule.operator is Lte
            || rule.operator is Between,
        fits(rule, data),
        base + condition_eval::rule_binds(rule).len() <= params.len(),
        forall|k: int|
            0 <= k < condition_eval::rule_binds(rule).len() ==> params[base + k]
                == #[trigger] condition_eval::rule_binds(rule)[k],
    ensures
        row_test(rule, base).sql() == condition_eval::rule_clause(rule, base),
        row_test(rule, base).is_true(params, data) <==> condition_eval::holds(rule, data),
{
    let binds = condition_eval::rule_binds(rule);
    let slots = condition_eval::target_slots(rule.target);
    let next = (base + slots + 1) as nat;
    if let Target::Question(id) = rule.target {
        assert(binds[0] == Bind::Text(id));
        assert(params[base as int + 0] == binds[0]);
        assert(bound_text(params, base + 1) == id);
    }
    let value = rule.value->Number_0;
    let v = value.integer()->0 as int;
    assert(binds[slots as int] == Bind::Int(v as i64));
    assert(params[base + slots as int] == binds[slots as int]);
    assert(bound_int(params, next) == v);
    crate::double::law_small_integers_are_exact(v);
    let end = match rule.value_end {
        Some(e) => e->Number_0,
        None => value,
    };
    let to = end.integer()->0 as int;
    crate::double::law_small_integers_are_exact(to);
    if rule.operator is Between {
        assert(binds[slots as int + 1] == Bind::Int(to as i64));
        assert(params[base + (slots as int + 1)] == binds[slots as int + 1]);
        assert(bound_int(params, next + 1) == to);
    }
    let of = match rule.target {
        Target::Question(_) => Subject::Answer(base + 1),
        Target::QuizTotalScore => Subject::Score,
    };
    if let Some(n) = data.total_score {
        crate::double::law_small_integers_are_exact(n as int);
    }
    assert(value.double().units() == in_units(v));
    assert(end.double().units() == in_units(to));
    let actual = condition_eval::tested(rule.target, data);
    if of.number(params, data) is Some {
        let a = condition_eval::as_number(actual, data.numbers)->0;
        assert(of.number(params, data) == Some(a.units()));
        crate::double::law_rank_is_the_order(a, value.double());
        crate::double::law_rank_is_the_order(value.double(), a);
        crate::double::law_rank_is_the_order(a, end.double());
    }
}

proof fn lemma_row_test(rule: Rule, base: nat, params: Seq<Bind>, data: Response)
    requires
        fits(rule, data),
        base + condition_eval::rule_binds(rule).len() <= params.len(),
        forall|k: int|
            0 <= k < condition_eval::rule_binds(rule).len() ==> params[base + k]
                == #[trigger] condition_eval::rule_binds(rule)[k],
    ensures
        row_test(rule, base).sql() == condition_eval::rule_clause(rule, base),
        row_test(rule, base).is_true(params, data) <==> condition_eval::holds(rule, data),
{
    match rule.operator {
        ConditionOperator::ContainsAll
        | ConditionOperator::ContainsAny
        | ConditionOperator::NotContains => {
            lemma_row_test_choices(rule, base, params, data);
        },
        ConditionOperator::Eq | ConditionOperator::Neq => {
            lemma_row_test_equality(rule, base, params, data);
        },
        ConditionOperator::Contains | ConditionOperator::In => {
            lemma_row_test_texts(rule, base, params, data);
        },
        _ => {
            lemma_row_test_numbers(rule, base, params, data);
        },
    }
}

proof fn lemma_row_tests(rules: Seq<Rule>, offset: nat, params: Seq<Bind>, data: Response)
    requires
        forall|i: int| 0 <= i < rules.len() ==> fits(#[trigger] rules[i], data),
        offset + condition_eval::all_binds(rules).len() <= params.len(),
        forall|k: int|
            0 <= k < condition_eval::all_binds(rules).len() ==> params[offset + k]
                == #[trigger] condition_eval::all_binds(rules)[k],
    ensures
        row_tests(rules, offset).len() == rules.len(),
        row_tests(rules, offset).map_values(|t: RowTest| t.sql()) == condition_eval::all_clauses(
            rules,
            offset,
        ),
        forall|i: int|
            0 <= i < rules.len() ==> ((#[trigger] row_tests(rules, offset)[i]).is_true(params, data)
                <==> condition_eval::holds(rules[i], data)),
    decreases rules.len(),
{
    let tests = row_tests(rules, offset);
    let f = |t: RowTest| t.sql();
    if rules.len() == 0 {
        assert(tests.map_values(f) =~= condition_eval::all_clauses(rules, offset));
    } else {
        let before = rules.drop_last();
        let earlier = condition_eval::all_binds(before);
        let all = condition_eval::all_binds(rules);
        let base = offset + earlier.len();
        let own = condition_eval::rule_binds(rules.last());
        assert(all == earlier + own);
        assert forall|i: int| 0 <= i < before.len() implies fits(#[trigger] before[i], data) by {
            assert(before[i] == rules[i]);
        }
        assert forall|k: int| 0 <= k < earlier.len() implies params[offset + k]
            == #[trigger] earlier[k] by {
            assert(all[k] == earlier[k]);
        }
        lemma_row_tests(before, offset, params, data);
        assert(fits(rules[rules.len() - 1], data));
        assert forall|k: int| 0 <= k < own.len() implies params[base + k] == #[trigger] own[k] by {
            assert(all[earlier.len() + k] == own[k]);
            assert(params[offset + (earlier.len() + k)] == all[earlier.len() + k]);
        }
        lemma_row_test(rules.last(), base, params, data);
        let sooner = row_tests(before, offset);
        assert(tests.map_values(f) =~= sooner.map_values(f).push(f(tests.last())));
        assert forall|i: int| 0 <= i < rules.len() implies ((#[trigger] tests[i]).is_true(
            params,
            data,
        ) <==> condition_eval::holds(rules[i], data)) by {
            if i < before.len() {
                assert(tests[i] == sooner[i]);
                assert(rules[i] == before[i]);
            }
        }
    }
}

/// The WHERE clause selects the rows whose response meets the conditions: it is
/// made of one test for each condition, joined by AND, and a row passes all of them,
/// with the bound values in their places, just where the role is granted. It is so
/// of texts, of choices, and of numbers that are compared with whole ones.
pub proof fn law_rows_are_selected_where_roles_are_granted(
    rules: Seq<Rule>,
    offset: nat,
    params: Seq<Bind>,
    data: Response,
)
    requires
        rules.len() > 0,
        forall|i: int| 0 <= i < rules.len() ==> fits(#[trigger] rules[i], data),
        offset + condition_eval::where_clause(rules, offset).1.len() <= params.len(),
        params.subrange(
            offset as int,
            (offset + condition_eval::where_clause(rules, offset).1.len()) as int,
        ) == condition_eval::where_clause(rules, offset).1,
    ensures
        condition_eval::where_clause(rules, offset).0 == crate::text::joined(
            row_tests(rules, offset).map_values(|t: RowTest| t.sql()),
            " AND "@,
        ),
        row_tests(rules, offset).len() == rules.len(),
        (forall|i: int|
            0 <= i < rules.len() ==> (#[trigger] row_tests(rules, offset)[i]).is_true(params, data))
            <==> condition_eval::granted(false, rules, data),
{
    assert forall|i: int| 0 <= i < rules.len() implies !condition_eval::senseless(
        #[trigger] rules[i],
    ) by {
        assert(fits(rules[i], data));
    }
    let binds = condition_eval::all_binds(rules);
    assert(condition_eval::where_clause(rules, offset).1 == binds);
    assert forall|k: int| 0 <= k < binds.len() implies params[offset + k] == #[trigger] binds[k] by {
        assert(params.subrange(offset as int, (offset + binds.len()) as int)[k] == binds[k]);
    }
    lemma_row_tests(rules, offset, params, data);
    let tests = row_tests(rules, offset);
    if forall|i: int| 0 <= i < rules.len() ==> (#[trigger] tests[i]).is_true(params, data) {
        assert forall|i: int| 0 <= i < rules.len() implies condition_eval::holds(
            #[trigger] rules[i],
            data,
        ) by {
            assert(tests[i].is_true(params, data));
        }
    }
    if condition_eval::granted(false, rules, data) {
        assert forall|i: int| 0 <= i < rules.len() implies (#[trigger] tests[i]).is_true(
            params,
            data,
        ) by {
            assert(condition_eval::holds(rules[i], data));
        }
    }
}

/// A condition that lists nothing: the row is refused, but by `not_contains`. A list
/// of choices that is asked of a score refuses every row, with nothing bound.
pub proof fn law_nothing_listed_selects_nothing(rule: Rule, rules: Seq<Rule>, base: nat, i: int)
    ensures
        rule.value.text_items().len() == 0 ==> {
            &&& rule.operator is In ==> condition_eval::rule_clause(rule, base) == "FALSE"@
            &&& rule.operator is ContainsAll ==> condition_eval::rule_clause(rule, base)
                == "FALSE"@
            &&& rule.operator is ContainsAny ==> condition_eval::rule_clause(rule, base)
                == "FALSE"@
            &&& rule.operator is NotContains ==> condition_eval::rule_clause(rule, base)
                == "TRUE"@
        },
        0 <= i < rules.len() && rules[i].target is QuizTotalScore && (rules[i].operator
            is ContainsAll || rules[i].operator is ContainsAny || rules[i].operator is NotContains)
            ==> condition_eval::where_clause(rules, base) == ("FALSE"@, Seq::<Bind>::empty()),
{
    if 0 <= i < rules.len() && condition_eval::senseless(rules[i]) {
    }
}

/// Patterns and times are left to the database: the pattern, or the time, is bound
/// behind the question's id, and the answer is matched with `~` or compared as a
/// time, sooner with `<` and later with `>`.
pub proof fn law_patterns_and_times_are_left_to_the_database(
    id: Seq<char>,
    s: Seq<char>,
    base: nat,
)
    ensures
        ({
            let ask = |operator: ConditionOperator|
                Rule {
                    target: Target::Question(id),
                    operator,
                    value: Json::Text(s),
                    value_end: None,
                };
            let answer = "(fr.answers ->> $"@ + crate::numerals::nat_text(base + 1) + ")"@;
            let value = crate::numerals::nat_text(base + 2);
            let regex = ask(ConditionOperator::Regex);
            let before = ask(ConditionOperator::Before);
            let after = ask(ConditionOperator::After);
            &&& condition_eval::rule_binds(regex) == seq![Bind::Text(id), Bind::Text(s)]
            &&& condition_eval::rule_binds(before) == seq![Bind::Text(id), Bind::Text(s)]
            &&& condition_eval::rule_binds(after) == seq![Bind::Text(id), Bind::Text(s)]
            &&& condition_eval::rule_clause(regex, base) == answer + " ~ $"@ + value
            &&& condition_eval::rule_clause(before, base) == "(NULLIF("@ + answer
                + ", '')::timestamptz) "@ + "<"@ + " $"@ + value + "::timestamptz"@
            &&& condition_eval::rule_clause(after, base) == "(NULLIF("@ + answer
                + ", '')::timestamptz) "@ + ">"@ + " $"@ + value + "::timestamptz"@
        }),
{
    let binds = seq![Bind::Text(id)] + seq![Bind::Text(s)];
    assert(binds =~= seq![Bind::Text(id), Bind::Text(s)]);
}

} // verus!
