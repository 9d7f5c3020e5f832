//! Conditions that a response is tested by.

use vstd::prelude::*;

use crate::json::{Json, Value};
use crate::text::same;

verus! {

/// Operators applicable to a single condition.
#[derive(Clone, Copy, Debug, PartialEq, Eq, Structural)]
pub enum ConditionOperator {
    /// String equality (case-sensitive).
    Eq,
    /// String inequality.
    Neq,
    /// String contains (substring).
    Contains,
    /// String matches a regex.
    Regex,
    /// Value is one of a list of strings.
    In,
    /// All listed strings appear (for checkbox arrays).
    ContainsAll,
    /// Any listed string appears (for checkbox arrays).
    ContainsAny,
    /// None of the listed strings appear.
    NotContains,
    /// Numeric `>`.
    Gt,
    /// Numeric `>=`.
    Gte,
    /// Numeric `<`.
    Lt,
    /// Numeric `<=`.
    Lte,
    /// Numeric range, inclusive (uses value + value_end).
    Between,
    /// Date/time before (RFC3339).
    Before,
    /// Date/time after (RFC3339).
    After,
}

impl ConditionOperator {
    /// The key under which the operator is stored.
    pub open spec fn key(self) -> Seq<char> {
        match self {
            ConditionOperator::Eq => "eq"@,
            ConditionOperator::Neq => "neq"@,
            ConditionOperator::Contains => "contains"@,
            ConditionOperator::Regex => "regex"@,
            ConditionOperator::In => "in"@,
            ConditionOperator::ContainsAll => "contains_all"@,
            ConditionOperator::ContainsAny => "contains_any"@,
            ConditionOperator::NotContains => "not_contains"@,
            ConditionOperator::Gt => "gt"@,
            ConditionOperator::Gte => "gte"@,
            ConditionOperator::Lt => "lt"@,
            ConditionOperator::Lte => "lte"@,
            ConditionOperator::Between => "between"@,
            ConditionOperator::Before => "before"@,
            ConditionOperator::After => "after"@,
        }
    }

    /// The operator with the key `k`.
    pub open spec fn named(k: Seq<char>) -> Option<ConditionOperator> {
        if exists|op: ConditionOperator| op.key() == k {
            Some(choose|op: ConditionOperator| op.key() == k)
        } else {
            None
        }
    }

    /// The key under which the operator is stored.
    pub fn as_str(&self) -> (r: &'static str)
        ensures
            r@ == self.key(),
    {
        match self {
            ConditionOperator::Eq => "eq",
            ConditionOperator::Neq => "neq",
            ConditionOperator::Contains => "contains",
            ConditionOperator::Regex => "regex",
            ConditionOperator::In => "in",
            ConditionOperator::ContainsAll => "contains_all",
            ConditionOperator::ContainsAny => "contains_any",
            ConditionOperator::NotContains => "not_contains",
            ConditionOperator::Gt => "gt",
            ConditionOperator::Gte => "gte",
            ConditionOperator::Lt => "lt",
            ConditionOperator::Lte => "lte",
            ConditionOperator::Between => "between",
            ConditionOperator::Before => "before",
            ConditionOperator::After => "after",
        }
    }

    /// The operator with the key `k`.
    pub fn from_key(k: &str) -> (r: Option<ConditionOperator>)
        ensures
            r == ConditionOperator::named(k@),
    {
        let found =
        if same(k, "eq") {
            Some(ConditionOperator::Eq)
        } else if same(k, "neq") {
            Some(ConditionOperator::Neq)
        } else if same(k, "contains") {
            Some(ConditionOperator::Contains)
        } else if same(k, "regex") {
            Some(ConditionOperator::Regex)
        } else if same(k, "in") {
            Some(ConditionOperator::In)
        } else if same(k, "contains_all") {
            Some(ConditionOperator::ContainsAll)
        } else if same(k, "contains_any") {
            Some(ConditionOperator::ContainsAny)
        } else if same(k, "not_contains") {
            Some(ConditionOperator::NotContains)
        } else if same(k, "gt") {
            Some(ConditionOperator::Gt)
        } else if same(k, "gte") {
            Some(ConditionOperator::Gte)
        } else if same(k, "lt") {
            Some(ConditionOperator::Lt)
        } else if same(k, "lte") {
            Some(ConditionOperator::Lte)
        } else if same(k, "between") {
            Some(ConditionOperator::Between)
        } else if same(k, "before") {
            Some(ConditionOperator::Before)
        } else if same(k, "after") {
            Some(ConditionOperator::After)
        } else {
            None
        };
        proof {
            if let Some(op) = found {
                assert(op.key() == k@);
                let other = choose|op: ConditionOperator| op.key() == k@;
                law_operator_keys_are_distinct(op, other);
            } else {
                assert forall|op: ConditionOperator| op.key() != k@ by {
                    match op {
                        ConditionOperator::Eq => {},
                        ConditionOperator::Neq => {},
                        ConditionOperator::Contains => {},
                        ConditionOperator::Regex => {},
                        ConditionOperator::In => {},
                        ConditionOperator::ContainsAll => {},
                        ConditionOperator::ContainsAny => {},
                        ConditionOperator::NotContains => {},
                        ConditionOperator::Gt => {},
                        ConditionOperator::Gte => {},
                        ConditionOperator::Lt => {},
                        ConditionOperator::Lte => {},
                        ConditionOperator::Between => {},
                        ConditionOperator::Before => {},
                        ConditionOperator::After => {},
                    }
                }
            }
        }
        found
    }
}

/// No two operators share a key.
pub proof fn law_operator_keys_are_distinct(a: ConditionOperator, b: ConditionOperator)
    requires
        a.key() == b.key(),
    ensures
        a == b,
{
    reveal_strlit("eq");
    reveal_strlit("neq");
    reveal_strlit("contains");
    reveal_strlit("regex");
    reveal_strlit("in");
    reveal_strlit("contains_all");
    reveal_strlit("contains_any");
    reveal_strlit("not_contains");
    reveal_strlit("gt");
    reveal_strlit("gte");
    reveal_strlit("lt");
    reveal_strlit("lte");
    reveal_strlit("between");
    reveal_strlit("before");
    reveal_strlit("after");
    assert("eq"@.len() == 2 && "eq"@[0] == 'e');
    assert("neq"@.len() == 3 && "neq"@[0] == 'n');
    assert("contains"@.len() == 8 && "contains"@[0] == 'c');
    assert("regex"@.len() == 5 && "regex"@[0] == 'r');
    assert("in"@.len() == 2 && "in"@[0] == 'i');
    assert("contains_all"@.len() == 12 && "contains_all"@[0] == 'c');
    assert("contains_any"@.len() == 12 && "contains_any"@[0] == 'c');
    assert("not_contains"@.len() == 12 && "not_contains"@[0] == 'n');
    assert("gt"@.len() == 2 && "gt"@[0] == 'g');
    assert("gte"@.len() == 3 && "gte"@[0] == 'g');
    assert("lt"@.len() == 2 && "lt"@[0] == 'l');
    assert("lte"@.len() == 3 && "lte"@[0] == 'l');
    assert("between"@.len() == 7 && "between"@[0] == 'b');
    assert("before"@.len() == 6 && "before"@[0] == 'b');
    assert("after"@.len() == 5 && "after"@[0] == 'a');
    assert("contains_all"@[10] == 'l');
    assert("contains_any"@[10] == 'n');
}

/// The key of an operator reads back as the operator.
pub proof fn law_operator_key_reads_back(op: ConditionOperator)
    ensures
        ConditionOperator::named(op.key()) == Some(op),
{
    let other = choose|o: ConditionOperator| o.key() == op.key();
    law_operator_keys_are_distinct(other, op);
}

/// What of a response a condition tests.
#[derive(Debug, PartialEq)]
pub enum ConditionTarget {
    /// Test the answer to a specific question.
    Question { question_id: String },
    /// Test the response's total quiz score (only valid if form is a quiz).
    QuizTotalScore,
}

/// What a `ConditionTarget` stands for.
pub enum Target {
    Question(Seq<char>),
    QuizTotalScore,
}

impl View for ConditionTarget {
    type V = Target;

    open spec fn view(&self) -> Target {
        match *self {
            ConditionTarget::Question { question_id } => Target::Question(question_id@),
            ConditionTarget::QuizTotalScore => Target::QuizTotalScore,
        }
    }
}

/// A single condition row of a role link.
///
/// `target` selects what data on the response to test: either a specific
/// question's answer or the response-wide quiz total score.
#[derive(Debug, PartialEq)]
pub struct Condition {
    pub target: ConditionTarget,
    pub operator: ConditionOperator,
    pub value: Value,
    pub value_end: Option<Value>,
}

/// What a `Condition` stands for.
pub struct Rule {
    pub target: Target,
    pub operator: ConditionOperator,
    pub value: Json,
    pub value_end: Option<Json>,
}

/// The view of an optional value.
pub open spec fn optional(v: Option<Value>) -> Option<Json> {
    match v {
        Some(x) => Some(x@),
        None => None,
    }
}

impl View for Condition {
    type V = Rule;

    open spec fn view(&self) -> Rule {
        Rule {
            target: self.target@,
            operator: self.operator,
            value: self.value@,
            value_end: optional(self.value_end),
        }
    }
}

/// The views of a list of conditions.
pub open spec fn rules(conditions: Seq<Condition>) -> Seq<Rule> {
    conditions.map_values(|c: Condition| c@)
}

} // verus!
