//! A form: its pages, its questions and their settings.

use vstd::prelude::*;

use crate::json::{Real, Value};
use crate::text::{owned, same};

verus! {

#[derive(Debug, PartialEq)]
pub struct FormSchema {
    pub title: String,
    pub description: String,
    pub settings: FormSettings,
    pub pages: Vec<Page>,
}

#[derive(Debug, PartialEq)]
pub struct FormSettings {
    pub submit_label: String,
    pub show_progress_bar: bool,
    pub shuffle_questions: bool,
}

impl Default for FormSettings {
    fn default() -> (r: FormSettings)
        ensures
            r.submit_label@ == "Submit"@,
            r.show_progress_bar,
            !r.shuffle_questions,
    {
        FormSettings {
            submit_label: default_submit_label(),
            show_progress_bar: default_true(),
            shuffle_questions: false,
        }
    }
}

/// The label of the submit button where a form names none.
pub fn default_submit_label() -> (r: String)
    ensures
        r@ == "Submit"@,
{
    owned("Submit")
}

/// What a switch that is on by default is set to.
pub fn default_true() -> (r: bool)
    ensures
        r,
{
    true
}

#[derive(Debug, PartialEq)]
pub struct Page {
    pub id: String,
    pub title: String,
    pub description: String,
    pub questions: Vec<Question>,
}

#[derive(Debug, PartialEq)]
pub struct Question {
    pub id: String,
    pub kind: QuestionKind,
    pub title: String,
    pub description: String,
    pub required: bool,
    // Optional fields, each used by some of the kinds only.
    pub max_length: Option<i64>,
    pub min: Option<Real>,
    pub max: Option<Real>,
    pub options: Option<Vec<QuestionOption>>,
    pub correct: Option<Value>,
    pub points: Option<i32>,
    pub placeholder: Option<String>,
    pub help_text: Option<String>,
    pub image_url: Option<String>,
    pub alt_text: Option<String>,
}

#[derive(Clone, Copy, Debug, PartialEq, Eq, Structural)]
pub enum QuestionKind {
    ShortText,
    LongText,
    Number,
    SingleChoice,
    MultiChoice,
    Dropdown,
    Scale,
    Date,
    Email,
    Agreement,
    Info,
    Image,
    Video,
}

impl QuestionKind {
    /// The name of the kind in stored forms.
    pub open spec fn name(self) -> Seq<char> {
        match self {
            QuestionKind::ShortText => "short_text"@,
            QuestionKind::LongText => "long_text"@,
            QuestionKind::Number => "number"@,
            QuestionKind::SingleChoice => "single_choice"@,
            QuestionKind::MultiChoice => "multi_choice"@,
            QuestionKind::Dropdown => "dropdown"@,
            QuestionKind::Scale => "scale"@,
            QuestionKind::Date => "date"@,
            QuestionKind::Email => "email"@,
            QuestionKind::Agreement => "agreement"@,
            QuestionKind::Info => "info"@,
            QuestionKind::Image => "image"@,
            QuestionKind::Video => "video"@,
        }
    }

    /// Whether this kind only displays something.
    pub open spec fn display_only(self) -> bool {
        self is Info || self is Image || self is Video
    }

    /// The name of the kind in stored forms.
    pub fn as_str(&self) -> (r: &'static str)
        ensures
            r@ == self.name(),
    {
        match self {
            QuestionKind::ShortText => "short_text",
            QuestionKind::LongText => "long_text",
            QuestionKind::Number => "number",
            QuestionKind::SingleChoice => "single_choice",
            QuestionKind::MultiChoice => "multi_choice",
            QuestionKind::Dropdown => "dropdown",
            QuestionKind::Scale => "scale",
            QuestionKind::Date => "date",
            QuestionKind::Email => "email",
            QuestionKind::Agreement => "agreement",
            QuestionKind::Info => "info",
            QuestionKind::Image => "image",
            QuestionKind::Video => "video",
        }
    }

    /// Whether this kind produces an answer (info/image questions are display-only).
    pub fn is_answerable(&self) -> (r: bool)
        ensures
            r == !self.display_only(),
    {
        match self {
            QuestionKind::Info | QuestionKind::Image | QuestionKind::Video => false,
            _ => true,
        }
    }

    /// Whether this kind can take part in a condition (i.e. used in the
    /// dashboard's question dropdown).
    pub fn is_conditionable(&self) -> (r: bool)
        ensures
            r == !self.display_only(),
    {
        self.is_answerable()
    }

    /// Whether this kind expects a list-of-strings answer (multi_choice).
    pub fn is_array_valued(&self) -> (r: bool)
        ensures
            r == (*self is MultiChoice),
    {
        match self {
            QuestionKind::MultiChoice => true,
            _ => false,
        }
    }
}

/// No two kinds share a name.
pub proof fn law_kind_names_are_distinct(a: QuestionKind, b: QuestionKind)
    requires
        a.name() == b.name(),
    ensures
        a == b,
{
    reveal_strlit("short_text");
    reveal_strlit("long_text");
    reveal_strlit("number");
    reveal_strlit("single_choice");
    reveal_strlit("multi_choice");
    reveal_strlit("dropdown");
    reveal_strlit("scale");
    reveal_strlit("date");
    reveal_strlit("email");
    reveal_strlit("agreement");
    reveal_strlit("info");
    reveal_strlit("image");
    reveal_strlit("video");
    assert("short_text"@.len() == 10 && "short_text"@[0] == 's');
    assert("long_text"@.len() == 9 && "long_text"@[0] == 'l');
    assert("number"@.len() == 6 && "number"@[0] == 'n');
    assert("single_choice"@.len() == 13 && "single_choice"@[0] == 's');
    assert("multi_choice"@.len() == 12 && "multi_choice"@[0] == 'm');
    assert("dropdown"@.len() == 8 && "dropdown"@[0] == 'd');
    assert("scale"@.len() == 5 && "scale"@[0] == 's');
    assert("date"@.len() == 4 && "date"@[0] == 'd');
    assert("email"@.len() == 5 && "email"@[0] == 'e');
    assert("agreement"@.len() == 9 && "agreement"@[0] == 'a');
    assert("info"@.len() == 4 && "info"@[0] == 'i');
    assert("image"@.len() == 5 && "image"@[0] == 'i');
    assert("video"@.len() == 5 && "video"@[0] == 'v');
}

#[derive(Debug, PartialEq)]
pub struct QuestionOption {
    pub id: String,
    pub label: String,
}

// ---------------------------------------------------------------------------
// The questions of a form
// ---------------------------------------------------------------------------

/// The questions that take an answer, in their order.
pub open spec fn answerable(questions: Seq<Question>) -> Seq<Question>
    decreases questions.len(),
{
    if questions.len() == 0 {
        Seq::empty()
    } else if questions.last().kind.display_only() {
        answerable(questions.drop_last())
    } else {
        answerable(questions.drop_last()).push(questions.last())
    }
}

/// The questions of the pages that take an answer, in declaration order.
pub open spec fn answerable_on(pages: Seq<Page>) -> Seq<Question>
    decreases pages.len(),
{
    if pages.len() == 0 {
        Seq::empty()
    } else {
        answerable_on(pages.drop_last()) + answerable(pages.last().questions@)
    }
}

/// The ids of the questions.
pub open spec fn question_ids(questions: Seq<Question>) -> Seq<Seq<char>> {
    questions.map_values(|q: Question| q.id@)
}

impl FormSchema {
    /// The questions that take an answer, in declaration order.
    pub open spec fn asked(self) -> Seq<Question> {
        answerable_on(self.pages@)
    }

    /// The first question that takes an answer and has the id.
    pub open spec fn question_with(self, id: Seq<char>) -> Option<Question> {
        match crate::table::index_of(question_ids(self.asked()), id) {
            Some(i) => Some(self.asked()[i]),
            None => None,
        }
    }

    /// All answerable questions in declaration order.
    pub fn iter_questions(&self) -> (r: Vec<&Question>)
        ensures
            r@.map_values(|q: &Question| *q) == self.asked(),
    {
        let mut out: Vec<&Question> = Vec::new();
        for i in 0..self.pages.len()
            invariant
                out@.map_values(|q: &Question| *q) == answerable_on(self.pages@.take(i as int)),
        {
            let page = &self.pages[i];
            let ghost before = answerable_on(self.pages@.take(i as int));
            for k in 0..page.questions.len()
                invariant
                    out@.map_values(|q: &Question| *q) == before + answerable(
                        page.questions@.take(k as int),
                    ),
            {
                let q = &page.questions[k];
                let ghost shown = out@;
                proof {
                    let longer = page.questions@.take(k + 1);
                    assert(longer.drop_last() =~= page.questions@.take(k as int));
                    assert(longer.last() == *q);
                }
                if q.kind.is_answerable() {
                    out.push(q);
                    assert(out@.map_values(|q: &Question| *q) =~= shown.map_values(
                        |q: &Question| *q,
                    ).push(*q));
                    assert(out@.map_values(|q: &Question| *q) =~= before + answerable(
                        page.questions@.take(k + 1),
                    ));
                }
            }
            proof {
                assert(page.questions@.take(page.questions@.len() as int) =~= page.questions@);
                assert(self.pages@.take(i + 1).drop_last() =~= self.pages@.take(i as int));
            }
        }
        assert(self.pages@.take(self.pages@.len() as int) =~= self.pages@);
        out
    }

    /// Look up a question by id.
    pub fn find_question(&self, id: &str) -> (r: Option<&Question>)
        ensures
            match r {
                Some(q) => self.question_with(id@) == Some(*q),
                None => self.question_with(id@) is None,
            },
    {
        let asked = self.iter_questions();
        let ghost all = self.asked();
        let ghost ids = question_ids(all);
        let mut i: usize = 0;
        while i < asked.len()
            invariant
                i <= asked.len(),
                all == self.asked(),
                ids == question_ids(all),
                asked@.map_values(|q: &Question| *q) == all,
                crate::table::index_of(ids, id@) == crate::table::index_from(ids, id@, i as int),
            decreases asked.len() - i,
        {
            assert(all[i as int] == *asked@[i as int]);
            if same(asked[i].id.as_str(), id) {
                return Some(asked[i]);
            }
            i = i + 1;
        }
        None
    }
}

} // verus!
