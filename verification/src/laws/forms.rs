//! What the checks of a form are for: which forms can be saved.

use vstd::prelude::*;

use crate::models::form::{FormSchema, Page, Question, QuestionKind, QuestionOption};
use crate::services::form_validator;

verus! {

/// Whether a text has something but white space.
pub open spec fn says_something(s: Seq<char>) -> bool {
    crate::text::trimmed(s).len() > 0
}

/// Whether an address begins with `http://` or `https://`, in letters of either case.
pub open spec fn is_on_the_web(url: Seq<char>) -> bool {
    ||| url.len() >= 7 && crate::text::ascii_lowered(url.take(7)) == "http://"@
    ||| url.len() >= 8 && crate::text::ascii_lowered(url.take(8)) == "https://"@
}

/// Whether options can be offered: each has an id of its own and a label of at most
/// 200 characters.
pub open spec fn are_fit_options(options: Seq<QuestionOption>) -> bool {
    &&& forall|i: int|
        0 <= i < options.len() ==> says_something((#[trigger] options[i]).id@)
            && options[i].label@.len() <= 200
    &&& forall|i: int, j: int|
        0 <= i < j < options.len() ==> (#[trigger] options[i]).id@ != (#[trigger] options[j]).id@
}

/// Whether a question has what its kind needs, and nothing that it does not use.
pub open spec fn is_fit(q: Question) -> bool {
    let choice = q.kind is SingleChoice || q.kind is MultiChoice || q.kind is Dropdown;
    let number = q.kind is Number || q.kind is Scale;
    let text = q.kind is ShortText || q.kind is LongText;
    let media = q.kind is Image || q.kind is Video;
    let shown = media || q.kind is Info;
    &&& says_something(q.id@)
    &&& says_something(q.title@) || shown
    &&& choice ==> (q.options matches Some(options) && 1 <= options@.len() <= 50
        && are_fit_options(options@))
    &&& number && q.min is Some && q.max is Some ==> !(q.max->0.value.below(q.min->0.value))
    &&& q.kind is Agreement ==> q.required
    &&& media ==> (q.image_url matches Some(url) && says_something(url@) && crate::text::trimmed(
        url@,
    ).len() <= 2048 && is_on_the_web(crate::text::trimmed(url@)))
    &&& q.kind is Image ==> (q.alt_text matches Some(alt) ==> alt@.len() <= 200)
    &&& q.max_length is Some ==> text
    &&& q.min is Some ==> number
    &&& q.max is Some ==> number
    &&& q.options is Some ==> choice
    &&& q.image_url is Some ==> media
    &&& q.alt_text is Some ==> q.kind is Image
    &&& q.correct is Some ==> !shown
    &&& q.points is Some ==> !shown
}

/// The ids of the questions of each page.
pub open spec fn ids_by_page(pages: Seq<Page>) -> Seq<Seq<Seq<char>>> {
    pages.map_values(|p: Page| p.questions@.map_values(|q: Question| q.id@))
}

/// Whether a form can be saved.
pub open spec fn can_be_saved(schema: FormSchema) -> bool {
    let pages = schema.pages@;
    let ids = ids_by_page(pages).flatten_alt();
    &&& says_something(schema.title@)
    &&& schema.title@.len() <= 200
    &&& schema.description@.len() <= 2000
    &&& 1 <= pages.len() <= 10
    &&& ids.len() <= 50
    &&& ids.no_duplicates()
    &&& forall|i: int| 0 <= i < pages.len() ==> says_something((#[trigger] pages[i]).id@)
    &&& forall|i: int, j: int|
        0 <= i < j < pages.len() ==> (#[trigger] pages[i]).id@ != (#[trigger] pages[j]).id@
    &&& forall|i: int, k: int|
        0 <= i < pages.len() && 0 <= k < pages[i].questions@.len() ==> is_fit(
            #[trigger] pages[i].questions@[k],
        )
}

proof fn lemma_web(url: Seq<char>)
    ensures
        form_validator::is_web_url(crate::text::trimmed(url)) <==> is_on_the_web(
            crate::text::trimmed(url),
        ),
{
    let t = crate::text::trimmed(url);
    crate::text::law_trimming_twice_is_trimming_once(url);
    let lower = crate::text::ascii_lowered(t);
    reveal_strlit("http://");
    reveal_strlit("https://");
    if t.len() >= 7 {
        assert(lower.subrange(0, 7) =~= crate::text::ascii_lowered(t.take(7)));
    }
    if t.len() >= 8 {
        assert(lower.subrange(0, 8) =~= crate::text::ascii_lowered(t.take(8)));
    }
}

proof fn lemma_options(id: Seq<char>, options: Seq<QuestionOption>)
    ensures
        form_validator::options_errors(id, options).len() == 0 <==> are_fit_options(options),
    decreases options.len(),
{
    if options.len() > 0 {
        let before = options.drop_last();
        let last = options.last();
        let n = options.len() - 1;
        lemma_options(id, before);
        let earlier = form_validator::option_ids(before);
        assert(options[n] == last);
        assert forall|i: int| 0 <= i < n implies #[trigger] options[i] == before[i] by {}
        assert forall|i: int| 0 <= i < n implies #[trigger] before[i] == options[i] by {}
        if earlier.contains(last.id@) {
            let i = earlier.index_of(last.id@);
            assert(options[i].id@ == last.id@);
            assert(!are_fit_options(options));
        } else {
            assert forall|i: int| 0 <= i < n implies (#[trigger] options[i]).id@ != last.id@ by {
                assert(earlier[i] == options[i].id@);
            }
        }
        let own = form_validator::option_errors(id, last, earlier);
        assert(own.len() == 0 <==> says_something(last.id@) && !earlier.contains(last.id@)
            && last.label@.len() <= 200);
        if are_fit_options(options) {
            assert(are_fit_options(before));
            assert(says_something(options[n].id@));
        }
    }
}

proof fn lemma_media(q: Question, what: Seq<char>, thing: Seq<char>)
    ensures
        form_validator::media_errors(q, what, thing).len() == 0 <==> (q.image_url matches Some(url)
            && says_something(url@) && crate::text::trimmed(url@).len() <= 2048 && is_on_the_web(
            crate::text::trimmed(url@),
        )),
{
    if let Some(url) = q.image_url {
        lemma_web(url@);
    } else {
        assert(crate::text::trimmed(Seq::empty()) =~= Seq::empty());
    }
}

proof fn lemma_stray(q: Question)
    ensures
        form_validator::stray_errors(q).len() == 0 <==> {
            &&& q.max_length is Some ==> q.kind is ShortText || q.kind is LongText
            &&& q.min is Some ==> q.kind is Number || q.kind is Scale
            &&& q.max is Some ==> q.kind is Number || q.kind is Scale
            &&& q.options is Some ==> q.kind is SingleChoice || q.kind is MultiChoice || q.kind
                is Dropdown
            &&& q.image_url is Some ==> q.kind is Image || q.kind is Video
            &&& q.alt_text is Some ==> q.kind is Image
            &&& q.correct is Some ==> !(q.kind is Image || q.kind is Video || q.kind is Info)
            &&& q.points is Some ==> !(q.kind is Image || q.kind is Video || q.kind is Info)
        },
{
    assert(form_validator::stray_bounds(q).len() == 0 <==> {
        &&& q.max_length is Some ==> q.kind is ShortText || q.kind is LongText
        &&& q.min is Some ==> q.kind is Number || q.kind is Scale
        &&& q.max is Some ==> q.kind is Number || q.kind is Scale
    });
    assert(form_validator::stray_contents(q).len() == 0 <==> {
        &&& q.options is Some ==> q.kind is SingleChoice || q.kind is MultiChoice || q.kind
            is Dropdown
        &&& q.image_url is Some ==> q.kind is Image || q.kind is Video
        &&& q.alt_text is Some ==> q.kind is Image
    });
    assert(form_validator::stray_grading(q).len() == 0 <==> {
        &&& q.correct is Some ==> !(q.kind is Image || q.kind is Video || q.kind is Info)
        &&& q.points is Some ==> !(q.kind is Image || q.kind is Video || q.kind is Info)
    });
}

proof fn lemma_used(q: Question)
    ensures
        form_validator::used_field_errors(q).len() == 0 <==> {
            &&& q.kind is SingleChoice || q.kind is MultiChoice || q.kind is Dropdown ==> (q.options
                matches Some(options) && 1 <= options@.len() <= 50 && are_fit_options(options@))
            &&& (q.kind is Number || q.kind is Scale) && q.min is Some && q.max is Some
                ==> !(q.max->0.value.below(q.min->0.value))
            &&& q.kind is Agreement ==> q.required
            &&& q.kind is Image || q.kind is Video ==> (q.image_url matches Some(url)
                && says_something(url@) && crate::text::trimmed(url@).len() <= 2048
                && is_on_the_web(crate::text::trimmed(url@)))
            &&& q.kind is Image ==> (q.alt_text matches Some(alt) ==> alt@.len() <= 200)
        },
{
    match q.kind {
        QuestionKind::SingleChoice | QuestionKind::MultiChoice | QuestionKind::Dropdown => {
            lemma_options(q.id@, form_validator::offered(q));
        },
        QuestionKind::Image => {
            lemma_media(q, "Image"@, "an image"@);
        },
        QuestionKind::Video => {
            lemma_media(q, "Video"@, "a video"@);
        },
        _ => {},
    }
}

proof fn lemma_question(q: Question, page: nat, place: nat, earlier: Seq<Seq<char>>)
    ensures
        form_validator::question_errors(q, page, place, earlier).len() == 0 <==> is_fit(q)
            && !earlier.contains(q.id@),
{
    lemma_stray(q);
    lemma_used(q);
    let kind = form_validator::kind_errors(q);
    assert(kind.len() == 0 <==> form_validator::used_field_errors(q).len() == 0
        && form_validator::stray_errors(q).len() == 0);
}

proof fn lemma_questions(questions: Seq<Question>, page: nat, earlier: Seq<Seq<char>>)
    requires
        earlier.no_duplicates(),
    ensures
        form_validator::questions_errors(questions, page, earlier).len() == 0 <==> {
            &&& (earlier + questions.map_values(|q: Question| q.id@)).no_duplicates()
            &&& forall|k: int| 0 <= k < questions.len() ==> is_fit(#[trigger] questions[k])
        },
    decreases questions.len(),
{
    let f = |q: Question| q.id@;
    let all = earlier + questions.map_values(f);
    if questions.len() == 0 {
        assert(all =~= earlier);
    } else {
        let before = questions.drop_last();
        let last = questions.last();
        let known = earlier + before.map_values(f);
        lemma_questions(before, page, earlier);
        lemma_question(last, page, questions.len(), known);
        assert(crate::models::form::question_ids(before) =~= before.map_values(f));
        assert(all =~= known.push(last.id@));
        assert(questions[questions.len() - 1] == last);
        assert forall|k: int| 0 <= k < before.len() implies #[trigger] before[k] == questions[k] by {}
        assert forall|k: int| 0 <= k < before.len() implies #[trigger] questions[k] == before[k] by {}
        lemma_push(known, last.id@);
    }
}

proof fn lemma_push(list: Seq<Seq<char>>, key: Seq<char>)
    ensures
        list.push(key).no_duplicates() <==> list.no_duplicates() && !list.contains(key),
{
    let longer = list.push(key);
    let n = list.len() as int;
    assert(longer[n] == key);
    if longer.no_duplicates() {
        assert forall|i: int, j: int| 0 <= i < list.len() && 0 <= j < list.len() && i != j implies list[i]
            != list[j] by {
            assert(longer[i] != longer[j]);
        }
        if list.contains(key) {
            let i = list.index_of(key);
            assert(longer[i] == longer[n]);
        }
    }
    if list.no_duplicates() && !list.contains(key) {
        assert forall|i: int, j: int|
            0 <= i < longer.len() && 0 <= j < longer.len() && i != j implies longer[i]
            != longer[j] by {
            if i < n && j < n {
                assert(list[i] != list[j]);
            } else if i < n {
                assert(list.contains(list[i]));
            } else {
                assert(list.contains(list[j]));
            }
        }
    }
}

proof fn lemma_part(a: Seq<Seq<char>>, b: Seq<Seq<char>>)
    requires
        (a + b).no_duplicates(),
    ensures
        a.no_duplicates(),
{
    assert forall|i: int, j: int| 0 <= i < a.len() && 0 <= j < a.len() && i != j implies a[i]
        != a[j] by {
        assert((a + b)[i] != (a + b)[j]);
    }
}

proof fn lemma_ids(pages: Seq<Page>)
    ensures
        form_validator::ids_on(pages) == ids_by_page(pages).flatten_alt(),
    decreases pages.len(),
{
    let groups = ids_by_page(pages);
    if pages.len() > 0 {
        lemma_ids(pages.drop_last());
        assert(groups.drop_last() =~= ids_by_page(pages.drop_last()));
        assert(groups.last() =~= crate::models::form::question_ids(pages.last().questions@));
    }
}

proof fn lemma_pages(pages: Seq<Page>)
    ensures
        form_validator::pages_errors(pages).len() == 0 <==> {
            &&& ids_by_page(pages).flatten_alt().no_duplicates()
            &&& forall|i: int| 0 <= i < pages.len() ==> says_something((#[trigger] pages[i]).id@)
            &&& forall|i: int, j: int|
                0 <= i < j < pages.len() ==> (#[trigger] pages[i]).id@ != (#[trigger] pages[j]).id@
            &&& forall|i: int, k: int|
                0 <= i < pages.len() && 0 <= k < pages[i].questions@.len() ==> is_fit(
                    #[trigger] pages[i].questions@[k],
                )
        },
    decreases pages.len(),
{
    let groups = ids_by_page(pages);
    if pages.len() > 0 {
        let before = pages.drop_last();
        let last = pages.last();
        let n = pages.len() - 1;
        let f = |q: Question| q.id@;
        let own = last.questions@.map_values(f);
        let known = ids_by_page(before).flatten_alt();
        lemma_pages(before);
        lemma_ids(before);
        assert(groups.drop_last() =~= ids_by_page(before));
        assert(groups.last() =~= own);
        assert(groups.flatten_alt() == known + own);
        assert(pages[n] == last);
        assert forall|i: int| 0 <= i < n implies #[trigger] pages[i] == before[i] by {}
        assert forall|i: int| 0 <= i < n implies #[trigger] before[i] == pages[i] by {}
        let names = form_validator::page_ids(before);
        let named = form_validator::page_id_errors(last.id@, pages.len(), names);
        let asked = form_validator::questions_errors(last.questions@, pages.len(), known);
        assert(form_validator::pages_errors(pages).len() == form_validator::pages_errors(
            before,
        ).len() + named.len() + asked.len());
        assert(named.len() == 0 <==> says_something(last.id@) && !names.contains(last.id@));
        assert(names.contains(last.id@) <==> exists|i: int|
            0 <= i < n && (#[trigger] pages[i]).id@ == last.id@) by {
            if names.contains(last.id@) {
                let i = names.index_of(last.id@);
                assert(pages[i].id@ == last.id@);
            }
            if exists|i: int| 0 <= i < n && (#[trigger] pages[i]).id@ == last.id@ {
                let i = choose|i: int| 0 <= i < n && (#[trigger] pages[i]).id@ == last.id@;
                assert(names[i] == last.id@);
            }
        }
        if known.no_duplicates() {
            lemma_questions(last.questions@, pages.len(), known);
        }
        if groups.flatten_alt().no_duplicates() {
            lemma_part(known, own);
        }
        assert forall|i: int, k: int|
            0 <= i < before.len() && 0 <= k < before[i].questions@.len() implies
            #[trigger] before[i].questions@[k] == pages[i].questions@[k] by {}
        if form_validator::pages_errors(pages).len() == 0 {
            assert forall|i: int, k: int|
                0 <= i < pages.len() && 0 <= k < pages[i].questions@.len() implies is_fit(
                #[trigger] pages[i].questions@[k],
            ) by {
                if i < n {
                    assert(is_fit(before[i].questions@[k]));
                }
            }
        }
        if forall|i: int, k: int|
            0 <= i < pages.len() && 0 <= k < pages[i].questions@.len() ==> is_fit(
                #[trigger] pages[i].questions@[k],
            ) {
            assert forall|i: int, k: int|
                0 <= i < before.len() && 0 <= k < before[i].questions@.len() implies is_fit(
                #[trigger] before[i].questions@[k],
            ) by {
                assert(is_fit(pages[i].questions@[k]));
            }
            assert forall|k: int| 0 <= k < last.questions@.len() implies is_fit(
                #[trigger] last.questions@[k],
            ) by {
                assert(is_fit(pages[n].questions@[k]));
            }
        }
    } else {
        assert(groups =~= Seq::empty());
    }
}

proof fn lemma_seven(
    a: Seq<Seq<char>>,
    b: Seq<Seq<char>>,
    c: Seq<Seq<char>>,
    d: Seq<Seq<char>>,
    e: Seq<Seq<char>>,
    f: Seq<Seq<char>>,
    g: Seq<Seq<char>>,
)
    ensures
        (a + b + c + d + e + f + g).len() == 0 <==> a.len() == 0 && b.len() == 0 && c.len() == 0
            && d.len() == 0 && e.len() == 0 && f.len() == 0 && g.len() == 0,
{
}

/// The sanity check accepts just the forms that can be saved: with a title and pages,
/// within the limits, with ids of their own for pages and questions, and with
/// questions that have what their kinds need and nothing else.
pub proof fn law_sound_forms_can_be_saved(schema: FormSchema)
    ensures
        form_validator::form_errors(schema).len() == 0 <==> can_be_saved(schema),
{
    let pages = schema.pages@;
    lemma_pages(pages);
    lemma_ids(pages);
    let ids = form_validator::ids_on(pages);
    let a = form_validator::complaint(
        crate::text::is_blank_text(schema.title@),
        "Form title is required."@,
    );
    let b = form_validator::complaint(
        schema.title@.len() > 200,
        "Form title must be ≤200 characters."@,
    );
    let c = form_validator::complaint(
        schema.description@.len() > 2000,
        "Form description must be ≤2000 characters."@,
    );
    let d = form_validator::complaint(pages.len() == 0, "Form must have at least one page."@);
    let e = form_validator::complaint(
        pages.len() > 10,
        "Form has too many pages (max "@ + crate::numerals::nat_text(10) + ")."@,
    );
    let f = form_validator::pages_errors(pages);
    let g = form_validator::complaint(
        ids.len() > 50,
        "Form has "@ + crate::numerals::nat_text(ids.len()) + " questions; max is "@
            + crate::numerals::nat_text(50) + "."@,
    );
    assert(form_validator::form_errors(schema) == a + b + c + d + e + f + g);
    lemma_seven(a, b, c, d, e, f, g);
    assert(a.len() == 0 <==> says_something(schema.title@));
    assert(can_be_saved(schema) <==> a.len() == 0 && b.len() == 0 && c.len() == 0 && d.len() == 0
        && e.len() == 0 && f.len() == 0 && g.len() == 0);
}

proof fn lemma_answerable(questions: Seq<Question>)
    ensures
        crate::models::form::answerable(questions) == questions.filter(
            |q: Question| !(q.kind is Info || q.kind is Image || q.kind is Video),
        ),
    decreases questions.len(),
{
    reveal(Seq::filter);
    if questions.len() > 0 {
        lemma_answerable(questions.drop_last());
    }
}

/// The questions that are asked are those of the pages, in their order, but for the
/// elements that only show something.
pub proof fn law_all_questions_are_asked_in_order(schema: FormSchema, pages: Seq<Page>)
    ensures
        schema.asked() == crate::models::form::answerable_on(schema.pages@),
        crate::models::form::answerable_on(pages) == pages.map_values(
            |p: Page|
                p.questions@.filter(
                    |q: Question| !(q.kind is Info || q.kind is Image || q.kind is Video),
                ),
        ).flatten_alt(),
    decreases pages.len(),
{
    let f = |p: Page|
        p.questions@.filter(
            |q: Question| !(q.kind is Info || q.kind is Image || q.kind is Video),
        );
    let groups = pages.map_values(f);
    if pages.len() > 0 {
        law_all_questions_are_asked_in_order(schema, pages.drop_last());
        assert(groups.drop_last() =~= pages.drop_last().map_values(f));
        lemma_answerable(pages.last().questions@);
    }
}

proof fn lemma_keys(questions: Seq<Question>)
    ensures
        form_validator::all_key_errors(questions).len() == 0 <==> forall|i: int|
            0 <= i < questions.len() ==> form_validator::key_errors(
                #[trigger] questions[i],
            ).len() == 0,
    decreases questions.len(),
{
    if questions.len() > 0 {
        let before = questions.drop_last();
        lemma_keys(before);
        assert(questions[questions.len() - 1] == questions.last());
        assert forall|i: int| 0 <= i < before.len() implies #[trigger] before[i] == questions[i] by {}
        assert forall|i: int| 0 <= i < before.len() implies #[trigger] questions[i] == before[i] by {}
    }
}

/// The keys of a quiz are accepted just where every question awards between 0 and a
/// million points and every option that a choice accepts is one that it offers.
pub proof fn law_sound_keys_can_be_saved(questions: Seq<Question>)
    ensures
        form_validator::all_key_errors(questions).len() == 0 <==> forall|i: int|
            0 <= i < questions.len() ==> {
                let q = #[trigger] questions[i];
                let choice = q.kind is SingleChoice || q.kind is MultiChoice || q.kind is Dropdown;
                &&& q.points matches Some(p) ==> 0 <= p <= 1_000_000
                &&& choice ==> (q.correct matches Some(c) ==> forall|s: Seq<char>|
                    #[trigger] form_validator::accepted(c@).contains(s) ==> (q.options matches Some(
                        options,
                    ) && crate::laws::answers::is_offered(options@, s)))
            },
{
    lemma_keys(questions);
    assert forall|i: int| 0 <= i < questions.len() implies (form_validator::key_errors(
        #[trigger] questions[i],
    ).len() == 0 <==> {
        let q = questions[i];
        let choice = q.kind is SingleChoice || q.kind is MultiChoice || q.kind is Dropdown;
        &&& q.points matches Some(p) ==> 0 <= p <= 1_000_000
        &&& choice ==> (q.correct matches Some(c) ==> forall|s: Seq<char>|
            #[trigger] form_validator::accepted(c@).contains(s) ==> (q.options matches Some(options)
                && crate::laws::answers::is_offered(options@, s)))
    }) by {
        let q = questions[i];
        if let Some(c) = q.correct {
            let keys = form_validator::accepted(c@);
            let options = form_validator::offered(q);
            let ids = form_validator::option_ids(options);
            assert forall|s: Seq<char>| ids.contains(s) <==> #[trigger]
                crate::laws::answers::is_offered(options, s) by {
                crate::laws::answers::lemma_offered(options, s);
            }
            if crate::services::condition_eval::covered(keys, ids) {
                assert forall|s: Seq<char>| #[trigger] keys.contains(s) implies (q.options
                    matches Some(options) && crate::laws::answers::is_offered(options@, s)) by {
                    assert(ids.contains(keys[keys.index_of(s)]));
                    assert(crate::laws::answers::is_offered(options, s));
                }
            }
            if forall|s: Seq<char>| #[trigger]
                keys.contains(s) ==> (q.options matches Some(options)
                    && crate::laws::answers::is_offered(options@, s)) {
                assert forall|k: int| 0 <= k < keys.len() implies ids.contains(
                    #[trigger] keys[k],
                ) by {
                    assert(keys.contains(keys[k]));
                    assert(crate::laws::answers::is_offered(options, keys[k]));
                }
            }
        }
    }
}

} // verus!
