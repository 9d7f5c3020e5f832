//! What role configurations are for: what a manager posts is checked against the form,
//! stored as it was meant, and shown again.

use vstd::prelude::*;

use crate::error::{AppError, Failure};
use crate::json::{Json, Numeral};
use crate::models::condition;
use crate::models::condition::{ConditionOperator, Rule, Target};
use crate::models::form::{FormSchema, Question};
use crate::routes::role_config;
use crate::routes::role_config::{
    BoundSession, FormChoice, LinkSettings, PickedForm, RlTokenError, SaveAnswer, SaveStage,
};
use crate::schema;
use crate::schema::{ConditionInput, Config, RoleConfigBody};

verus! {

/// Comparisons store integers: that of an integral number, that of a text up to white
/// space around it, and that of any other number cut at the point. Nothing else is taken.
pub proof fn law_comparisons_store_integers(op: ConditionOperator, raw: Json, n: nat)
    requires
        op is Gt || op is Gte || op is Lt || op is Lte || op is Between,
    ensures
        ({
            let r = schema::stored_value(op, raw, n);
            &&& raw matches Json::Number(Numeral::PosInt(i)) ==> (i <= i64::MAX ==> r == Ok::<
                Json,
                Seq<char>,
            >(Json::Number(Numeral::PosInt(i))))
            &&& raw matches Json::Number(Numeral::NegInt(i)) ==> (i < 0 ==> r == Ok::<
                Json,
                Seq<char>,
            >(Json::Number(Numeral::NegInt(i))))
            &&& raw matches Json::Number(Numeral::Float { number, json }) ==> r == Ok::<
                Json,
                Seq<char>,
            >(Json::Number(Numeral::of_int(number.value.cut())))
            &&& raw matches Json::Text(s) ==> ({
                let numeral = crate::numerals::i64_of_text(crate::text::trimmed(s));
                &&& r is Ok <==> numeral is Some
                &&& r is Ok ==> r->Ok_0 == Json::Number(Numeral::of_int(numeral->0))
            })
            &&& raw !is Number && raw !is Text ==> r is Err
        }),
{
}

/// Operators on lists store the posted items but for those that are null or an empty
/// text, a single value as a list of one, and the texts between the commas of a text.
/// They are refused where none is left.
pub proof fn law_lists_store_what_is_in_them(op: ConditionOperator, raw: Json, n: nat)
    requires
        op is In || op is ContainsAll || op is ContainsAny || op is NotContains,
    ensures
        ({
            let r = schema::stored_value(op, raw, n);
            &&& raw matches Json::List(items) ==> ({
                let kept = items.filter(|x: Json| x !is Null && x != Json::Text(Seq::empty()));
                &&& r is Ok <==> kept.len() > 0
                &&& r is Ok ==> r->Ok_0 == Json::List(kept)
            })
            &&& raw matches Json::Text(s) ==> ({
                let parts = crate::text::split_parts(s, ","@).map_values(
                    |p: Seq<char>| crate::text::trimmed(p),
                ).filter(|p: Seq<char>| p.len() > 0);
                &&& r is Ok <==> parts.len() > 0
                &&& r is Ok ==> r->Ok_0 == Json::List(parts.map_values(|p: Seq<char>| Json::Text(p)))
            })
            &&& raw is Null ==> r is Err
            &&& raw is Bool || raw is Number || raw is Record ==> r == Ok::<Json, Seq<char>>(
                Json::List(seq![raw]),
            )
        }),
{
    if let Json::List(items) = raw {
        lemma_proper_items(items);
    }
    if let Json::Text(s) = raw {
        lemma_trimmed_items(crate::text::split_parts(s, ","@));
    }
    assert(Seq::empty().push(raw) =~= seq![raw]);
}

proof fn lemma_proper_items(items: Seq<Json>)
    ensures
        schema::proper_items(items) == items.filter(
            |x: Json| x !is Null && x != Json::Text(Seq::empty()),
        ),
    decreases items.len(),
{
    reveal(Seq::filter);
    let p = |x: Json| x !is Null && x != Json::Text(Seq::empty());
    if items.len() > 0 {
        lemma_proper_items(items.drop_last());
        let last = items.last();
        if let Json::Text(s) = last {
            if s.len() == 0 {
                assert(s =~= Seq::empty());
            }
        }
        assert(p(last) == (last !is Null && last != Json::Text(Seq::empty())));
    } else {
        assert(items.filter(p) =~= Seq::empty());
    }
}

proof fn lemma_trimmed_items(parts: Seq<Seq<char>>)
    ensures
        schema::trimmed_items(parts) == parts.map_values(
            |p: Seq<char>| crate::text::trimmed(p),
        ).filter(|p: Seq<char>| p.len() > 0).map_values(|p: Seq<char>| Json::Text(p)),
    decreases parts.len(),
{
    reveal(Seq::filter);
    let trim = |p: Seq<char>| crate::text::trimmed(p);
    let full = |p: Seq<char>| p.len() > 0;
    let text = |p: Seq<char>| Json::Text(p);
    let all = parts.map_values(trim);
    if parts.len() > 0 {
        let before = parts.drop_last();
        lemma_trimmed_items(before);
        assert(all.drop_last() =~= before.map_values(trim));
        assert(all.last() == crate::text::trimmed(parts.last()));
        let kept = before.map_values(trim).filter(full);
        assert(kept.push(all.last()).map_values(text) =~= kept.map_values(text).push(
            Json::Text(all.last()),
        ));
    } else {
        assert(all.filter(full).map_values(text) =~= Seq::empty());
    }
}

/// Dates store a text that is not blank, without the white space around it.
pub proof fn law_dates_store_their_text(op: ConditionOperator, raw: Json, n: nat)
    requires
        op is Before || op is After,
    ensures
        ({
            let r = schema::stored_value(op, raw, n);
            let full = raw is Text && crate::text::trimmed(raw->Text_0).len() > 0;
            &&& r is Ok <==> full
            &&& r is Ok ==> r->Ok_0 == Json::Text(crate::text::trimmed(raw->Text_0))
        }),
{
}

/// The other operators store what was posted as it is, but for a number, which becomes
/// its text; blank texts and nothing are refused.
pub proof fn law_texts_store_as_they_are(op: ConditionOperator, raw: Json, n: nat)
    requires
        op is Eq || op is Neq || op is Contains || op is Regex,
    ensures
        ({
            let r = schema::stored_value(op, raw, n);
            let blank = raw is Text && crate::text::trimmed(raw->Text_0).len() == 0;
            &&& r is Ok <==> raw !is Null && !blank
            &&& r is Ok && raw !is Number ==> r->Ok_0 == raw
            &&& r is Ok && raw is Number ==> r->Ok_0 == Json::Text(raw->Number_0.text())
        }),
{
}

/// Whether a condition of the operator may be about a target: the score of a quiz can be
/// compared, a question that the form asks can be tested, one of checkboxes as a list or
/// for equality, and without a form any question can.
pub open spec fn can_be_about(
    target: Seq<char>,
    op: ConditionOperator,
    form: Option<FormSchema>,
    quiz: bool,
) -> bool {
    if target == "__quiz_total_score__"@ {
        quiz && (op is Eq || op is Neq || op is Gt || op is Gte || op is Lt || op is Lte || op
            is Between)
    } else {
        form is Some ==> exists|i: int|
            {
                &&& 0 <= i < form->0.asked().len()
                &&& (#[trigger] form->0.asked()[i]).id@ == target
                &&& forall|j: int|
                    0 <= j < i ==> (#[trigger] form->0.asked()[j]).id@ != target
                &&& form->0.asked()[i].kind is MultiChoice ==> op is Eq || op is Neq || op
                    is ContainsAll || op is ContainsAny || op is NotContains
            }
    }
}

proof fn lemma_can_be_about(
    target: Seq<char>,
    op: ConditionOperator,
    form: Option<FormSchema>,
    quiz: bool,
    n: nat,
)
    ensures
        schema::stored_target(target, op, form, quiz, n) is Ok <==> can_be_about(
            target,
            op,
            form,
            quiz,
        ),
{
    if target != "__quiz_total_score__"@ && form is Some {
        let asked = form->0.asked();
        let ids = crate::models::form::question_ids(asked);
        crate::table::lemma_index_from(ids, target, 0);
        assert forall|j: int| 0 <= j < asked.len() implies #[trigger] ids[j] == asked[j].id@ by {}
        if let Some(i) = crate::table::index_of(ids, target) {
            assert(asked[i].id@ == target);
            assert forall|j: int| 0 <= j < i implies (#[trigger] asked[j]).id@ != target by {
                assert(ids[j] == asked[j].id@);
            }
        } else {
            assert forall|j: int| 0 <= j < asked.len() implies (#[trigger] asked[j]).id@
                != target by {
                assert(ids[j] == asked[j].id@);
            }
        }
    }
}

/// A posted condition is stored just where it names a target that it can be about and
/// gives a value, for a range a second one, and for a pattern one that builds; what is
/// stored is about that target, by that operator, with these values.
pub proof fn law_sound_conditions_are_stored(
    input: ConditionInput,
    op: ConditionOperator,
    form: Option<FormSchema>,
    quiz: bool,
    n: nat,
)
    requires
        crate::text::trimmed(input.operator@) == op.key(),
    ensures
        ({
            let r = schema::stored_rule(input, form, quiz, n);
            let target = crate::text::trimmed(input.target@);
            let value = schema::stored_value(op, input.value@, n);
            let end = if input.value_end is Some {
                schema::stored_value(op, input.value_end->0@, n)
            } else {
                Err(Seq::empty())
            };
            let pattern = if value is Ok && value->Ok_0 is Text {
                value->Ok_0->Text_0
            } else {
                Seq::empty()
            };
            &&& r is Ok <==> {
                &&& target.len() > 0
                &&& can_be_about(target, op, form, quiz)
                &&& value is Ok
                &&& op is Between ==> end is Ok
                &&& op is Regex ==> crate::outside::regex_valid(pattern, 1_048_576)
            }
            &&& r is Ok ==> ({
                let rule = r->Ok_0;
                &&& rule.operator == op
                &&& rule.value == value->Ok_0
                &&& rule.value_end == if op is Between {
                    Some(end->Ok_0)
                } else {
                    None
                }
                &&& rule.target == if target == "__quiz_total_score__"@ {
                    Target::QuizTotalScore
                } else {
                    Target::Question(target)
                }
            })
        }),
{
    condition::law_operator_key_reads_back(op);
    lemma_can_be_about(crate::text::trimmed(input.target@), op, form, quiz, n);
}

/// A condition whose operator there is none of is refused.
pub proof fn law_unknown_operators_are_refused(
    input: ConditionInput,
    form: Option<FormSchema>,
    quiz: bool,
    n: nat,
)
    requires
        forall|op: ConditionOperator|
            (#[trigger] op.key()) != crate::text::trimmed(input.operator@),
    ensures
        schema::stored_rule(input, form, quiz, n) is Err,
{
}

/// A complaint about a condition says which one it is about.
pub proof fn law_complaints_name_their_condition(
    input: ConditionInput,
    form: Option<FormSchema>,
    quiz: bool,
    n: nat,
)
    ensures
        schema::stored_rule(input, form, quiz, n) matches Err(e) ==> crate::text::begins_with(
            e,
            "Condition #"@ + crate::numerals::nat_text(n),
        ),
{
    let start = "Condition #"@ + crate::numerals::nat_text(n);
    if let Err(e) = schema::stored_rule(input, form, quiz, n) {
        assert(e.subrange(0, start.len() as int) =~= start);
    }
}

/// Posted conditions are stored just where each is, in their order; otherwise the first
/// that is not tells why.
pub proof fn law_each_condition_is_stored(
    inputs: Seq<ConditionInput>,
    form: Option<FormSchema>,
    quiz: bool,
)
    ensures
        ({
            let r = schema::stored_rules(inputs, form, quiz);
            &&& r is Ok <==> forall|i: int|
                0 <= i < inputs.len() ==> schema::stored_rule(
                    #[trigger] inputs[i],
                    form,
                    quiz,
                    (i + 1) as nat,
                ) is Ok
            &&& r is Ok ==> r->Ok_0.len() == inputs.len()
            &&& r is Ok ==> forall|i: int|
                0 <= i < inputs.len() ==> schema::stored_rule(
                    #[trigger] inputs[i],
                    form,
                    quiz,
                    (i + 1) as nat,
                ) == Ok::<Rule, Seq<char>>(r->Ok_0[i])
            &&& r is Err ==> exists|i: int|
                {
                    &&& 0 <= i < inputs.len()
                    &&& schema::stored_rule(#[trigger] inputs[i], form, quiz, (i + 1) as nat)
                        == Err::<Rule, Seq<char>>(r->Err_0)
                    &&& forall|j: int|
                        0 <= j < i ==> schema::stored_rule(
                            #[trigger] inputs[j],
                            form,
                            quiz,
                            (j + 1) as nat,
                        ) is Ok
                }
        }),
    decreases inputs.len(),
{
    if inputs.len() > 0 {
        let before = inputs.drop_last();
        law_each_condition_is_stored(before, form, quiz);
        assert forall|i: int| 0 <= i < before.len() implies before[i] == #[trigger] inputs[i] by {}
        let r = schema::stored_rules(before, form, quiz);
        let last: int = inputs.len() - 1;
        assert(inputs[last] == inputs.last());
        if r is Err {
            let k = choose|i: int|
                {
                    &&& 0 <= i < before.len()
                    &&& schema::stored_rule(#[trigger] before[i], form, quiz, (i + 1) as nat)
                        == Err::<Rule, Seq<char>>(r->Err_0)
                    &&& forall|j: int|
                        0 <= j < i ==> schema::stored_rule(
                            #[trigger] before[j],
                            form,
                            quiz,
                            (j + 1) as nat,
                        ) is Ok
                };
            assert(inputs[k] == before[k]);
            assert forall|j: int| 0 <= j < k implies schema::stored_rule(
                #[trigger] inputs[j],
                form,
                quiz,
                (j + 1) as nat,
            ) is Ok by {
                assert(before[j] == inputs[j]);
            }
        } else {
            assert forall|i: int| 0 <= i < before.len() implies schema::stored_rule(
                #[trigger] inputs[i],
                form,
                quiz,
                (i + 1) as nat,
            ) == Ok::<Rule, Seq<char>>(r->Ok_0[i]) by {
                assert(before[i] == inputs[i]);
            }
        }
    }
}

/// A posted configuration is stored just where its mode and its view permission are ones
/// that there are, and in the mode of conditions one to twelve conditions are given that
/// are all stored. What is stored is the trimmed id of the form, the mode, the
/// conditions of that mode, and the permission where one is given.
pub proof fn law_sound_configs_are_stored(
    body: RoleConfigBody,
    form: Option<FormSchema>,
    quiz: bool,
)
    ensures
        ({
            let r = schema::stored_config(body, form, quiz);
            let rules = schema::stored_rules(body.conditions@, form, quiz);
            let set = body.view_permission is Some && body.view_permission->0@.len() > 0;
            let permission = body.view_permission->0@;
            let any = body.mode@ == "any_submission"@;
            &&& r is Ok <==> {
                &&& any || body.mode@ == "conditions"@
                &&& set ==> permission == "members"@ || permission == "managers"@
                &&& any || (1 <= body.conditions@.len() <= 12 && rules is Ok)
            }
            &&& r is Ok ==> ({
                let config = r->Ok_0;
                &&& config.grant_on_any_submission == any
                &&& config.conditions == if any {
                    Seq::empty()
                } else {
                    rules->Ok_0
                }
                &&& config.view_permission == if set {
                    Some(permission)
                } else {
                    None
                }
                &&& config.form_id is Some <==> body.form_id is Some && crate::text::trimmed(
                    body.form_id->0@,
                ).len() > 0
                &&& config.form_id is Some ==> config.form_id->0 == crate::text::trimmed(
                    body.form_id->0@,
                )
            })
        }),
{
    reveal_strlit("any_submission");
    reveal_strlit("conditions");
    assert("any_submission"@.len() == 14);
    assert("conditions"@.len() == 10);
}

/// The saving of a configuration, from the role link on. A link that is not there ends
/// it. Where a form is picked, it is looked for; where none is, the configuration is
/// checked without one.
pub proof fn law_configs_are_checked_against_their_form(
    body: RoleConfigBody,
    picked: Option<PickedForm>,
    form: u128,
    guild_id: Seq<char>,
    role_id: Seq<char>,
    e: AppError,
)
    ensures
        ({
            let found = role_config::save_next(
                SaveStage::FindLink(body),
                SaveAnswer::Link(Ok(true)),
                guild_id,
                role_id,
            );
            let given = body.form_id is Some && crate::text::trimmed(body.form_id->0@).len() > 0;
            let number = crate::outside::uuid_number(crate::text::trimmed(body.form_id->0@));
            let alone = schema::stored_config(body, None, false);
            &&& given && number is Some ==> found == SaveStage::FindForm(body, number->0)
            &&& given && number is None ==> (found matches SaveStage::Done(Err(f)) && f
                is BadRequest)
            &&& !given && alone is Ok ==> found == SaveStage::Write(alone->Ok_0)
            &&& !given && alone is Err ==> found == SaveStage::Done(
                Err(Failure::BadRequest(alone->Err_0)),
            )
        }),
        ({
            let missing = role_config::save_next(
                SaveStage::FindLink(body),
                SaveAnswer::Link(Ok(false)),
                guild_id,
                role_id,
            );
            missing matches SaveStage::Done(Err(f)) && f is NotFound
        }),
        ({
            let next = role_config::save_next(
                SaveStage::FindForm(body, form),
                SaveAnswer::Form(Ok(picked)),
                guild_id,
                role_id,
            );
            match picked {
                None => next matches SaveStage::Done(Err(f)) && f is BadRequest,
                Some(p) => match schema::stored_config(body, p.schema, p.is_quiz) {
                    Ok(config) => next == SaveStage::Write(config),
                    Err(m) => next == SaveStage::Done(Err(Failure::BadRequest(m))),
                },
            }
        }),
        role_config::save_next(
            SaveStage::FindLink(body),
            SaveAnswer::Link(Err(e)),
            guild_id,
            role_id,
        ) == SaveStage::Done(Err(e@)),
        role_config::save_next(
            SaveStage::FindForm(body, form),
            SaveAnswer::Form(Err(e)),
            guild_id,
            role_id,
        ) == SaveStage::Done(Err(e@)),
{
}

/// A configuration that is written has its link worked out anew, and that is all of it.
pub proof fn law_written_configs_take_effect(
    config: Config,
    guild_id: Seq<char>,
    role_id: Seq<char>,
    e: AppError,
)
    ensures
        ({
            let written = role_config::save_next(
                SaveStage::Write(config),
                SaveAnswer::Written(Ok(())),
                guild_id,
                role_id,
            );
            let queued = role_config::save_next(written, SaveAnswer::Enqueued, guild_id, role_id);
            &&& written matches SaveStage::Enqueue(job) && job.kind is ConfigSync
                && job.payload.field("guild_id"@) == Some(Json::Text(guild_id))
                && job.payload.field("role_id"@) == Some(Json::Text(role_id))
            &&& queued matches SaveStage::Done(Ok(reply)) && reply.field("success"@) == Some(
                Json::Bool(true),
            )
        }),
        role_config::save_next(
            SaveStage::Write(config),
            SaveAnswer::Written(Err(e)),
            guild_id,
            role_id,
        ) == SaveStage::Done(Err(e@)),
{
    crate::laws::queue::law_jobs_ask_for_what_they_were_enqueued_for(
        crate::services::jobs::PlayerEvent::Updated(guild_id),
        guild_id,
        role_id,
        guild_id,
        Json::Null,
    );
    crate::laws::submissions::lemma_no_field("success"@);
    crate::laws::submissions::lemma_with(
        Json::empty(),
        "success"@,
        Json::Bool(true),
        "success"@,
    );
}

/// The page shows the mode of conditions just where the link has some and is not open to
/// all.
pub proof fn law_modes_are_shown(link: LinkSettings)
    ensures
        ({
            let some = link.conditions@ is List && link.conditions@->List_0.len() > 0;
            &&& role_config::shown_mode(link) == "conditions"@ <==> some
                && !link.grant_on_any_submission
            &&& role_config::shown_mode(link) == "any_submission"@ <==> !some
                || link.grant_on_any_submission
        }),
{
    reveal_strlit("any_submission");
    reveal_strlit("conditions");
    assert("any_submission"@.len() == 14);
    assert("conditions"@.len() == 10);
}

/// The page is given the link, its form, its mode, all its conditions, and every form of
/// the guild.
pub proof fn law_pages_are_given_the_whole_link(
    guild_id: Seq<char>,
    role_id: Seq<char>,
    link: LinkSettings,
    forms: Seq<FormChoice>,
    i: int,
)
    requires
        0 <= i < forms.len(),
    ensures
        ({
            let page = role_config::page_json(guild_id, role_id, link, forms);
            let config = page.field("config"@)->0;
            let given = page.field("forms"@)->0;
            &&& page.field("guild_id"@) == Some(Json::Text(guild_id))
            &&& page.field("role_id"@) == Some(Json::Text(role_id))
            &&& page.field("max_conditions"@) == Some(Json::Number(Numeral::PosInt(12)))
            &&& page.field("config"@) is Some
            &&& config.field("mode"@) == Some(Json::Text(role_config::shown_mode(link)))
            &&& config.field("form_id"@) == Some(
                Json::Text(
                    if link.form_id is Some {
                        link.form_id->0@
                    } else {
                        Seq::empty()
                    },
                ),
            )
            &&& config.field("conditions"@) is Some
            &&& link.conditions@ is List ==> config.field("conditions"@)->0 == Json::List(
                link.conditions@->List_0.map_values(|c: Json| role_config::shown_condition(c)),
            )
            &&& page.field("forms"@) is Some
            &&& given is List
            &&& given->List_0.len() == forms.len()
            &&& given->List_0[i].field("id"@) == Some(Json::Text(forms[i].id@))
            &&& given->List_0[i].field("title"@) == Some(Json::Text(forms[i].title@))
            &&& given->List_0[i].field("is_quiz"@) == Some(Json::Bool(forms[i].is_quiz))
            &&& given->List_0[i].field("archived"@) == Some(Json::Bool(forms[i].archived))
            &&& given->List_0[i].field("questions"@) == Some(
                role_config::questions_json(forms[i].schema),
            )
        }),
{
    reveal_strlit("config");
    reveal_strlit("forms");
    reveal_strlit("guild_id");
    reveal_strlit("max_conditions");
    reveal_strlit("operators");
    reveal_strlit("role_id");
    assert("config"@[0] == 'c' && "forms"@[0] == 'f' && "guild_id"@[0] == 'g'
        && "max_conditions"@[0] == 'm' && "operators"@[0] == 'o' && "role_id"@[0] == 'r');
    let page = role_config::page_json(guild_id, role_id, link, forms)->Record_0;
    assert(page.len() == 6);
    assert(page[0].0 == "config"@ && page[1].0 == "forms"@ && page[2].0 == "guild_id"@ && page[3].0
        == "max_conditions"@ && page[4].0 == "operators"@ && page[5].0 == "role_id"@);
    crate::laws::queue::lemma_field_at(page, 0);
    crate::laws::queue::lemma_field_at(page, 1);
    crate::laws::queue::lemma_field_at(page, 2);
    crate::laws::queue::lemma_field_at(page, 3);
    crate::laws::queue::lemma_field_at(page, 5);
    reveal_strlit("conditions");
    reveal_strlit("form_id");
    reveal_strlit("mode");
    assert("conditions"@[0] == 'c' && "form_id"@[0] == 'f' && "mode"@[0] == 'm');
    let config = page[0].1->Record_0;
    assert(config.len() == 3);
    assert(config[0].0 == "conditions"@ && config[1].0 == "form_id"@ && config[2].0 == "mode"@);
    crate::laws::queue::lemma_field_at(config, 0);
    crate::laws::queue::lemma_field_at(config, 1);
    crate::laws::queue::lemma_field_at(config, 2);
    reveal_strlit("archived");
    reveal_strlit("id");
    reveal_strlit("is_quiz");
    reveal_strlit("questions");
    reveal_strlit("title");
    assert("archived"@[0] == 'a' && "id"@[0] == 'i' && "is_quiz"@[0] == 'i' && "questions"@[0]
        == 'q' && "title"@[0] == 't');
    assert("id"@.len() == 2 && "is_quiz"@.len() == 7);
    let form = role_config::form_json(forms[i])->Record_0;
    assert(form.len() == 5);
    assert(form[0].0 == "archived"@ && form[1].0 == "id"@ && form[2].0 == "is_quiz"@ && form[3].0
        == "questions"@ && form[4].0 == "title"@);
    crate::laws::queue::lemma_field_at(form, 0);
    crate::laws::queue::lemma_field_at(form, 1);
    crate::laws::queue::lemma_field_at(form, 2);
    crate::laws::queue::lemma_field_at(form, 3);
    crate::laws::queue::lemma_field_at(form, 4);
}

/// The page is given every question that the form asks, with its options.
pub proof fn law_pages_are_given_every_question(form: FormSchema, i: int, k: int)
    requires
        0 <= i < form.asked().len(),
    ensures
        ({
            let q = form.asked()[i];
            let given = role_config::questions_json(Some(form));
            let shown = given->List_0[i];
            let options = shown.field("options"@)->0;
            &&& given is List
            &&& given->List_0.len() == form.asked().len()
            &&& shown.field("id"@) == Some(Json::Text(q.id@))
            &&& shown.field("title"@) == Some(Json::Text(q.title@))
            &&& shown.field("kind"@) == Some(Json::Text(q.kind.name()))
            &&& shown.field("is_array_valued"@) == Some(Json::Bool(q.kind is MultiChoice))
            &&& shown.field("options"@) is Some
            &&& q.options is None ==> options == Json::List(Seq::empty())
            &&& q.options is Some ==> options is List && options->List_0.len()
                == q.options->0@.len()
            &&& q.options is Some && 0 <= k < q.options->0@.len() ==> {
                &&& options->List_0[k].field("id"@) == Some(Json::Text(q.options->0@[k].id@))
                &&& options->List_0[k].field("label"@) == Some(Json::Text(q.options->0@[k].label@))
            }
        }),
        role_config::questions_json(None) == Json::List(Seq::empty()),
{
    reveal_strlit("id");
    reveal_strlit("is_array_valued");
    reveal_strlit("kind");
    reveal_strlit("options");
    reveal_strlit("title");
    reveal_strlit("label");
    assert("id"@[0] == 'i' && "is_array_valued"@[0] == 'i' && "kind"@[0] == 'k' && "options"@[0]
        == 'o' && "title"@[0] == 't' && "label"@[0] == 'l');
    assert("id"@.len() == 2 && "is_array_valued"@.len() == 15);
    let q = form.asked()[i];
    let f = role_config::question_json(q)->Record_0;
    assert(f.len() == 5);
    assert(f[0].0 == "id"@ && f[1].0 == "is_array_valued"@ && f[2].0 == "kind"@ && f[3].0
        == "options"@ && f[4].0 == "title"@);
    crate::laws::queue::lemma_field_at(f, 0);
    crate::laws::queue::lemma_field_at(f, 1);
    crate::laws::queue::lemma_field_at(f, 2);
    crate::laws::queue::lemma_field_at(f, 3);
    crate::laws::queue::lemma_field_at(f, 4);
    if q.options is Some && 0 <= k < q.options->0@.len() {
        let o = q.options->0@[k];
        let pair = Json::empty().with("id"@, Json::Text(o.id@)).with("label"@, Json::Text(o.label@));
        let g = pair->Record_0;
        assert(g.len() == 2 && g[0].0 == "id"@ && g[1].0 == "label"@);
        crate::laws::queue::lemma_field_at(g, 0);
        crate::laws::queue::lemma_field_at(g, 1);
    }
}

/// The kinds of questions that an operator is offered for: comparisons for numbers,
/// scales and the score, dates for dates, lists of choices for checkboxes, patterns and
/// parts for what is written freely, and equality for all of these texts.
pub proof fn law_operators_are_offered_for_their_kinds(op: ConditionOperator)
    ensures
        exists|i: int|
            {
                &&& 0 <= i < role_config::operators_json().len()
                &&& (#[trigger] role_config::operators_json()[i]).field("key"@) == Some(
                    Json::Text(op.key()),
                )
                &&& role_config::operators_json()[i].field("kinds"@) == Some(
                    crate::json::texts_json(offered_for(op)),
                )
            },
{
    reveal_strlit("key");
    reveal_strlit("kinds");
    reveal_strlit("label");
    assert("key"@.len() == 3 && "kinds"@.len() == 5 && "kinds"@[0] == 'k' && "label"@[0] == 'l');
    let all = role_config::operators_json();
    let i: int = match op {
        ConditionOperator::Eq => 0,
        ConditionOperator::Neq => 1,
        ConditionOperator::Contains => 2,
        ConditionOperator::Regex => 3,
        ConditionOperator::In => 4,
        ConditionOperator::ContainsAll => 5,
        ConditionOperator::ContainsAny => 6,
        ConditionOperator::NotContains => 7,
        ConditionOperator::Gt => 8,
        ConditionOperator::Gte => 9,
        ConditionOperator::Lt => 10,
        ConditionOperator::Lte => 11,
        ConditionOperator::Between => 12,
        ConditionOperator::Before => 13,
        ConditionOperator::After => 14,
    };
    let f = all[i]->Record_0;
    assert(f.len() == 3);
    assert(f[0] == ("key"@, Json::Text(op.key())));
    assert(f[1].0 == "kinds"@);
    assert(f[1].1->List_0 =~= crate::json::texts_json(offered_for(op))->List_0);
    crate::laws::queue::lemma_field_at(f, 0);
    crate::laws::queue::lemma_field_at(f, 1);
}

/// The kinds of questions that an operator is offered for.
pub open spec fn offered_for(op: ConditionOperator) -> Seq<Seq<char>> {
    match op {
        ConditionOperator::Eq => seq![
            "short_text"@,
            "long_text"@,
            "email"@,
            "single_choice"@,
            "dropdown"@,
            "agreement"@,
            "multi_choice"@,
        ],
        ConditionOperator::Neq | ConditionOperator::In => seq![
            "short_text"@,
            "long_text"@,
            "email"@,
            "single_choice"@,
            "dropdown"@,
            "agreement"@,
        ],
        ConditionOperator::Contains | ConditionOperator::Regex => seq![
            "short_text"@,
            "long_text"@,
            "email"@,
        ],
        ConditionOperator::ContainsAll
        | ConditionOperator::ContainsAny
        | ConditionOperator::NotContains => seq!["multi_choice"@],
        ConditionOperator::Before | ConditionOperator::After => seq!["date"@],
        _ => seq!["number"@, "scale"@, "__quiz_total_score__"@],
    }
}

/// A header carries a token just where it starts with the word and a space, and the token
/// is the rest of it.
pub proof fn law_bearers_carry_their_token(header: Seq<char>, token: Seq<char>)
    ensures
        role_config::bearer(Some("Bearer "@ + token)) == Some(token),
        role_config::bearer(None) is None,
        role_config::bearer(Some(header)) is Some ==> header == "Bearer "@ + role_config::bearer(
            Some(header),
        )->0,
{
    let word = "Bearer "@;
    let whole = word + token;
    assert(whole.subrange(0, word.len() as int) =~= word);
    assert(whole.skip(word.len() as int) =~= token);
    if role_config::bearer(Some(header)) is Some {
        assert(header =~= word + header.skip(word.len() as int));
    }
}

/// A token lets in the member whom it was signed for, at the link that it was signed
/// for, and nobody elsewhere.
pub proof fn law_tokens_let_their_member_in(
    s: BoundSession,
    e: RlTokenError,
    guild_id: Seq<char>,
    role_id: Seq<char>,
)
    ensures
        ({
            let fits = s.guild_id@ == guild_id && s.role_id@ == role_id;
            let entered = role_config::entrant(Ok(s), guild_id, role_id);
            let called = role_config::bearer_caller(Some(s), guild_id, role_id);
            &&& entered == Ok::<Seq<char>, Seq<char>>(s.discord_id@) <==> fits
            &&& entered is Err <==> !fits
            &&& called == Ok::<Seq<char>, Failure>(s.discord_id@) <==> fits
            &&& !fits ==> (called matches Err(f) && f is Forbidden)
        }),
        role_config::entrant(Err(e), guild_id, role_id) is Err,
        role_config::bearer_caller(None, guild_id, role_id) matches Err(f) && f is UnauthorizedWith,
{
}

} // verus!
