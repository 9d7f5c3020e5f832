//! Member-facing form-fill flow: what a visitor of a form is shown, and what
//! comes of a submission.

use vstd::prelude::*;

use crate::error::{AppError, Failure, Fault};
use crate::json::{integer, no_fields, object, push_field, text};
use crate::json::{Json, NumberTable, Numeral, RealView, Value};
use crate::models::form::FormSchema;
use crate::numerals::{i32_text, i64_text, parse_u64};
use crate::outside::percent_encode;
use crate::routes::pages::{render_form_signin, render_status};
use crate::services::form_validator::{compute_quiz_score, read_stored, validate, VerifiedAnswers};
use crate::services::jobs::{
    enqueue_player_sync, enqueue_webhook, NewJob, PlayerEvent, PlayerSyncPayload, Task,
};
use crate::services::retry::{
    decide, DenyReason, ExistingAttempt, NewSubmission, RetryConfig,
};
use crate::services::webhook::build_payload;
use crate::table::member;
use crate::text::{blank, cat2, cat3, cat5, chars_of, owned, replace, same};
use crate::time::Timestamp;

verus! {

/// What a preview is asked for with.
#[derive(Debug)]
pub struct PreviewQuery {
    pub token: String,
}

/// What a member submits: the answers, and the version of the form that they
/// were given to.
#[derive(Debug)]
pub struct SubmitBody {
    pub answers: Value,
    pub version: i32,
}

/// The cookie that holds a visitor's session.
pub const SESSION_COOKIE: &'static str = "rl_session";

/// A stored form.
#[derive(Debug)]
pub struct FormRow {
    pub guild_id: String,
    pub slug: String,
    pub title: String,
    pub description: String,
    pub version: i32,
    pub schema: Value,
    pub is_quiz: bool,
    pub open_at: Option<Timestamp>,
    pub close_at: Option<Timestamp>,
    pub allow_edits: bool,
    pub single_submission: bool,
    pub require_verified: bool,
    pub min_account_age_days: i32,
    pub success_message: String,
    pub preview_token: String,
    pub webhook_url: Option<String>,
    pub archived: bool,
    pub passing_score: Option<i32>,
    pub retry: RetryConfig,
}

impl FormRow {
    /// Whether the times of the form are proper instants.
    pub open spec fn wf(self) -> bool {
        &&& self.open_at matches Some(t) ==> t.wf()
        &&& self.close_at matches Some(t) ==> t.wf()
    }

    /// Whether the form has not opened yet.
    pub open spec fn opens_after(self, now: Timestamp) -> bool {
        self.open_at matches Some(t) && now.instant() < t.instant()
    }

    /// Whether the form has closed.
    pub open spec fn closed_before(self, now: Timestamp) -> bool {
        self.close_at matches Some(t) && t.instant() < now.instant()
    }

    fn not_yet_open(&self, now: Timestamp) -> (r: bool)
        requires
            self.wf(),
            now.wf(),
        ensures
            r == self.opens_after(now),
    {
        match self.open_at {
            Some(t) => now.before(t),
            None => false,
        }
    }

    fn has_closed(&self, now: Timestamp) -> (r: bool)
        requires
            self.wf(),
            now.wf(),
        ensures
            r == self.closed_before(now),
    {
        match self.close_at {
            Some(t) => t.before(now),
            None => false,
        }
    }
}

// ---------------------------------------------------------------------------
// The age of an account
// ---------------------------------------------------------------------------

/// Nanoseconds in a day.
pub const DAY_NANOS: i64 = 86_400_000_000_000;

/// When the account with the number was made, in seconds since the start of
/// 1970: the number's upper bits count milliseconds since the start of 2015.
pub open spec fn account_birth(snowflake: u64) -> int {
    (snowflake as int / 4_194_304 + 1_420_070_400_000) / 1000
}

/// A quotient cut towards zero.
pub open spec fn cut_quotient(a: int, b: int) -> int {
    if a >= 0 {
        a / b
    } else {
        -((-a) / b)
    }
}

/// The age of an account in whole days; nothing where its id is no number.
pub open spec fn account_age(discord_id: Seq<char>, now: Timestamp) -> Option<int> {
    match crate::numerals::u64_of_text(discord_id) {
        Some(snowflake) => Some(
            cut_quotient(
                now.instant() - account_birth(snowflake) * 1_000_000_000,
                DAY_NANOS as int,
            ),
        ),
        None => None,
    }
}

/// The age that counts for a form: 0 where it is not known.
pub open spec fn age_or_zero(discord_id: Seq<char>, now: Timestamp) -> int {
    match account_age(discord_id, now) {
        Some(days) => days,
        None => 0,
    }
}

/// The age of an account in whole days; nothing where its id is no number.
pub fn discord_account_age_days(discord_id: &str, now: Timestamp) -> (r: Option<i64>)
    requires
        now.wf(),
    ensures
        match r {
            Some(days) => account_age(discord_id@, now) == Some(days as int),
            None => account_age(discord_id@, now) is None,
        },
{
    let snowflake: u64 = match parse_u64(discord_id) {
        Some(n) => n,
        None => return None,
    };
    let created: i64 = ((snowflake / 4_194_304 + 1_420_070_400_000) / 1000) as i64;
    let elapsed: i128 = (now.secs as i128) * 1_000_000_000 + (now.nanos as i128) - (created as i128)
        * 1_000_000_000;
    let day: i128 = DAY_NANOS as i128;
    assert(-20_000_000_000_000_000_000_000 < elapsed < 20_000_000_000_000_000_000_000);
    if elapsed >= 0 {
        Some((elapsed / day) as i64)
    } else {
        Some(-(((-elapsed) / day) as i64))
    }
}

/// Whether an account is too young for a form.
pub open spec fn too_young(form: FormRow, discord_id: Seq<char>, now: Timestamp) -> bool {
    form.min_account_age_days > 0 && age_or_zero(discord_id, now) < form.min_account_age_days
}

fn known_age(discord_id: &str, now: Timestamp) -> (r: i64)
    requires
        now.wf(),
    ensures
        r == age_or_zero(discord_id@, now),
{
    match discord_account_age_days(discord_id, now) {
        Some(days) => days,
        None => 0,
    }
}

// ---------------------------------------------------------------------------
// Escaping
// ---------------------------------------------------------------------------

/// The character as it stands in HTML.
pub open spec fn html_escape(c: char) -> Seq<char> {
    if c == '&' {
        "&amp;"@
    } else if c == '<' {
        "&lt;"@
    } else if c == '>' {
        "&gt;"@
    } else if c == '"' {
        "&quot;"@
    } else if c == '\'' {
        "&#39;"@
    } else {
        seq![c]
    }
}

/// `s` as it stands in HTML.
pub open spec fn html_escaped(s: Seq<char>) -> Seq<char> {
    crate::text::spelled(s, |c: char| html_escape(c))
}

/// `s` as it stands in HTML.
pub fn escape_html(s: &str) -> (r: String)
    ensures
        r@ == html_escaped(s@),
{
    let v = chars_of(s);
    let ghost f = |c: char| html_escape(c);
    let mut out: String = String::new();
    for i in 0..v.len()
        invariant
            v@ == s@,
            f == |c: char| html_escape(c),
            out@ == crate::text::spelled(s@.take(i as int), f),
    {
        let c = v[i];
        let ghost before = out@;
        if c == '&' {
            out.append("&amp;");
        } else if c == '<' {
            out.append("&lt;");
        } else if c == '>' {
            out.append("&gt;");
        } else if c == '"' {
            out.append("&quot;");
        } else if c == '\'' {
            out.append("&#39;");
        } else {
            out.push(c);
        }
        proof {
            assert(s@.take(i + 1).drop_last() =~= s@.take(i as int));
            assert(out@ =~= before + html_escape(c));
        }
    }
    assert(s@.take(s@.len() as int) =~= s@);
    out
}

/// An escaped text holds no character that could start or end a tag or an
/// attribute.
pub proof fn law_escaped_text_is_inert(s: Seq<char>)
    ensures
        forall|i: int|
            0 <= i < html_escaped(s).len() ==> {
                let c = #[trigger] html_escaped(s)[i];
                c != '<' && c != '>' && c != '"' && c != '\''
            },
    decreases s.len(),
{
    let f = |c: char| html_escape(c);
    reveal_strlit("&amp;");
    reveal_strlit("&lt;");
    reveal_strlit("&gt;");
    reveal_strlit("&quot;");
    reveal_strlit("&#39;");
    if s.len() > 0 {
        law_escaped_text_is_inert(s.drop_last());
        let before = html_escaped(s.drop_last());
        let last = html_escape(s.last());
        assert(html_escaped(s) == before + last);
        assert forall|i: int| 0 <= i < html_escaped(s).len() implies ({
            let c = #[trigger] html_escaped(s)[i];
            c != '<' && c != '>' && c != '"' && c != '\''
        }) by {
            if i < before.len() {
                assert(html_escaped(s)[i] == before[i]);
            } else {
                assert(html_escaped(s)[i] == last[i - before.len()]);
                let k = i - before.len();
                if s.last() == '&' {
                    assert(0 <= k < 5);
                } else if s.last() == '<' || s.last() == '>' {
                    assert(0 <= k < 4);
                } else if s.last() == '"' {
                    assert(0 <= k < 6);
                } else if s.last() == '\'' {
                    assert(0 <= k < 5);
                }
            }
        }
    }
}

// ---------------------------------------------------------------------------
// What a visitor is shown
// ---------------------------------------------------------------------------

/// What comes next for a visitor of a form.
#[derive(Debug, PartialEq)]
pub enum Visit {
    /// The visit fails.
    Fail(AppError),
    /// This page is shown.
    Page(String),
    /// Find out which guilds the visitor is in.
    CheckMembership,
    /// The form is shown.
    Show,
}

/// What a `Visit` stands for.
pub enum Sight {
    Fail(Failure),
    Page(Seq<char>),
    CheckMembership,
    Show,
}

impl View for Visit {
    type V = Sight;

    open spec fn view(&self) -> Sight {
        match *self {
            Visit::Fail(e) => Sight::Fail(e@),
            Visit::Page(s) => Sight::Page(s@),
            Visit::CheckMembership => Sight::CheckMembership,
            Visit::Show => Sight::Show,
        }
    }
}

/// The page that tells a visitor why a form is not shown.
pub open spec fn status_body(
    base_url: Seq<char>,
    title: Seq<char>,
    message: Seq<char>,
) -> Seq<char> {
    crate::routes::pages::status_page(html_escaped(title), base_url, html_escaped(message))
}

/// The page that asks a visitor to sign in.
pub open spec fn signin_body(base_url: Seq<char>, form: FormRow, slug: Seq<char>) -> Seq<char> {
    crate::routes::pages::form_signin_page(
        html_escaped(form.title@),
        base_url,
        html_escaped(form.description@),
        html_escaped(slug),
        if form.description@.len() == 0 {
            Seq::empty()
        } else {
            "<p>"@ + html_escaped(form.description@) + "</p>"@
        },
        crate::outside::percent_encoded(
            vstd::utf8::encode_utf8("/form-respondent-role/f/"@ + slug),
        ),
    )
}

/// What comes of a visit to a form at the time `now`. `visitor` is the id of the
/// account that is signed in, if one is.
pub open spec fn visited(
    base_url: Seq<char>,
    form: FormRow,
    slug: Seq<char>,
    now: Timestamp,
    visitor: Option<Seq<char>>,
) -> Sight {
    if form.archived {
        Sight::Fail(Failure::FormNotFound(slug))
    } else if form.opens_after(now) {
        Sight::Page(
            status_body(
                base_url,
                form.title@,
                "This form opens at "@ + form.open_at->0.text() + "."@,
            ),
        )
    } else if form.closed_before(now) {
        Sight::Page(
            status_body(base_url, form.title@, "This form is no longer accepting submissions."@),
        )
    } else {
        match visitor {
            None => Sight::Page(signin_body(base_url, form, slug)),
            Some(discord_id) => if too_young(form, discord_id, now) {
                Sight::Page(
                    status_body(
                        base_url,
                        form.title@,
                        "Your Discord account must be at least "@ + crate::numerals::int_text(
                            form.min_account_age_days as int,
                        ) + " days old to submit this form (yours is "@
                            + crate::numerals::int_text(age_or_zero(discord_id, now))
                            + " days)."@,
                    ),
                )
            } else if form.require_verified {
                Sight::CheckMembership
            } else {
                Sight::Show
            },
        }
    }
}

/// What comes of the check on membership: `guilds` are the guilds of the
/// visitor, nothing where they could not be had.
pub open spec fn membership_seen(
    base_url: Seq<char>,
    form: FormRow,
    guilds: Option<Seq<Seq<char>>>,
) -> Sight {
    match guilds {
        None => Sight::Page(
            status_body(
                base_url,
                form.title@,
                "We couldn't verify your server membership right now. Please refresh in a moment."@,
            ),
        ),
        Some(ids) => if ids.contains(form.guild_id@) {
            Sight::Show
        } else {
            Sight::Page(
                status_body(
                    base_url,
                    form.title@,
                    "You must be a member of the server before you can submit this form."@,
                ),
            )
        },
    }
}

/// The page that tells a visitor why a form is not shown.
pub fn render_status_page(base_url: &str, form_title: &str, message: &str) -> (r: String)
    ensures
        r@ == status_body(base_url@, form_title@, message@),
{
    render_status(
        escape_html(form_title).as_str(),
        base_url,
        escape_html(message).as_str(),
    )
}

/// The page that asks a visitor to sign in.
pub fn render_signin_page(base_url: &str, form: &FormRow, slug: &str) -> (r: String)
    ensures
        r@ == signin_body(base_url@, *form, slug@),
{
    let description = escape_html(form.description.as_str());
    let block = if form.description.as_str().unicode_len() == 0 {
        String::new()
    } else {
        cat3("<p>", description.as_str(), "</p>")
    };
    let return_to = cat2("/form-respondent-role/f/", slug);
    render_form_signin(
        escape_html(form.title.as_str()).as_str(),
        base_url,
        description.as_str(),
        escape_html(slug).as_str(),
        block.as_str(),
        percent_encode(return_to.as_str()).as_str(),
    )
}

/// What comes of a visit to a form.
pub fn get_form(
    base_url: &str,
    form: &FormRow,
    slug: &str,
    now: Timestamp,
    visitor: Option<&str>,
) -> (r: Visit)
    requires
        form.wf(),
        now.wf(),
    ensures
        r@ == visited(
            base_url@,
            *form,
            slug@,
            now,
            match visitor {
                Some(id) => Some(id@),
                None => None,
            },
        ),
{
    let title = form.title.as_str();
    if form.archived {
        return Visit::Fail(AppError::FormNotFound(owned(slug)));
    }
    if let Some(open_at) = form.open_at {
        if now.before(open_at) {
            let message = cat3("This form opens at ", open_at.to_rfc3339().as_str(), ".");
            return Visit::Page(render_status_page(base_url, title, message.as_str()));
        }
    }
    if form.has_closed(now) {
        return Visit::Page(
            render_status_page(base_url, title, "This form is no longer accepting submissions."),
        );
    }
    let discord_id = match visitor {
        Some(id) => id,
        None => return Visit::Page(render_signin_page(base_url, form, slug)),
    };
    if form.min_account_age_days > 0 {
        let age: i64 = known_age(discord_id, now);
        if age < form.min_account_age_days as i64 {
            let message = cat5(
                "Your Discord account must be at least ",
                i32_text(form.min_account_age_days).as_str(),
                " days old to submit this form (yours is ",
                i64_text(age).as_str(),
                " days).",
            );
            return Visit::Page(render_status_page(base_url, title, message.as_str()));
        }
    }
    if form.require_verified {
        Visit::CheckMembership
    } else {
        Visit::Show
    }
}

/// The view of an optional list of texts.
pub open spec fn some_texts(v: Option<&Vec<String>>) -> Option<Seq<Seq<char>>> {
    match v {
        Some(list) => Some(crate::text::texts(list@)),
        None => None,
    }
}

/// What comes of the check on membership. A gateway that fails is told of,
/// instead of silently denying access.
pub fn membership_checked(base_url: &str, form: &FormRow, guilds: Option<&Vec<String>>) -> (r:
    Visit)
    ensures
        r@ == membership_seen(base_url@, *form, some_texts(guilds)),
{
    let title = form.title.as_str();
    match guilds {
        None => Visit::Page(
            render_status_page(
                base_url,
                title,
                "We couldn't verify your server membership right now. Please refresh in a moment.",
            ),
        ),
        Some(ids) => if member(ids, form.guild_id.as_str()) {
            Visit::Show
        } else {
            Visit::Page(
                render_status_page(
                    base_url,
                    title,
                    "You must be a member of the server before you can submit this form.",
                ),
            )
        },
    }
}

/// A form is shown only while it is open and not archived, and only to a
/// visitor who is signed in.
pub proof fn law_forms_are_shown_to_the_entitled(
    base_url: Seq<char>,
    form: FormRow,
    slug: Seq<char>,
    now: Timestamp,
    visitor: Option<Seq<char>>,
)
    ensures
        visited(base_url, form, slug, now, visitor) is Show || visited(
            base_url,
            form,
            slug,
            now,
            visitor,
        ) is CheckMembership ==> {
            &&& !form.archived
            &&& !form.opens_after(now)
            &&& !form.closed_before(now)
            &&& visitor is Some
            &&& !too_young(form, visitor->0, now)
        },
        visited(base_url, form, slug, now, visitor) is Show ==> !form.require_verified,
        forall|guilds: Option<Seq<Seq<char>>>| #[trigger]
            membership_seen(base_url, form, guilds) is Show ==> guilds is Some
                && guilds->0.contains(form.guild_id@),
{
}

// ---------------------------------------------------------------------------
// The form page
// ---------------------------------------------------------------------------

/// A question without its answer key.
pub open spec fn without_key(question: Json) -> Json {
    match question {
        Json::Record(o) => Json::Record(o.filter(|f: (Seq<char>, Json)| f.0 != "correct"@)),
        _ => question,
    }
}

/// A list with each item changed.
pub open spec fn each_item(j: Json, change: spec_fn(Json) -> Json) -> Json {
    match j {
        Json::List(a) => Json::List(a.map_values(change)),
        _ => j,
    }
}

/// An object with what stands under a key changed.
pub open spec fn at_key(j: Json, key: Seq<char>, change: spec_fn(Json) -> Json) -> Json {
    match j {
        Json::Record(o) => Json::Record(
            o.map_values(
                |f: (Seq<char>, Json)|
                    if f.0 == key {
                        (f.0, change(f.1))
                    } else {
                        f
                    },
            ),
        ),
        _ => j,
    }
}

/// A page without the answer keys of its questions.
pub open spec fn page_without_keys(page: Json) -> Json {
    at_key(page, "questions"@, |qs: Json| each_item(qs, |q: Json| without_key(q)))
}

/// A form's schema without the answer keys of its questions.
pub open spec fn without_keys(schema: Json) -> Json {
    at_key(schema, "pages"@, |pages: Json| each_item(pages, |p: Json| page_without_keys(p)))
}

proof fn lemma_filter_push(o: Seq<(Seq<char>, Json)>, f: (Seq<char>, Json))
    ensures
        ({
            let keep = |f: (Seq<char>, Json)| f.0 != "correct"@;
            o.push(f).filter(keep) == if keep(f) {
                o.filter(keep).push(f)
            } else {
                o.filter(keep)
            }
        }),
{
    reveal(Seq::filter);
    assert(o.push(f).drop_last() =~= o);
}

fn hide_key(question: &Value) -> (r: Value)
    ensures
        r@ == without_key(question@),
{
    match question {
        Value::Object(o) => {
            let ghost all = question@->Record_0;
            let ghost keep = |f: (Seq<char>, Json)| f.0 != "correct"@;
            assert(all =~= crate::json::fields(o@));
            let mut out = no_fields();
            proof {
                reveal(Seq::filter);
            }
            assert(all.take(0).filter(keep) =~= Seq::empty());
            for i in 0..o.len()
                invariant
                    all == crate::json::fields(o@),
                    keep == |f: (Seq<char>, Json)| f.0 != "correct"@,
                    crate::json::fields(out@) == all.take(i as int).filter(keep),
            {
                proof {
                    assert(all[i as int] == (o@[i as int].0@, o@[i as int].1@));
                    lemma_filter_push(all.take(i as int), all[i as int]);
                    assert(all.take(i + 1) =~= all.take(i as int).push(all[i as int]));
                }
                if !same(o[i].0.as_str(), "correct") {
                    push_field(&mut out, o[i].0.as_str(), o[i].1.copy());
                }
            }
            assert(all.take(all.len() as int) =~= all);
            object(out)
        },
        _ => question.copy(),
    }
}

fn hide_keys_of_questions(questions: &Value) -> (r: Value)
    ensures
        r@ == each_item(questions@, |q: Json| without_key(q)),
{
    match questions {
        Value::Array(a) => {
            let ghost items = questions@->List_0;
            let ghost change = |q: Json| without_key(q);
            assert(items =~= crate::json::jsons(a@));
            let mut out = crate::json::no_items();
            for i in 0..a.len()
                invariant
                    items == crate::json::jsons(a@),
                    change == |q: Json| without_key(q),
                    crate::json::jsons(out@) == items.take(i as int).map_values(change),
            {
                assert(items[i as int] == a@[i as int]@);
                crate::json::push_item(&mut out, hide_key(&a[i]));
                assert(items.take(i + 1).map_values(change) =~= items.take(i as int).map_values(
                    change,
                ).push(change(items[i as int])));
            }
            assert(items.take(items.len() as int) =~= items);
            crate::json::list(out)
        },
        _ => questions.copy(),
    }
}

fn hide_keys_of_page(page: &Value) -> (r: Value)
    ensures
        r@ == page_without_keys(page@),
{
    match page {
        Value::Object(o) => {
            let ghost all = page@->Record_0;
            let ghost change = |f: (Seq<char>, Json)|
                if f.0 == "questions"@ {
                    (f.0, (|qs: Json| each_item(qs, |q: Json| without_key(q)))(f.1))
                } else {
                    f
                };
            assert(all =~= crate::json::fields(o@));
            let mut out = no_fields();
            for i in 0..o.len()
                invariant
                    all == crate::json::fields(o@),
                    change == |f: (Seq<char>, Json)|
                        if f.0 == "questions"@ {
                            (f.0, (|qs: Json| each_item(qs, |q: Json| without_key(q)))(f.1))
                        } else {
                            f
                        },
                    crate::json::fields(out@) == all.take(i as int).map_values(change),
            {
                assert(all[i as int] == (o@[i as int].0@, o@[i as int].1@));
                let key = o[i].0.as_str();
                if same(key, "questions") {
                    push_field(&mut out, key, hide_keys_of_questions(&o[i].1));
                } else {
                    push_field(&mut out, key, o[i].1.copy());
                }
                assert(all.take(i + 1).map_values(change) =~= all.take(i as int).map_values(
                    change,
                ).push(change(all[i as int])));
            }
            assert(all.take(all.len() as int) =~= all);
            assert(all.map_values(change) =~= page_without_keys(page@)->Record_0);
            object(out)
        },
        _ => page.copy(),
    }
}

fn hide_keys_of_pages(pages: &Value) -> (r: Value)
    ensures
        r@ == each_item(pages@, |p: Json| page_without_keys(p)),
{
    match pages {
        Value::Array(a) => {
            let ghost items = pages@->List_0;
            let ghost change = |p: Json| page_without_keys(p);
            assert(items =~= crate::json::jsons(a@));
            let mut out = crate::json::no_items();
            for i in 0..a.len()
                invariant
                    items == crate::json::jsons(a@),
                    change == |p: Json| page_without_keys(p),
                    crate::json::jsons(out@) == items.take(i as int).map_values(change),
            {
                assert(items[i as int] == a@[i as int]@);
                crate::json::push_item(&mut out, hide_keys_of_page(&a[i]));
                assert(items.take(i + 1).map_values(change) =~= items.take(i as int).map_values(
                    change,
                ).push(change(items[i as int])));
            }
            assert(items.take(items.len() as int) =~= items);
            crate::json::list(out)
        },
        _ => pages.copy(),
    }
}

/// A form's schema without the answer keys of its questions: what a member is
/// given.
pub fn hide_keys(schema: &Value) -> (r: Value)
    ensures
        r@ == without_keys(schema@),
{
    match schema {
        Value::Object(o) => {
            let ghost all = schema@->Record_0;
            let ghost change = |f: (Seq<char>, Json)|
                if f.0 == "pages"@ {
                    (f.0, (|pages: Json| each_item(pages, |p: Json| page_without_keys(p)))(f.1))
                } else {
                    f
                };
            assert(all =~= crate::json::fields(o@));
            let mut out = no_fields();
            for i in 0..o.len()
                invariant
                    all == crate::json::fields(o@),
                    change == |f: (Seq<char>, Json)|
                        if f.0 == "pages"@ {
                            (
                                f.0,
                                (|pages: Json| each_item(pages, |p: Json| page_without_keys(p)))(
                                    f.1,
                                ),
                            )
                        } else {
                            f
                        },
                    crate::json::fields(out@) == all.take(i as int).map_values(change),
            {
                assert(all[i as int] == (o@[i as int].0@, o@[i as int].1@));
                let key = o[i].0.as_str();
                if same(key, "pages") {
                    push_field(&mut out, key, hide_keys_of_pages(&o[i].1));
                } else {
                    push_field(&mut out, key, o[i].1.copy());
                }
                assert(all.take(i + 1).map_values(change) =~= all.take(i as int).map_values(
                    change,
                ).push(change(all[i as int])));
            }
            assert(all.take(all.len() as int) =~= all);
            assert(all.map_values(change) =~= without_keys(schema@)->Record_0);
            object(out)
        },
        _ => schema.copy(),
    }
}

/// No question that a member is given has its answer key.
pub proof fn law_members_get_no_answer_keys(question: Json)
    ensures
        without_key(question).field("correct"@) is None,
        forall|key: Seq<char>|
            key != "correct"@ && question is Record && crate::table::distinct(
                crate::json::record_keys(question->Record_0),
            ) ==> #[trigger] without_key(question).field(key) == question.field(key),
{
    if question is Record {
        let all = question->Record_0;
        let keep = |f: (Seq<char>, Json)| f.0 != "correct"@;
        let kept = all.filter(keep);
        broadcast use vstd::seq_lib::group_filter_ensures;

        let keys = crate::json::record_keys(all);
        let left = crate::json::record_keys(kept);
        crate::table::lemma_index_from(left, "correct"@, 0);
        if let Some(i) = crate::table::index_of(left, "correct"@) {
            assert(kept[i].0 == "correct"@);
            assert(keep(kept[i]));
        }
        assert forall|key: Seq<char>|
            key != "correct"@ && crate::table::distinct(keys) implies #[trigger] without_key(
            question,
        ).field(key) == question.field(key) by {
            crate::table::lemma_index_from(left, key, 0);
            crate::table::lemma_index_from(keys, key, 0);
            if let Some(i) = crate::table::index_of(keys, key) {
                assert(all.contains(all[i]) && keep(all[i]));
                assert(kept.contains(all[i]));
                let j = choose|j: int| 0 <= j < kept.len() && kept[j] == all[i];
                assert(left[j] == key);
                let m = crate::table::index_of(left, key)->0;
                assert(kept.contains(kept[m]));
                all.lemma_filter_contains_rev(keep, kept[m]);
                let n = choose|n: int| 0 <= n < all.len() && all[n] == kept[m];
                assert(keys[n] == key);
                assert(keys[i] == key);
                assert(n == i);
            } else if let Some(m) = crate::table::index_of(left, key) {
                assert(kept.contains(kept[m]));
                all.lemma_filter_contains_rev(keep, kept[m]);
                let n = choose|n: int| 0 <= n < all.len() && all[n] == kept[m];
                assert(keys[n] == key);
            }
        }
    }
}

/// What the form page is started with.
pub open spec fn bootstrap(
    base_url: Seq<char>,
    form: FormRow,
    slug: Seq<char>,
    discord_id: Seq<char>,
    display_name: Seq<char>,
    preview: bool,
) -> Json {
    Json::empty()
        .with("base_url"@, Json::Text(base_url))
        .with("description"@, Json::Text(form.description@))
        .with("discord_id"@, Json::Text(discord_id))
        .with("display_name"@, Json::Text(display_name))
        .with("is_quiz"@, Json::Bool(form.is_quiz))
        .with("preview"@, Json::Bool(preview))
        .with(
            "schema"@,
            if preview {
                form.schema@
            } else {
                without_keys(form.schema@)
            },
        )
        .with("slug"@, Json::Text(slug))
        .with("title"@, Json::Text(form.title@))
        .with("version"@, Json::Number(Numeral::of_int(form.version as i64)))
}

/// The form page: the template with its places filled in, one after the other.
pub open spec fn form_body(
    template: Seq<char>,
    base_url: Seq<char>,
    form: FormRow,
    slug: Seq<char>,
    discord_id: Seq<char>,
    display_name: Seq<char>,
    preview: bool,
) -> Seq<char> {
    let start = crate::json::json_text(
        bootstrap(base_url, form, slug, discord_id, display_name, preview),
    );
    let a = crate::text::replaced(template, "__BOOTSTRAP__"@, start);
    let b = crate::text::replaced(a, "__BASE_URL__"@, base_url);
    let c = crate::text::replaced(b, "__TITLE__"@, html_escaped(form.title@));
    let d = crate::text::replaced(c, "__DESCRIPTION__"@, html_escaped(form.description@));
    crate::text::replaced(d, "__SLUG__"@, html_escaped(slug))
}

/// The form page. The schema and the form's metadata are embedded as JSON for
/// the page's script.
pub fn render_form_page(
    template: &str,
    base_url: &str,
    form: &FormRow,
    slug: &str,
    discord_id: &str,
    display_name: &str,
    preview: bool,
) -> (r: String)
    ensures
        r@ == form_body(
            template@,
            base_url@,
            *form,
            slug@,
            discord_id@,
            display_name@,
            preview,
        ),
{
    let schema = if preview {
        form.schema.copy()
    } else {
        hide_keys(&form.schema)
    };
    let mut o = no_fields();
    push_field(&mut o, "base_url", text(base_url));
    push_field(&mut o, "description", text(form.description.as_str()));
    push_field(&mut o, "discord_id", text(discord_id));
    push_field(&mut o, "display_name", text(display_name));
    push_field(&mut o, "is_quiz", Value::Bool(form.is_quiz));
    push_field(&mut o, "preview", Value::Bool(preview));
    push_field(&mut o, "schema", schema);
    push_field(&mut o, "slug", text(slug));
    push_field(&mut o, "title", text(form.title.as_str()));
    push_field(&mut o, "version", integer(form.version as i64));
    let start = object(o).to_text();
    proof {
        reveal_strlit("__BOOTSTRAP__");
        reveal_strlit("__BASE_URL__");
        reveal_strlit("__TITLE__");
        reveal_strlit("__DESCRIPTION__");
        reveal_strlit("__SLUG__");
    }
    let a = replace(template, "__BOOTSTRAP__", start.as_str());
    let b = replace(a.as_str(), "__BASE_URL__", base_url);
    let c = replace(b.as_str(), "__TITLE__", escape_html(form.title.as_str()).as_str());
    let d = replace(c.as_str(), "__DESCRIPTION__", escape_html(form.description.as_str()).as_str());
    replace(d.as_str(), "__SLUG__", escape_html(slug).as_str())
}

/// Whether two tokens are the same. All characters are looked at, whatever the
/// first ones show.
pub fn constant_time_eq(a: &str, b: &str) -> (r: bool)
    ensures
        r == (a@ == b@),
{
    let v = chars_of(a);
    let w = chars_of(b);
    if v.len() != w.len() {
        return false;
    }
    let mut differs: bool = false;
    for i in 0..v.len()
        invariant
            v.len() == w.len(),
            differs == !(forall|j: int| 0 <= j < i ==> v@[j] == w@[j]),
    {
        let here: bool = v[i] != w[i];
        differs = differs || here;
    }
    assert(!differs ==> v@ =~= w@);
    !differs
}

/// The form page for an admin who has the preview token.
pub fn get_preview(
    template: &str,
    base_url: &str,
    form: &FormRow,
    slug: &str,
    query: &PreviewQuery,
) -> (r: Result<String, AppError>)
    ensures
        match r {
            Ok(body) => query.token@ == form.preview_token@ && body@ == form_body(
                template@,
                base_url@,
                *form,
                slug@,
                "preview"@,
                "Preview"@,
                true,
            ),
            Err(e) => query.token@ != form.preview_token@ && e@ == Failure::Forbidden(
                "Invalid preview token."@,
            ),
        },
{
    if !constant_time_eq(query.token.as_str(), form.preview_token.as_str()) {
        return Err(AppError::Forbidden(owned("Invalid preview token.")));
    }
    Ok(render_form_page(template, base_url, form, slug, "preview", "Preview", true))
}

// ---------------------------------------------------------------------------
// Submissions: the rules
// ---------------------------------------------------------------------------

/// Why a submission is turned away before anything is looked up. `preview` is
/// the `X-RL-Preview` header: a client's way to say that nothing is to be
/// stored.
pub open spec fn turned_away(
    preview: Option<Seq<char>>,
    has_cookie: bool,
    has_session: bool,
) -> Option<Failure> {
    if preview == Some("1"@) {
        Some(Failure::Forbidden("Preview mode does not accept submissions."@))
    } else if !has_cookie {
        Some(Failure::UnauthorizedWith("Sign in with Discord to submit."@))
    } else if !has_session {
        Some(Failure::UnauthorizedWith("Your session expired. Sign in again."@))
    } else {
        None
    }
}

/// Why a form does not take a submission from an account at the time `now`.
pub open spec fn refusal(
    form: FormRow,
    slug: Seq<char>,
    version: i32,
    now: Timestamp,
    discord_id: Seq<char>,
) -> Option<Failure> {
    if form.archived {
        Some(Failure::FormNotFound(slug))
    } else if form.version != version {
        Some(Failure::StaleVersion)
    } else if form.opens_after(now) || form.closed_before(now) {
        Some(Failure::FormClosed)
    } else if too_young(form, discord_id, now) {
        Some(
            Failure::Forbidden(
                "Account must be ≥"@ + crate::numerals::int_text(form.min_account_age_days as int)
                    + " days old."@,
            ),
        )
    } else {
        None
    }
}

/// What is wrong with submitted answers.
pub open spec fn submission_faults(
    schema: FormSchema,
    answers: Json,
    numbers: spec_fn(Seq<char>) -> Option<RealView>,
) -> Seq<Fault> {
    if answers is Record {
        crate::services::form_validator::answer_faults(schema.asked(), answers, numbers)
    } else {
        seq![Fault { question_id: Seq::empty(), message: "Answers must be a JSON object."@ }]
    }
}

/// Whether a score passes; nothing where there is no score or nothing to reach.
pub open spec fn pass_bit(total_score: Option<i32>, passing_score: Option<i32>) -> Option<bool> {
    match (total_score, passing_score) {
        (Some(score), Some(needed)) => Some(score >= needed),
        _ => None,
    }
}

/// What a `Graded` stands for.
pub struct Grading {
    pub answers: Map<Seq<char>, Json>,
    pub total_score: Option<i32>,
    pub passed: Option<bool>,
}

/// What a submission is worth. `schema` is what the form's schema reads as, or
/// why it does not read. The stored answers are graded, so that their numbers are
/// those that the stored texts denote.
pub open spec fn grading(
    form: FormRow,
    schema: Result<FormSchema, String>,
    answers: Json,
    numbers: spec_fn(Seq<char>) -> Option<RealView>,
) -> Result<Grading, Failure> {
    match schema {
        Err(e) => Err(Failure::Internal("form schema invalid: "@ + e@)),
        Ok(s) => {
            let wrong = submission_faults(s, answers, numbers);
            if wrong.len() > 0 {
                Err(Failure::ValidationFailed(wrong))
            } else {
                let stored = crate::services::form_validator::normalized(
                    s.asked(),
                    answers,
                    numbers,
                );
                let total_score = if form.is_quiz {
                    Some(
                        crate::services::form_validator::quiz_score(
                            s.asked(),
                            stored,
                            crate::services::form_validator::with_stored(
                                s.asked(),
                                answers,
                                numbers,
                            ),
                        ) as i32,
                    )
                } else {
                    None
                };
                Ok(
                    Grading {
                        answers: stored,
                        total_score,
                        passed: pass_bit(total_score, form.passing_score),
                    },
                )
            }
        },
    }
}

impl FormRow {
    /// Whether the form keeps one response for each member. Quizzes always do.
    pub open spec fn is_canonical(self) -> bool {
        self.single_submission || self.is_quiz
    }

    /// Whether a further submission edits the response that is there.
    pub open spec fn edits_in_place(self) -> bool {
        self.allow_edits && !self.is_quiz && !self.retry.allows_retries()
    }
}

/// How a response is written.
#[derive(Clone, Copy, Debug, PartialEq, Eq, Structural)]
pub enum Storing {
    /// A new response.
    Insert,
    /// The member's response takes over the new answers.
    Edit,
    /// The member's response counts a further attempt. Its answers stay where
    /// the attempt did not improve on them.
    Retry { attempt_count: i32, overwrite_answers: bool },
}

/// What a `Write` stands for.
pub struct Entry {
    pub how: Storing,
    pub answers: Map<Seq<char>, Json>,
    pub total_score: Option<i32>,
    pub passed: Option<bool>,
    pub version: i32,
}

/// How a refused attempt fails. A form without retries answers as a one-shot
/// form does.
pub open spec fn denied(config: RetryConfig, reason: DenyReason) -> Failure {
    if !config.allows_retries() {
        Failure::DuplicateSubmission
    } else {
        match reason {
            DenyReason::AlreadyPassed => Failure::AlreadyPassed,
            DenyReason::AttemptsExhausted { max } => Failure::AttemptsExhausted { max },
            DenyReason::Cooldown { retry_after_seconds, next_attempt_at } => {
                Failure::RetryCooldown { retry_after_seconds }
            },
        }
    }
}

/// What is written for a submission, given the member's response that is there.
pub open spec fn entry(
    form: FormRow,
    now: Timestamp,
    prior: Option<ExistingAttempt>,
    g: Grading,
) -> Result<Entry, Failure> {
    let fresh = Entry {
        how: Storing::Insert,
        answers: g.answers,
        total_score: g.total_score,
        passed: g.passed,
        version: form.version,
    };
    if !form.is_canonical() {
        Ok(fresh)
    } else if form.edits_in_place() {
        Ok(
            Entry {
                how: if prior is Some {
                    Storing::Edit
                } else {
                    Storing::Insert
                },
                ..fresh
            },
        )
    } else {
        let new = NewSubmission { total_score: g.total_score, passed: g.passed };
        match crate::services::retry::decision(now, form.retry, prior, new) {
            Err(reason) => Err(denied(form.retry, reason)),
            Ok(a) => Ok(
                Entry {
                    how: if prior is Some {
                        Storing::Retry {
                            attempt_count: a.attempt_count,
                            overwrite_answers: a.overwrite_answers,
                        }
                    } else {
                        Storing::Insert
                    },
                    total_score: a.total_score,
                    passed: a.passed,
                    ..fresh
                },
            ),
        }
    }
}

/// The jobs that follow a stored response: the member's roles are worked out
/// anew, and the form's webhook is called where it has one.
pub open spec fn follow_ups(
    form: FormRow,
    req: SubmitRequest,
    response_id: Seq<char>,
    total_score: Option<i32>,
) -> Seq<Task> {
    let sync = crate::services::jobs::player_task(PlayerEvent::Updated(req.discord_id@));
    if form.webhook_url is Some && !crate::text::is_blank_text(form.webhook_url->0@) {
        let body = crate::services::webhook::payload(
            form.title@,
            req.slug@,
            req.display_name@,
            req.discord_id@,
            response_id,
            total_score,
            req.base_url@,
            req.now.text(),
        );
        seq![sync].push(crate::services::jobs::webhook_task(form.webhook_url->0@, body))
    } else {
        seq![sync]
    }
}

/// What a member is told of a stored response: whether the attempt passed, and
/// neither its score nor which answers were right.
pub open spec fn receipt(
    message: Seq<char>,
    passed: Option<bool>,
    response_id: Seq<char>,
) -> Json {
    Json::empty()
        .with("message"@, Json::Text(message))
        .with(
            "passed"@,
            match passed {
                Some(p) => Json::Bool(p),
                None => Json::Null,
            },
        )
        .with("response_id"@, Json::Text(response_id))
        .with("success"@, Json::Bool(true))
}

// ---------------------------------------------------------------------------
// Submissions: the steps
// ---------------------------------------------------------------------------

/// A submission that a signed-in member makes.
#[derive(Debug)]
pub struct SubmitRequest {
    pub slug: String,
    pub base_url: String,
    pub discord_id: String,
    pub display_name: String,
    pub body: SubmitBody,
    pub now: Timestamp,
}

/// What a submission is worth.
#[derive(Debug)]
pub struct Graded {
    pub answers: VerifiedAnswers,
    pub total_score: Option<i32>,
    pub passed: Option<bool>,
}

impl View for Graded {
    type V = Grading;

    open spec fn view(&self) -> Grading {
        Grading {
            answers: self.answers@,
            total_score: self.total_score,
            passed: self.passed,
        }
    }
}

/// A response as it is to be written.
#[derive(Debug)]
pub struct Write {
    pub how: Storing,
    pub answers: VerifiedAnswers,
    pub total_score: Option<i32>,
    pub passed: Option<bool>,
    pub version: i32,
}

impl View for Write {
    type V = Entry;

    open spec fn view(&self) -> Entry {
        Entry {
            how: self.how,
            answers: self.answers@,
            total_score: self.total_score,
            passed: self.passed,
            version: self.version,
        }
    }
}

/// Where a submission is: what it asks for next. All of it happens in one
/// transaction, which is given up where the submission fails.
#[derive(Debug)]
pub enum Submission {
    /// The form, locked against edits.
    LoadForm,
    /// The guilds of the member.
    FetchGuilds { form: FormRow },
    /// The form's schema, read from its JSON.
    ReadSchema { form: FormRow },
    /// The member's response that is there, under a lock on the form and the
    /// member.
    FindPrior { form: FormRow, graded: Graded },
    /// Write the response.
    Store { form: FormRow, write: Write, total_score: Option<i32>, passed: Option<bool> },
    /// Put the jobs in the queue.
    Enqueue { jobs: Vec<NewJob>, reply: Value },
    /// Commit the transaction.
    Commit { reply: Value },
    /// The submission is over.
    Done(Result<Value, AppError>),
}

/// What a `Submission` stands for.
pub enum SubmitStage {
    LoadForm,
    FetchGuilds(FormRow),
    ReadSchema(FormRow),
    FindPrior(FormRow, Grading),
    Store { form: FormRow, entry: Entry, total_score: Option<i32>, passed: Option<bool> },
    Enqueue { jobs: Seq<Task>, reply: Json },
    Commit(Json),
    Done(Result<Json, Failure>),
}

impl View for Submission {
    type V = SubmitStage;

    open spec fn view(&self) -> SubmitStage {
        match *self {
            Submission::LoadForm => SubmitStage::LoadForm,
            Submission::FetchGuilds { form } => SubmitStage::FetchGuilds(form),
            Submission::ReadSchema { form } => SubmitStage::ReadSchema(form),
            Submission::FindPrior { form, graded } => SubmitStage::FindPrior(form, graded@),
            Submission::Store { form, write, total_score, passed } => SubmitStage::Store {
                form,
                entry: write@,
                total_score,
                passed,
            },
            Submission::Enqueue { jobs, reply } => SubmitStage::Enqueue {
                jobs: crate::services::jobs::tasks(jobs@),
                reply: reply@,
            },
            Submission::Commit { reply } => SubmitStage::Commit(reply@),
            Submission::Done(r) => SubmitStage::Done(
                match r {
                    Ok(v) => Ok(v@),
                    Err(e) => Err(e@),
                },
            ),
        }
    }
}

/// What the last request of a submission gave.
#[derive(Debug)]
pub enum SubmitAnswer {
    Form(Result<Option<FormRow>, AppError>),
    Guilds(Result<Vec<String>, AppError>),
    /// What the schema reads as, and the numbers that the texts among the answers
    /// and the answer keys denote once they are trimmed.
    Schema { schema: Result<FormSchema, String>, numbers: NumberTable },
    Prior(Result<Option<ExistingAttempt>, AppError>),
    Stored(Result<String, AppError>),
    Enqueued(Result<(), AppError>),
    Committed(Result<(), AppError>),
}

/// What a `SubmitAnswer` stands for.
pub enum SubmitFinding {
    Form(Result<Option<FormRow>, Failure>),
    Guilds(Result<Seq<Seq<char>>, Failure>),
    Schema { schema: Result<FormSchema, String>, numbers: spec_fn(Seq<char>) -> Option<RealView> },
    Prior(Result<Option<ExistingAttempt>, Failure>),
    Stored(Result<Seq<char>, Failure>),
    Enqueued(Result<(), Failure>),
    Committed(Result<(), Failure>),
}

impl View for SubmitAnswer {
    type V = SubmitFinding;

    open spec fn view(&self) -> SubmitFinding {
        match *self {
            SubmitAnswer::Form(r) => SubmitFinding::Form(
                match r {
                    Ok(x) => Ok(x),
                    Err(e) => Err(e@),
                },
            ),
            SubmitAnswer::Guilds(r) => SubmitFinding::Guilds(
                match r {
                    Ok(v) => Ok(crate::text::texts(v@)),
                    Err(e) => Err(e@),
                },
            ),
            SubmitAnswer::Schema { schema, numbers } => SubmitFinding::Schema {
                schema,
                numbers: numbers@,
            },
            SubmitAnswer::Prior(r) => SubmitFinding::Prior(
                match r {
                    Ok(x) => Ok(x),
                    Err(e) => Err(e@),
                },
            ),
            SubmitAnswer::Stored(r) => SubmitFinding::Stored(
                match r {
                    Ok(id) => Ok(id@),
                    Err(e) => Err(e@),
                },
            ),
            SubmitAnswer::Enqueued(r) => SubmitFinding::Enqueued(
                crate::services::sync::outcome(r),
            ),
            SubmitAnswer::Committed(r) => SubmitFinding::Committed(
                crate::services::sync::outcome(r),
            ),
        }
    }
}

/// How a submission goes on. Any failure ends it. An answer that does not
/// belong to what was asked for changes nothing.
pub open spec fn submit_next(
    at: SubmitStage,
    found: SubmitFinding,
    req: SubmitRequest,
) -> SubmitStage {
    match (at, found) {
        (SubmitStage::LoadForm, SubmitFinding::Form(r)) => match r {
            Err(e) => SubmitStage::Done(Err(e)),
            Ok(None) => SubmitStage::Done(Err(Failure::FormNotFound(req.slug@))),
            Ok(Some(form)) => match refusal(
                form,
                req.slug@,
                req.body.version,
                req.now,
                req.discord_id@,
            ) {
                Some(e) => SubmitStage::Done(Err(e)),
                None => if form.require_verified {
                    SubmitStage::FetchGuilds(form)
                } else {
                    SubmitStage::ReadSchema(form)
                },
            },
        },
        (SubmitStage::FetchGuilds(form), SubmitFinding::Guilds(r)) => match r {
            Err(e) => SubmitStage::Done(Err(e)),
            Ok(ids) => if ids.contains(form.guild_id@) {
                SubmitStage::ReadSchema(form)
            } else {
                SubmitStage::Done(
                    Err(Failure::Forbidden("You must be a member of the server first."@)),
                )
            },
        },
        (SubmitStage::ReadSchema(form), SubmitFinding::Schema { schema, numbers }) => match grading(
            form,
            schema,
            req.body.answers@,
            numbers,
        ) {
            Err(e) => SubmitStage::Done(Err(e)),
            Ok(g) => if form.is_canonical() {
                SubmitStage::FindPrior(form, g)
            } else {
                written(form, req.now, None, g)
            },
        },
        (SubmitStage::FindPrior(form, g), SubmitFinding::Prior(r)) => match r {
            Err(e) => SubmitStage::Done(Err(e)),
            Ok(prior) => written(form, req.now, prior, g),
        },
        (
            SubmitStage::Store { form, entry, total_score, passed },
            SubmitFinding::Stored(r),
        ) => match r {
            Err(e) => SubmitStage::Done(Err(e)),
            Ok(response_id) => SubmitStage::Enqueue {
                jobs: follow_ups(form, req, response_id, total_score),
                reply: receipt(form.success_message@, passed, response_id),
            },
        },
        (SubmitStage::Enqueue { jobs, reply }, SubmitFinding::Enqueued(r)) => match r {
            Err(e) => SubmitStage::Done(Err(e)),
            Ok(_) => SubmitStage::Commit(reply),
        },
        (SubmitStage::Commit(reply), SubmitFinding::Committed(r)) => match r {
            Err(e) => SubmitStage::Done(Err(e)),
            Ok(_) => SubmitStage::Done(Ok(reply)),
        },
        _ => at,
    }
}

/// How a submission goes on once the member's response that is there is known.
pub open spec fn written(
    form: FormRow,
    now: Timestamp,
    prior: Option<ExistingAttempt>,
    g: Grading,
) -> SubmitStage {
    match entry(form, now, prior, g) {
        Err(e) => SubmitStage::Done(Err(e)),
        Ok(entry) => SubmitStage::Store {
            form,
            entry,
            total_score: g.total_score,
            passed: g.passed,
        },
    }
}

/// Whether the end of the cooldown after the attempt is an instant that a
/// calendar date can be given for, where that end matters.
pub open spec fn attempt_fits(form: FormRow, e: ExistingAttempt) -> bool {
    e.last_attempt_at.wf() && (crate::services::retry::clock_decides(form.retry, e)
        ==> e.last_attempt_at.secs + form.retry.cooldown_seconds <= crate::time::MAX_SECS)
}

/// Whether an answer holds instants that can be reckoned with.
pub open spec fn fits(at: Submission, answer: SubmitAnswer) -> bool {
    &&& answer matches SubmitAnswer::Form(Ok(Some(form))) ==> form.wf()
    &&& at matches Submission::FindPrior { form, graded } ==> (answer matches SubmitAnswer::Prior(
        Ok(Some(e)),
    ) ==> attempt_fits(form, e))
}

fn refuse(form: &FormRow, req: &SubmitRequest) -> (r: Option<AppError>)
    requires
        form.wf(),
        req.now.wf(),
    ensures
        refusal(*form, req.slug@, req.body.version, req.now, req.discord_id@) == (match r {
            Some(e) => Some(e@),
            None => None,
        }),
{
    if form.archived {
        return Some(AppError::FormNotFound(owned(req.slug.as_str())));
    }
    if form.version != req.body.version {
        return Some(AppError::StaleVersion);
    }
    if form.not_yet_open(req.now) || form.has_closed(req.now) {
        return Some(AppError::FormClosed);
    }
    if form.min_account_age_days > 0 {
        let age: i64 = known_age(req.discord_id.as_str(), req.now);
        if age < form.min_account_age_days as i64 {
            return Some(
                AppError::Forbidden(
                    cat3(
                        "Account must be ≥",
                        i32_text(form.min_account_age_days).as_str(),
                        " days old.",
                    ),
                ),
            );
        }
    }
    None
}

/// Checks the answers against the form's schema and grades them.
///
/// `numbers` holds the numbers that the texts among the answers and the answer
/// keys denote once they are trimmed. What the texts denote that the answers are
/// stored as need not be in it.
pub fn grade(
    form: &FormRow,
    schema: Result<FormSchema, String>,
    answers: &Value,
    numbers: &NumberTable,
) -> (r: Result<Graded, AppError>)
    ensures
        grading(*form, schema, answers@, numbers@) == (match r {
            Ok(g) => Ok(g@),
            Err(e) => Err(e@),
        }),
{
    let schema = match schema {
        Ok(s) => s,
        Err(e) => {
            return Err(AppError::Internal(cat2("form schema invalid: ", e.as_str())));
        },
    };
    let verified = match validate(&schema, answers, numbers) {
        Ok(v) => v,
        Err(errors) => {
            return Err(AppError::ValidationFailed(errors));
        },
    };
    let total_score: Option<i32> = if form.is_quiz {
        Some(compute_quiz_score(&schema, &verified, &read_stored(&schema, answers, numbers)))
    } else {
        None
    };
    let passed: Option<bool> = match (total_score, form.passing_score) {
        (Some(score), Some(needed)) => Some(score >= needed),
        _ => None,
    };
    Ok(Graded { answers: verified, total_score, passed })
}

fn deny(config: &RetryConfig, reason: DenyReason) -> (r: AppError)
    ensures
        r@ == denied(*config, reason),
{
    if !config.retries_enabled() {
        return AppError::DuplicateSubmission;
    }
    match reason {
        DenyReason::AlreadyPassed => AppError::AlreadyPassed,
        DenyReason::AttemptsExhausted { max } => AppError::AttemptsExhausted { max },
        DenyReason::Cooldown { retry_after_seconds, next_attempt_at } => AppError::RetryCooldown {
            retry_after_seconds,
        },
    }
}

/// What is written for a submission, given the member's response that is there.
pub fn plan_write(
    form: &FormRow,
    now: Timestamp,
    prior: Option<ExistingAttempt>,
    graded: Graded,
) -> (r: Result<Write, AppError>)
    requires
        now.wf(),
        prior matches Some(e) ==> attempt_fits(*form, e),
    ensures
        entry(*form, now, prior, graded@) == (match r {
            Ok(w) => Ok(w@),
            Err(e) => Err(e@),
        }),
{
    let mut write = Write {
        how: Storing::Insert,
        answers: graded.answers,
        total_score: graded.total_score,
        passed: graded.passed,
        version: form.version,
    };
    if !(form.single_submission || form.is_quiz) {
        return Ok(write);
    }
    if form.allow_edits && !form.is_quiz && !form.retry.retries_enabled() {
        if prior.is_some() {
            write.how = Storing::Edit;
        }
        return Ok(write);
    }
    let new = NewSubmission { total_score: graded.total_score, passed: graded.passed };
    match decide(now, &form.retry, prior.as_ref(), &new) {
        Err(reason) => Err(deny(&form.retry, reason)),
        Ok(a) => {
            if prior.is_some() {
                write.how =
                Storing::Retry {
                    attempt_count: a.attempt_count,
                    overwrite_answers: a.overwrite_answers,
                };
            }
            write.total_score = a.total_score;
            write.passed = a.passed;
            Ok(write)
        },
    }
}

fn store(form: FormRow, now: Timestamp, prior: Option<ExistingAttempt>, graded: Graded) -> (r:
    Submission)
    requires
        now.wf(),
        prior matches Some(e) ==> attempt_fits(form, e),
    ensures
        r@ == written(form, now, prior, graded@),
{
    let total_score: Option<i32> = graded.total_score;
    let passed: Option<bool> = graded.passed;
    match plan_write(&form, now, prior, graded) {
        Err(e) => Submission::Done(Err(e)),
        Ok(write) => Submission::Store { form, write, total_score, passed },
    }
}

fn jobs_after(form: &FormRow, req: &SubmitRequest, response_id: &str, total_score: Option<i32>) -> (r:
    Vec<NewJob>)
    requires
        req.now.wf(),
    ensures
        crate::services::jobs::tasks(r@) == follow_ups(*form, *req, response_id@, total_score),
{
    let mut jobs: Vec<NewJob> = Vec::new();
    let event = PlayerSyncPayload::Updated { discord_id: owned(req.discord_id.as_str()) };
    jobs.push(enqueue_player_sync(&event));
    if let Some(url) = &form.webhook_url {
        if !blank(url.as_str()) {
            let payload = build_payload(
                form.title.as_str(),
                req.slug.as_str(),
                req.display_name.as_str(),
                req.discord_id.as_str(),
                response_id,
                total_score,
                req.base_url.as_str(),
                req.now.to_rfc3339().as_str(),
            );
            jobs.push(enqueue_webhook(url.as_str(), payload));
        }
    }
    assert(crate::services::jobs::tasks(jobs@) =~= follow_ups(*form, *req, response_id@, total_score));
    jobs
}

/// What a member is told of a stored response.
pub fn submit_reply(message: &str, passed: Option<bool>, response_id: &str) -> (r: Value)
    ensures
        r@ == receipt(message@, passed, response_id@),
{
    let mut o = no_fields();
    push_field(&mut o, "message", text(message));
    push_field(
        &mut o,
        "passed",
        match passed {
            Some(p) => Value::Bool(p),
            None => Value::Null,
        },
    );
    push_field(&mut o, "response_id", text(response_id));
    push_field(&mut o, "success", Value::Bool(true));
    object(o)
}

/// How a submission starts. `preview` is the `X-RL-Preview` header: it lets
/// callers say that nothing is to be stored. It is no security check.
pub fn post_submit(preview: Option<&str>, has_cookie: bool, has_session: bool) -> (r: Submission)
    ensures
        r@ == (match turned_away(
            match preview {
                Some(p) => Some(p@),
                None => None,
            },
            has_cookie,
            has_session,
        ) {
            Some(e) => SubmitStage::Done(Err(e)),
            None => SubmitStage::LoadForm,
        }),
{
    let opted_out: bool = match preview {
        Some(p) => same(p, "1"),
        None => false,
    };
    if opted_out {
        return Submission::Done(
            Err(AppError::Forbidden(owned("Preview mode does not accept submissions."))),
        );
    }
    if !has_cookie {
        return Submission::Done(
            Err(AppError::UnauthorizedWith(owned("Sign in with Discord to submit."))),
        );
    }
    if !has_session {
        return Submission::Done(
            Err(AppError::UnauthorizedWith(owned("Your session expired. Sign in again."))),
        );
    }
    Submission::LoadForm
}

/// How a submission goes on.
pub fn submission_next(at: Submission, answer: SubmitAnswer, req: &SubmitRequest) -> (r: Submission)
    requires
        req.now.wf(),
        fits(at, answer),
    ensures
        r@ == submit_next(at@, answer@, *req),
{
    match (at, answer) {
        (Submission::LoadForm, SubmitAnswer::Form(r)) => match r {
            Err(e) => Submission::Done(Err(e)),
            Ok(None) => Submission::Done(Err(AppError::FormNotFound(owned(req.slug.as_str())))),
            Ok(Some(form)) => match refuse(&form, req) {
                Some(e) => Submission::Done(Err(e)),
                None => if form.require_verified {
                    Submission::FetchGuilds { form }
                } else {
                    Submission::ReadSchema { form }
                },
            },
        },
        (Submission::FetchGuilds { form }, SubmitAnswer::Guilds(r)) => match r {
            Err(e) => Submission::Done(Err(e)),
            Ok(ids) => if member(&ids, form.guild_id.as_str()) {
                Submission::ReadSchema { form }
            } else {
                Submission::Done(
                    Err(AppError::Forbidden(owned("You must be a member of the server first."))),
                )
            },
        },
        (Submission::ReadSchema { form }, SubmitAnswer::Schema { schema, numbers }) => match grade(
            &form,
            schema,
            &req.body.answers,
            &numbers,
        ) {
            Err(e) => Submission::Done(Err(e)),
            Ok(graded) => if form.single_submission || form.is_quiz {
                Submission::FindPrior { form, graded }
            } else {
                store(form, req.now, None, graded)
            },
        },
        (Submission::FindPrior { form, graded }, SubmitAnswer::Prior(r)) => match r {
            Err(e) => Submission::Done(Err(e)),
            Ok(prior) => store(form, req.now, prior, graded),
        },
        (
            Submission::Store { form, write, total_score, passed },
            SubmitAnswer::Stored(r),
        ) => match r {
            Err(e) => Submission::Done(Err(e)),
            Ok(id) => Submission::Enqueue {
                jobs: jobs_after(&form, req, id.as_str(), total_score),
                reply: submit_reply(form.success_message.as_str(), passed, id.as_str()),
            },
        },
        (Submission::Enqueue { jobs, reply }, SubmitAnswer::Enqueued(r)) => match r {
            Err(e) => Submission::Done(Err(e)),
            Ok(_) => Submission::Commit { reply },
        },
        (Submission::Commit { reply }, SubmitAnswer::Committed(r)) => match r {
            Err(e) => Submission::Done(Err(e)),
            Ok(_) => Submission::Done(Ok(reply)),
        },
        (at, _) => at,
    }
}

// ---------------------------------------------------------------------------
// Submissions: laws
// ---------------------------------------------------------------------------

/// A submission to a quiz is graded numerically: an answer that denotes a finite
/// number below 2^63 in size earns the points of its question where the answer key
/// holds a number near it, or a text that denotes one. `reads` tells what every text
/// denotes.
pub proof fn law_right_numbers_count(
    form: FormRow,
    schema: FormSchema,
    answers: Json,
    numbers: spec_fn(Seq<char>) -> Option<RealView>,
    reads: spec_fn(Seq<char>) -> Option<crate::double::Double>,
    k: int,
    key: Json,
)
    requires
        form.is_quiz,
        crate::services::form_validator::conforms(numbers, reads),
        crate::services::form_validator::are_written(schema.asked(), answers, numbers, reads),
        crate::table::distinct(crate::models::form::question_ids(schema.asked())),
        submission_faults(schema, answers, numbers).len() == 0,
        crate::services::form_validator::is_right_number(
            schema.asked(),
            answers,
            numbers,
            k,
            key,
        ),
    ensures
        grading(form, Ok(schema), answers, numbers) matches Ok(g) && {
            let q = schema.asked()[k];
            let again = crate::services::form_validator::with_stored(
                schema.asked(),
                answers,
                numbers,
            );
            &&& crate::services::form_validator::earned(q, g.answers, again) == q.points->0
            &&& g.total_score matches Some(score)
            &&& score >= q.points->0
        },
{
    crate::services::form_validator::law_right_numbers_earn_their_points(
        schema,
        answers,
        numbers,
        reads,
        k,
        key,
    );
}

/// A submission is answered with success only after its transaction was
/// committed; it is committed only after its jobs were queued; and jobs are
/// queued only after its response was stored.
pub proof fn law_success_is_told_last(at: SubmitStage, found: SubmitFinding, req: SubmitRequest)
    ensures
        at !is Done ==> (submit_next(at, found, req) matches SubmitStage::Done(Ok(reply)) ==> at
            == SubmitStage::Commit(reply) && found matches SubmitFinding::Committed(Ok(_))),
        at !is Commit ==> (submit_next(at, found, req) matches SubmitStage::Commit(reply)
            ==> at is Enqueue && at->Enqueue_reply == reply
            && found matches SubmitFinding::Enqueued(Ok(_))),
        submit_next(at, found, req) is Enqueue && at !is Enqueue ==> at is Store
            && found matches SubmitFinding::Stored(Ok(_)),
        submit_next(at, found, req) is Store && at !is Store ==> at is ReadSchema || at is FindPrior,
{
}

/// A submission that is over stays as it is, and a step that failed is reported.
pub proof fn law_failures_end_a_submission(
    at: SubmitStage,
    found: SubmitFinding,
    req: SubmitRequest,
    e: Failure,
)
    ensures
        at is Done ==> submit_next(at, found, req) == at,
        at is LoadForm && found == SubmitFinding::Form(Err(e)) ==> submit_next(at, found, req)
            == SubmitStage::Done(Err(e)),
        at is FetchGuilds && found == SubmitFinding::Guilds(Err(e)) ==> submit_next(at, found, req)
            == SubmitStage::Done(Err(e)),
        at is FindPrior && found == SubmitFinding::Prior(Err(e)) ==> submit_next(at, found, req)
            == SubmitStage::Done(Err(e)),
        at is Store && found == SubmitFinding::Stored(Err(e)) ==> submit_next(at, found, req)
            == SubmitStage::Done(Err(e)),
        at is Enqueue && found == SubmitFinding::Enqueued(Err(e)) ==> submit_next(at, found, req)
            == SubmitStage::Done(Err(e)),
        at is Commit && found == SubmitFinding::Committed(Err(e)) ==> submit_next(at, found, req)
            == SubmitStage::Done(Err(e)),
{
}

/// A stored response always has the member's roles worked out anew.
pub proof fn law_stored_responses_are_synced(
    form: FormRow,
    req: SubmitRequest,
    response_id: Seq<char>,
    total_score: Option<i32>,
)
    ensures
        follow_ups(form, req, response_id, total_score).len() >= 1,
        follow_ups(form, req, response_id, total_score)[0] == crate::services::jobs::player_task(
            PlayerEvent::Updated(req.discord_id@),
        ),
        follow_ups(form, req, response_id, total_score).len() == 2 <==> form.webhook_url is Some
            && !crate::text::is_blank_text(form.webhook_url->0@),
{
}

/// Of two attempts at a form that both passed, or both did not, a member is told
/// the same, whatever their scores and answers were. No reply holds a score.
pub proof fn law_replies_reveal_only_the_pass_bit(
    message: Seq<char>,
    response_id: Seq<char>,
    a: Grading,
    b: Grading,
)
    ensures
        a.passed == b.passed ==> receipt(message, a.passed, response_id) == receipt(
            message,
            b.passed,
            response_id,
        ),
        receipt(message, a.passed, response_id).field("total_score"@) is None,
{
    reveal_strlit("message");
    reveal_strlit("passed");
    reveal_strlit("response_id");
    reveal_strlit("success");
    reveal_strlit("total_score");
    assert("message"@.len() == 7);
    assert("passed"@.len() == 6);
    assert("success"@.len() == 7);
    assert("total_score"@.len() == 11);
    assert("response_id"@[0] == 'r');
    assert("total_score"@[0] == 't');
    let o = receipt(message, a.passed, response_id)->Record_0;
    let keys = crate::json::record_keys(o);
    assert(keys =~= seq!["message"@, "passed"@, "response_id"@, "success"@]);
    crate::table::lemma_index_from(keys, "total_score"@, 0);
}

/// A form without retries takes a second submission from a member only as an
/// edit: where it takes none, the submission is a duplicate.
pub proof fn law_one_shot_forms_take_one_response(
    form: FormRow,
    now: Timestamp,
    e: ExistingAttempt,
    g: Grading,
)
    requires
        form.is_canonical(),
        !form.retry.allows_retries(),
        e.attempt_count >= 1,
    ensures
        form.edits_in_place() ==> {
            &&& entry(form, now, Some(e), g) matches Ok(w)
            &&& w.how is Edit
        },
        !form.edits_in_place() ==> entry(form, now, Some(e), g) == Err::<Entry, Failure>(
            Failure::DuplicateSubmission,
        ),
{
}

/// A member's first submission is a new response with all that it was graded.
pub proof fn law_first_submissions_are_stored(form: FormRow, now: Timestamp, g: Grading)
    ensures
        entry(form, now, None, g) matches Ok(w) && w.how is Insert && w.answers == g.answers
            && w.total_score == g.total_score && w.passed == g.passed && w.version == form.version,
{
}

/// A form that keeps one response for each member never adds a second one.
pub proof fn law_members_have_one_canonical_response(
    form: FormRow,
    now: Timestamp,
    e: ExistingAttempt,
    g: Grading,
)
    requires
        form.is_canonical(),
    ensures
        entry(form, now, Some(e), g) matches Ok(w) ==> w.how !is Insert,
{
}

/// A submission is graded only where the form is open to it: it was answered
/// against the form's current version, in time, by an account that is old
/// enough and, where that is asked for, in the guild.
pub proof fn law_only_open_forms_take_submissions(
    at: SubmitStage,
    found: SubmitFinding,
    req: SubmitRequest,
)
    ensures
        at is LoadForm ==> (submit_next(at, found, req) matches SubmitStage::ReadSchema(form) ==> {
            &&& refusal(form, req.slug@, req.body.version, req.now, req.discord_id@) is None
            &&& !form.require_verified
        }),
        at is LoadForm ==> (submit_next(at, found, req) matches SubmitStage::FetchGuilds(form)
            ==> refusal(form, req.slug@, req.body.version, req.now, req.discord_id@) is None),
        at is FetchGuilds ==> (submit_next(at, found, req) matches SubmitStage::ReadSchema(form) ==> {
            &&& found matches SubmitFinding::Guilds(Ok(ids))
            &&& ids.contains(form.guild_id@)
        }),
{
}

} // verus!
