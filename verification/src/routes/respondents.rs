//! Public respondent list.
//!
//! Gated by the guild's view permission: `members` for any guild member,
//! `managers` for managers only. It defaults to managers for privacy, since
//! responses can hold personal data.

use vstd::prelude::*;

use crate::error::{AppError, Failure};
use crate::json::{list, no_fields, no_items, object, push_field, push_item, text};
use crate::json::{Json, Value};
use crate::routes::access::{flag, session_problem, standing};
use crate::routes::pages::{
    lemma_no_at_sign, render_respondents, respondents_end, respondents_middle, respondents_page,
    respondents_start, RESPONDENTS_0, RESPONDENTS_1, RESPONDENTS_2, RESPONDENTS_7, RESPONDENTS_8,
};
use crate::services::auth_gateway::GatewayReply;
use crate::text::{owned, same};
use crate::time::Timestamp;

verus! {

/// How many respondents are listed where no number is asked for.
pub const DEFAULT_LIMIT: i64 = 500;

/// How many respondents are listed at most.
pub const MAX_LIMIT: i64 = 2000;

/// The page that lists the respondents of a guild. It is the same for every
/// visitor: what it lists is fetched by its script.
pub fn render_respondents_page(base_url: &str) -> (r: String)
    ensures
        r@ == crate::routes::pages::respondents_page(base_url@),
{
    render_respondents(base_url)
}

/// The page for an address is the page for a mark with the mark replaced by the
/// address, for every mark whose first character no fixed part of the page holds.
pub proof fn law_page_depends_on_the_address_only(mark: Seq<char>, base_url: Seq<char>)
    requires
        mark.len() > 0,
        !respondents_start().contains(mark[0]),
        !respondents_middle().contains(mark[0]),
        !respondents_end().contains(mark[0]),
    ensures
        respondents_page(base_url) == crate::text::replaced(
            respondents_page(mark),
            mark,
            base_url,
        ),
{
    crate::text::law_two_marks_are_replaced(
        respondents_start(),
        respondents_middle(),
        respondents_end(),
        mark,
        base_url,
    );
}

/// Two at signs are such a mark; and the address stands in the page as that of its
/// icon and as what its script calls.
pub proof fn law_address_stands_at_two_places(base_url: Seq<char>)
    ensures
        respondents_page(base_url) == crate::text::replaced(
            respondents_page("@@"@),
            "@@"@,
            base_url,
        ),
        crate::text::has_text(
            respondents_page(base_url),
            "href=\""@ + base_url + "/favicon.ico\""@,
        ),
        crate::text::has_text(
            respondents_page(base_url),
            "const API = '"@ + base_url + "';"@,
        ),
{
    reveal_strlit("@@");
    lemma_no_at_sign();
    law_page_depends_on_the_address_only("@@"@, base_url);
    let page = respondents_page(base_url);
    let icon = RESPONDENTS_1@ + base_url + RESPONDENTS_2@;
    let i = RESPONDENTS_0@.len() as int;
    assert(page.subrange(i, i + icon.len()) =~= icon);
    assert(crate::text::occurs_at(page, icon, i));
    let call = RESPONDENTS_7@ + base_url + RESPONDENTS_8@;
    let j = page.len() - (respondents_end().len() + base_url.len() + RESPONDENTS_7@.len());
    assert(page.subrange(j, j + call.len()) =~= call);
    assert(crate::text::occurs_at(page, call, j));
}

/// How many respondents are asked for.
#[derive(Debug)]
pub struct DataQuery {
    pub limit: Option<i64>,
}

impl DataQuery {
    /// How many respondents are listed.
    pub fn row_limit(&self) -> (r: i64)
        ensures
            r == (match self.limit {
                Some(n) => if n < MAX_LIMIT {
                    n
                } else {
                    MAX_LIMIT
                },
                None => DEFAULT_LIMIT,
            }),
    {
        match self.limit {
            Some(n) => if n < MAX_LIMIT {
                n
            } else {
                MAX_LIMIT
            },
            None => DEFAULT_LIMIT,
        }
    }
}

/// What is wrong with the session of a caller of the list, if anything.
pub fn viewer_session(has_cookie: bool, has_session: bool) -> (r: Option<AppError>)
    ensures
        crate::routes::access::session_failure(
            has_cookie,
            has_session,
            "Sign in with Discord to view respondents."@,
        ) == (match r {
            Some(e) => Some(e@),
            None => None,
        }),
{
    session_problem(has_cookie, has_session, "Sign in with Discord to view respondents.")
}

/// Why a caller may not see the respondents of a guild, if so. `permission` is the
/// guild's setting, where it has one.
pub open spec fn viewer_failure(permission: Option<Seq<char>>, reply: GatewayReply<Value>) -> Option<
    Failure,
> {
    match reply {
        GatewayReply::Read(v) => if !crate::routes::access::has_flag(v@, "is_member"@) {
            Some(Failure::Forbidden("You're not a member of this server."@))
        } else if crate::routes::admin::view_permission_of(permission) == "managers"@
            && !crate::routes::access::has_flag(v@, "is_manager"@) {
            Some(
                Failure::Forbidden(
                    "Only server managers can view the respondent list for this server."@,
                ),
            )
        } else {
            None
        },
        _ => crate::routes::access::standing_failure(reply),
    }
}

/// Whether a caller may see the respondents of a guild.
pub fn check_viewer(permission: Option<&str>, reply: GatewayReply<Value>) -> (r: Result<
    (),
    AppError,
>)
    ensures
        ({
            let setting = match permission {
                Some(p) => Some(p@),
                None => None,
            };
            match r {
                Ok(_) => viewer_failure(setting, reply) is None,
                Err(e) => viewer_failure(setting, reply) == Some(e@),
            }
        }),
{
    let perm = match standing(reply) {
        Ok(v) => v,
        Err(e) => {
            return Err(e);
        },
    };
    if !flag(&perm, "is_member") {
        return Err(AppError::Forbidden(owned("You're not a member of this server.")));
    }
    let managers_only: bool = match permission {
        Some(p) => same(p, "managers"),
        None => true,
    };
    if managers_only && !flag(&perm, "is_manager") {
        return Err(
            AppError::Forbidden(
                owned("Only server managers can view the respondent list for this server."),
            ),
        );
    }
    Ok(())
}

/// A respondent.
#[derive(Debug)]
pub struct Respondent {
    pub discord_id: String,
    pub submitted_at: Timestamp,
    pub last_edited_at: Timestamp,
}

impl Respondent {
    /// Whether the times are proper instants.
    pub open spec fn wf(self) -> bool {
        self.submitted_at.wf() && self.last_edited_at.wf()
    }
}

/// A respondent, as the list is given it.
pub open spec fn respondent_json(x: Respondent) -> Json {
    Json::empty()
        .with("discord_id"@, Json::Text(x.discord_id@))
        .with("last_edited_at"@, Json::Text(x.last_edited_at.text()))
        .with("submitted_at"@, Json::Text(x.submitted_at.text()))
}

/// What the list is given. The guild's name is null where it is not known, and
/// the page falls back to the id.
pub fn data(guild_id: &str, guild_name: Option<&str>, rows: &Vec<Respondent>) -> (r: Value)
    requires
        forall|i: int| 0 <= i < rows.len() ==> (#[trigger] rows[i]).wf(),
    ensures
        r@ == Json::empty()
            .with("guild_id"@, Json::Text(guild_id@))
            .with(
                "guild_name"@,
                match guild_name {
                    Some(name) => Json::Text(name@),
                    None => Json::Null,
                },
            )
            .with("respondents"@, Json::List(rows@.map_values(|x: Respondent| respondent_json(x)))),
{
    let ghost g = |x: Respondent| respondent_json(x);
    let mut v = no_items();
    for i in 0..rows.len()
        invariant
            forall|j: int| 0 <= j < rows.len() ==> (#[trigger] rows[j]).wf(),
            g == |x: Respondent| respondent_json(x),
            crate::json::jsons(v@) == rows@.take(i as int).map_values(g),
    {
        let row = &rows[i];
        let mut o = no_fields();
        push_field(&mut o, "discord_id", text(row.discord_id.as_str()));
        push_field(&mut o, "last_edited_at", text(row.last_edited_at.to_rfc3339().as_str()));
        push_field(&mut o, "submitted_at", text(row.submitted_at.to_rfc3339().as_str()));
        push_item(&mut v, object(o));
        assert(rows@.take(i + 1).map_values(g) =~= rows@.take(i as int).map_values(g).push(
            g(rows@[i as int]),
        ));
    }
    assert(rows@.take(rows@.len() as int) =~= rows@);
    let mut o = no_fields();
    push_field(&mut o, "guild_id", text(guild_id));
    push_field(
        &mut o,
        "guild_name",
        match guild_name {
            Some(name) => text(name),
            None => Value::Null,
        },
    );
    push_field(&mut o, "respondents", list(v));
    object(o)
}

/// Only members see the respondents of a guild; and only managers do, unless the
/// guild has opened the list.
pub proof fn law_respondents_are_shown_to_the_entitled(
    permission: Option<Seq<char>>,
    reply: GatewayReply<Value>,
)
    ensures
        viewer_failure(permission, reply) is None ==> {
            &&& reply matches GatewayReply::Read(v)
            &&& crate::routes::access::has_flag(v@, "is_member"@)
            &&& permission is None || permission == Some("managers"@)
                ==> crate::routes::access::has_flag(v@, "is_manager"@)
        },
{
}

} // verus!
