//! Who may see and change a guild's forms: sessions, and what the Auth Gateway
//! says of a member's standing in the guild.

use vstd::prelude::*;

use crate::error::{AppError, Failure};
use crate::json::{Json, Value};
use crate::outside::percent_encode;
use crate::routes::pages::{render_admin_signin, render_denied};
use crate::services::auth_gateway::GatewayReply;
use crate::text::{cat2, cat3, chars_of, owned};

verus! {

/// The address that tells a member's standing in a guild.
pub open spec fn permission_address(gateway: Seq<char>, guild_id: Seq<char>) -> Seq<char> {
    gateway + "/auth/guild_permission?guild_id="@ + crate::outside::percent_encoded(
        vstd::utf8::encode_utf8(guild_id),
    )
}

/// The address that tells a member's standing in a guild.
pub fn permission_url(gateway: &str, guild_id: &str) -> (r: String)
    ensures
        r@ == permission_address(gateway@, guild_id@),
{
    cat3(gateway, "/auth/guild_permission?guild_id=", percent_encode(guild_id).as_str())
}

/// What is wrong with a caller's session, if anything. `ask` is what a caller
/// without a cookie is told.
pub open spec fn session_failure(has_cookie: bool, has_session: bool, ask: Seq<char>) -> Option<
    Failure,
> {
    if !has_cookie {
        Some(Failure::UnauthorizedWith(ask))
    } else if !has_session {
        Some(
            Failure::UnauthorizedWith("Your session is invalid or expired. Sign in again."@),
        )
    } else {
        None
    }
}

/// What is wrong with a caller's session, if anything.
pub fn session_problem(has_cookie: bool, has_session: bool, ask: &str) -> (r: Option<AppError>)
    ensures
        session_failure(has_cookie, has_session, ask@) == (match r {
            Some(e) => Some(e@),
            None => None,
        }),
{
    if !has_cookie {
        Some(AppError::UnauthorizedWith(owned(ask)))
    } else if !has_session {
        Some(
            AppError::UnauthorizedWith(
                owned("Your session is invalid or expired. Sign in again."),
            ),
        )
    } else {
        None
    }
}

/// What is wrong with the session of a caller of the form builder, if anything.
pub fn require_session(has_cookie: bool, has_session: bool) -> (r: Option<AppError>)
    ensures
        session_failure(has_cookie, has_session, "Sign in with Discord first."@) == (match r {
            Some(e) => Some(e@),
            None => None,
        }),
{
    session_problem(has_cookie, has_session, "Sign in with Discord first.")
}

/// Whether a reply of the gateway sets a flag. A flag that is absent, or no
/// truth value, is not set.
pub open spec fn has_flag(reply: Json, key: Seq<char>) -> bool {
    reply.field(key) == Some(Json::Bool(true))
}

/// Whether a reply of the gateway sets a flag.
pub fn flag(reply: &Value, key: &str) -> (r: bool)
    ensures
        r == has_flag(reply@, key@),
{
    match reply.get(key) {
        Some(Value::Bool(b)) => *b,
        _ => false,
    }
}

/// Why a member's standing could not be had, if so.
pub open spec fn standing_failure(reply: GatewayReply<Value>) -> Option<Failure> {
    match reply {
        GatewayReply::NoReply { error } => Some(
            Failure::Internal("auth_gateway request failed: "@ + error@),
        ),
        GatewayReply::Refused { status_text, body } => Some(
            Failure::Forbidden("Could not verify your permissions for this guild."@),
        ),
        GatewayReply::Unreadable { error } => Some(
            Failure::Internal("auth_gateway response not JSON: "@ + error@),
        ),
        GatewayReply::Read(_) => None,
    }
}

/// A member's standing in a guild, or why it could not be had.
pub fn standing(reply: GatewayReply<Value>) -> (r: Result<Value, AppError>)
    ensures
        match r {
            Ok(v) => reply == GatewayReply::Read(v),
            Err(e) => standing_failure(reply) == Some(e@),
        },
{
    match reply {
        GatewayReply::NoReply { error } => Err(
            AppError::Internal(cat2("auth_gateway request failed: ", error.as_str())),
        ),
        GatewayReply::Refused { status_text, body } => Err(
            AppError::Forbidden(owned("Could not verify your permissions for this guild.")),
        ),
        GatewayReply::Unreadable { error } => Err(
            AppError::Internal(cat2("auth_gateway response not JSON: ", error.as_str())),
        ),
        GatewayReply::Read(v) => Ok(v),
    }
}

/// Why a caller may not manage the forms of a guild, if so.
pub open spec fn manager_failure(reply: GatewayReply<Value>) -> Option<Failure> {
    match reply {
        GatewayReply::Read(v) => if has_flag(v@, "is_manager"@) {
            None
        } else {
            Some(Failure::Forbidden("Only server managers can edit forms for this server."@))
        },
        _ => standing_failure(reply),
    }
}

/// Whether a caller may manage the forms of a guild.
pub fn check_manager(reply: GatewayReply<Value>) -> (r: Result<(), AppError>)
    ensures
        match r {
            Ok(_) => manager_failure(reply) is None,
            Err(e) => manager_failure(reply) == Some(e@),
        },
{
    let perm = match standing(reply) {
        Ok(v) => v,
        Err(e) => {
            return Err(e);
        },
    };
    if !flag(&perm, "is_manager") {
        return Err(
            AppError::Forbidden(owned("Only server managers can edit forms for this server.")),
        );
    }
    Ok(())
}

/// The character as it stands in the text of an HTML element.
pub open spec fn markup_escape(c: char) -> Seq<char> {
    if c == '&' {
        "&amp;"@
    } else if c == '<' {
        "&lt;"@
    } else if c == '>' {
        "&gt;"@
    } else {
        seq![c]
    }
}

/// `s` as it stands in the text of an HTML element.
pub open spec fn markup_escaped(s: Seq<char>) -> Seq<char> {
    crate::text::spelled(s, |c: char| markup_escape(c))
}

/// `s` as it stands in the text of an HTML element.
pub fn escape_markup(s: &str) -> (r: String)
    ensures
        r@ == markup_escaped(s@),
{
    let v = chars_of(s);
    let ghost f = |c: char| markup_escape(c);
    let mut out: String = String::new();
    for i in 0..v.len()
        invariant
            v@ == s@,
            f == |c: char| markup_escape(c),
            out@ == crate::text::spelled(s@.take(i as int), f),
    {
        let c = v[i];
        let ghost before = out@;
        if c == '&' {
            out.append("&amp;");
        } else if c == '<' {
            out.append("&lt;");
        } else if c == '>' {
            out.append("&gt;");
        } else {
            out.push(c);
        }
        proof {
            assert(s@.take(i + 1).drop_last() =~= s@.take(i as int));
            assert(out@ =~= before + markup_escape(c));
        }
    }
    assert(s@.take(s@.len() as int) =~= s@);
    out
}

/// An HTML page and the status that it is sent with.
#[derive(Debug, PartialEq)]
pub struct HtmlPage {
    pub status: u16,
    pub body: String,
}

/// The page for a caller without a session; nothing where there is one.
pub fn signin_gate(base_url: &str, has_session: bool) -> (r: Option<HtmlPage>)
    ensures
        r is Some <==> !has_session,
        r matches Some(page) ==> page.status == 200 && page.body@
            == crate::routes::pages::admin_signin_page(base_url@),
{
    if has_session {
        return None;
    }
    Some(HtmlPage { status: 200, body: render_admin_signin(base_url) })
}

/// The page that tells a caller why access is denied.
pub fn render_access_denied(base_url: &str, message: &str) -> (r: HtmlPage)
    ensures
        r.status == 403,
        r.body@ == crate::routes::pages::denied_page(base_url@, markup_escaped(message@)),
{
    HtmlPage { status: 403, body: render_denied(base_url, escape_markup(message).as_str()) }
}

/// What a caller who may not manage a guild's forms is told. Only a denial says
/// why; other failures are not shown.
pub open spec fn denial_text(e: Failure) -> Seq<char> {
    match e {
        Failure::Forbidden(message) => message,
        _ => "Could not verify your permissions for this guild. Try reloading."@,
    }
}

/// The page for a caller who may not manage a guild's forms; nothing where the
/// caller may.
pub fn manager_gate(base_url: &str, reply: GatewayReply<Value>) -> (r: Option<HtmlPage>)
    ensures
        match r {
            None => manager_failure(reply) is None,
            Some(page) => manager_failure(reply) is Some && page.status == 403 && page.body@
                == crate::routes::pages::denied_page(
                base_url@,
                markup_escaped(denial_text(manager_failure(reply)->0)),
            ),
        },
{
    match check_manager(reply) {
        Ok(_) => None,
        Err(AppError::Forbidden(message)) => Some(
            render_access_denied(base_url, message.as_str()),
        ),
        Err(_) => Some(
            render_access_denied(
                base_url,
                "Could not verify your permissions for this guild. Try reloading.",
            ),
        ),
    }
}

/// Nobody manages a guild's forms unless the gateway says that they do.
pub proof fn law_managers_are_vouched_for(reply: GatewayReply<Value>)
    ensures
        manager_failure(reply) is None <==> {
            &&& reply matches GatewayReply::Read(v)
            &&& has_flag(v@, "is_manager"@)
        },
{
}

} // verus!
