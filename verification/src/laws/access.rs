//! What access rules are for: members and managers get in, and are told why they do not.

use vstd::prelude::*;

use crate::error::Failure;
use crate::json::{Json, Value};
use crate::routes::access;
use crate::routes::respondents;
use crate::routes::respondents::Respondent;
use crate::services::auth_gateway;
use crate::services::auth_gateway::{Endpoint, GatewayReply};

verus! {

/// A caller is let on just where a cookie came and a session stands behind it; one
/// without a cookie is told to sign in.
pub proof fn law_sessions_are_needed(has_cookie: bool, has_session: bool, ask: Seq<char>)
    ensures
        ({
            let r = access::session_failure(has_cookie, has_session, ask);
            &&& r is None <==> has_cookie && has_session
            &&& !has_cookie ==> r == Some(Failure::UnauthorizedWith(ask))
            &&& r is Some ==> r->0 is UnauthorizedWith
        }),
{
}

/// A flag is set just where the reply says `true` under its key.
pub proof fn law_flags_are_set_explicitly(reply: Json, key: Seq<char>)
    ensures
        access::has_flag(reply, key) <==> (reply.field(key) is Some && reply.field(key)->0 is Bool
            && reply.field(key)->0->Bool_0),
{
}

/// A caller manages the forms of a guild just where the gateway was read and says so. A
/// caller of whom it says otherwise, or whom it refuses, is forbidden to; and where it
/// could not be asked, that is no fault of the caller.
pub proof fn law_managers_manage(reply: GatewayReply<Value>)
    ensures
        ({
            let r = access::manager_failure(reply);
            let says_so = reply is Read && access::has_flag(reply->Read_0@, "is_manager"@);
            &&& r is None <==> says_so
            &&& r is Some ==> (r->0 is Forbidden <==> reply is Read || reply is Refused)
            &&& r is Some ==> (r->0 is Internal <==> reply is NoReply || reply is Unreadable)
        }),
{
}

/// The respondents of a guild are shown to its managers, and to its members where the
/// guild has set anything but the managers; a caller who is no member sees none.
pub proof fn law_respondents_are_shown_to_all_entitled(
    permission: Option<Seq<char>>,
    reply: GatewayReply<Value>,
)
    ensures
        ({
            let r = respondents::viewer_failure(permission, reply);
            let member = reply is Read && access::has_flag(reply->Read_0@, "is_member"@);
            let manager = reply is Read && access::has_flag(reply->Read_0@, "is_manager"@);
            let opened = permission is Some && permission->0 != "managers"@;
            &&& r is None <==> member && (manager || opened)
            &&& r is Some ==> (r->0 is Forbidden <==> reply is Read || reply is Refused)
            &&& r is Some ==> (r->0 is Internal <==> reply is NoReply || reply is Unreadable)
        }),
{
}

/// A denial is told in its own words; any other failure is not shown.
pub proof fn law_denials_are_told(e: Failure, message: Seq<char>)
    ensures
        access::denial_text(Failure::Forbidden(message)) == message,
        e !is Forbidden ==> access::denial_text(e)
            == "Could not verify your permissions for this guild. Try reloading."@,
{
}

/// What came of a request to the gateway is read just where the reply reads as what was
/// asked for; every other reply is an internal failure.
pub proof fn law_gateway_replies_are_read(endpoint: Endpoint, reply: GatewayReply<Value>)
    ensures
        ({
            let r = auth_gateway::reply_failure(endpoint, reply);
            &&& r is None <==> reply is Read
            &&& r is Some ==> r->0 is Internal
        }),
{
}

/// The endpoints of the gateway are told apart by their names, and asked about a member
/// or about a guild.
pub proof fn law_endpoints_ask_about_their_subject(endpoint: Endpoint)
    ensures
        endpoint is UserGuildIds ==> endpoint.name() == "user_guild_ids"@ && endpoint.subject()
            == "discord_id"@,
        endpoint is GuildOptoutIds ==> endpoint.name() == "guild_optout_ids"@ && endpoint.subject()
            == "guild_id"@,
        endpoint is GuildMemberIds ==> endpoint.name() == "guild_member_ids"@ && endpoint.subject()
            == "guild_id"@,
{
}

/// A respondent is shown with the times of the response.
pub proof fn law_respondents_are_listed_as_they_are(x: Respondent)
    ensures
        ({
            let r = respondents::respondent_json(x);
            &&& r.field("discord_id"@) == Some(Json::Text(x.discord_id@))
            &&& r.field("last_edited_at"@) == Some(Json::Text(x.last_edited_at.text()))
            &&& r.field("submitted_at"@) == Some(Json::Text(x.submitted_at.text()))
        }),
{
    let f = respondents::respondent_json(x)->Record_0;
    reveal_strlit("discord_id");
    reveal_strlit("last_edited_at");
    reveal_strlit("submitted_at");
    assert("discord_id"@.len() == 10);
    assert("last_edited_at"@.len() == 14);
    assert("submitted_at"@.len() == 12);
    assert(f.len() == 3);
    assert(f[0].0 == "discord_id"@);
    assert(f[1].0 == "last_edited_at"@);
    assert(f[2].0 == "submitted_at"@);
    crate::laws::queue::lemma_field_at(f, 0);
    crate::laws::queue::lemma_field_at(f, 1);
    crate::laws::queue::lemma_field_at(f, 2);
}

/// In the text of an element the three characters that markup is made of are written by
/// their names, and every other stands as it is.
pub proof fn law_markup_is_written_out(s: Seq<char>, c: char)
    ensures
        access::markup_escaped(Seq::empty()) == Seq::<char>::empty(),
        access::markup_escaped(s.push(c)) == access::markup_escaped(s) + (if c == '&' {
            "&amp;"@
        } else if c == '<' {
            "&lt;"@
        } else if c == '>' {
            "&gt;"@
        } else {
            seq![c]
        }),
{
    assert(s.push(c).drop_last() =~= s);
}

/// In an attribute quotes are written by their names too.
pub proof fn law_html_is_written_out(s: Seq<char>, c: char)
    ensures
        crate::routes::form_render::html_escaped(Seq::empty()) == Seq::<char>::empty(),
        crate::routes::form_render::html_escaped(s.push(c))
            == crate::routes::form_render::html_escaped(s) + (if c == '&' {
            "&amp;"@
        } else if c == '<' {
            "&lt;"@
        } else if c == '>' {
            "&gt;"@
        } else if c == '"' {
            "&quot;"@
        } else if c == '\'' {
            "&#39;"@
        } else {
            seq![c]
        }),
{
    assert(s.push(c).drop_last() =~= s);
}

} // verus!
