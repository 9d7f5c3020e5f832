//! The Auth Gateway's internal endpoints: addresses, parameters and what its
//! replies mean.
//!
//! Every failure is reported: callers skip the affected member or role link
//! this cycle and never take a failure for an empty list, which would clear the
//! role from every member on every transient hiccup.

use vstd::prelude::*;

use crate::error::{AppError, Failure};
use crate::text::{cat2, cat5, owned};

verus! {

/// Plugin slug sent to the Auth Gateway. It matches the URL prefix this plugin
/// is mounted under and the entry in the gateway's plugin registry, which scopes
/// opt-outs by it.
pub const PLUGIN_SLUG: &'static str = "form-respondent-role";

/// What the gateway is asked for.
#[derive(Clone, Copy, Debug, PartialEq, Eq, Structural)]
pub enum Endpoint {
    /// The guilds of a member, without those where they disabled this plugin.
    UserGuildIds,
    /// The members who opted out of this plugin in a guild.
    GuildOptoutIds,
    /// The name of a guild.
    GuildMemberIds,
}

impl Endpoint {
    /// The last part of the endpoint's address.
    pub open spec fn name(self) -> Seq<char> {
        match self {
            Endpoint::UserGuildIds => "user_guild_ids"@,
            Endpoint::GuildOptoutIds => "guild_optout_ids"@,
            Endpoint::GuildMemberIds => "guild_member_ids"@,
        }
    }

    /// The parameter that says whom or what the request is about.
    pub open spec fn subject(self) -> Seq<char> {
        match self {
            Endpoint::UserGuildIds => "discord_id"@,
            _ => "guild_id"@,
        }
    }

    fn as_str(self) -> (r: &'static str)
        ensures
            r@ == self.name(),
    {
        match self {
            Endpoint::UserGuildIds => "user_guild_ids",
            Endpoint::GuildOptoutIds => "guild_optout_ids",
            Endpoint::GuildMemberIds => "guild_member_ids",
        }
    }

    /// The address of the endpoint at a gateway.
    pub fn url(self, base: &str) -> (r: String)
        ensures
            r@ == base@ + "/auth/internal/"@ + self.name(),
    {
        crate::text::cat3(base, "/auth/internal/", self.as_str())
    }

    /// The parameters of a request about `subject`. The plugin is named where
    /// its opt-outs matter.
    pub fn query(self, subject: &str) -> (r: Vec<(String, String)>)
        ensures
            crate::services::sync::pairs(r@) == (if self is GuildMemberIds {
                Seq::empty().push((self.subject(), subject@))
            } else {
                Seq::empty().push((self.subject(), subject@)).push(("plugin"@, PLUGIN_SLUG@))
            }),
    {
        let key = match self {
            Endpoint::UserGuildIds => "discord_id",
            _ => "guild_id",
        };
        let mut out: Vec<(String, String)> = Vec::new();
        out.push((owned(key), owned(subject)));
        assert(crate::services::sync::pairs(out@) =~= Seq::empty().push((self.subject(), subject@)));
        match self {
            Endpoint::GuildMemberIds => {},
            _ => {
                out.push((owned("plugin"), owned(PLUGIN_SLUG)));
                assert(crate::services::sync::pairs(out@) =~= Seq::empty().push(
                    (self.subject(), subject@),
                ).push(("plugin"@, PLUGIN_SLUG@)));
            },
        }
        out
    }
}

/// What came of a request to the gateway: a reply that reads as `T`, or not.
#[derive(Debug, PartialEq)]
pub enum GatewayReply<T> {
    /// The request got no reply.
    NoReply { error: String },
    /// The reply's status is not one of success.
    Refused { status_text: String, body: String },
    /// The reply does not read as what was asked for.
    Unreadable { error: String },
    /// What was asked for.
    Read(T),
}

/// What a reply of the gateway comes to.
pub open spec fn reply_failure<T>(endpoint: Endpoint, reply: GatewayReply<T>) -> Option<Failure> {
    match reply {
        GatewayReply::NoReply { error } => Some(
            Failure::Internal("auth_gateway request failed: "@ + error@),
        ),
        GatewayReply::Refused { status_text, body } => Some(
            Failure::Internal(
                "auth_gateway "@ + endpoint.name() + " returned "@ + status_text@ + (": "@
                    + body@),
            ),
        ),
        GatewayReply::Unreadable { error } => Some(
            Failure::Internal("auth_gateway response not JSON: "@ + error@),
        ),
        GatewayReply::Read(_) => None,
    }
}

/// What a reply of the gateway comes to: what was asked for, or the failure.
pub fn read_reply<T>(endpoint: Endpoint, reply: GatewayReply<T>) -> (r: Result<T, AppError>)
    ensures
        match r {
            Ok(x) => reply == GatewayReply::Read(x),
            Err(e) => reply_failure(endpoint, reply) == Some(e@),
        },
{
    match reply {
        GatewayReply::NoReply { error } => Err(
            AppError::Internal(cat2("auth_gateway request failed: ", error.as_str())),
        ),
        GatewayReply::Refused { status_text, body } => Err(
            AppError::Internal(
                cat5(
                    "auth_gateway ",
                    endpoint.as_str(),
                    " returned ",
                    status_text.as_str(),
                    cat2(": ", body.as_str()).as_str(),
                ),
            ),
        ),
        GatewayReply::Unreadable { error } => Err(
            AppError::Internal(cat2("auth_gateway response not JSON: ", error.as_str())),
        ),
        GatewayReply::Read(x) => Ok(x),
    }
}

/// The name of a guild, where the gateway knows one that is not empty.
pub fn known_name(name: Option<String>) -> (r: Option<String>)
    ensures
        r == (match name {
            Some(s) => if s@.len() > 0 {
                Some(s)
            } else {
                None
            },
            None => None,
        }),
{
    match name {
        Some(s) => if s.as_str().unicode_len() > 0 {
            Some(s)
        } else {
            None
        },
        None => None,
    }
}

/// A failure of the gateway is never taken for an empty list.
pub proof fn law_gateway_failures_are_reported<T>(endpoint: Endpoint, reply: GatewayReply<T>)
    ensures
        reply !is Read <==> reply_failure(endpoint, reply) is Some,
{
}

} // verus!
