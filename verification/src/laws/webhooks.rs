//! What webhooks are for: each submission is announced to a public address over HTTPS.

use vstd::prelude::*;

use crate::json::{Json, Numeral};
use crate::services::webhook;
use crate::services::webhook::{IpAddr, Lookup, Move, Posted};

verus! {

/// An IPv4 address, as a number of 32 bits.
pub open spec fn number_of(a: int, b: int, c: int, d: int) -> int {
    ((a * 256 + b) * 256 + c) * 256 + d
}

/// The IPv4 addresses that no webhook goes to are those of the blocks of this host, of
/// private networks, of links and of groups, and the one of no host; every other is fine.
pub proof fn law_public_addresses_are_accepted(o: [u8; 4])
    ensures
        ({
            let n = number_of(o[0] as int, o[1] as int, o[2] as int, o[3] as int);
            IpAddr::V4(o).is_inner() <==> {
                ||| 0x7f00_0000 <= n <= 0x7fff_ffff
                ||| n == 0
                ||| 0x0a00_0000 <= n <= 0x0aff_ffff
                ||| 0xac10_0000 <= n <= 0xac1f_ffff
                ||| 0xc0a8_0000 <= n <= 0xc0a8_ffff
                ||| 0xa9fe_0000 <= n <= 0xa9fe_ffff
                ||| 0xe000_0000 <= n <= 0xefff_ffff
            }
        }),
{
}

/// The IPv6 addresses that no webhook goes to are those of private networks, of links and
/// of groups, the two lowest, and those that stand for an IPv4 address that none goes
/// to; every other is fine.
pub proof fn law_public_v6_addresses_are_accepted(s: [u16; 8])
    ensures
        ({
            let v4 = number_of(
                s[6] as int / 256,
                s[6] as int % 256,
                s[7] as int / 256,
                s[7] as int % 256,
            );
            let zeros = s[0] == 0 && s[1] == 0 && s[2] == 0 && s[3] == 0 && s[4] == 0;
            let stands_for_v4 = zeros && (s[5] == 0 || s[5] == 0xffff);
            IpAddr::V6(s).is_inner() <==> {
                ||| s[0] as int / 512 == 0x7e
                ||| s[0] as int / 64 == 0x3fa
                ||| s[0] as int / 256 == 0xff
                ||| (zeros && s[5] == 0 && v4 <= 1)
                ||| (stands_for_v4 && {
                    ||| 0x7f00_0000 <= v4 <= 0x7fff_ffff
                    ||| v4 == 0
                    ||| 0x0a00_0000 <= v4 <= 0x0aff_ffff
                    ||| 0xac10_0000 <= v4 <= 0xac1f_ffff
                    ||| 0xc0a8_0000 <= v4 <= 0xc0a8_ffff
                    ||| 0xa9fe_0000 <= v4 <= 0xa9fe_ffff
                    ||| 0xe000_0000 <= v4 <= 0xefff_ffff
                })
            }
        }),
{
    assert(s@[0] == s[0] && s@[1] == s[1] && s@[2] == s[2] && s@[3] == s[3]);
    assert(s@[4] == s[4] && s@[5] == s[5] && s@[6] == s[6] && s@[7] == s[7]);
}

/// An address may be sent webhooks just where it is one of HTTPS, has a host, and the
/// host is neither this one by name, however it is cased, nor an inner address.
pub proof fn law_public_hosts_are_accepted(url: Seq<char>)
    ensures
        webhook::is_safe_webhook(url) <==> (match crate::outside::url_parts(url) {
            Some((scheme, Some(name), _)) => {
                let host = crate::text::ascii_lowered(name);
                let bare = if host.len() >= 2 && host[0] == '[' && host[host.len() - 1] == ']' {
                    host.subrange(1, host.len() - 1)
                } else {
                    host
                };
                let local = ".localhost"@;
                &&& scheme == "https"@
                &&& host != "localhost"@
                &&& !(host.len() >= local.len() && host.subrange(
                    host.len() - local.len(),
                    host.len() as int,
                ) == local)
                &&& match crate::outside::ip_groups(bare) {
                    Some(g) => if g.len() == 4 {
                        !webhook::is_inner_v4(g[0] as int, g[1] as int, g[2] as int, g[3] as int)
                    } else {
                        !webhook::is_inner_v6(g)
                    },
                    None => true,
                }
            },
            _ => false,
        }),
{
}

/// A delivery to an address that may be sent webhooks starts by looking its host up, at
/// its port or at 443; any other is given up at once.
pub proof fn law_deliveries_start_with_a_lookup(url: Seq<char>)
    ensures
        ({
            let parts = crate::outside::url_parts(url)->0;
            let port: nat = if parts.2 is Some {
                parts.2->0 as nat
            } else {
                443
            };
            &&& webhook::is_safe_webhook(url) ==> webhook::first_move(url) == Move::Resolve(
                parts.1->0 + ":"@ + crate::numerals::nat_text(port),
            )
            &&& !webhook::is_safe_webhook(url) ==> (webhook::first_move(url) is Failed
                && webhook::first_move(url)->Failed_0.terminal)
        }),
{
}

/// The payload is posted just where the lookup gave addresses and none of them is an
/// inner one; an inner one ends the delivery for good, and anything else may be tried
/// again.
pub proof fn law_payloads_go_to_public_hosts(lookup: Lookup)
    ensures
        ({
            let m = webhook::move_after_lookup(lookup);
            let inner = lookup is Addresses && exists|i: int|
                0 <= i < lookup->Addresses_0@.len() && (
                #[trigger] lookup->Addresses_0@[i]).is_inner();
            &&& m is Post <==> lookup is Addresses && lookup->Addresses_0@.len() > 0 && !inner
            &&& m is Post || m is Failed
            &&& m is Failed ==> (m->Failed_0.terminal <==> inner)
        }),
{
    reveal_strlit("DNS resolution timed out");
    reveal_strlit("DNS resolution failed");
    reveal_strlit("hostname did not resolve to any address");
    reveal_strlit("resolved to a private or loopback address");
    assert("resolved to a private or loopback address"@[0] == 'r');
    assert("DNS resolution timed out"@[0] == 'D');
    assert("DNS resolution failed"@[0] == 'D');
    assert("hostname did not resolve to any address"@[0] == 'h');
}

/// A payload has arrived just where the reply is one of success; a reply in the 400s ends
/// the delivery for good, but for a timeout and a rate limit, and anything else is tried
/// again.
pub proof fn law_replies_are_classified(posted: Posted)
    ensures
        ({
            let m = webhook::move_after_post(posted);
            let status: int = if posted is Reply {
                posted->status as int
            } else {
                0
            };
            &&& m is Delivered <==> status / 100 == 2
            &&& m is Delivered || m is Failed
            &&& m is Failed ==> (m->Failed_0.terminal <==> status / 100 == 4 && status != 408
                && status != 429)
        }),
{
}

/// The payload of a submission names its form, its member, the response, the time and the
/// score, and has a message for people.
pub proof fn law_payloads_tell_of_the_submission(
    title: Seq<char>,
    slug: Seq<char>,
    member: Seq<char>,
    discord_id: Seq<char>,
    response_id: Seq<char>,
    score: Option<i32>,
    base_url: Seq<char>,
    at: Seq<char>,
)
    ensures
        ({
            let p = webhook::payload(
                title,
                slug,
                member,
                discord_id,
                response_id,
                score,
                base_url,
                at,
            );
            let line = if score is Some {
                "\nScore: "@ + crate::numerals::int_text(score->0 as int)
            } else {
                Seq::empty()
            };
            &&& p.field("content"@) == Some(
                Json::Text(
                    "**New submission to \""@ + title + "\"**\nFrom: <@"@ + discord_id + "> ("@
                        + member + ")"@ + line + "\n"@ + (base_url + "/f/"@ + slug),
                ),
            )
            &&& p.field("discord_id"@) == Some(Json::Text(discord_id))
            &&& p.field("form_slug"@) == Some(Json::Text(slug))
            &&& p.field("form_title"@) == Some(Json::Text(title))
            &&& p.field("member_name"@) == Some(Json::Text(member))
            &&& p.field("response_id"@) == Some(Json::Text(response_id))
            &&& p.field("submitted_at"@) == Some(Json::Text(at))
            &&& p.field("total_score"@) == Some(
                if score is Some {
                    Json::Number(Numeral::of_int(score->0 as i64))
                } else {
                    Json::Null
                },
            )
        }),
{
    reveal_strlit("content");
    reveal_strlit("discord_id");
    reveal_strlit("form_slug");
    reveal_strlit("form_title");
    reveal_strlit("member_name");
    reveal_strlit("response_id");
    reveal_strlit("submitted_at");
    reveal_strlit("total_score");
    assert("content"@[0] == 'c' && "discord_id"@[0] == 'd' && "form_slug"@[0] == 'f'
        && "form_title"@[0] == 'f' && "member_name"@[0] == 'm' && "response_id"@[0] == 'r'
        && "submitted_at"@[0] == 's' && "total_score"@[0] == 't');
    assert("form_slug"@.len() == 9 && "form_title"@.len() == 10);
    let p = webhook::payload(title, slug, member, discord_id, response_id, score, base_url, at);
    let f = p->Record_0;
    assert(f.len() == 8);
    assert(f[0].0 == "content"@ && f[1].0 == "discord_id"@ && f[2].0 == "form_slug"@ && f[3].0
        == "form_title"@ && f[4].0 == "member_name"@ && f[5].0 == "response_id"@ && f[6].0
        == "submitted_at"@ && f[7].0 == "total_score"@);
    crate::laws::queue::lemma_field_at(f, 0);
    crate::laws::queue::lemma_field_at(f, 1);
    crate::laws::queue::lemma_field_at(f, 2);
    crate::laws::queue::lemma_field_at(f, 3);
    crate::laws::queue::lemma_field_at(f, 4);
    crate::laws::queue::lemma_field_at(f, 5);
    crate::laws::queue::lemma_field_at(f, 6);
    crate::laws::queue::lemma_field_at(f, 7);
}

} // verus!
