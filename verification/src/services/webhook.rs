//! Per-form webhook delivery: which addresses are safe, and what each outcome
//! of an attempt means.
//!
//! The submit handler enqueues a webhook job inside the same transaction as the
//! response. Failures are classified as retry-able (5xx / network) or terminal
//! (4xx, bad URL, DNS to a private range).

use vstd::prelude::*;

use crate::json::{integer, no_fields, object, push_field, text};
use crate::json::{Json, Numeral, Value};
use crate::numerals::{i32_text, u64_text};
use crate::outside::{parse_ip, parse_url};
use crate::text::{cat2, cat3, cat5, chars_of, ends_with, owned, same, string_of, to_ascii_lower};

verus! {

/// How long one delivery may take, in seconds.
pub const TIMEOUT_SECS: u64 = 5;

/// Time-budget for the pre-flight DNS resolution, in seconds. Webhook delivery
/// already has a 5s overall budget, so this is kept short.
pub const DNS_TIMEOUT_SECS: u64 = 2;

/// Reason a single webhook attempt failed, classified for the job worker.
#[derive(Debug, PartialEq)]
pub struct WebhookFailure {
    pub message: String,
    /// `true`: drop into DLQ immediately. `false`: backoff + retry.
    pub terminal: bool,
}

/// What a `WebhookFailure` stands for.
pub struct Setback {
    pub message: Seq<char>,
    pub terminal: bool,
}

impl View for WebhookFailure {
    type V = Setback;

    open spec fn view(&self) -> Setback {
        Setback { message: self.message@, terminal: self.terminal }
    }
}

// ---------------------------------------------------------------------------
// IP addresses
// ---------------------------------------------------------------------------

/// An IP address: the octets of IPv4, or the segments of IPv6.
#[derive(Clone, Copy, Debug, PartialEq, Eq)]
pub enum IpAddr {
    V4([u8; 4]),
    V6([u16; 8]),
}

/// Whether an IPv4 address is one of this host, of a private network, of a
/// link, of a group of hosts, or of none.
pub open spec fn is_inner_v4(a: int, b: int, c: int, d: int) -> bool {
    ||| a == 127  // loopback
    ||| (a == 0 && b == 0 && c == 0 && d == 0)  // unspecified
    ||| a == 10  // private
    ||| (a == 172 && 16 <= b <= 31)
    ||| (a == 192 && b == 168)
    ||| (a == 169 && b == 254)  // link-local
    ||| 224 <= a <= 239  // multicast
}

/// Whether an IPv6 address stands for an IPv4 address.
pub open spec fn is_v4_in_v6(s: Seq<u16>) -> bool {
    s[0] == 0 && s[1] == 0 && s[2] == 0 && s[3] == 0 && s[4] == 0 && (s[5] == 0 || s[5] == 0xffff)
}

/// Whether an IPv6 address is one of this host, of a private network, of a
/// link, of a group of hosts, or of none, or stands for an IPv4 address that is.
pub open spec fn is_inner_v6(s: Seq<u16>) -> bool {
    ||| 0xfc00 <= s[0] <= 0xfdff  // unique local
    ||| 0xfe80 <= s[0] <= 0xfebf  // link-local
    ||| 0xff00 <= s[0]  // multicast
    ||| (is_v4_in_v6(s) && s[5] == 0 && s[6] == 0 && s[7] <= 1)  // unspecified, loopback
    ||| (is_v4_in_v6(s) && is_inner_v4(
        s[6] as int / 256,
        s[6] as int % 256,
        s[7] as int / 256,
        s[7] as int % 256,
    ))
}

impl IpAddr {
    /// Whether this is an address that a webhook must not be sent to.
    pub open spec fn is_inner(self) -> bool {
        match self {
            IpAddr::V4(o) => is_inner_v4(o[0] as int, o[1] as int, o[2] as int, o[3] as int),
            IpAddr::V6(s) => is_inner_v6(s@),
        }
    }
}

fn inner_v4(a: u16, b: u16, c: u16, d: u16) -> (r: bool)
    ensures
        r == is_inner_v4(a as int, b as int, c as int, d as int),
{
    a == 127 || (a == 0 && b == 0 && c == 0 && d == 0) || a == 10 || (a == 172 && b >= 16 && b
        <= 31) || (a == 192 && b == 168) || (a == 169 && b == 254) || (a >= 224 && a <= 239)
}

/// Predicate used by both the URL-time check and the post-resolution check.
pub fn is_safe_ip(ip: IpAddr) -> (r: bool)
    ensures
        r == !ip.is_inner(),
{
    match ip {
        IpAddr::V4(o) => !inner_v4(o[0] as u16, o[1] as u16, o[2] as u16, o[3] as u16),
        IpAddr::V6(s) => {
            if s[0] >= 0xfc00 && s[0] <= 0xfdff {
                return false;
            }
            if s[0] >= 0xfe80 && s[0] <= 0xfebf {
                return false;
            }
            if s[0] >= 0xff00 {
                return false;
            }
            let embeds_v4: bool = s[0] == 0 && s[1] == 0 && s[2] == 0 && s[3] == 0 && s[4] == 0 && (
            s[5] == 0 || s[5] == 0xffff);
            if embeds_v4 {
                if s[5] == 0 && s[6] == 0 && s[7] <= 1 {
                    return false;
                }
                !inner_v4(s[6] / 256, s[6] % 256, s[7] / 256, s[7] % 256)
            } else {
                true
            }
        },
    }
}

// ---------------------------------------------------------------------------
// Addresses of webhooks
// ---------------------------------------------------------------------------

/// Whether a host that is given as an IP address is one that a webhook must
/// not be sent to.
pub open spec fn is_inner_groups(g: Seq<u16>) -> bool {
    if g.len() == 4 {
        is_inner_v4(g[0] as int, g[1] as int, g[2] as int, g[3] as int)
    } else {
        is_inner_v6(g)
    }
}

/// A host without the brackets that an IPv6 address has.
pub open spec fn unbracketed(host: Seq<char>) -> Seq<char> {
    if host.len() >= 2 && host[0] == '[' && host.last() == ']' {
        host.subrange(1, host.len() - 1)
    } else {
        host
    }
}

/// Whether a host may be sent webhooks, as far as its text shows.
pub open spec fn is_safe_host(host: Seq<char>) -> bool {
    &&& host != "localhost"@
    &&& !crate::text::finishes_with(host, ".localhost"@)
    &&& crate::outside::ip_groups(unbracketed(host)) matches Some(g) ==> !is_inner_groups(g)
}

/// Whether an address may be sent webhooks, as far as its text shows.
pub open spec fn is_safe_webhook(url: Seq<char>) -> bool {
    &&& crate::outside::url_parts(url) matches Some(parts)
    &&& parts.0 == "https"@
    &&& parts.1 matches Some(host)
    &&& is_safe_host(crate::text::ascii_lowered(host))
}

fn strip_brackets(host: &str) -> (r: String)
    ensures
        r@ == unbracketed(host@),
{
    let v = chars_of(host);
    if v.len() >= 2 && v[0] == '[' && v[v.len() - 1] == ']' {
        let inner = vstd::slice::slice_subrange(v.as_slice(), 1, v.len() - 1);
        string_of(inner)
    } else {
        owned(host)
    }
}

/// Whether a host, in lower case, may be sent webhooks. `groups` are the
/// numbers of the IP address that the host is, if it is one.
pub fn is_safe_named_host(host: &str, groups: Option<&Vec<u16>>) -> (r: bool)
    requires
        groups matches Some(g) ==> g.len() == 4 || g.len() == 8,
    ensures
        r == (host@ != "localhost"@ && !crate::text::finishes_with(host@, ".localhost"@) && (
        groups matches Some(g) ==> !is_inner_groups(g@))),
{
    if same(host, "localhost") || ends_with(host, ".localhost") {
        return false;
    }
    match groups {
        Some(g) => if g.len() == 4 {
            !inner_v4(g[0], g[1], g[2], g[3])
        } else {
            let segments = [g[0], g[1], g[2], g[3], g[4], g[5], g[6], g[7]];
            assert(segments@ =~= g@);
            is_safe_ip(IpAddr::V6(segments))
        },
        None => true,
    }
}

/// Reject `http://`, private/loopback hosts, and obviously-bogus inputs to
/// reduce SSRF surface area. The admin set this URL, so the bar is "no
/// accidents," not "Fort Knox."
pub fn is_safe_url(url: &str) -> (r: bool)
    ensures
        r == is_safe_webhook(url@),
{
    let (scheme, host, _port) = match parse_url(url) {
        Some(parts) => parts,
        None => return false,
    };
    if !same(scheme.as_str(), "https") {
        return false;
    }
    let host = match host {
        Some(h) => to_ascii_lower(h.as_str()),
        None => return false,
    };
    // IPv6 literals keep their brackets (`[::1]`); they are stripped so that
    // the IP check actually fires.
    let groups = parse_ip(strip_brackets(host.as_str()).as_str());
    is_safe_named_host(host.as_str(), groups.as_ref())
}

/// A webhook goes over HTTPS, never to this host by name, and never to an inner
/// address that the URL spells out.
pub proof fn law_safe_webhooks_leave_the_house(url: Seq<char>)
    requires
        is_safe_webhook(url),
    ensures
        ({
            let parts = crate::outside::url_parts(url)->0;
            let host = crate::text::ascii_lowered(parts.1->0);
            &&& parts.0 == "https"@
            &&& host != "localhost"@
            &&& crate::outside::ip_groups(unbracketed(host)) matches Some(g)
                ==> !is_inner_groups(g)
        }),
{
}

/// An IPv6 address that stands for an IPv4 address is refused wherever the
/// IPv4 address is.
pub proof fn law_mapped_addresses_are_refused_alike(o: [u8; 4], s: [u16; 8])
    requires
        IpAddr::V4(o).is_inner(),
        is_v4_in_v6(s@),
        s[6] == o[0] * 256 + o[1],
        s[7] == o[2] * 256 + o[3],
    ensures
        IpAddr::V6(s).is_inner(),
{
    assert(s@[6] == s[6] && s@[7] == s[7]);
    assert(s[6] as int / 256 == o[0] && s[6] as int % 256 == o[1]);
    assert(s[7] as int / 256 == o[2] && s[7] as int % 256 == o[3]);
}

// ---------------------------------------------------------------------------
// One delivery attempt
// ---------------------------------------------------------------------------

/// What a name server said of a host.
#[derive(Debug, PartialEq)]
pub enum Lookup {
    TimedOut,
    Failed,
    Addresses(Vec<IpAddr>),
}

/// What came of a request to a webhook: no reply, or a status, with its
/// number and its text.
#[derive(Debug, PartialEq)]
pub enum Posted {
    NoReply { error: String },
    Reply { status: u16, text: String },
}

/// Whether one of the addresses is an inner one.
pub open spec fn any_inner(addresses: Seq<IpAddr>) -> bool {
    exists|i: int| 0 <= i < addresses.len() && (#[trigger] addresses[i]).is_inner()
}

/// What is wrong with a lookup, if anything.
pub open spec fn lookup_fault(lookup: Lookup) -> Option<Seq<char>> {
    match lookup {
        Lookup::TimedOut => Some("DNS resolution timed out"@),
        Lookup::Failed => Some("DNS resolution failed"@),
        Lookup::Addresses(a) => if any_inner(a@) {
            Some("resolved to a private or loopback address"@)
        } else if a@.len() == 0 {
            Some("hostname did not resolve to any address"@)
        } else {
            None
        },
    }
}

/// What to look up for an address: host and port.
pub open spec fn lookup_name(url: Seq<char>) -> Result<Seq<char>, Seq<char>> {
    match crate::outside::url_parts(url) {
        None => Err("invalid URL"@),
        Some(parts) => match parts.1 {
            None => Err("missing host"@),
            Some(host) => Ok(
                host + ":"@ + crate::numerals::nat_text(
                    match parts.2 {
                        Some(port) => port as nat,
                        None => 443,
                    },
                ),
            ),
        },
    }
}

/// What to look up for an address: host and port.
fn lookup_target(url: &str) -> (r: Result<String, &'static str>)
    ensures
        match r {
            Ok(s) => lookup_name(url@) == Ok::<Seq<char>, Seq<char>>(s@),
            Err(e) => lookup_name(url@) == Err::<Seq<char>, Seq<char>>(e@),
        },
{
    match parse_url(url) {
        None => Err("invalid URL"),
        Some(parts) => match parts.1 {
            None => Err("missing host"),
            Some(host) => {
                let port: u16 = match parts.2 {
                    Some(p) => p,
                    None => 443,
                };
                Ok(cat3(host.as_str(), ":", u64_text(port as u64).as_str()))
            },
        },
    }
}

/// What is wrong with a lookup, if anything.
pub fn resolve_and_check(lookup: &Lookup) -> (r: Result<(), &'static str>)
    ensures
        match r {
            Ok(_) => lookup_fault(*lookup) is None,
            Err(e) => lookup_fault(*lookup) == Some(e@),
        },
{
    match lookup {
        Lookup::TimedOut => Err("DNS resolution timed out"),
        Lookup::Failed => Err("DNS resolution failed"),
        Lookup::Addresses(a) => {
            for i in 0..a.len()
                invariant
                    *lookup == Lookup::Addresses(*a),
                    forall|j: int| 0 <= j < i ==> !(#[trigger] a@[j]).is_inner(),
            {
                if !is_safe_ip(a[i]) {
                    return Err("resolved to a private or loopback address");
                }
            }
            if a.len() == 0 {
                return Err("hostname did not resolve to any address");
            }
            Ok(())
        },
    }
}

/// What the next move of a delivery is.
#[derive(Debug, PartialEq)]
pub enum Delivery {
    /// Look this host and port up.
    Resolve { target: String },
    /// Post the payload.
    Post,
    /// The payload has arrived.
    Delivered,
    /// The attempt has failed.
    Failed(WebhookFailure),
}

/// What a `Delivery` stands for.
pub enum Move {
    Resolve(Seq<char>),
    Post,
    Delivered,
    Failed(Setback),
}

impl View for Delivery {
    type V = Move;

    open spec fn view(&self) -> Move {
        match *self {
            Delivery::Resolve { target } => Move::Resolve(target@),
            Delivery::Post => Move::Post,
            Delivery::Delivered => Move::Delivered,
            Delivery::Failed(f) => Move::Failed(f@),
        }
    }
}

/// The failure of a check on names and addresses. A name that can't be
/// resolved may be resolvable later; one that leads to an inner address won't
/// become safe on retry.
pub open spec fn dns_failure(reason: Seq<char>) -> Setback {
    Setback {
        message: "DNS check: "@ + reason,
        terminal: reason == "resolved to a private or loopback address"@,
    }
}

/// How a delivery starts.
pub open spec fn first_move(url: Seq<char>) -> Move {
    if !is_safe_webhook(url) {
        Move::Failed(
            Setback {
                message: "URL rejected: must be https with a public host"@,
                terminal: true,
            },
        )
    } else {
        match lookup_name(url) {
            Ok(target) => Move::Resolve(target),
            Err(reason) => Move::Failed(dns_failure(reason)),
        }
    }
}

/// How a delivery goes on once its host is looked up.
pub open spec fn move_after_lookup(lookup: Lookup) -> Move {
    match lookup_fault(lookup) {
        None => Move::Post,
        Some(reason) => Move::Failed(dns_failure(reason)),
    }
}

/// How a delivery ends. A reply in the 400s (other than 408 and 429) is
/// terminal: the URL or payload is wrong, and hammering won't help.
pub open spec fn move_after_post(posted: Posted) -> Move {
    match posted {
        Posted::NoReply { error } => Move::Failed(
            Setback { message: "request failed: "@ + error@, terminal: false },
        ),
        Posted::Reply { status, text } => if 200 <= status < 300 {
            Move::Delivered
        } else {
            Move::Failed(
                Setback {
                    message: "webhook returned "@ + text@,
                    terminal: 400 <= status < 500 && status != 408 && status != 429,
                },
            )
        },
    }
}

fn dns_failed(reason: &str) -> (r: WebhookFailure)
    ensures
        r@ == dns_failure(reason@),
{
    WebhookFailure {
        message: cat2("DNS check: ", reason),
        terminal: same(reason, "resolved to a private or loopback address"),
    }
}

/// How one delivery attempt starts. Deliveries are made by the job worker only,
/// so that retries and dead letters go through the durable queue.
pub fn deliver_once(url: &str) -> (r: Delivery)
    ensures
        r@ == first_move(url@),
{
    if !is_safe_url(url) {
        return Delivery::Failed(
            WebhookFailure {
                message: owned("URL rejected: must be https with a public host"),
                terminal: true,
            },
        );
    }
    // The host is resolved before the request and each resolved IP is checked:
    // a public name that resolves to an inner address is caught only here.
    match lookup_target(url) {
        Ok(target) => Delivery::Resolve { target },
        Err(reason) => Delivery::Failed(dns_failed(reason)),
    }
}

/// How a delivery goes on once its host is looked up.
pub fn delivery_resolved(lookup: &Lookup) -> (r: Delivery)
    ensures
        r@ == move_after_lookup(*lookup),
{
    match resolve_and_check(lookup) {
        Ok(_) => Delivery::Post,
        Err(reason) => Delivery::Failed(dns_failed(reason)),
    }
}

/// How a delivery ends.
pub fn delivery_posted(posted: &Posted) -> (r: Delivery)
    ensures
        r@ == move_after_post(*posted),
{
    match posted {
        Posted::NoReply { error } => Delivery::Failed(
            WebhookFailure {
                message: cat2("request failed: ", error.as_str()),
                terminal: false,
            },
        ),
        Posted::Reply { status, text } => {
            let status: u16 = *status;
            if status >= 200 && status < 300 {
                return Delivery::Delivered;
            }
            let terminal: bool = status >= 400 && status < 500 && status != 408 && status != 429;
            Delivery::Failed(
                WebhookFailure { message: cat2("webhook returned ", text.as_str()), terminal },
            )
        },
    }
}

/// Nothing is posted before the URL has passed its check, nor to a host one of
/// whose addresses is an inner one; and a failure for that reason is terminal.
pub proof fn law_nothing_is_posted_inward(url: Seq<char>, lookup: Lookup)
    ensures
        first_move(url) is Resolve ==> is_safe_webhook(url),
        first_move(url) !is Post,
        move_after_lookup(lookup) is Post ==> lookup is Addresses && !any_inner(lookup->Addresses_0@)
            && lookup->Addresses_0@.len() > 0,
        lookup is Addresses && any_inner(lookup->Addresses_0@) ==> {
            &&& move_after_lookup(lookup) matches Move::Failed(f)
            &&& f.terminal
        },
{
}

/// Server errors, timeouts and rate limits are tried again.
pub proof fn law_passing_troubles_are_retried(posted: Posted)
    ensures
        posted is NoReply ==> {
            &&& move_after_post(posted) matches Move::Failed(f)
            &&& !f.terminal
        },
        posted matches Posted::Reply { status, text } && (status >= 500 || status == 408 || status
            == 429) ==> {
            &&& move_after_post(posted) matches Move::Failed(f)
            &&& !f.terminal
        },
{
}

// ---------------------------------------------------------------------------
// Payload
// ---------------------------------------------------------------------------

/// The message that a submission is announced with.
pub open spec fn announcement(
    form_title: Seq<char>,
    form_slug: Seq<char>,
    member_name: Seq<char>,
    discord_id: Seq<char>,
    total_score: Option<i32>,
    base_url: Seq<char>,
) -> Seq<char> {
    let score = match total_score {
        Some(s) => "\nScore: "@ + crate::numerals::int_text(s as int),
        None => Seq::empty(),
    };
    "**New submission to \""@ + form_title + "\"**\nFrom: <@"@ + discord_id + "> ("@ + member_name
        + ")"@ + score + "\n"@ + (base_url + "/f/"@ + form_slug)
}

/// The JSON payload posted on each submission.
pub open spec fn payload(
    form_title: Seq<char>,
    form_slug: Seq<char>,
    member_name: Seq<char>,
    discord_id: Seq<char>,
    response_id: Seq<char>,
    total_score: Option<i32>,
    base_url: Seq<char>,
    submitted_at: Seq<char>,
) -> Json {
    Json::empty()
        .with(
            "content"@,
            Json::Text(
                announcement(form_title, form_slug, member_name, discord_id, total_score, base_url),
            ),
        )
        .with("discord_id"@, Json::Text(discord_id))
        .with("form_slug"@, Json::Text(form_slug))
        .with("form_title"@, Json::Text(form_title))
        .with("member_name"@, Json::Text(member_name))
        .with("response_id"@, Json::Text(response_id))
        .with("submitted_at"@, Json::Text(submitted_at))
        .with(
            "total_score"@,
            match total_score {
                Some(s) => Json::Number(Numeral::of_int(s as i64)),
                None => Json::Null,
            },
        )
}

/// Build the JSON payload posted on each submission. Discord webhooks honor the
/// `content` field to render a message; other endpoints can still consume the
/// structured fields. `submitted_at` is the time of the submission, as RFC 3339
/// has it.
pub fn build_payload(
    form_title: &str,
    form_slug: &str,
    member_name: &str,
    discord_id: &str,
    response_id: &str,
    total_score: Option<i32>,
    base_url: &str,
    submitted_at: &str,
) -> (r: Value)
    ensures
        r@ == payload(
            form_title@,
            form_slug@,
            member_name@,
            discord_id@,
            response_id@,
            total_score,
            base_url@,
            submitted_at@,
        ),
{
    let response_url = cat3(base_url, "/f/", form_slug);
    let score_line = match total_score {
        Some(s) => cat2("\nScore: ", i32_text(s).as_str()),
        None => String::new(),
    };
    let mut content: String = cat5(
        "**New submission to \"",
        form_title,
        "\"**\nFrom: <@",
        discord_id,
        "> (",
    );
    content.append(member_name);
    content.append(")");
    content.append(score_line.as_str());
    content.append("\n");
    content.append(response_url.as_str());
    let mut o = no_fields();
    push_field(&mut o, "content", text(content.as_str()));
    push_field(&mut o, "discord_id", text(discord_id));
    push_field(&mut o, "form_slug", text(form_slug));
    push_field(&mut o, "form_title", text(form_title));
    push_field(&mut o, "member_name", text(member_name));
    push_field(&mut o, "response_id", text(response_id));
    push_field(&mut o, "submitted_at", text(submitted_at));
    push_field(
        &mut o,
        "total_score",
        match total_score {
            Some(s) => integer(s as i64),
            None => Value::Null,
        },
    );
    object(o)
}

} // verus!
