//! Calls into other crates. Each function here is a thin shell around one
//! call; what its contract says of the call is taken on trust.

use chrono::Datelike;
use vstd::prelude::*;

verus! {

// ---------------------------------------------------------------------------
// Regular expressions
// ---------------------------------------------------------------------------

/// Whether a pattern builds within a limit on its compiled size and on the
/// size of its matching cache.
pub uninterp spec fn regex_valid(pattern: Seq<char>, limit: usize) -> bool;

/// Whether a pattern that builds within the limit matches somewhere in a text.
pub uninterp spec fn regex_found(pattern: Seq<char>, limit: usize, text: Seq<char>) -> bool;

/// `regex::RegexBuilder::build`, with `limit` as both size limits: whether it
/// accepts the pattern. Trusted: the answer depends on the pattern and the
/// limit alone.
#[verifier::external_body]
pub(crate) fn regex_builds(pattern: &str, limit: usize) -> (r: bool)
    ensures
        r == regex_valid(pattern@, limit),
{
    regex::RegexBuilder::new(pattern).size_limit(limit).dfa_size_limit(limit).build().is_ok()
}

/// `regex::Regex::is_match` on a pattern built as in `regex_builds`; `None`
/// where the pattern does not build. Trusted: there is an answer just where
/// the pattern builds, and it depends on the pattern, the limit and the text
/// alone.
#[verifier::external_body]
pub(crate) fn regex_search(pattern: &str, limit: usize, text: &str) -> (r: Option<bool>)
    ensures
        r is Some <==> regex_valid(pattern@, limit),
        r matches Some(b) ==> b == regex_found(pattern@, limit, text@),
{
    match regex::RegexBuilder::new(pattern).size_limit(limit).dfa_size_limit(limit).build() {
        Ok(regex) => Some(regex.is_match(text)),
        Err(_) => None,
    }
}

// ---------------------------------------------------------------------------
// Dates
// ---------------------------------------------------------------------------

/// The instant that an RFC 3339 text denotes: whole seconds since the start of
/// 1970 in UTC, and the nanoseconds past them.
pub uninterp spec fn rfc3339_instant(s: Seq<char>) -> Option<(i64, u32)>;

/// The day that a text denotes in a format, counted from the first day of the
/// year 1, which is day 1.
pub uninterp spec fn day_number(s: Seq<char>, format: Seq<char>) -> Option<i32>;

/// `chrono::DateTime::parse_from_rfc3339`. Trusted: what the text denotes, if
/// anything, depends on the text alone.
#[verifier::external_body]
pub(crate) fn parse_rfc3339(s: &str) -> (r: Option<(i64, u32)>)
    ensures
        r == rfc3339_instant(s@),
{
    match chrono::DateTime::parse_from_rfc3339(s) {
        Ok(t) => Some((t.timestamp(), t.timestamp_subsec_nanos())),
        Err(_) => None,
    }
}

/// `chrono::NaiveDate::parse_from_str`. Trusted: what the text denotes, if
/// anything, depends on the text and the format alone.
#[verifier::external_body]
pub(crate) fn parse_day(s: &str, format: &str) -> (r: Option<i32>)
    ensures
        r == day_number(s@, format@),
{
    match chrono::NaiveDate::parse_from_str(s, format) {
        Ok(d) => Some(d.num_days_from_ce()),
        Err(_) => None,
    }
}

// ---------------------------------------------------------------------------
// Letters
// ---------------------------------------------------------------------------

/// A text in lower case, by the Unicode rules.
pub uninterp spec fn lowercase(s: Seq<char>) -> Seq<char>;

/// `str::to_lowercase` of the standard library. Trusted: the result depends
/// on the text alone.
#[verifier::external_body]
pub(crate) fn to_lowercase(s: &str) -> (r: String)
    ensures
        r@ == lowercase(s@),
{
    s.to_lowercase()
}

// ---------------------------------------------------------------------------
// Addresses
// ---------------------------------------------------------------------------

/// The scheme of an absolute address, its host, and its port (the one it gives,
/// or the one its scheme is known for); nothing where a text is no address.
pub uninterp spec fn url_parts(url: Seq<char>) -> Option<
    (Seq<char>, Option<Seq<char>>, Option<u16>),
>;

/// The numbers of an IP address: four below 256 for IPv4, eight for IPv6;
/// nothing where a text is no IP address.
pub uninterp spec fn ip_groups(s: Seq<char>) -> Option<Seq<u16>>;

/// `reqwest::Url::parse`, with the scheme, the host and the port of what it
/// gives. Trusted: these depend on the text alone.
#[verifier::external_body]
pub(crate) fn parse_url(url: &str) -> (r: Option<(String, Option<String>, Option<u16>)>)
    ensures
        match r {
            Some(p) => url_parts(url@) == Some((p.0@, crate::error::optional_text(p.1), p.2)),
            None => url_parts(url@) is None,
        },
{
    match reqwest::Url::parse(url) {
        Ok(u) => Some(
            (
                u.scheme().to_string(),
                u.host_str().map(|h| h.to_string()),
                u.port_or_known_default(),
            ),
        ),
        Err(_) => None,
    }
}

/// `str::parse` of the standard library into an IP address. Trusted: the
/// numbers depend on the text alone; an IPv4 address has four, each below 256,
/// and an IPv6 address has eight.
#[verifier::external_body]
pub(crate) fn parse_ip(s: &str) -> (r: Option<Vec<u16>>)
    ensures
        match r {
            Some(v) => ip_groups(s@) == Some(v@) && (v.len() == 8 || (v.len() == 4 && v[0] < 256
                && v[1] < 256 && v[2] < 256 && v[3] < 256)),
            None => ip_groups(s@) is None,
        },
{
    match s.parse::<core::net::IpAddr>() {
        Ok(core::net::IpAddr::V4(a)) => {
            let o = a.octets();
            Some(vec![o[0] as u16, o[1] as u16, o[2] as u16, o[3] as u16])
        },
        Ok(core::net::IpAddr::V6(a)) => Some(a.segments().to_vec()),
        Err(_) => None,
    }
}

// ---------------------------------------------------------------------------
// Chance
// ---------------------------------------------------------------------------

/// `rand::Rng::gen_range` of the thread's generator, from 0 up to but without
/// `n`. Trusted: the result is below `n`; which number it is, is left to chance.
#[verifier::external_body]
pub(crate) fn random_below(n: u64) -> (r: u64)
    requires
        n > 0,
    ensures
        r < n,
{
    rand::Rng::gen_range(&mut rand::thread_rng(), 0..n)
}

// ---------------------------------------------------------------------------
// JSON texts
// ---------------------------------------------------------------------------

/// The unsigned integer that stands in a JSON text under `inner` in the object
/// under `outer`; nothing where the text is no JSON or has none there.
pub uninterp spec fn json_number_at(body: Seq<char>, outer: Seq<char>, inner: Seq<char>) -> Option<
    u64,
>;

/// `serde_json::from_str` into a `serde_json::Value`, and the number at
/// `[outer][inner]` in it. Trusted: the number depends on the text and the two
/// keys alone.
#[verifier::external_body]
pub(crate) fn json_u64_at(body: &str, outer: &str, inner: &str) -> (r: Option<u64>)
    ensures
        r == json_number_at(body@, outer@, inner@),
{
    match serde_json::from_str::<serde_json::Value>(body) {
        Ok(v) => v[outer][inner].as_u64(),
        Err(_) => None,
    }
}

// ---------------------------------------------------------------------------
// Writing times
// ---------------------------------------------------------------------------

/// The RFC 3339 text of an instant in UTC: seconds since the start of 1970, and
/// the nanoseconds past them.
pub uninterp spec fn rfc3339_text(secs: i64, nanos: u32) -> Seq<char>;

/// `chrono::DateTime::to_rfc3339` of the instant in UTC. Trusted: the text
/// depends on the instant alone. The instants that have no calendar date are
/// left out.
#[verifier::external_body]
pub(crate) fn format_rfc3339(secs: i64, nanos: u32) -> (r: String)
    requires
        crate::time::MIN_SECS <= secs <= crate::time::MAX_SECS,
        nanos < 1_000_000_000,
    ensures
        r@ == rfc3339_text(secs, nanos),
{
    chrono::DateTime::from_timestamp(secs, nanos).map(|t| t.to_rfc3339()).unwrap_or_default()
}

// ---------------------------------------------------------------------------
// Encodings
// ---------------------------------------------------------------------------

/// Whether a byte stands for itself in a percent-encoded text.
pub open spec fn is_unreserved(b: u8) -> bool {
    ||| 48 <= b <= 57  // digits
    ||| 65 <= b <= 90  // capital letters
    ||| 97 <= b <= 122  // small letters
    ||| b == 45 || b == 95 || b == 46 || b == 126  // - _ . ~
}

/// The hexadecimal digit for `n`, in upper case.
pub open spec fn upper_hex(n: int) -> char
    recommends
        0 <= n < 16,
{
    if n < 10 {
        (48 + n) as char
    } else {
        (55 + n) as char
    }
}

/// Bytes as a percent-encoded text.
pub open spec fn percent_encoded(bytes: Seq<u8>) -> Seq<char>
    decreases bytes.len(),
{
    if bytes.len() == 0 {
        Seq::empty()
    } else {
        let b = bytes.last();
        percent_encoded(bytes.drop_last()) + if is_unreserved(b) {
            seq![b as char]
        } else {
            seq!['%', upper_hex(b as int / 16), upper_hex(b as int % 16)]
        }
    }
}

/// `urlencoding::encode`. Trusted: every byte of the text in UTF-8 is
/// percent-encoded, but for letters, digits and `-`, `_`, `.`, `~`.
#[verifier::external_body]
pub(crate) fn percent_encode(s: &str) -> (r: String)
    ensures
        r@ == percent_encoded(vstd::utf8::encode_utf8(s@)),
{
    urlencoding::encode(s).into_owned()
}

/// The character for six bits in the URL-safe Base64 alphabet.
pub open spec fn base64_char(n: int) -> char
    recommends
        0 <= n < 64,
{
    if n < 26 {
        (65 + n) as char
    } else if n < 52 {
        (71 + n) as char
    } else if n < 62 {
        (n - 4) as char
    } else if n == 62 {
        '-'
    } else {
        '_'
    }
}

/// Bytes as URL-safe Base64 without padding: three bytes at a time as four
/// characters.
pub open spec fn base64_text(bytes: Seq<u8>) -> Seq<char>
    decreases bytes.len(),
{
    if bytes.len() == 0 {
        Seq::empty()
    } else {
        let a = bytes[0] as int;
        let b = if bytes.len() > 1 {
            bytes[1] as int
        } else {
            0
        };
        let c = if bytes.len() > 2 {
            bytes[2] as int
        } else {
            0
        };
        let four = seq![
            base64_char(a / 4),
            base64_char(a % 4 * 16 + b / 16),
            base64_char(b % 16 * 4 + c / 64),
            base64_char(c % 64),
        ];
        if bytes.len() < 3 {
            four.take((bytes.len() + 1) as int)
        } else {
            four + base64_text(bytes.skip(3))
        }
    }
}

/// `base64::Engine::encode` of the URL-safe engine without padding. Trusted: the
/// text is the Base64 text of the bytes in the URL-safe alphabet. So many bytes
/// that the size of their text overflows are left out.
#[verifier::external_body]
pub(crate) fn base64_encode(bytes: &Vec<u8>) -> (r: String)
    requires
        bytes.len() <= usize::MAX / 2,
    ensures
        r@ == base64_text(bytes@),
{
    base64::Engine::encode(&base64::engine::general_purpose::URL_SAFE_NO_PAD, bytes)
}

/// `rand::Rng::fill` of the thread's generator. Trusted: it gives as many bytes
/// as were asked for; which they are, is left to chance.
#[verifier::external_body]
pub(crate) fn random_bytes(count: usize) -> (r: Vec<u8>)
    ensures
        r.len() == count,
{
    let mut bytes = vec![0u8; count];
    rand::Rng::fill(&mut rand::thread_rng(), bytes.as_mut_slice());
    bytes
}

// ---------------------------------------------------------------------------
// Identifiers
// ---------------------------------------------------------------------------

/// The number of the UUID that a text denotes; nothing where it denotes none.
pub uninterp spec fn uuid_number(s: Seq<char>) -> Option<u128>;

/// `uuid::Uuid::parse_str`. Trusted: the number depends on the text alone.
#[verifier::external_body]
pub(crate) fn parse_uuid(s: &str) -> (r: Option<u128>)
    ensures
        r == uuid_number(s@),
{
    match uuid::Uuid::parse_str(s) {
        Ok(u) => Some(u.as_u128()),
        Err(_) => None,
    }
}

} // verus!
