//! Webhook addresses, deliveries and payloads.

use form_respondent_role::json::Value;
use form_respondent_role::services::webhook::{
    build_payload, deliver_once, delivery_posted, delivery_resolved, is_safe_ip, is_safe_url,
    resolve_and_check, Delivery, IpAddr, Lookup, Posted, WebhookFailure,
};

// ---------- is_safe_url (URL-time check) ----------

#[test]
fn safe_url_accepts_public_https() {
    assert!(is_safe_url("https://example.com/webhook"));
    assert!(is_safe_url("https://hooks.discord.com/api/webhooks/123/abc"));
}

#[test]
fn safe_url_rejects_http() {
    assert!(!is_safe_url("http://example.com"));
}

#[test]
fn safe_url_rejects_localhost() {
    assert!(!is_safe_url("https://localhost/x"));
    assert!(!is_safe_url("https://api.localhost/x"));
}

#[test]
fn safe_url_rejects_ipv4_loopback_and_private() {
    assert!(!is_safe_url("https://127.0.0.1/"));
    assert!(!is_safe_url("https://10.0.0.5/"));
    assert!(!is_safe_url("https://192.168.1.1/"));
    assert!(!is_safe_url("https://172.16.0.1/"));
    // 169.254.169.254 is the AWS / GCP metadata endpoint: must stay blocked
    // since most cloud creds bypass live there.
    assert!(!is_safe_url("https://169.254.169.254/latest/meta-data/"));
}

#[test]
fn safe_url_rejects_ipv6_loopback_and_private() {
    assert!(!is_safe_url("https://[::1]/"));
    assert!(!is_safe_url("https://[::]/"));
    assert!(!is_safe_url("https://[fc00::1]/")); // ULA
    assert!(!is_safe_url("https://[fd00::1]/")); // ULA
    assert!(!is_safe_url("https://[fe80::1]/")); // link-local
    // IPv4-mapped IPv6 should be treated as the underlying IPv4: `::ffff:127.0.0.1`
    // is one of the most overlooked SSRF bypasses.
    assert!(!is_safe_url("https://[::ffff:127.0.0.1]/"));
    assert!(!is_safe_url("https://[::ffff:10.0.0.1]/"));
}

#[test]
fn safe_url_accepts_public_ipv6() {
    // 2001:db8::/32 is reserved-for-docs but isn't loopback/ULA/link-local
    // and `is_safe_ip` doesn't currently block reserved ranges. Real
    // public IPv6 like `[2606:4700::]` also passes.
    assert!(is_safe_url("https://[2606:4700::1]/x"));
}

#[test]
fn safe_url_rejects_invalid_inputs() {
    assert!(!is_safe_url(""));
    assert!(!is_safe_url("not a url"));
    assert!(!is_safe_url("javascript:alert(1)"));
    assert!(!is_safe_url("file:///etc/passwd"));
    assert!(!is_safe_url("ftp://example.com"));
}

// ---------- is_safe_ip (post-resolution check) ----------

#[test]
fn safe_ip_v4() {
    assert!(is_safe_ip(IpAddr::V4([1, 1, 1, 1])));
    assert!(is_safe_ip(IpAddr::V4([8, 8, 8, 8])));

    assert!(!is_safe_ip(IpAddr::V4([127, 0, 0, 1])));
    assert!(!is_safe_ip(IpAddr::V4([10, 0, 0, 5])));
    assert!(!is_safe_ip(IpAddr::V4([192, 168, 1, 1])));
    assert!(!is_safe_ip(IpAddr::V4([169, 254, 169, 254])));
    assert!(!is_safe_ip(IpAddr::V4([224, 0, 0, 1]))); // multicast
    assert!(!is_safe_ip(IpAddr::V4([0, 0, 0, 0]))); // unspecified
}

#[test]
fn safe_ip_v6() {
    // Public IPv6: Cloudflare's recursor, just an example public address.
    assert!(is_safe_ip(IpAddr::V6([0x2606, 0x4700, 0, 0, 0, 0, 0, 0x1111])));

    assert!(!is_safe_ip(IpAddr::V6([0, 0, 0, 0, 0, 0, 0, 1])));
    assert!(!is_safe_ip(IpAddr::V6([0, 0, 0, 0, 0, 0, 0, 0])));
    // ULA fc00::/7
    assert!(!is_safe_ip(IpAddr::V6([0xfc00, 0, 0, 0, 0, 0, 0, 1])));
    assert!(!is_safe_ip(IpAddr::V6([0xfd00, 0, 0, 0, 0, 0, 0, 1])));
    // Link-local fe80::/10
    assert!(!is_safe_ip(IpAddr::V6([0xfe80, 0, 0, 0, 0, 0, 0, 1])));
    // IPv4-mapped: `::ffff:127.0.0.1`
    assert!(!is_safe_ip(IpAddr::V6([0, 0, 0, 0, 0, 0xffff, 0x7f00, 0x0001])));
}

/// Whether the standard library counts an IPv4 address as one that is not
/// reached from outside.
fn inner_v4(a: core::net::Ipv4Addr) -> bool {
    a.is_loopback()
        || a.is_private()
        || a.is_link_local()
        || a.is_unspecified()
        || a.is_multicast()
}

#[test]
fn inner_ranges_start_and_end_where_they_should() {
    for o in [
        [9, 255, 255, 255],
        [10, 0, 0, 0],
        [10, 255, 255, 255],
        [11, 0, 0, 0],
        [126, 255, 255, 255],
        [127, 255, 255, 255],
        [128, 0, 0, 0],
        [169, 253, 255, 255],
        [169, 254, 0, 0],
        [169, 255, 0, 0],
        [172, 15, 255, 255],
        [172, 16, 0, 0],
        [172, 31, 255, 255],
        [172, 32, 0, 0],
        [192, 0, 2, 1],
        [192, 167, 255, 255],
        [192, 168, 0, 0],
        [192, 169, 0, 0],
        [198, 51, 100, 7],
        [203, 0, 113, 9],
        [223, 255, 255, 255],
        [224, 0, 0, 0],
        [239, 255, 255, 255],
        [240, 0, 0, 0],
        [255, 255, 255, 255],
    ] {
        let std = core::net::Ipv4Addr::new(o[0], o[1], o[2], o[3]);
        // Mapped into IPv6, an address counts for what it is.
        let mapped = std.to_ipv6_mapped().segments();
        assert_eq!(is_safe_ip(IpAddr::V4(o)), is_safe_ip(IpAddr::V6(mapped)), "{std}");
        assert_eq!(is_safe_ip(IpAddr::V4(o)), !inner_v4(std), "{std}");
    }
}

// ---------- delivery ----------

#[test]
fn unsafe_addresses_are_terminal() {
    match deliver_once("https://10.0.0.5/hook") {
        Delivery::Failed(WebhookFailure { terminal, .. }) => assert!(terminal),
        other => panic!("expected a failure, got {other:?}"),
    }
}

#[test]
fn hosts_are_looked_up_with_their_port() {
    match deliver_once("https://example.com/hook") {
        Delivery::Resolve { target } => assert_eq!(target, "example.com:443"),
        other => panic!("expected a lookup, got {other:?}"),
    }
    match deliver_once("https://example.com:8443/hook") {
        Delivery::Resolve { target } => assert_eq!(target, "example.com:8443"),
        other => panic!("expected a lookup, got {other:?}"),
    }
}

#[test]
fn a_host_with_one_inner_address_is_refused() {
    let mixed = Lookup::Addresses(vec![IpAddr::V4([1, 1, 1, 1]), IpAddr::V4([10, 0, 0, 1])]);
    assert!(resolve_and_check(&mixed).is_err());
    assert!(matches!(
        delivery_resolved(&mixed),
        Delivery::Failed(WebhookFailure { terminal: true, .. })
    ));
    let open = Lookup::Addresses(vec![IpAddr::V4([1, 1, 1, 1])]);
    assert!(resolve_and_check(&open).is_ok());
    assert!(matches!(delivery_resolved(&open), Delivery::Post));
    assert!(resolve_and_check(&Lookup::Addresses(vec![])).is_err());
    assert!(resolve_and_check(&Lookup::TimedOut).is_err());
    assert!(resolve_and_check(&Lookup::Failed).is_err());
}

#[test]
fn replies_are_classified() {
    let reply = |status: u16| Posted::Reply { status, text: format!("{status}") };
    assert!(matches!(delivery_posted(&reply(204)), Delivery::Delivered));
    for status in [408, 429, 500, 503] {
        assert!(matches!(
            delivery_posted(&reply(status)),
            Delivery::Failed(WebhookFailure { terminal: false, .. })
        ));
    }
    for status in [400, 401, 404, 410] {
        assert!(matches!(
            delivery_posted(&reply(status)),
            Delivery::Failed(WebhookFailure { terminal: true, .. })
        ));
    }
    assert!(matches!(
        delivery_posted(&Posted::NoReply { error: "timed out".into() }),
        Delivery::Failed(WebhookFailure { terminal: false, .. })
    ));
}

// ---------- payload ----------

#[test]
fn payloads_announce_the_submission() {
    let v = build_payload(
        "Quiz \"A\"",
        "abc",
        "Ann",
        "42",
        "r-1",
        Some(7),
        "https://x.test",
        "2020-01-01T00:00:00+00:00",
    );
    let got = serde_json::from_str::<serde_json::Value>(&v.to_text()).unwrap();
    let expected = serde_json::from_str::<serde_json::Value>(
        r#"{
            "content": "**New submission to \"Quiz \"A\"\"**\nFrom: <@42> (Ann)\nScore: 7\nhttps://x.test/f/abc",
            "form_title": "Quiz \"A\"",
            "form_slug": "abc",
            "member_name": "Ann",
            "discord_id": "42",
            "response_id": "r-1",
            "total_score": 7,
            "submitted_at": "2020-01-01T00:00:00+00:00"
        }"#,
    )
    .unwrap();
    assert_eq!(got, expected);
}

#[test]
fn payloads_without_a_score_have_no_score_line() {
    let v = build_payload("T", "s", "N", "1", "r", None, "https://x.test", "now");
    match v.get("content") {
        Some(Value::String(s)) => {
            assert_eq!(s, "**New submission to \"T\"**\nFrom: <@1> (N)\nhttps://x.test/f/s")
        }
        other => panic!("no content: {other:?}"),
    }
    assert_eq!(v.get("total_score"), Some(&Value::Null));
}
