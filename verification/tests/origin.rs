use sml_mcps::transport::origin::{host_of, is_loopback_host, normalize_origin, OriginPolicy};

#[test]
fn normalizes_scheme_and_host_case() {
    assert_eq!(
        normalize_origin("HTTP://LocalHost:3000").as_deref(),
        Some("http://localhost:3000")
    );
}

#[test]
fn normalizes_trailing_slash() {
    assert_eq!(
        normalize_origin("https://example.com/").as_deref(),
        Some("https://example.com")
    );
}

#[test]
fn keeps_port_distinct() {
    assert_ne!(
        normalize_origin("http://example.com"),
        normalize_origin("http://example.com:80")
    );
}

#[test]
fn normalizes_ipv6_literal() {
    assert_eq!(
        normalize_origin("http://[::1]:8080").as_deref(),
        Some("http://[::1]:8080")
    );
    assert_eq!(
        normalize_origin("http://[::1]").as_deref(),
        Some("http://[::1]")
    );
}

#[test]
fn rejects_malformed_origins() {
    for bad in [
        "",
        "   ",
        "null",
        "NULL",
        "example.com",
        "://example.com",
        "1http://example.com",
        "http://",
        "http:///path",
        "http://example.com/path",
        "http://example.com?q=1",
        "http://example.com#frag",
        "http://user@example.com",
        "http://example.com:",
        "http://example.com:abc",
        "http://example.com:99999",
        "http://[::1",
        "http://[::1]x80",
    ] {
        assert!(
            normalize_origin(bad).is_none(),
            "expected {bad:?} to be rejected"
        );
    }
}

#[test]
fn loopback_policy_accepts_loopback_hosts() {
    let policy = OriginPolicy::Loopback;
    for good in [
        "http://localhost",
        "http://localhost:3000",
        "https://localhost:8443",
        "http://LOCALHOST:3000",
        "http://app.localhost:5173",
        "http://127.0.0.1",
        "http://127.0.0.1:8080",
        "http://127.1.2.3:9999",
        "http://[::1]:8080",
    ] {
        assert!(policy.is_allowed(good), "expected {good:?} to be allowed");
    }
}

#[test]
fn loopback_policy_rejects_remote_hosts() {
    let policy = OriginPolicy::Loopback;
    for bad in [
        "https://evil.example.com",
        "http://example.com:3000",
        "http://localhost.evil.example.com",
        "http://notlocalhost",
        "http://192.168.1.5:3000",
        "http://[2001:db8::1]",
        "null",
    ] {
        assert!(!policy.is_allowed(bad), "expected {bad:?} to be rejected");
    }
}

#[test]
fn allowlist_policy_matches_exactly() {
    let policy = OriginPolicy::allowlist(&["https://app.example.com", "http://localhost:5173"]);

    assert!(policy.is_allowed("https://app.example.com"));
    assert!(policy.is_allowed("https://app.example.com/"));
    assert!(policy.is_allowed("HTTPS://APP.EXAMPLE.COM"));
    assert!(policy.is_allowed("http://localhost:5173"));

    assert!(!policy.is_allowed("http://app.example.com"));
    assert!(!policy.is_allowed("https://app.example.com:443"));
    assert!(!policy.is_allowed("https://evil.example.com"));
    assert!(!policy.is_allowed("http://localhost:3000"));
    assert!(!policy.is_allowed("null"));
}

#[test]
fn allowlist_normalizes_configured_entries() {
    let policy = OriginPolicy::allowlist(&["HTTPS://App.Example.COM/"]);
    assert_eq!(
        policy,
        OriginPolicy::Allowlist(vec!["https://app.example.com".to_string()])
    );
    assert!(policy.is_allowed("https://app.example.com"));
}

#[test]
fn allowlist_keeps_unparseable_entries_without_panicking() {
    let policy = OriginPolicy::allowlist(&["not-an-origin"]);
    assert!(!policy.is_allowed("not-an-origin"));
    assert!(!policy.is_allowed("http://not-an-origin"));
}

#[test]
fn any_policy_accepts_everything() {
    let policy = OriginPolicy::Any;
    assert!(policy.is_allowed("https://evil.example.com"));
    assert!(policy.is_allowed("null"));
    assert!(policy.is_allowed(""));
}

#[test]
fn default_policy_is_loopback() {
    assert_eq!(OriginPolicy::default(), OriginPolicy::Loopback);
}

#[test]
fn host_of_extracts_host() {
    assert_eq!(
        host_of("http://localhost:3000").as_deref(),
        Some("localhost")
    );
    assert_eq!(host_of("http://[::1]:8080").as_deref(), Some("::1"));
    assert_eq!(
        host_of("https://example.com").as_deref(),
        Some("example.com")
    );
    assert_eq!(host_of("garbage"), None);
}

#[test]
fn is_loopback_host_covers_ipv4_and_ipv6() {
    assert!(is_loopback_host("127.0.0.1"));
    assert!(is_loopback_host("127.255.255.254"));
    assert!(is_loopback_host("::1"));
    assert!(is_loopback_host("localhost"));
    assert!(is_loopback_host("foo.localhost"));
    assert!(!is_loopback_host("128.0.0.1"));
    assert!(!is_loopback_host("localhost.evil.com"));
    assert!(!is_loopback_host("::2"));
}

#[test]
fn every_spelling_of_the_ipv6_loopback_is_recognised() {
    for good in [
        "0:0:0:0:0:0:0:1",
        "0::1",
        "::0:1",
        "0000:0000:0000:0000:0000:0000:0000:0001",
        "::0.0.0.1",
        "0:0:0:0:0:0:0.0.0.1",
    ] {
        assert!(is_loopback_host(good), "{good}");
    }
    for bad in [
        "::",
        ":::1",
        "::1::",
        "1::",
        "00000::1",
        "::0.0.0.01",
        "0:0:0:0:0:0:0:0:1",
        "0:0:0:0:0:0:0::1:",
        "::ffff:127.0.0.1",
        "127.0.0",
        "127.0.0.0.1",
        "127.0.0.256",
        "127.00.0.1",
        "127.0.0.1 ",
        "g::1",
        "",
    ] {
        assert!(!is_loopback_host(bad), "{bad}");
    }
}

#[test]
fn normalizing_twice_changes_nothing() {
    for origin in [
        "HTTPS://App.Example.COM/",
        "http://[FE80::1]:80",
        "http://a",
    ] {
        let once = normalize_origin(origin).unwrap();
        assert_eq!(normalize_origin(&once), Some(once.clone()));
    }
    // White space is cut off at the ends and refused within.
    assert_eq!(normalize_origin("http://host /"), None);
    assert_eq!(normalize_origin("http://ho st"), None);
    assert_eq!(
        normalize_origin("http://host ").as_deref(),
        Some("http://host")
    );
}

#[test]
fn brackets_come_in_one_pair_round_the_host() {
    for bad in ["http://[abc", "http://a[b", "http://[[::1]", "http://[::1]]", "http://abc]"] {
        assert_eq!(normalize_origin(bad), None, "{bad}");
    }
    assert_eq!(
        normalize_origin("http://[::1]:80").as_deref(),
        Some("http://[::1]:80")
    );
}

#[test]
fn a_list_made_by_hand_is_normalized_too() {
    let policy = OriginPolicy::Allowlist(vec![
        "HTTPS://App.Example.COM/".to_string(),
        "nonsense".to_string(),
    ]);
    assert!(policy.is_allowed("https://app.example.com"));
    assert!(!policy.is_allowed("https://app.example.com:8080"));
    assert!(!policy.is_allowed("nonsense"));
}

#[test]
fn a_listed_origin_is_allowed_in_any_spelling() {
    let policy = OriginPolicy::allowlist(&[" HTTP://Example.COM:8080/ "]);
    assert!(policy.is_allowed("http://example.com:8080"));
    assert!(policy.is_allowed("http://EXAMPLE.com:8080/"));
    assert!(!policy.is_allowed(" nUlL "));
}

#[test]
fn every_spelling_of_an_origin_has_one_normal_form() {
    for s in [
        "http://localhost:3000",
        "https://Example.COM",
        "http://[2001:DB8::1]:80",
        "http://a:65536",
        "http:",
        "null",
        "",
    ] {
        let normal = normalize_origin(s);
        assert_eq!(normalize_origin(&s.to_ascii_uppercase()), normal, "{s}");
        assert_eq!(normalize_origin(&format!("{s}/")), normal, "{s}");
        assert_eq!(normalize_origin(&format!(" {s} ")), normal, "{s}");
        assert_eq!(normalize_origin(&format!("\u{2003}\t{s}\n")), normal, "{s}");
        assert_eq!(normalize_origin(&format!("{s}//")), None, "{s}");
    }
    assert_eq!(
        normalize_origin("HTTP://[2001:DB8::1]:80/").as_deref(),
        Some("http://[2001:db8::1]:80")
    );
}
