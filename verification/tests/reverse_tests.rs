use http_proxy_core::reverse::{
    find_location, parse_upstream_origin, rewrite_uri, sort_rules, validate_upstream,
    LocationConfig, Upstream, UpstreamVersion,
};

fn rule(location: &str, upstream: &str, replacement: &str) -> LocationConfig {
    LocationConfig {
        location: location.to_string(),
        upstream: Upstream {
            scheme_and_authority: upstream.to_string(),
            replacement: replacement.to_string(),
            version: UpstreamVersion::Auto,
        },
    }
}

#[test]
fn sort_is_longest_location_first() {
    let rules = vec![
        rule("/a", "http://a.test", ""),
        rule("/abc", "http://abc.test", ""),
        rule("/ab", "http://ab.test", ""),
    ];
    let sorted = sort_rules(&rules);
    assert_eq!(sorted[0].location, "/abc");
    assert_eq!(sorted[1].location, "/ab");
    assert_eq!(sorted[2].location, "/a");
}

#[test]
fn sort_is_stable_for_equal_lengths() {
    let rules = vec![
        rule("/b", "http://first.test", ""),
        rule("/zzz", "http://long.test", ""),
        rule("/a", "http://second.test", ""),
    ];
    let sorted = sort_rules(&rules);
    assert_eq!(sorted[0].location, "/zzz");
    // The two length-2 locations keep their configured order.
    assert_eq!(sorted[1].location, "/b");
    assert_eq!(sorted[2].location, "/a");
}

#[test]
fn first_match_wins_in_sorted_order() {
    let rules = vec![
        rule("/gh/x", "http://deep.test", ""),
        rule("/gh", "http://shallow.test", ""),
    ];
    // Path matches both; the more specific (earlier, longer) rule wins.
    assert_eq!(find_location(&rules, "/gh/x/1"), Some(0));
    // Path matches only the shorter.
    assert_eq!(find_location(&rules, "/gh/y"), Some(1));
    // No rule matches.
    assert_eq!(find_location(&rules, "/other"), None);
}

#[test]
fn rewrite_strips_location_and_keeps_query() {
    let q = String::from("x=1");
    let out = rewrite_uri("/gh/foo", Some(&q), "/gh", "");
    assert_eq!(out, "/foo?x=1");
    let out = rewrite_uri("/gh/foo", None, "/gh", "");
    assert_eq!(out, "/foo");
    let out = rewrite_uri("/old/a", None, "/old", "/new");
    assert_eq!(out, "/new/a");
}

#[test]
fn upstream_origin_ports_default_by_scheme() {
    let (scheme, host, port) = parse_upstream_origin("http://127.0.0.1:9081").unwrap();
    assert_eq!(scheme, "http");
    assert_eq!(host, "127.0.0.1");
    assert_eq!(port, 9081);
    let (scheme, host, port) = parse_upstream_origin("https://example.com").unwrap();
    assert_eq!(scheme, "https");
    assert_eq!(host, "example.com");
    assert_eq!(port, 443);
    let (_, _, port) = parse_upstream_origin("http://example.com").unwrap();
    assert_eq!(port, 80);
    assert!(parse_upstream_origin("not a uri at all ://").is_none());
}

#[test]
fn upstream_validation() {
    assert!(validate_upstream("https://example.com"));
    assert!(validate_upstream("http://127.0.0.1:9081"));
    // Trailing slash refused.
    assert!(!validate_upstream("https://example.com/"));
    // A path refused.
    assert!(!validate_upstream("https://example.com/path"));
    // A query refused.
    assert!(!validate_upstream("https://example.com?a=1"));
    // No scheme or authority refused.
    assert!(!validate_upstream("example.com"));
    assert!(!validate_upstream("/just/a/path"));
}
