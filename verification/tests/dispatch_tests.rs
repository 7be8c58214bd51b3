use http_proxy_core::config::{Param, ProxyConfig};
use http_proxy_core::outside::UriParts;
use http_proxy_core::proxy::{
    reverse_proxy, ClientAddr, ProxyAction, ProxyError, ProxyHandler,
};
use http_proxy_core::request::{Header, RequestHead};
use http_proxy_core::reverse::{LocationConfig, Upstream, UpstreamVersion};

fn base_param() -> Param {
    Param {
        log_dir: String::from("/tmp"),
        log_file: String::from("proxy.log"),
        port: vec![3128],
        cert: String::from("cert.pem"),
        key: String::from("privkey.pem"),
        users: vec![],
        web_content_path: String::from("/usr/share/nginx/html"),
        referer_keywords_to_self: vec![],
        never_ask_for_auth: false,
        over_tls: false,
        hostname: String::from("unknown"),
        reverse_proxy_config_file: None,
        enable_github_proxy: false,
        append_upstream_url: vec![],
    }
}

fn make_config(
    users: Vec<String>,
    never_ask: bool,
    reverse: Vec<(String, Vec<LocationConfig>)>,
) -> ProxyConfig {
    let mut param = base_param();
    param.users = users;
    param.never_ask_for_auth = never_ask;
    match ProxyConfig::try_from(param, reverse) {
        Ok(c) => c,
        Err(_) => panic!("configuration should be valid"),
    }
}

fn uri(
    authority: Option<&str>,
    host: Option<&str>,
    port: Option<u16>,
    path: &str,
    query: Option<&str>,
) -> UriParts {
    UriParts {
        scheme: None,
        authority: authority.map(|s| s.to_string()),
        host: host.map(|s| s.to_string()),
        port,
        path: path.to_string(),
        query: query.map(|s| s.to_string()),
    }
}

fn req(method: &str, is_h2: bool, uri: UriParts, headers: Vec<(&str, &str)>) -> RequestHead {
    RequestHead {
        method: method.to_string(),
        is_h2,
        uri,
        headers: headers
            .into_iter()
            .map(|(n, v)| Header { name: n.to_string(), value: v.to_string() })
            .collect(),
    }
}

fn client() -> ClientAddr {
    ClientAddr { ip: String::from("203.0.113.7"), port: 54321 }
}

fn handler() -> ProxyHandler {
    ProxyHandler::new(String::from("192.0.2.1"))
}

#[test]
fn forward_request_without_auth_gets_407() {
    let config = make_config(vec![String::from("alice:secret")], false, vec![]);
    let request = req(
        "GET",
        false,
        uri(None, Some("example.com"), Some(8080), "/hello", None),
        vec![("host", "example.com:8080")],
    );
    let r = handler().proxy(&config, &request, &client());
    match r {
        Ok(ProxyAction::AuthChallenge(ch)) => {
            assert_eq!(ch.status, 407);
            assert_eq!(ch.header_name, "Proxy-Authenticate");
            assert_eq!(ch.header_value, "Basic realm=\"are you kidding me\"");
        }
        _ => panic!("expected the 407 challenge"),
    }
}

#[test]
fn forward_request_without_auth_in_silent_mode_closes() {
    let config = make_config(vec![String::from("alice:secret")], true, vec![]);
    let request = req(
        "GET",
        false,
        uri(None, Some("example.com"), None, "/hello", None),
        vec![],
    );
    let r = handler().proxy(&config, &request, &client());
    assert!(matches!(r, Err(ProxyError::AuthDenied)));
}

#[test]
fn origin_form_with_auth_and_silent_mode_is_refused() {
    let config = make_config(vec![String::from("alice:secret")], true, vec![]);
    let request = req("GET", false, uri(None, None, None, "/index.html", None), vec![]);
    let r = handler().proxy(&config, &request, &client());
    assert!(matches!(r, Err(ProxyError::RejectSniff)));
}

#[test]
fn origin_form_without_silent_mode_serves_content() {
    let config = make_config(vec![String::from("alice:secret")], false, vec![]);
    let request = req("GET", false, uri(None, None, None, "/index.html", None), vec![]);
    let r = handler().proxy(&config, &request, &client());
    match r {
        Ok(ProxyAction::ServeInternal { path }) => assert_eq!(path, "/index.html"),
        _ => panic!("expected internal content"),
    }
}

#[test]
fn internal_path_is_percent_decoded() {
    let config = make_config(vec![], false, vec![]);
    let request = req("GET", false, uri(None, None, None, "/a%41b", None), vec![]);
    let r = handler().proxy(&config, &request, &client());
    match r {
        Ok(ProxyAction::ServeInternal { path }) => assert_eq!(path, "/aAb"),
        _ => panic!("expected internal content"),
    }
}

#[test]
fn forward_plan_strips_proxy_headers_and_labels_stream() {
    let config = make_config(vec![String::from("alice:secret")], false, vec![]);
    let request = req(
        "GET",
        false,
        uri(None, Some("127.0.0.1"), Some(9080), "/hello", None),
        vec![
            ("host", "127.0.0.1:9080"),
            ("proxy-authorization", "Basic YWxpY2U6c2VjcmV0"),
            ("proxy-connection", "keep-alive"),
            ("user-agent", "curl"),
        ],
    );
    let r = handler().proxy(&config, &request, &client());
    match r {
        Ok(ProxyAction::Forward(plan)) => {
            assert_eq!(plan.host, "127.0.0.1");
            assert_eq!(plan.port, 9080);
            assert_eq!(plan.access.client, "203.0.113.7");
            assert_eq!(plan.access.target, "127.0.0.1:9080");
            assert_eq!(plan.access.username, "alice");
            let names: Vec<&str> = plan.headers.iter().map(|h| h.name.as_str()).collect();
            assert_eq!(names, vec!["host", "user-agent"]);
        }
        _ => panic!("expected a forward plan"),
    }
}

#[test]
fn forward_port_defaults_to_80() {
    let config = make_config(vec![], false, vec![]);
    let request = req(
        "GET",
        false,
        uri(None, Some("example.com"), None, "/", None),
        vec![],
    );
    let r = handler().proxy(&config, &request, &client());
    match r {
        Ok(ProxyAction::Forward(plan)) => {
            assert_eq!(plan.port, 80);
            assert_eq!(plan.access.target, "example.com:80");
            assert_eq!(plan.access.username, "unknown");
        }
        _ => panic!("expected a forward plan"),
    }
}

#[test]
fn connect_returns_padded_tunnel_plan() {
    let config = make_config(vec![], false, vec![]);
    let request = req(
        "CONNECT",
        false,
        uri(Some("example.test:443"), Some("example.test"), Some(443), "", None),
        vec![],
    );
    let h = handler();
    for _ in 0..32 {
        let r = h.proxy(&config, &request, &client());
        match r {
            Ok(ProxyAction::ConnectTunnel(plan)) => {
                assert_eq!(plan.target, "example.test:443");
                assert_eq!(plan.access.client, "203.0.113.7");
                assert_eq!(plan.access.target, "example.test:443");
                // 2048 / len("192.0.2.1") = 227; at least one padding header.
                assert!(plan.padding >= 1);
                assert!(plan.padding < 227);
            }
            _ => panic!("expected a tunnel plan"),
        }
    }
}

#[test]
fn connect_without_authority_is_bad_request() {
    let config = make_config(vec![], false, vec![]);
    let request = req("CONNECT", false, uri(None, None, None, "", None), vec![]);
    let r = handler().proxy(&config, &request, &client());
    assert!(matches!(r, Ok(ProxyAction::ConnectBadTarget)));
}

#[test]
fn connect_without_auth_is_challenged() {
    let config = make_config(vec![String::from("alice:secret")], false, vec![]);
    let request = req(
        "CONNECT",
        false,
        uri(Some("example.test:443"), Some("example.test"), Some(443), "", None),
        vec![],
    );
    let r = handler().proxy(&config, &request, &client());
    assert!(matches!(r, Ok(ProxyAction::AuthChallenge(_))));
}

fn gh_rule() -> (String, Vec<LocationConfig>) {
    (
        String::from("default_host"),
        vec![LocationConfig {
            location: String::from("/gh"),
            upstream: Upstream {
                scheme_and_authority: String::from("http://127.0.0.1:9081"),
                replacement: String::from(""),
                version: UpstreamVersion::Auto,
            },
        }],
    )
}

#[test]
fn reverse_rule_matches_through_default_host() {
    let config = make_config(vec![], false, vec![gh_rule()]);
    let request = req(
        "GET",
        false,
        uri(None, None, None, "/gh/foo", Some("x=1")),
        vec![("host", "proxy.local")],
    );
    let r = handler().proxy(&config, &request, &client());
    match r {
        Ok(ProxyAction::ReverseProxy { authority, rule }) => {
            assert_eq!(authority, "proxy.local");
            assert_eq!(rule.location, "/gh");
        }
        _ => panic!("expected the reverse route"),
    }
}

#[test]
fn reverse_route_misses_fall_back_to_content() {
    let config = make_config(vec![], false, vec![gh_rule()]);
    let request = req(
        "GET",
        false,
        uri(None, None, None, "/other", None),
        vec![("host", "proxy.local")],
    );
    let r = handler().proxy(&config, &request, &client());
    assert!(matches!(r, Ok(ProxyAction::ServeInternal { .. })));
}

#[test]
fn reverse_plan_rewrites_request() {
    let (_, rules) = gh_rule();
    let rule = &rules[0];
    let request = req(
        "GET",
        false,
        uri(None, None, None, "/gh/foo", Some("x=1")),
        vec![("host", "proxy.local"), ("accept", "*/*")],
    );
    let authority = String::from("proxy.local");
    let plan = reverse_proxy(&request, &authority, rule, &client()).unwrap();
    assert_eq!(plan.scheme, "http");
    assert_eq!(plan.host, "127.0.0.1");
    assert_eq!(plan.port, 9081);
    assert_eq!(plan.uri, "/foo?x=1");
    assert_eq!(plan.access.username, "proxy.local");
    assert_eq!(plan.access.target, "127.0.0.1:9081");
    // The inbound host is gone; the upstream host:port is there exactly once;
    // nothing framed the body, so exactly one transfer-encoding: chunked.
    let hosts: Vec<&str> = plan
        .headers
        .iter()
        .filter(|h| h.name == "host")
        .map(|h| h.value.as_str())
        .collect();
    assert_eq!(hosts, vec!["127.0.0.1:9081"]);
    let te: Vec<&str> = plan
        .headers
        .iter()
        .filter(|h| h.name == "transfer-encoding")
        .map(|h| h.value.as_str())
        .collect();
    assert_eq!(te, vec!["chunked"]);
    assert!(plan.headers.iter().all(|h| h.name != "content-length"));
}

#[test]
fn reverse_plan_keeps_existing_framing() {
    let (_, rules) = gh_rule();
    let rule = &rules[0];
    let request = req(
        "POST",
        false,
        uri(None, None, None, "/gh/upload", None),
        vec![("host", "proxy.local"), ("content-length", "42")],
    );
    let authority = String::from("proxy.local");
    let plan = reverse_proxy(&request, &authority, rule, &client()).unwrap();
    assert!(plan.headers.iter().all(|h| h.name != "transfer-encoding"));
    let cl: Vec<&str> = plan
        .headers
        .iter()
        .filter(|h| h.name == "content-length")
        .map(|h| h.value.as_str())
        .collect();
    assert_eq!(cl, vec!["42"]);
}

#[test]
fn reverse_plan_refuses_unmatched_rule() {
    let (_, rules) = gh_rule();
    let rule = &rules[0];
    let request = req(
        "GET",
        false,
        uri(None, None, None, "/elsewhere", None),
        vec![("host", "proxy.local")],
    );
    let authority = String::from("proxy.local");
    assert!(reverse_proxy(&request, &authority, rule, &client()).is_none());
}

#[test]
fn h2_authority_selects_reverse_route() {
    let config = make_config(vec![], false, vec![(
        String::from("api.test"),
        vec![LocationConfig {
            location: String::from("/"),
            upstream: Upstream {
                scheme_and_authority: String::from("https://backend.test"),
                replacement: String::from(""),
                version: UpstreamVersion::Http2,
            },
        }],
    )]);
    let request = req(
        "GET",
        true,
        uri(Some("api.test"), Some("api.test"), None, "/v1/x", None),
        vec![],
    );
    let r = handler().proxy(&config, &request, &client());
    match r {
        Ok(ProxyAction::ReverseProxy { authority, rule }) => {
            assert_eq!(authority, "api.test");
            assert_eq!(rule.location, "/");
        }
        _ => panic!("expected the reverse route"),
    }
}

#[test]
fn h2_request_without_reverse_rule_goes_internal() {
    let config = make_config(vec![], false, vec![]);
    let request = req(
        "GET",
        true,
        uri(Some("somewhere.test"), Some("somewhere.test"), None, "/x", None),
        vec![],
    );
    let r = handler().proxy(&config, &request, &client());
    assert!(matches!(r, Ok(ProxyAction::ServeInternal { .. })));
}
