use http_proxy_core::config::{get_hostname, ConfigError, Param, ProxyConfig};
use http_proxy_core::lifecycle::{idle_deadline, idle_decision, Context, IdleAction};
use http_proxy_core::metrics::{AccessLabel, CounterFamily, TrafficCounters};
use http_proxy_core::strutil::{find_char, format_host_port, starts_with_str, str_eq, trim_str};
use http_proxy_core::reverse::{LocationConfig, Upstream, UpstreamVersion};
use http_proxy_core::tls::TlsAcceptorState;

fn label(target: &str) -> AccessLabel {
    AccessLabel {
        client: String::from("203.0.113.7"),
        target: target.to_string(),
        username: String::from("alice"),
    }
}

#[test]
fn idle_connection_is_shut_down() {
    let mut ctx = Context::new(1000);
    ctx.refresh(2000);
    assert_eq!(ctx.last_activity, 2000);
    // No activity since the supervisor last looked: shut down.
    let a = idle_decision(&ctx, 2000);
    assert!(matches!(a, IdleAction::Shutdown));
}

#[test]
fn active_connection_keeps_running() {
    let mut ctx = Context::new(1000);
    ctx.refresh(3000);
    // New activity arrived after the supervisor read 2000: keep waiting.
    let a = idle_decision(&ctx, 2000);
    assert!(matches!(a, IdleAction::Continue));
}

#[test]
fn upgraded_connection_is_never_idle_closed() {
    let mut ctx = Context::new(1000);
    ctx.upgrade();
    assert!(ctx.upgraded);
    // Even with no activity at all, a tunnel is left to its own timer.
    let a = idle_decision(&ctx, 1000);
    assert!(matches!(a, IdleAction::RefreshAndContinue));
}

#[test]
fn idle_deadline_is_one_timeout_later() {
    assert_eq!(idle_deadline(0), 120_000);
    assert_eq!(idle_deadline(5_000), 125_000);
    // Near the clock's end the deadline saturates instead of wrapping.
    assert_eq!(idle_deadline(u64::MAX - 10), u64::MAX);
}

#[test]
fn tls_replacement_reaches_only_new_handshakes() {
    let mut acceptor = TlsAcceptorState::new(1);
    let before = acceptor.begin_handshake();
    assert_eq!(before, 1);
    acceptor.replace_config(2);
    // The config in flight kept its generation; new handshakes see the new one.
    assert_eq!(before, 1);
    assert_eq!(acceptor.begin_handshake(), 2);
    acceptor.replace_config(3);
    assert_eq!(acceptor.begin_handshake(), 3);
}

#[test]
fn tunnel_bytes_are_counted_once_each() {
    let mut c = TrafficCounters::new(label("example.test:443"));
    c.record_write(3); // client sent "ABC"
    c.record_read(3); // upstream sent "xyz"
    c.record_read(10);
    assert_eq!(c.rx, 13);
    assert_eq!(c.tx, 3);
    // The rx+tx delta equals the bytes the endpoints observed.
    assert_eq!(c.rx + c.tx, 16);
    assert_eq!(c.label.target, "example.test:443");
}

#[test]
fn counter_family_accumulates_per_label() {
    let mut fam = CounterFamily::new();
    fam.inc(&label("a:1"), 5);
    fam.inc(&label("b:2"), 7);
    fam.inc(&label("a:1"), 2);
    assert_eq!(fam.get(&label("a:1")), 7);
    assert_eq!(fam.get(&label("b:2")), 7);
    assert_eq!(fam.get(&label("c:3")), 0);
    fam.clear();
    assert_eq!(fam.get(&label("a:1")), 0);
    assert_eq!(fam.entries.len(), 0);
}

#[test]
fn counter_family_saturates_at_max() {
    let mut fam = CounterFamily::new();
    fam.inc(&label("a:1"), u64::MAX - 1);
    fam.inc(&label("a:1"), 5);
    assert_eq!(fam.get(&label("a:1")), u64::MAX);
}

#[test]
fn access_label_tag_is_client_arrow_target() {
    assert_eq!(label("example.test:443").tag(), "203.0.113.7 -> example.test:443");
}

#[test]
fn string_helpers() {
    assert!(str_eq("abc", "abc"));
    assert!(!str_eq("abc", "abd"));
    assert!(!str_eq("abc", "ab"));
    assert!(starts_with_str("/gh/foo", "/gh"));
    assert!(!starts_with_str("/g", "/gh"));
    assert_eq!(find_char("user:pass", ':'), Some(4));
    assert_eq!(find_char("userpass", ':'), None);
    assert_eq!(format_host_port("127.0.0.1", 9081), "127.0.0.1:9081");
    assert_eq!(format_host_port("h", 0), "h:0");
    assert_eq!(format_host_port("h", 65535), "h:65535");
    assert_eq!(trim_str("  myhost\n"), "myhost");
    assert_eq!(trim_str("\t \r\n"), "");
    assert_eq!(trim_str("plain"), "plain");
}

#[test]
fn hostname_prefers_command_output() {
    assert_eq!(
        get_hostname(Some(String::from("myhost\n")), Some(String::from("envhost"))),
        "myhost"
    );
}

#[test]
fn hostname_falls_back_to_environment() {
    assert_eq!(
        get_hostname(Some(String::from("  \n")), Some(String::from("envhost"))),
        "envhost"
    );
}

#[test]
fn hostname_defaults_to_unknown() {
    assert_eq!(get_hostname(None, None), "unknown");
    assert_eq!(get_hostname(Some(String::from("")), None), "unknown");
}

fn base_param() -> Param {
    Param {
        log_dir: String::from("/tmp"),
        log_file: String::from("proxy.log"),
        port: vec![3128, 3129],
        cert: String::from("cert.pem"),
        key: String::from("privkey.pem"),
        users: vec![String::from("alice:secret")],
        web_content_path: String::from("/srv/www"),
        referer_keywords_to_self: vec![String::from("mysite")],
        never_ask_for_auth: false,
        over_tls: true,
        hostname: String::from("myhost"),
        reverse_proxy_config_file: None,
        enable_github_proxy: false,
        append_upstream_url: vec![],
    }
}

#[test]
fn config_carries_parameters_over() {
    let c = match ProxyConfig::try_from(base_param(), vec![]) {
        Ok(c) => c,
        Err(_) => panic!("valid configuration refused"),
    };
    assert_eq!(c.cert, "cert.pem");
    assert_eq!(c.key, "privkey.pem");
    assert_eq!(c.port, vec![3128, 3129]);
    assert_eq!(c.web_content_path, "/srv/www");
    assert_eq!(c.referer_keywords_to_self, vec![String::from("mysite")]);
    assert!(!c.never_ask_for_auth);
    assert!(c.over_tls);
    assert_eq!(c.hostname, "myhost");
    assert_eq!(c.basic_auth.entries.len(), 1);
    assert!(c.reverse_proxy_config.is_empty());
}

#[test]
fn github_proxy_preloads_five_rules() {
    let mut param = base_param();
    param.enable_github_proxy = true;
    let c = match ProxyConfig::try_from(param, vec![]) {
        Ok(c) => c,
        Err(_) => panic!("valid configuration refused"),
    };
    assert_eq!(c.reverse_proxy_config.len(), 1);
    let (host, rules) = &c.reverse_proxy_config[0];
    assert_eq!(host, "default_host");
    assert_eq!(rules.len(), 5);
    // Sorted longest location first.
    for w in rules.windows(2) {
        assert!(w[0].location.len() >= w[1].location.len());
    }
    assert!(rules
        .iter()
        .any(|r| r.location == "/https://github.com"
            && r.upstream.scheme_and_authority == "https://github.com"
            && r.upstream.replacement.is_empty()));
}

#[test]
fn append_upstream_url_files_rule_under_default_host() {
    let mut param = base_param();
    param.append_upstream_url = vec![String::from("https://cdnjs.cloudflare.com")];
    let c = match ProxyConfig::try_from(param, vec![]) {
        Ok(c) => c,
        Err(_) => panic!("valid configuration refused"),
    };
    let (host, rules) = &c.reverse_proxy_config[0];
    assert_eq!(host, "default_host");
    assert_eq!(rules.len(), 1);
    assert_eq!(rules[0].location, "/https://cdnjs.cloudflare.com");
    assert_eq!(rules[0].upstream.scheme_and_authority, "https://cdnjs.cloudflare.com");
}

#[test]
fn invalid_upstream_is_fatal() {
    let raw = vec![(
        String::from("site.test"),
        vec![LocationConfig {
            location: String::from("/"),
            upstream: Upstream {
                scheme_and_authority: String::from("https://example.com/"),
                replacement: String::from(""),
                version: UpstreamVersion::Http11,
            },
        }],
    )];
    match ProxyConfig::try_from(base_param(), raw) {
        Err(ConfigError::InvalidUpstream(s)) => assert_eq!(s, "https://example.com/"),
        _ => panic!("a trailing slash must be refused"),
    }
}

#[test]
fn config_sorts_each_authority() {
    let mk = |loc: &str| LocationConfig {
        location: loc.to_string(),
        upstream: Upstream {
            scheme_and_authority: String::from("https://example.com"),
            replacement: String::from(""),
            version: UpstreamVersion::Auto,
        },
    };
    let raw = vec![(String::from("site.test"), vec![mk("/a"), mk("/long/prefix"), mk("/mid")])];
    let c = match ProxyConfig::try_from(base_param(), raw) {
        Ok(c) => c,
        Err(_) => panic!("valid configuration refused"),
    };
    let rules = &c.reverse_proxy_config[0].1;
    assert_eq!(rules[0].location, "/long/prefix");
    assert_eq!(rules[1].location, "/mid");
    assert_eq!(rules[2].location, "/a");
}
