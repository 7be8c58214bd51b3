//! The request dispatcher and the per-route planners: classify each inbound
//! request — reverse proxy, internal endpoint, forward HTTP, CONNECT tunnel
//! — run the authenticator where the route demands it, and lay out exactly
//! what goes over the wire next.

use vstd::prelude::*;

use crate::auth::{build_authenticate_resp, spec_check_auth, AuthChallenge};
use crate::config::ProxyConfig;
use crate::metrics::{AccessLabel, AccessLabelV};
use crate::outside::{percent_decode, percent_decode_of, random_in_range};
use crate::request::{
    get_header, headers_view, remove_two_headers, set_header, spec_ensure_framing,
    spec_get_header, spec_remove_header, spec_remove_two, ensure_framing, Header, HeaderV,
    RequestHead, RequestHeadV,
};
use crate::reverse::{
    find_host_rules, find_location, parse_upstream_origin, reverse_view, rewrite_uri, rules_view,
    spec_find_host, spec_find_location, spec_rewrite_uri, spec_upstream_origin, LocationConfig,
    LocationConfigV,
};
use crate::strutil::{format_host_port, host_port_str, starts_with_str, str_eq};

verus! {

/// The client a request came from.
pub struct ClientAddr {
    pub ip: String,
    pub port: u16,
}

/// Why the dispatcher closes the connection instead of answering.
pub enum ProxyError {
    /// Credentials are configured and the silent flag is set: an
    /// origin-form request is refused outright, so the proxy cannot be
    /// fingerprinted as a web server.
    RejectSniff,
    /// The request failed authentication and the silent flag is set: the
    /// socket is closed without a challenge.
    AuthDenied,
}

/// The plan for one forward-proxied request: where to dial, under which
/// access label to count the stream, and the headers to send on — the
/// inbound ones minus the proxy-internal pair.
pub struct ForwardPlan {
    pub host: String,
    pub port: u16,
    pub access: AccessLabel,
    pub headers: Vec<Header>,
}

/// The plan for one CONNECT tunnel: the authority to dial, the access label
/// of the tunnel's byte counters, and how many `server: <local ip>` padding
/// headers the 200 response carries.
pub struct ConnectPlan {
    pub target: String,
    pub access: AccessLabel,
    pub padding: usize,
}

/// What the dispatcher decided for one request.
pub enum ProxyAction {
    /// The authority has a matching reverse-proxy rule: hand over to the
    /// reverse planner with that rule.
    ReverseProxy { authority: String, rule: LocationConfig },
    /// An origin-form request for the internal endpoints or static content,
    /// with the percent-decoded path.
    ServeInternal { path: String },
    /// A forward-proxy request.
    Forward(ForwardPlan),
    /// A CONNECT tunnel to establish.
    ConnectTunnel(ConnectPlan),
    /// A CONNECT request without an authority: answer 400.
    ConnectBadTarget,
    /// The request failed authentication: answer with this challenge.
    AuthChallenge(AuthChallenge),
}

/// The authority a request addresses: the URI's authority for an HTTP/2
/// client, the `host` header otherwise; empty where neither is present.
pub open spec fn spec_authority(req: RequestHeadV) -> Seq<char> {
    if req.is_h2 {
        match req.uri.authority {
            Some(a) => a,
            None => Seq::empty(),
        }
    } else {
        match spec_get_header(req.headers, "host"@) {
            Some(v) => v,
            None => Seq::empty(),
        }
    }
}

/// A request path as the static-content handlers see it: percent-decoded
/// where the escapes decode to text, as it came in otherwise.
pub open spec fn spec_decoded_path(p: Seq<char>) -> Seq<char> {
    match percent_decode_of(p) {
        Some(t) => t,
        None => p,
    }
}

/// The rules consulted for an authority: its own entry, else the default
/// host's.
pub open spec fn spec_effective_rules(
    cfg: Seq<(Seq<char>, Seq<LocationConfigV>)>,
    authority: Seq<char>,
) -> Option<Seq<LocationConfigV>> {
    match spec_find_host(cfg, authority) {
        Some(rules) => Some(rules),
        None => spec_find_host(cfg, "default_host"@),
    }
}

/// The route of one request, as a mathematical value.
pub enum RouteSpec {
    Reverse { authority: Seq<char>, rule: LocationConfigV },
    Internal { path: Seq<char> },
    RejectSniff,
    Forward { host: Seq<char>, port: u16, username: Seq<char> },
    Connect { target: Seq<char>, username: Seq<char> },
    ConnectBad,
    Challenge,
    Deny,
}

/// Where an origin-form request goes: refused outright when credentials are
/// configured and the silent flag is set, served internally otherwise.
pub open spec fn spec_internal_route(
    auth_configured: bool,
    never_ask_for_auth: bool,
    path: Seq<char>,
) -> RouteSpec {
    if auth_configured && never_ask_for_auth {
        RouteSpec::RejectSniff
    } else {
        RouteSpec::Internal { path: spec_decoded_path(path) }
    }
}

/// The dispatcher's decision for a request.
///
/// A non-CONNECT request whose authority has reverse-proxy rules — its own
/// entry, else the default host's — takes the first matching rule, or falls
/// through to the internal handlers where no location matches; an
/// origin-form request (HTTP/2, or no host in the URI)
/// goes to the internal handlers; anything else is a forward-proxy request.
/// Forward and CONNECT requests pass the authenticator first: a failure is a
/// 407 challenge, or a closed connection in silent mode. Reverse-proxy and
/// internal routes take no proxy authentication.
pub open spec fn spec_route(config: &ProxyConfig, req: RequestHeadV) -> RouteSpec {
    let auth = spec_check_auth(
        config.basic_auth@,
        spec_get_header(req.headers, "proxy-authorization"@),
    );
    let auth_configured = config.basic_auth@.len() > 0;
    if req.method != "CONNECT"@ {
        let authority = spec_authority(req);
        match spec_effective_rules(reverse_view(config.reverse_proxy_config@), authority) {
            Some(rules) => match spec_find_location(rules, req.uri.path) {
                Some(i) => RouteSpec::Reverse { authority, rule: rules[i] },
                None => spec_internal_route(
                    auth_configured,
                    config.never_ask_for_auth,
                    req.uri.path,
                ),
            },
            None => {
                if req.is_h2 || req.uri.host is None {
                    spec_internal_route(auth_configured, config.never_ask_for_auth, req.uri.path)
                } else if !auth.1 {
                    if config.never_ask_for_auth {
                        RouteSpec::Deny
                    } else {
                        RouteSpec::Challenge
                    }
                } else {
                    RouteSpec::Forward {
                        host: req.uri.host.unwrap(),
                        port: match req.uri.port {
                            Some(p) => p,
                            None => 80u16,
                        },
                        username: auth.0,
                    }
                }
            },
        }
    } else {
        if !auth.1 {
            if config.never_ask_for_auth {
                RouteSpec::Deny
            } else {
                RouteSpec::Challenge
            }
        } else {
            match req.uri.authority {
                Some(a) => RouteSpec::Connect { target: a, username: auth.0 },
                None => RouteSpec::ConnectBad,
            }
        }
    }
}

/// The request dispatcher. It carries the address string this host is
/// reached under, which pads CONNECT responses.
pub struct ProxyHandler {
    pub local_ip: String,
}

impl ProxyHandler {
    /// The padding of CONNECT responses divides 2048 by this address's
    /// length, so the address must be non-empty and short enough for at
    /// least one padding header.
    pub open spec fn wf(&self) -> bool {
        0 < self.local_ip@.len() <= 1024
    }

    /// A dispatcher for a host reached under `local_ip`.
    pub fn new(local_ip: String) -> (h: ProxyHandler)
        requires
            0 < local_ip@.len() <= 1024,
        ensures
            h.wf(),
            h.local_ip@ == local_ip@,
    {
        ProxyHandler { local_ip }
    }

    /// Decide what happens to one inbound request.
    ///
    /// The decision follows [`spec_route`]; the plans carry exactly the
    /// values the wire work needs: the forward plan dials the URI's host and
    /// port (80 where none is given), counts the stream under
    /// `client -> host:port` for the authenticated user, and forwards the
    /// inbound headers with `proxy-authorization` and `proxy-connection`
    /// removed; the CONNECT plan dials the request authority and pads the
    /// 200 response with between 1 and `2048 / len(local_ip)` (exclusive)
    /// `server` headers, the count drawn fresh per request.
    pub fn proxy(&self, config: &ProxyConfig, req: &RequestHead, client: &ClientAddr) -> (r:
        Result<ProxyAction, ProxyError>)
        requires
            self.wf(),
        ensures
            match r {
                Ok(a) => match a {
                    ProxyAction::ReverseProxy { authority, rule } => (spec_route(config, req@)
                        matches RouteSpec::Reverse { authority: av, rule: rv } && authority@ == av
                        && rule@ == rv),
                    ProxyAction::ServeInternal { path } => (spec_route(config, req@)
                        matches RouteSpec::Internal { path: pv } && path@ == pv),
                    ProxyAction::Forward(plan) => (spec_route(config, req@)
                        matches RouteSpec::Forward { host, port, username } && plan.host@ == host
                        && plan.port == port && plan.access@ == AccessLabelV {
                        client: client.ip@,
                        target: host_port_str(host, port),
                        username,
                    } && headers_view(plan.headers@) == spec_remove_two(
                        req@.headers,
                        "proxy-authorization"@,
                        "proxy-connection"@,
                    )),
                    ProxyAction::ConnectTunnel(plan) => (spec_route(config, req@)
                        matches RouteSpec::Connect { target, username } && plan.target@ == target
                        && plan.access@ == AccessLabelV {
                        client: client.ip@,
                        target,
                        username,
                    } && 1 <= plan.padding && plan.padding < 2048nat / self.local_ip@.len()),
                    ProxyAction::ConnectBadTarget => spec_route(config, req@)
                        is ConnectBad,
                    ProxyAction::AuthChallenge(ch) => spec_route(config, req@) is Challenge
                        && ch.status == 407 && ch.header_name@ == "Proxy-Authenticate"@
                        && ch.header_value@ == "Basic realm=\"are you kidding me\""@ && ch.body@
                        == "auth need"@,
                },
                Err(e) => (e is RejectSniff && spec_route(config, req@) is RejectSniff) || (e
                    is AuthDenied && spec_route(config, req@) is Deny),
            },
    {
        let is_connect = str_eq(req.method.as_str(), "CONNECT");
        if !is_connect {
            let authority: String = if req.is_h2 {
                match &req.uri.authority {
                    Some(a) => a.clone(),
                    None => String::new(),
                }
            } else {
                match get_header(&req.headers, "host") {
                    Some(v) => v,
                    None => String::new(),
                }
            };
            let hit = match find_host_rules(&config.reverse_proxy_config, authority.as_str()) {
                Some(rules) => Some(rules),
                None => find_host_rules(&config.reverse_proxy_config, "default_host"),
            };
            match hit {
                Some(rules) => {
                    match find_location(rules, req.uri.path.as_str()) {
                        Some(i) => {
                            return Ok(
                                ProxyAction::ReverseProxy {
                                    authority,
                                    rule: rules[i].duplicate(),
                                },
                            );
                        },
                        None => {
                            return self.internal_route(config, req);
                        },
                    }
                },
                None => {
                    if req.is_h2 || req.uri.host.is_none() {
                        return self.internal_route(config, req);
                    }
                    // Absolute-form request: authenticate, then forward.
                    let header = get_header(&req.headers, "proxy-authorization");
                    let (username, authed) = config.basic_auth.check_auth(header.as_ref());
                    if !authed {
                        return if config.never_ask_for_auth {
                            Err(ProxyError::AuthDenied)
                        } else {
                            Ok(ProxyAction::AuthChallenge(build_authenticate_resp(true)))
                        };
                    }
                    let host: String = match &req.uri.host {
                        Some(h) => h.clone(),
                        None => unreached(),
                    };
                    let port: u16 = match req.uri.port {
                        Some(p) => p,
                        None => 80,
                    };
                    let target = format_host_port(host.as_str(), port);
                    let access = AccessLabel { client: client.ip.clone(), target, username };
                    let headers = remove_two_headers(
                        &req.headers,
                        "proxy-authorization",
                        "proxy-connection",
                    );
                    return Ok(ProxyAction::Forward(ForwardPlan { host, port, access, headers }));
                },
            }
        } else {
            let header = get_header(&req.headers, "proxy-authorization");
            let (username, authed) = config.basic_auth.check_auth(header.as_ref());
            if !authed {
                return if config.never_ask_for_auth {
                    Err(ProxyError::AuthDenied)
                } else {
                    Ok(ProxyAction::AuthChallenge(build_authenticate_resp(true)))
                };
            }
            match &req.uri.authority {
                Some(addr) => {
                    let ip_len = self.local_ip.as_str().unicode_len();
                    proof {
                        assert(2048int / (ip_len as int) >= 2) by (nonlinear_arith)
                            requires 0 < ip_len as int <= 1024;
                    }
                    let max_num = 2048 / ip_len;
                    let padding = random_in_range(1, max_num);
                    let access = AccessLabel {
                        client: client.ip.clone(),
                        target: addr.clone(),
                        username,
                    };
                    Ok(
                        ProxyAction::ConnectTunnel(
                            ConnectPlan { target: addr.clone(), access, padding },
                        ),
                    )
                },
                None => Ok(ProxyAction::ConnectBadTarget),
            }
        }
    }

    /// Route an origin-form request: refuse it outright where credentials
    /// are configured and the silent flag is set, else hand the internal
    /// handlers the percent-decoded path.
    fn internal_route(&self, config: &ProxyConfig, req: &RequestHead) -> (r: Result<
        ProxyAction,
        ProxyError,
    >)
        ensures
            match r {
                Ok(a) => (a matches ProxyAction::ServeInternal { path } && spec_internal_route(
                    config.basic_auth@.len() > 0,
                    config.never_ask_for_auth,
                    req@.uri.path,
                ) == (RouteSpec::Internal { path: path@ })),
                Err(e) => e is RejectSniff && spec_internal_route(
                    config.basic_auth@.len() > 0,
                    config.never_ask_for_auth,
                    req@.uri.path,
                ) is RejectSniff,
            },
    {
        if !config.basic_auth.is_empty() && config.never_ask_for_auth {
            return Err(ProxyError::RejectSniff);
        }
        let decoded = match percent_decode(req.uri.path.as_str()) {
            Some(p) => p,
            None => req.uri.path.clone(),
        };
        Ok(ProxyAction::ServeInternal { path: decoded })
    }
}

/// The plan for one reverse-proxied request: the upstream origin to dial
/// (TLS where the scheme says https), the rewritten request line, the
/// headers to send, and the access label of the upstream stream's counters.
pub struct ReversePlan {
    pub scheme: String,
    pub host: String,
    pub port: u16,
    /// The rewritten path-and-query of the outbound HTTP/1.1 request.
    pub uri: String,
    pub access: AccessLabel,
    pub headers: Vec<Header>,
}

/// The headers of the outbound reverse-proxied request: the inbound ones
/// with `host` replaced by the upstream's `host:port`, and a
/// `transfer-encoding: chunked` added where nothing frames the body.
pub open spec fn spec_reverse_headers(hs: Seq<HeaderV>, target: Seq<char>) -> Seq<HeaderV> {
    spec_ensure_framing(
        spec_remove_header(hs, "host"@).push(HeaderV { name: "host"@, value: target }),
    )
}

/// A reverse-proxied request that frames its body neither by
/// `content-length` nor by `transfer-encoding` goes out with exactly one
/// `transfer-encoding: chunked` header and no `content-length` header — and,
/// whatever it carried inbound, with exactly one `host` header, which names
/// the upstream, never the inbound host.
pub proof fn lemma_reverse_headers_sound(hs: Seq<HeaderV>, target: Seq<char>)
    ensures
        spec_get_header(hs, "content-length"@) is None && spec_get_header(
            hs,
            "transfer-encoding"@,
        ) is None ==> crate::request::header_count(
            spec_reverse_headers(hs, target),
            "transfer-encoding"@,
        ) == 1 && crate::request::header_count(spec_reverse_headers(hs, target), "content-length"@)
            == 0,
        crate::request::header_count(spec_reverse_headers(hs, target), "host"@) == 1,
        spec_get_header(spec_reverse_headers(hs, target), "host"@) == Some(target),
{
    let removed = spec_remove_header(hs, "host"@);
    let hosted = removed.push(HeaderV { name: "host"@, value: target });
    let out = spec_reverse_headers(hs, target);
    crate::request::lemma_remove_header_names(hs, "host"@);
    reveal_strlit("host");
    reveal_strlit("content-length");
    reveal_strlit("transfer-encoding");
    reveal_strlit("chunked");
    assert("host"@.len() == 4);
    assert("content-length"@.len() == 14);
    assert("transfer-encoding"@.len() == 17);

    // Exactly one host header, carrying the upstream target.
    crate::request::lemma_count_zero_iff_absent(removed, "host"@);
    crate::request::lemma_get_header_none_iff_absent(removed, "host"@);
    crate::request::lemma_get_push_absent(removed, "host"@, target);
    assert(hosted.drop_last() =~= removed);
    assert(crate::request::header_count(hosted, "host"@) == 1);
    if spec_get_header(hs, "content-length"@) is None && spec_get_header(
        hs,
        "transfer-encoding"@,
    ) is None {
        crate::request::lemma_get_header_none_iff_absent(hs, "content-length"@);
        crate::request::lemma_get_header_none_iff_absent(hs, "transfer-encoding"@);
        assert forall|i: int| 0 <= i < hosted.len() implies hosted[i].name != "content-length"@
            && hosted[i].name != "transfer-encoding"@ by {
            if i < removed.len() {
                assert(hosted[i] == removed[i]);
            }
        }
        crate::request::lemma_get_header_none_iff_absent(hosted, "content-length"@);
        crate::request::lemma_get_header_none_iff_absent(hosted, "transfer-encoding"@);
        crate::request::lemma_framing_fixup(hosted);
        // The appended transfer-encoding header disturbs neither the host
        // count nor the host value.
        assert(out == hosted.push(HeaderV { name: "transfer-encoding"@, value: "chunked"@ }));
        assert(out.drop_last() =~= hosted);
        assert(crate::request::header_count(out, "host"@) == 1);
        crate::request::lemma_get_push_preserves(
            hosted,
            HeaderV { name: "transfer-encoding"@, value: "chunked"@ },
            "host"@,
        );
    } else {
        crate::request::lemma_get_header_none_iff_absent(hs, "content-length"@);
        crate::request::lemma_get_header_none_iff_absent(hs, "transfer-encoding"@);
        crate::request::lemma_get_header_none_iff_absent(hosted, "content-length"@);
        crate::request::lemma_get_header_none_iff_absent(hosted, "transfer-encoding"@);
        if spec_get_header(hs, "content-length"@) is Some {
            crate::request::lemma_remove_keeps_other_name(hs, "host"@, "content-length"@);
            let i = choose|i: int| 0 <= i < removed.len() && removed[i].name == "content-length"@;
            assert(hosted[i].name == "content-length"@);
        } else {
            crate::request::lemma_remove_keeps_other_name(hs, "host"@, "transfer-encoding"@);
            let i = choose|i: int|
                0 <= i < removed.len() && removed[i].name == "transfer-encoding"@;
            assert(hosted[i].name == "transfer-encoding"@);
        }
        assert(out == hosted);
    }
}

/// Plan a reverse-proxied request for a rule the dispatcher matched.
///
/// Returns `None` where the rule does not apply after all — its location is
/// no prefix of the path, or its upstream does not name a scheme and host —
/// and the full wire plan otherwise: dial the upstream origin, send the
/// rewritten path with the query preserved, replace `host`, and frame the
/// body with `transfer-encoding: chunked` where neither `content-length`
/// nor `transfer-encoding` is present. The upstream stream is counted under
/// `client -> host:port`, with the inbound authority in the username slot.
pub fn reverse_proxy(req: &RequestHead, authority: &String, rule: &LocationConfig, client:
    &ClientAddr) -> (r: Option<ReversePlan>)
    ensures
        match r {
            Some(plan) => rule@.location.is_prefix_of(req@.uri.path) && (spec_upstream_origin(
                rule@.upstream.scheme_and_authority,
            ) matches Some(origin) && plan.scheme@ == origin.0 && plan.host@ == origin.1
                && plan.port == origin.2 && plan.uri@ == spec_rewrite_uri(
                req@.uri.path,
                req@.uri.query,
                rule@.location,
                rule@.upstream.replacement,
            ) && plan.access@ == AccessLabelV {
                client: client.ip@,
                target: host_port_str(origin.1, origin.2),
                username: authority@,
            } && headers_view(plan.headers@) == spec_reverse_headers(
                req@.headers,
                host_port_str(origin.1, origin.2),
            )),
            None => !rule@.location.is_prefix_of(req@.uri.path) || spec_upstream_origin(
                rule@.upstream.scheme_and_authority,
            ) is None,
        },
{
    if !starts_with_str(req.uri.path.as_str(), rule.location.as_str()) {
        return None;
    }
    let origin = match parse_upstream_origin(rule.upstream.scheme_and_authority.as_str()) {
        Some(o) => o,
        None => {
            return None;
        },
    };
    let (scheme, host, port) = origin;
    let target = format_host_port(host.as_str(), port);
    let uri = rewrite_uri(
        req.uri.path.as_str(),
        req.uri.query.as_ref(),
        rule.location.as_str(),
        rule.upstream.replacement.as_str(),
    );
    let with_host = set_header(&req.headers, "host", target.as_str());
    let headers = ensure_framing(&with_host);
    let access = AccessLabel {
        client: client.ip.clone(),
        target: format_host_port(host.as_str(), port),
        username: authority.clone(),
    };
    Some(ReversePlan { scheme, host, port, uri, access, headers })
}

} // verus!
