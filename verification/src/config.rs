//! Configuration: the command-line parameters as plain values, and the
//! validated runtime configuration built from them — the credential table,
//! the reverse-proxy rule table with its convenience upstreams appended,
//! validated and sorted.

use vstd::prelude::*;

use crate::auth::{build_auth_table, spec_build_table, BasicAuthTable};
use crate::reverse::{
    reverse_view, rules_view, sort_rules, spec_sort_rules, spec_upstream_valid, validate_upstream,
    LocationConfig, LocationConfigV, Upstream, UpstreamV, UpstreamVersion,
};
use crate::strutil::{spec_trim, str_eq, trim_str};

verus! {

/// The authority under which convenience upstream rules are filed: requests
/// whose own authority has no entry fall back to this one.
pub fn default_host_key() -> (r: String)
    ensures
        r@ == "default_host"@,
{
    "default_host".to_owned()
}

/// The hostname the process reports: the trimmed output of the system's
/// `hostname` command where it produced text, else the `HOSTNAME`
/// environment variable, else `unknown`.
pub open spec fn spec_hostname(cmd: Option<Seq<char>>, env: Option<Seq<char>>) -> Seq<char> {
    match cmd {
        None => "unknown"@,
        Some(out) => {
            let t = spec_trim(out);
            if t.len() == 0 {
                match env {
                    Some(e) => e,
                    None => "unknown"@,
                }
            } else {
                t
            }
        },
    }
}

/// Pick the hostname to report. `cmd_stdout` is the decoded output of the
/// system's `hostname` command (`None` where the command failed or printed
/// no text); `env_hostname` the `HOSTNAME` environment variable.
pub fn get_hostname(cmd_stdout: Option<String>, env_hostname: Option<String>) -> (r: String)
    ensures
        r@ == spec_hostname(
            match cmd_stdout {
                Some(s) => Some(s@),
                None => None,
            },
            match env_hostname {
                Some(s) => Some(s@),
                None => None,
            },
        ),
{
    match cmd_stdout {
        None => "unknown".to_owned(),
        Some(out) => {
            let t = trim_str(out.as_str());
            if t.as_str().unicode_len() == 0 {
                match env_hostname {
                    Some(e) => e,
                    None => "unknown".to_owned(),
                }
            } else {
                t
            }
        },
    }
}

/// The command-line parameters, as plain values.
pub struct Param {
    pub log_dir: String,
    pub log_file: String,
    pub port: Vec<u16>,
    pub cert: String,
    pub key: String,
    pub users: Vec<String>,
    pub web_content_path: String,
    pub referer_keywords_to_self: Vec<String>,
    pub never_ask_for_auth: bool,
    pub over_tls: bool,
    pub hostname: String,
    pub reverse_proxy_config_file: Option<String>,
    pub enable_github_proxy: bool,
    pub append_upstream_url: Vec<String>,
}

/// Why a configuration was rejected at load time. Fatal: the process exits
/// instead of serving with it.
pub enum ConfigError {
    /// A rule's `scheme_and_authority` is not a bare scheme-and-authority
    /// URL; the offending string is carried along.
    InvalidUpstream(String),
}

/// The validated runtime configuration.
pub struct ProxyConfig {
    pub cert: String,
    pub key: String,
    pub basic_auth: BasicAuthTable,
    pub web_content_path: String,
    pub referer_keywords_to_self: Vec<String>,
    pub never_ask_for_auth: bool,
    pub over_tls: bool,
    pub hostname: String,
    pub port: Vec<u16>,
    /// Authority -> rules, each rule list sorted longest location first.
    pub reverse_proxy_config: Vec<(String, Vec<LocationConfig>)>,
}

/// The five upstreams the github convenience flag preloads.
pub open spec fn spec_github_urls() -> Seq<Seq<char>> {
    seq![
        "https://github.com"@,
        "https://gist.githubusercontent.com"@,
        "https://gist.github.com"@,
        "https://objects.githubusercontent.com"@,
        "https://raw.githubusercontent.com"@,
    ]
}

/// The upstreams the github convenience flag preloads.
pub fn github_base_urls() -> (r: Vec<String>)
    ensures
        r@.map_values(|u: String| u@) == spec_github_urls(),
{
    let mut v: Vec<String> = Vec::new();
    v.push("https://github.com".to_owned());
    v.push("https://gist.githubusercontent.com".to_owned());
    v.push("https://gist.github.com".to_owned());
    v.push("https://objects.githubusercontent.com".to_owned());
    v.push("https://raw.githubusercontent.com".to_owned());
    proof {
        assert(v@.map_values(|u: String| u@) =~= spec_github_urls());
    }
    v
}

/// The convenience upstreams in the order they are appended: the explicitly
/// given ones first, then — with the github flag — the github set.
pub open spec fn spec_extra_urls(appends: Seq<Seq<char>>, github: bool) -> Seq<Seq<char>> {
    if github {
        appends + spec_github_urls()
    } else {
        appends
    }
}

/// The rule a convenience upstream `u` turns into: requests under
/// `/<u>` go to `u`, the prefix dropped in the rewrite.
pub open spec fn spec_default_rule(u: Seq<char>) -> LocationConfigV {
    LocationConfigV {
        location: seq!['/'] + u,
        upstream: UpstreamV {
            scheme_and_authority: u,
            replacement: Seq::empty(),
            version: UpstreamVersion::Auto,
        },
    }
}

/// The rules the convenience upstreams turn into, in order.
pub open spec fn spec_extra_rules(urls: Seq<Seq<char>>) -> Seq<LocationConfigV> {
    urls.map_values(|u: Seq<char>| spec_default_rule(u))
}

/// Build the convenience rules.
pub fn extra_rules(urls: &Vec<String>) -> (r: Vec<LocationConfig>)
    ensures
        rules_view(r@) == spec_extra_rules(urls@.map_values(|u: String| u@)),
{
    let ghost uv = urls@.map_values(|u: String| u@);
    let mut out: Vec<LocationConfig> = Vec::new();
    let mut i: usize = 0;
    while i < urls.len()
        invariant
            0 <= i <= urls@.len(),
            uv == urls@.map_values(|u: String| u@),
            uv.len() == urls@.len(),
            out@.len() == i,
            forall|j: int| 0 <= j < i ==> out@[j]@ == spec_default_rule(uv[j]),
        decreases urls@.len() - i,
    {
        let u = &urls[i];
        let mut location = "/".to_owned();
        location.append(u.as_str());
        proof {
            reveal_strlit("/");
            reveal_strlit("");
            assert(location@ =~= seq!['/'] + u@);
            assert(""@ =~= Seq::<char>::empty());
        }
        out.push(
            LocationConfig {
                location,
                upstream: Upstream {
                    scheme_and_authority: u.clone(),
                    replacement: "".to_owned(),
                    version: UpstreamVersion::Auto,
                },
            },
        );
        i = i + 1;
    }
    proof {
        assert(rules_view(out@) =~= spec_extra_rules(uv));
    }
    out
}

/// The first entry with key `key`.
pub open spec fn spec_find_key_index(
    cfg: Seq<(Seq<char>, Seq<LocationConfigV>)>,
    key: Seq<char>,
) -> Option<int>
    decreases cfg.len(),
{
    if cfg.len() == 0 {
        None
    } else if cfg[0].0 == key {
        Some(0int)
    } else {
        match spec_find_key_index(cfg.drop_first(), key) {
            None => None,
            Some(i) => Some(i + 1),
        }
    }
}

proof fn lemma_find_key_first_hit(
    cfg: Seq<(Seq<char>, Seq<LocationConfigV>)>,
    key: Seq<char>,
    i: int,
)
    requires
        0 <= i < cfg.len(),
        cfg[i].0 == key,
        forall|j: int| 0 <= j < i ==> cfg[j].0 != key,
    ensures
        spec_find_key_index(cfg, key) == Some(i),
    decreases i,
{
    if i > 0 {
        lemma_find_key_first_hit(cfg.drop_first(), key, i - 1);
    }
}

proof fn lemma_find_key_none(cfg: Seq<(Seq<char>, Seq<LocationConfigV>)>, key: Seq<char>)
    requires
        forall|j: int| 0 <= j < cfg.len() ==> cfg[j].0 != key,
    ensures
        spec_find_key_index(cfg, key) is None,
    decreases cfg.len(),
{
    if cfg.len() > 0 {
        lemma_find_key_none(cfg.drop_first(), key);
    }
}

/// The rule table with the convenience rules filed under the default host:
/// appended to its first entry where one exists, as a new entry at the end
/// otherwise; a table without convenience rules is unchanged.
pub open spec fn spec_add_extras(
    cfg: Seq<(Seq<char>, Seq<LocationConfigV>)>,
    extras: Seq<LocationConfigV>,
) -> Seq<(Seq<char>, Seq<LocationConfigV>)> {
    if extras.len() == 0 {
        cfg
    } else {
        match spec_find_key_index(cfg, "default_host"@) {
            Some(i) => cfg.update(i, (cfg[i].0, cfg[i].1 + extras)),
            None => cfg.push(("default_host"@, extras)),
        }
    }
}

/// Copy a rule list.
fn dup_rules(v: &Vec<LocationConfig>) -> (r: Vec<LocationConfig>)
    ensures
        rules_view(r@) == rules_view(v@),
        r@.len() == v@.len(),
{
    let mut out: Vec<LocationConfig> = Vec::new();
    let mut i: usize = 0;
    while i < v.len()
        invariant
            0 <= i <= v@.len(),
            out@.len() == i,
            forall|j: int| 0 <= j < i ==> out@[j]@ == v@[j]@,
        decreases v@.len() - i,
    {
        out.push(v[i].duplicate());
        i = i + 1;
    }
    proof {
        assert(rules_view(out@) =~= rules_view(v@));
    }
    out
}

/// File the convenience rules under the default host.
pub fn add_extras(
    cfg: &Vec<(String, Vec<LocationConfig>)>,
    extras: &Vec<LocationConfig>,
) -> (r: Vec<(String, Vec<LocationConfig>)>)
    ensures
        reverse_view(r@) == spec_add_extras(reverse_view(cfg@), rules_view(extras@)),
{
    let ghost cv = reverse_view(cfg@);
    let ghost ev = rules_view(extras@);

    // Duplicate the table; remember the first default-host entry.
    let mut out: Vec<(String, Vec<LocationConfig>)> = Vec::new();
    let mut hit: Option<usize> = None;
    let mut i: usize = 0;
    while i < cfg.len()
        invariant
            0 <= i <= cfg@.len(),
            cv == reverse_view(cfg@),
            cv.len() == cfg@.len(),
            out@.len() == i,
            forall|j: int| 0 <= j < cfg@.len() ==> cv[j] == (cfg@[j].0@, rules_view(cfg@[j].1@)),
            forall|j: int| 0 <= j < i ==> (out@[j].0@, rules_view(out@[j].1@)) == cv[j],
            match hit {
                Some(h) => h < i && cv[h as int].0 == "default_host"@ && forall|j: int|
                    0 <= j < h ==> cv[j].0 != "default_host"@,
                None => forall|j: int| 0 <= j < i ==> cv[j].0 != "default_host"@,
            },
        decreases cfg@.len() - i,
    {
        let key = cfg[i].0.clone();
        let rules = dup_rules(&cfg[i].1);
        if hit.is_none() && str_eq(key.as_str(), "default_host") {
            hit = Some(i);
        }
        out.push((key, rules));
        i = i + 1;
    }

    if extras.len() == 0 {
        proof {
            assert(reverse_view(out@) =~= cv);
        }
        return out;
    }
    let extra_dup = dup_rules(extras);
    match hit {
        Some(h) => {
            proof {
                lemma_find_key_first_hit(cv, "default_host"@, h as int);
            }
            let entry = (out[h].0.clone(), {
                let mut merged = dup_rules(&out[h].1);
                let mut k: usize = 0;
                let ghost base = rules_view(out@[h as int].1@);
                while k < extra_dup.len()
                    invariant
                        0 <= k <= extra_dup@.len(),
                        ev == rules_view(extras@),
                        rules_view(extra_dup@) == ev,
                        ev.len() == extra_dup@.len(),
                        rules_view(merged@) == base + ev.take(k as int),
                        forall|j: int| 0 <= j < extra_dup@.len() ==> extra_dup@[j]@ == ev[j],
                    decreases extra_dup@.len() - k,
                {
                    let d = extra_dup[k].duplicate();
                    proof {
                        assert(extra_dup@[k as int]@ == ev[k as int]);
                        assert(d@ == ev[k as int]);
                    }
                    merged.push(d);
                    proof {
                        assert(ev.take(k as int + 1) =~= ev.take(k as int).push(ev[k as int]));
                        assert(rules_view(merged@) =~= (base + ev.take(k as int)).push(
                            ev[k as int],
                        ));
                        assert((base + ev.take(k as int)).push(ev[k as int]) =~= base + ev.take(
                            k as int + 1,
                        ));
                    }
                    k = k + 1;
                }
                proof {
                    assert(base + ev.take(ev.len() as int) =~= base + ev);
                }
                merged
            });
            let mut result = out;
            result.set(h, entry);
            proof {
                assert(reverse_view(result@) =~= spec_add_extras(cv, ev));
            }
            result
        },
        None => {
            proof {
                lemma_find_key_none(cv, "default_host"@);
            }
            let mut result = out;
            result.push((default_host_key(), extra_dup));
            proof {
                assert(reverse_view(result@) =~= spec_add_extras(cv, ev));
            }
            result
        },
    }
}

/// Does every rule of every authority name a well-formed upstream?
pub open spec fn all_upstreams_valid(cfg: Seq<(Seq<char>, Seq<LocationConfigV>)>) -> bool {
    forall|i: int, j: int|
        0 <= i < cfg.len() && 0 <= j < cfg[i].1.len() ==> spec_upstream_valid(
            cfg[i].1[j].upstream.scheme_and_authority,
        )
}

/// Validate every rule's upstream; hand back the first offending
/// `scheme_and_authority`, or `None` where all are well-formed.
pub fn validate_config(cfg: &Vec<(String, Vec<LocationConfig>)>) -> (r: Option<String>)
    ensures
        match r {
            None => all_upstreams_valid(reverse_view(cfg@)),
            Some(s) => !all_upstreams_valid(reverse_view(cfg@)) && !spec_upstream_valid(s@),
        },
{
    let ghost cv = reverse_view(cfg@);
    let mut i: usize = 0;
    while i < cfg.len()
        invariant
            0 <= i <= cfg@.len(),
            cv == reverse_view(cfg@),
            cv.len() == cfg@.len(),
            forall|j: int| 0 <= j < cfg@.len() ==> cv[j] == (cfg@[j].0@, rules_view(cfg@[j].1@)),
            forall|a: int, b: int|
                0 <= a < i && 0 <= b < cv[a].1.len() ==> spec_upstream_valid(
                    cv[a].1[b].upstream.scheme_and_authority,
                ),
        decreases cfg@.len() - i,
    {
        let rules = &cfg[i].1;
        let mut j: usize = 0;
        while j < rules.len()
            invariant
                0 <= j <= rules@.len(),
                cv == reverse_view(cfg@),
                cv.len() == cfg@.len(),
                i < cfg@.len(),
                rules == &cfg@[i as int].1,
                forall|jj: int|
                    0 <= jj < cfg@.len() ==> cv[jj] == (cfg@[jj].0@, rules_view(cfg@[jj].1@)),
                forall|b: int|
                    0 <= b < j ==> spec_upstream_valid(
                        cv[i as int].1[b].upstream.scheme_and_authority,
                    ),
            decreases rules@.len() - j,
        {
            let s = &rules[j].upstream.scheme_and_authority;
            if !validate_upstream(s.as_str()) {
                proof {
                    assert(cv[i as int].1[j as int] == rules@[j as int]@);
                }
                return Some(s.clone());
            }
            proof {
                assert(cv[i as int].1[j as int] == rules@[j as int]@);
            }
            j = j + 1;
        }
        i = i + 1;
    }
    None
}

/// Every authority's rules, each list sorted longest location first.
pub open spec fn spec_sort_config(cfg: Seq<(Seq<char>, Seq<LocationConfigV>)>) -> Seq<
    (Seq<char>, Seq<LocationConfigV>),
> {
    cfg.map_values(|e: (Seq<char>, Seq<LocationConfigV>)| (e.0, spec_sort_rules(e.1)))
}

/// Sort every authority's rules longest location first.
pub fn sort_config(cfg: &Vec<(String, Vec<LocationConfig>)>) -> (r: Vec<
    (String, Vec<LocationConfig>),
>)
    ensures
        reverse_view(r@) == spec_sort_config(reverse_view(cfg@)),
{
    let ghost cv = reverse_view(cfg@);
    let mut out: Vec<(String, Vec<LocationConfig>)> = Vec::new();
    let mut i: usize = 0;
    while i < cfg.len()
        invariant
            0 <= i <= cfg@.len(),
            cv == reverse_view(cfg@),
            cv.len() == cfg@.len(),
            out@.len() == i,
            forall|j: int| 0 <= j < cfg@.len() ==> cv[j] == (cfg@[j].0@, rules_view(cfg@[j].1@)),
            forall|j: int|
                0 <= j < i ==> (out@[j].0@, rules_view(out@[j].1@)) == (
                    cv[j].0,
                    spec_sort_rules(cv[j].1),
                ),
        decreases cfg@.len() - i,
    {
        out.push((cfg[i].0.clone(), sort_rules(&cfg[i].1)));
        i = i + 1;
    }
    proof {
        assert(reverse_view(out@) =~= spec_sort_config(cv));
    }
    out
}

impl ProxyConfig {
    /// Build the runtime configuration from the command-line parameters and
    /// the reverse-proxy rule table read from the configuration file (empty
    /// where none was given).
    ///
    /// The credential table keeps each well-formed `user:pass`; the
    /// convenience upstreams are filed under the default host; every
    /// upstream must be a bare scheme-and-authority URL, or the whole
    /// configuration is rejected; and each authority's rules are sorted
    /// longest location first.
    pub fn try_from(param: Param, reverse_raw: Vec<(String, Vec<LocationConfig>)>) -> (r: Result<
        ProxyConfig,
        ConfigError,
    >)
        ensures
            ({
                let extras = spec_extra_rules(
                    spec_extra_urls(
                        param.append_upstream_url@.map_values(|u: String| u@),
                        param.enable_github_proxy,
                    ),
                );
                let filed = spec_add_extras(reverse_view(reverse_raw@), extras);
                match r {
                    Ok(c) => all_upstreams_valid(filed) && c.basic_auth@ == spec_build_table(
                        param.users@.map_values(|u: String| u@),
                    ) && reverse_view(c.reverse_proxy_config@) == spec_sort_config(filed)
                        && c.cert@ == param.cert@ && c.key@ == param.key@ && c.web_content_path@
                        == param.web_content_path@ && c.referer_keywords_to_self@
                        == param.referer_keywords_to_self@ && c.never_ask_for_auth
                        == param.never_ask_for_auth && c.over_tls == param.over_tls && c.hostname@
                        == param.hostname@ && c.port@ == param.port@,
                    Err(e) => !all_upstreams_valid(filed) && (e matches ConfigError::InvalidUpstream(
                        s,
                    ) && !spec_upstream_valid(s@)),
                }
            }),
    {
        let basic_auth = build_auth_table(&param.users);

        let mut urls = param.append_upstream_url;
        if param.enable_github_proxy {
            let mut gh = github_base_urls();
            let ghost before = urls@.map_values(|u: String| u@);
            let mut g: usize = 0;
            while g < gh.len()
                invariant
                    0 <= g <= gh@.len(),
                    gh@.map_values(|u: String| u@) == spec_github_urls(),
                    gh@.len() == spec_github_urls().len(),
                    urls@.map_values(|u: String| u@) == before + spec_github_urls().take(g as int),
                decreases gh@.len() - g,
            {
                let ghost pre = urls@.map_values(|u: String| u@);
                let item = gh[g].clone();
                proof {
                    assert(gh@.map_values(|u: String| u@)[g as int] == gh@[g as int]@);
                    assert(item@ == spec_github_urls()[g as int]);
                }
                urls.push(item);
                proof {
                    let f = spec_github_urls();
                    assert(f.take(g as int + 1) =~= f.take(g as int).push(f[g as int]));
                    assert(urls@.map_values(|u: String| u@) =~= pre.push(f[g as int]));
                    assert(pre.push(f[g as int]) =~= before + f.take(g as int + 1));
                }
                g = g + 1;
            }
            proof {
                assert(before + spec_github_urls().take(spec_github_urls().len() as int) =~= before
                    + spec_github_urls());
            }
        }
        let extras = extra_rules(&urls);
        let filed = add_extras(&reverse_raw, &extras);
        match validate_config(&filed) {
            Some(bad) => Err(ConfigError::InvalidUpstream(bad)),
            None => {
                let sorted = sort_config(&filed);
                Ok(
                    ProxyConfig {
                        cert: param.cert,
                        key: param.key,
                        basic_auth,
                        web_content_path: param.web_content_path,
                        referer_keywords_to_self: param.referer_keywords_to_self,
                        never_ask_for_auth: param.never_ask_for_auth,
                        over_tls: param.over_tls,
                        hostname: param.hostname,
                        port: param.port,
                        reverse_proxy_config: sorted,
                    },
                )
            },
        }
    }
}

} // verus!
