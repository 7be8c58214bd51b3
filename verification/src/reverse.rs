//! Reverse-proxy rules: the per-authority location table, its load-time
//! ordering and validation, the selection of the rule a request falls under,
//! and the path rewrite towards the upstream.

use vstd::multiset::Multiset;
use vstd::prelude::*;

use crate::outside::{parse_uri, uri_parse_of};
use crate::strutil::{starts_with_str, str_eq};

verus! {

/// The HTTP version to speak towards an upstream. Parsed from the
/// configuration; reserved for negotiation, the upstream leg is HTTP/1.1
/// today.
#[derive(Clone, Copy, PartialEq, Eq, Structural)]
pub enum UpstreamVersion {
    Auto,
    Http11,
    Http2,
}

/// Where a matched location forwards to.
pub struct Upstream {
    /// Absolute URL prefix, scheme and authority only (validated at load).
    pub scheme_and_authority: String,
    /// What replaces the matched location prefix in the rewritten path.
    pub replacement: String,
    pub version: UpstreamVersion,
}

/// One reverse-proxy rule: requests whose path starts with `location` go to
/// `upstream`.
pub struct LocationConfig {
    pub location: String,
    pub upstream: Upstream,
}

/// The mathematical value of an upstream.
pub struct UpstreamV {
    pub scheme_and_authority: Seq<char>,
    pub replacement: Seq<char>,
    pub version: UpstreamVersion,
}

/// The mathematical value of a rule.
pub struct LocationConfigV {
    pub location: Seq<char>,
    pub upstream: UpstreamV,
}

impl View for Upstream {
    type V = UpstreamV;

    open spec fn view(&self) -> UpstreamV {
        UpstreamV {
            scheme_and_authority: self.scheme_and_authority@,
            replacement: self.replacement@,
            version: self.version,
        }
    }
}

impl View for LocationConfig {
    type V = LocationConfigV;

    open spec fn view(&self) -> LocationConfigV {
        LocationConfigV { location: self.location@, upstream: self.upstream@ }
    }
}

impl LocationConfig {
    /// A copy with the same value.
    pub fn duplicate(&self) -> (r: LocationConfig)
        ensures
            r@ == self@,
    {
        LocationConfig {
            location: self.location.clone(),
            upstream: Upstream {
                scheme_and_authority: self.upstream.scheme_and_authority.clone(),
                replacement: self.upstream.replacement.clone(),
                version: self.upstream.version,
            },
        }
    }
}

/// The rules' mathematical values, in order.
pub open spec fn rules_view(rs: Seq<LocationConfig>) -> Seq<LocationConfigV> {
    rs.map_values(|r: LocationConfig| r@)
}

/// Longest location first; stable for equal lengths.
pub open spec fn rules_sorted(s: Seq<LocationConfigV>) -> bool {
    forall|i: int, j: int|
        0 <= i < j < s.len() ==> s[i].location.len() >= s[j].location.len()
}

/// `r` slotted into `s` after every rule whose location is at least as long:
/// rules already there win ties, which keeps the configured order of
/// equal-length locations.
pub open spec fn spec_insert_rule(r: LocationConfigV, s: Seq<LocationConfigV>) -> Seq<
    LocationConfigV,
>
    decreases s.len(),
{
    if s.len() == 0 {
        seq![r]
    } else if s[0].location.len() >= r.location.len() {
        seq![s[0]] + spec_insert_rule(r, s.drop_first())
    } else {
        seq![r] + s
    }
}

/// One authority's rules ordered longest location first, stably: the sorted
/// front grows by one rule at a time, each slotted in after its equals.
pub open spec fn spec_sort_rules(s: Seq<LocationConfigV>) -> Seq<LocationConfigV>
    decreases s.len(),
{
    if s.len() == 0 {
        s
    } else {
        spec_insert_rule(s.last(), spec_sort_rules(s.drop_last()))
    }
}

/// Every slot of an insertion holds the new rule or one of the old ones, and
/// the insertion is one longer.
proof fn lemma_insert_rule_elements(r: LocationConfigV, s: Seq<LocationConfigV>)
    ensures
        spec_insert_rule(r, s).len() == s.len() + 1,
        forall|i: int|
            0 <= i < spec_insert_rule(r, s).len() ==> spec_insert_rule(r, s)[i] == r || exists|j: int|
                0 <= j < s.len() && spec_insert_rule(r, s)[i] == s[j],
    decreases s.len(),
{
    let out = spec_insert_rule(r, s);
    if s.len() == 0 {
    } else if s[0].location.len() >= r.location.len() {
        lemma_insert_rule_elements(r, s.drop_first());
        let rest = spec_insert_rule(r, s.drop_first());
        assert forall|i: int| 0 <= i < out.len() implies out[i] == r || exists|j: int|
            0 <= j < s.len() && out[i] == s[j] by {
            if i == 0 {
                assert(out[0] == s[0]);
            } else {
                assert(out[i] == rest[i - 1]);
                if rest[i - 1] != r {
                    let j = choose|j: int|
                        0 <= j < s.drop_first().len() && rest[i - 1] == s.drop_first()[j];
                    assert(out[i] == s[j + 1]);
                }
            }
        }
    } else {
        assert forall|i: int| 0 <= i < out.len() implies out[i] == r || exists|j: int|
            0 <= j < s.len() && out[i] == s[j] by {
            if i > 0 {
                assert(out[i] == s[i - 1]);
            }
        }
    }
}

/// Inserting into a sorted rule list keeps it sorted.
proof fn lemma_insert_rule_sorted(r: LocationConfigV, s: Seq<LocationConfigV>)
    requires
        rules_sorted(s),
    ensures
        rules_sorted(spec_insert_rule(r, s)),
    decreases s.len(),
{
    let out = spec_insert_rule(r, s);
    if s.len() == 0 {
    } else if s[0].location.len() >= r.location.len() {
        assert(rules_sorted(s.drop_first())) by {
            assert forall|i: int, j: int|
                0 <= i < j < s.drop_first().len() implies s.drop_first()[i].location.len()
                >= s.drop_first()[j].location.len() by {
                assert(s.drop_first()[i] == s[i + 1]);
                assert(s.drop_first()[j] == s[j + 1]);
            }
        }
        lemma_insert_rule_sorted(r, s.drop_first());
        lemma_insert_rule_elements(r, s.drop_first());
        let rest = spec_insert_rule(r, s.drop_first());
        assert forall|i: int, j: int| 0 <= i < j < out.len() implies out[i].location.len()
            >= out[j].location.len() by {
            if i == 0 {
                assert(out[j] == rest[j - 1]);
                if rest[j - 1] != r {
                    let k = choose|k: int|
                        0 <= k < s.drop_first().len() && rest[j - 1] == s.drop_first()[k];
                    assert(s.drop_first()[k] == s[k + 1]);
                }
            } else {
                assert(out[i] == rest[i - 1]);
                assert(out[j] == rest[j - 1]);
            }
        }
    } else {
        assert forall|i: int, j: int| 0 <= i < j < out.len() implies out[i].location.len()
            >= out[j].location.len() by {
            if i > 0 {
                assert(out[i] == s[i - 1]);
                assert(out[j] == s[j - 1]);
            } else {
                assert(out[j] == s[j - 1]);
            }
        }
    }
}

/// The sorted rules are sorted: longest location first.
pub proof fn lemma_sort_rules_sorted(s: Seq<LocationConfigV>)
    ensures
        rules_sorted(spec_sort_rules(s)),
    decreases s.len(),
{
    if s.len() > 0 {
        lemma_sort_rules_sorted(s.drop_last());
        lemma_insert_rule_sorted(s.last(), spec_sort_rules(s.drop_last()));
    }
}

proof fn lemma_insert_rule_multiset(r: LocationConfigV, s: Seq<LocationConfigV>)
    ensures
        spec_insert_rule(r, s).to_multiset() == s.to_multiset().insert(r),
    decreases s.len(),
{
    broadcast use vstd::seq_lib::group_to_multiset_ensures;
    broadcast use vstd::seq_lib::lemma_multiset_commutative;
    broadcast use vstd::multiset::group_multiset_axioms;

    let out = spec_insert_rule(r, s);
    if s.len() == 0 {
        assert(seq![r] =~= Seq::<LocationConfigV>::empty().push(r));
        assert(s.to_multiset() =~= Multiset::<LocationConfigV>::empty());
    } else if s[0].location.len() >= r.location.len() {
        lemma_insert_rule_multiset(r, s.drop_first());
        let inner = spec_insert_rule(r, s.drop_first());
        assert(out.to_multiset() == seq![s[0]].to_multiset().add(inner.to_multiset()));
        assert(s =~= seq![s[0]] + s.drop_first());
        assert(s.to_multiset() == seq![s[0]].to_multiset().add(s.drop_first().to_multiset()));
        assert(seq![s[0]].to_multiset().add(s.drop_first().to_multiset().insert(r))
            =~= seq![s[0]].to_multiset().add(s.drop_first().to_multiset()).insert(r));
    } else {
        assert(out.to_multiset() == seq![r].to_multiset().add(s.to_multiset()));
        assert(seq![r] =~= Seq::<LocationConfigV>::empty().push(r));
        assert(seq![r].to_multiset() =~= Multiset::<LocationConfigV>::empty().insert(r));
        assert(Multiset::<LocationConfigV>::empty().insert(r).add(s.to_multiset())
            =~= s.to_multiset().insert(r));
    }
}

/// Sorting permutes: the sorted table holds exactly the configured rules,
/// each as often as it was configured.
pub proof fn lemma_sort_rules_permutation(s: Seq<LocationConfigV>)
    ensures
        spec_sort_rules(s).to_multiset() == s.to_multiset(),
    decreases s.len(),
{
    broadcast use vstd::seq_lib::group_to_multiset_ensures;

    if s.len() > 0 {
        lemma_sort_rules_permutation(s.drop_last());
        lemma_insert_rule_multiset(s.last(), spec_sort_rules(s.drop_last()));
        assert(s =~= s.drop_last().push(s.last()));
    }
}

/// Where the insertion point lies — after the rules at least as long, before
/// the first strictly shorter one — the insertion is exactly a splice there.
proof fn lemma_insert_rule_at(r: LocationConfigV, s: Seq<LocationConfigV>, k: int)
    requires
        0 <= k <= s.len(),
        forall|j: int| 0 <= j < k ==> s[j].location.len() >= r.location.len(),
        k < s.len() ==> s[k].location.len() < r.location.len(),
    ensures
        spec_insert_rule(r, s) =~= s.take(k) + seq![r] + s.skip(k),
    decreases k,
{
    if s.len() == 0 {
        assert(spec_insert_rule(r, s) =~= s.take(k) + seq![r] + s.skip(k));
    } else if k == 0 {
        assert(s[0].location.len() < r.location.len());
        assert(spec_insert_rule(r, s) =~= s.take(0) + seq![r] + s.skip(0));
    } else {
        assert(s[0].location.len() >= r.location.len());
        assert forall|j: int| 0 <= j < k - 1 implies s.drop_first()[j].location.len()
            >= r.location.len() by {
            assert(s.drop_first()[j] == s[j + 1]);
        }
        if k - 1 < s.drop_first().len() {
            assert(s.drop_first()[k - 1] == s[k]);
        }
        lemma_insert_rule_at(r, s.drop_first(), k - 1);
        assert(spec_insert_rule(r, s) =~= s.take(k) + seq![r] + s.skip(k));
    }
}

/// Sort one authority's rules: longest location first, the configured order
/// kept among equal lengths.
pub fn sort_rules(rules: &Vec<LocationConfig>) -> (r: Vec<LocationConfig>)
    ensures
        rules_view(r@) == spec_sort_rules(rules_view(rules@)),
{
    let ghost input = rules_view(rules@);
    let mut out: Vec<LocationConfig> = Vec::new();
    let mut i: usize = 0;
    while i < rules.len()
        invariant
            0 <= i <= rules@.len(),
            input == rules_view(rules@),
            input.len() == rules@.len(),
            rules_view(out@) == spec_sort_rules(input.take(i as int)),
            out@.len() == i,
            forall|j: int| 0 <= j < rules@.len() ==> input[j] == rules@[j]@,
        decreases rules@.len() - i,
    {
        let rule = &rules[i];
        let new_len = rule.location.as_str().unicode_len();
        let ghost sorted = rules_view(out@);
        // Find the first slot whose location is strictly shorter.
        let mut k: usize = 0;
        while k < out.len() && out[k].location.as_str().unicode_len() >= new_len
            invariant
                0 <= k <= out@.len(),
                sorted == rules_view(out@),
                sorted.len() == out@.len(),
                new_len == rule.location@.len(),
                forall|j: int| 0 <= j < out@.len() ==> sorted[j] == out@[j]@,
                forall|j: int| 0 <= j < k ==> sorted[j].location.len() >= new_len,
            decreases out@.len() - k,
        {
            k = k + 1;
        }
        proof {
            assert(k < out@.len() ==> sorted[k as int].location.len() < new_len);
        }
        proof {
            lemma_insert_rule_at(rule@, sorted, k as int);
        }
        let dup = rule.duplicate();
        out.insert(k, dup);
        proof {
            assert(input.take(i as int + 1).drop_last() =~= input.take(i as int));
            assert(input.take(i as int + 1).last() == rule@);
            assert(rules_view(out@) =~= sorted.take(k as int) + seq![rule@] + sorted.skip(
                k as int,
            ));
        }
        i = i + 1;
    }
    proof {
        assert(input.take(rules@.len() as int) =~= input);
    }
    out
}

/// The first rule, in order, whose location is a prefix of `path`.
pub open spec fn spec_find_location(rules: Seq<LocationConfigV>, path: Seq<char>) -> Option<int>
    decreases rules.len(),
{
    if rules.len() == 0 {
        None
    } else if rules[0].location.is_prefix_of(path) {
        Some(0int)
    } else {
        match spec_find_location(rules.drop_first(), path) {
            None => None,
            Some(i) => Some(i + 1),
        }
    }
}

proof fn lemma_find_location_first_hit(rules: Seq<LocationConfigV>, path: Seq<char>, i: int)
    requires
        0 <= i < rules.len(),
        rules[i].location.is_prefix_of(path),
        forall|j: int| 0 <= j < i ==> !rules[j].location.is_prefix_of(path),
    ensures
        spec_find_location(rules, path) == Some(i),
    decreases i,
{
    if i > 0 {
        lemma_find_location_first_hit(rules.drop_first(), path, i - 1);
    }
}

proof fn lemma_find_location_none(rules: Seq<LocationConfigV>, path: Seq<char>)
    requires
        forall|j: int| 0 <= j < rules.len() ==> !rules[j].location.is_prefix_of(path),
    ensures
        spec_find_location(rules, path) is None,
    decreases rules.len(),
{
    if rules.len() > 0 {
        lemma_find_location_none(rules.drop_first(), path);
    }
}

/// Consult the rules in order and pick the first whose location prefixes the
/// request path.
pub fn find_location(rules: &Vec<LocationConfig>, path: &str) -> (r: Option<usize>)
    ensures
        match r {
            Some(i) => spec_find_location(rules_view(rules@), path@) == Some(i as int) && i
                < rules@.len() && rules_view(rules@)[i as int].location.is_prefix_of(path@)
                && forall|j: int|
                0 <= j < i ==> !rules_view(rules@)[j].location.is_prefix_of(path@),
            None => spec_find_location(rules_view(rules@), path@) is None && forall|j: int|
                0 <= j < rules@.len() ==> !rules_view(rules@)[j].location.is_prefix_of(path@),
        },
{
    let ghost rs = rules_view(rules@);
    let mut i: usize = 0;
    while i < rules.len()
        invariant
            0 <= i <= rules@.len(),
            rs == rules_view(rules@),
            rs.len() == rules@.len(),
            forall|j: int| 0 <= j < rules@.len() ==> rs[j] == rules@[j]@,
            forall|j: int| 0 <= j < i ==> !rs[j].location.is_prefix_of(path@),
        decreases rules@.len() - i,
    {
        if starts_with_str(path, rules[i].location.as_str()) {
            proof {
                lemma_find_location_first_hit(rs, path@, i as int);
            }
            return Some(i);
        }
        i = i + 1;
    }
    proof {
        lemma_find_location_none(rs, path@);
    }
    None
}

/// With the rules sorted longest-location-first, the first match is a most
/// specific one: no matching rule has a longer location, and among matches
/// of that same length the selected one is the earliest configured.
pub proof fn lemma_first_match_most_specific(rules: Seq<LocationConfigV>, path: Seq<char>, i: int)
    requires
        rules_sorted(rules),
        0 <= i < rules.len(),
        rules[i].location.is_prefix_of(path),
        forall|j: int| 0 <= j < i ==> !rules[j].location.is_prefix_of(path),
    ensures
        forall|j: int|
            0 <= j < rules.len() && rules[j].location.is_prefix_of(path) ==> rules[i].location.len()
                >= rules[j].location.len(),
        forall|j: int|
            0 <= j < rules.len() && rules[j].location.is_prefix_of(path) ==> i <= j,
{
    assert forall|j: int|
        0 <= j < rules.len() && rules[j].location.is_prefix_of(path) implies i <= j by {
        if j < i {
            assert(!rules[j].location.is_prefix_of(path));
        }
    }
}

/// The rewritten path towards the upstream: the matched location replaced by
/// the rule's replacement, the rest of the path kept.
pub open spec fn spec_rewrite_path(
    path: Seq<char>,
    location: Seq<char>,
    replacement: Seq<char>,
) -> Seq<char> {
    replacement + path.skip(location.len() as int)
}

/// The rewritten path-and-query: the rewritten path, the query preserved.
pub open spec fn spec_rewrite_uri(
    path: Seq<char>,
    query: Option<Seq<char>>,
    location: Seq<char>,
    replacement: Seq<char>,
) -> Seq<char> {
    spec_rewrite_path(path, location, replacement) + match query {
        Some(q) => seq!['?'] + q,
        None => Seq::empty(),
    }
}

/// Rewrite a matched request path towards the upstream, preserving the
/// query.
pub fn rewrite_uri(path: &str, query: Option<&String>, location: &str, replacement: &str) -> (r:
    String)
    requires
        location@.is_prefix_of(path@),
    ensures
        r@ == spec_rewrite_uri(
            path@,
            match query {
                Some(q) => Some(q@),
                None => None,
            },
            location@,
            replacement@,
        ),
{
    let loc_len = location.unicode_len();
    let path_len = path.unicode_len();
    let mut out = replacement.to_owned();
    out.append(path.substring_char(loc_len, path_len));
    match query {
        Some(q) => {
            out.append("?");
            proof {
                reveal_strlit("?");
                assert("?"@ =~= seq!['?']);
            }
            out.append(q.as_str());
        },
        None => {},
    }
    proof {
        assert(out@ =~= spec_rewrite_uri(
            path@,
            match query {
                Some(q) => Some(q@),
                None => None,
            },
            location@,
            replacement@,
        ));
    }
    out
}

/// The origin to dial for an upstream `scheme_and_authority`: its scheme,
/// host, and port — the explicit port, else 443 for https and 80 otherwise.
pub open spec fn spec_upstream_origin(s: Seq<char>) -> Option<(Seq<char>, Seq<char>, u16)> {
    match uri_parse_of(s) {
        None => None,
        Some(p) => match (p.scheme, p.host) {
            (Some(scheme), Some(host)) => Some(
                (
                    scheme,
                    host,
                    match p.port {
                        Some(pt) => pt,
                        None => if scheme == "https"@ {
                            443u16
                        } else {
                            80u16
                        },
                    },
                ),
            ),
            _ => None,
        },
    }
}

/// Parse an upstream `scheme_and_authority` into the origin to dial:
/// `(scheme, host, port)`, the port defaulting to 443 for https and 80
/// otherwise.
pub fn parse_upstream_origin(s: &str) -> (r: Option<(String, String, u16)>)
    ensures
        match r {
            Some(t) => spec_upstream_origin(s@) == Some((t.0@, t.1@, t.2)),
            None => spec_upstream_origin(s@) is None,
        },
{
    match parse_uri(s) {
        None => None,
        Some(parts) => match (parts.scheme, parts.host) {
            (Some(scheme), Some(host)) => {
                let port: u16 = match parts.port {
                    Some(pt) => pt,
                    None => if str_eq(scheme.as_str(), "https") {
                        443
                    } else {
                        80
                    },
                };
                Some((scheme, host, port))
            },
            _ => None,
        },
    }
}

/// Is `s` a well-formed upstream `scheme_and_authority`: a URI with a scheme
/// and an authority, a bare `/` path it does not itself end in, and no
/// query? Checked once at load; a configuration that fails this is fatal.
pub open spec fn spec_upstream_valid(s: Seq<char>) -> bool {
    match uri_parse_of(s) {
        None => false,
        Some(p) => p.scheme is Some && p.authority is Some && p.path == "/"@ && p.query is None
            && (s.len() == 0 || s.last() != '/'),
    }
}

/// Validate an upstream `scheme_and_authority` at load time.
pub fn validate_upstream(s: &str) -> (r: bool)
    ensures
        r == spec_upstream_valid(s@),
{
    match parse_uri(s) {
        None => false,
        Some(parts) => {
            let scheme_ok = parts.scheme.is_some();
            let authority_ok = parts.authority.is_some();
            let path_ok = str_eq(parts.path.as_str(), "/");
            let query_ok = parts.query.is_none();
            let n = s.unicode_len();
            let no_trailing_slash = n == 0 || s.get_char(n - 1) != '/';
            scheme_ok && authority_ok && path_ok && query_ok && no_trailing_slash
        },
    }
}

/// The first entry of the per-authority table whose key is `authority`.
pub open spec fn spec_find_host(
    cfg: Seq<(Seq<char>, Seq<LocationConfigV>)>,
    authority: Seq<char>,
) -> Option<Seq<LocationConfigV>>
    decreases cfg.len(),
{
    if cfg.len() == 0 {
        None
    } else if cfg[0].0 == authority {
        Some(cfg[0].1)
    } else {
        spec_find_host(cfg.drop_first(), authority)
    }
}

/// The per-authority table's mathematical value, in order.
pub open spec fn reverse_view(cfg: Seq<(String, Vec<LocationConfig>)>) -> Seq<
    (Seq<char>, Seq<LocationConfigV>),
> {
    cfg.map_values(|e: (String, Vec<LocationConfig>)| (e.0@, rules_view(e.1@)))
}

/// Look an authority up in the per-authority rule table.
pub fn find_host_rules<'a>(
    cfg: &'a Vec<(String, Vec<LocationConfig>)>,
    authority: &str,
) -> (r: Option<&'a Vec<LocationConfig>>)
    ensures
        match r {
            Some(v) => spec_find_host(reverse_view(cfg@), authority@) == Some(rules_view(v@)),
            None => spec_find_host(reverse_view(cfg@), authority@) is None,
        },
{
    let ghost cv = reverse_view(cfg@);
    proof {
        assert(cv.skip(0) =~= cv);
    }
    let mut i: usize = 0;
    while i < cfg.len()
        invariant
            0 <= i <= cfg@.len(),
            cv == reverse_view(cfg@),
            cv.len() == cfg@.len(),
            spec_find_host(cv, authority@) == spec_find_host(cv.skip(i as int), authority@),
            forall|j: int| 0 <= j < cfg@.len() ==> cv[j] == (cfg@[j].0@, rules_view(cfg@[j].1@)),
        decreases cfg@.len() - i,
    {
        if str_eq(cfg[i].0.as_str(), authority) {
            proof {
                assert(cv.skip(i as int)[0] == cv[i as int]);
            }
            return Some(&cfg[i].1);
        }
        proof {
            assert(cv.skip(i as int).drop_first() =~= cv.skip(i as int + 1));
        }
        i = i + 1;
    }
    proof {
        assert(cv.skip(i as int) =~= Seq::<(Seq<char>, Seq<LocationConfigV>)>::empty());
    }
    None
}

} // verus!
