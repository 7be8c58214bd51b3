//! The authenticator: a credential table mapping `Basic <base64>` header
//! values to usernames, the check every proxied request goes through, and
//! the challenge sent back when it fails.

use vstd::prelude::*;
use vstd::string::StringSliceAdditionalSpecFns;
use vstd::utf8::encode_utf8;

use crate::outside::{base64_encode, base64_std_of};
use crate::strutil::{find_char, spec_find_char};

verus! {

/// The credential table: `Basic <base64(user:pass)>` header value paired
/// with the username it authenticates. Looked up by exact match on the full
/// header value, `Basic ` prefix included.
pub struct BasicAuthTable {
    pub entries: Vec<(String, String)>,
}

/// The mathematical value of the table: the entries' character sequences, in
/// order.
pub open spec fn table_view(entries: Seq<(String, String)>) -> Seq<(Seq<char>, Seq<char>)> {
    entries.map_values(|e: (String, String)| (e.0@, e.1@))
}

impl View for BasicAuthTable {
    type V = Seq<(Seq<char>, Seq<char>)>;

    open spec fn view(&self) -> Seq<(Seq<char>, Seq<char>)> {
        table_view(self.entries@)
    }
}

/// The username of the first entry whose key is exactly `key`.
pub open spec fn spec_lookup(t: Seq<(Seq<char>, Seq<char>)>, key: Seq<char>) -> Option<Seq<char>>
    decreases t.len(),
{
    if t.len() == 0 {
        None
    } else if t[0].0 == key {
        Some(t[0].1)
    } else {
        spec_lookup(t.drop_first(), key)
    }
}

/// Does some entry of `t` carry the key `key`?
pub open spec fn has_key(t: Seq<(Seq<char>, Seq<char>)>, key: Seq<char>) -> bool {
    exists|i: int| 0 <= i < t.len() && t[i].0 == key
}

/// A lookup succeeds exactly where some entry carries the key.
pub proof fn lemma_lookup_has_key(t: Seq<(Seq<char>, Seq<char>)>, key: Seq<char>)
    ensures
        spec_lookup(t, key) is Some <==> has_key(t, key),
    decreases t.len(),
{
    if t.len() > 0 && t[0].0 != key {
        lemma_lookup_has_key(t.drop_first(), key);
        if has_key(t, key) {
            let i = choose|i: int| 0 <= i < t.len() && t[i].0 == key;
            assert(t.drop_first()[i - 1].0 == key);
        }
        if has_key(t.drop_first(), key) {
            let i = choose|i: int| 0 <= i < t.drop_first().len() && t.drop_first()[i].0 == key;
            assert(t[i + 1].0 == key);
        }
    }
}

/// What the authenticator answers: the authenticated username (or
/// `unknown`), and whether the request may proceed. An empty table means no
/// authentication is configured and everything passes; a non-empty table
/// passes exactly the requests whose credential header matches an entry,
/// character for character.
pub open spec fn spec_check_auth(
    t: Seq<(Seq<char>, Seq<char>)>,
    header: Option<Seq<char>>,
) -> (Seq<char>, bool) {
    if t.len() == 0 {
        ("unknown"@, true)
    } else {
        match header {
            None => ("unknown"@, false),
            Some(v) => match spec_lookup(t, v) {
                Some(u) => (u, true),
                None => ("unknown"@, false),
            },
        }
    }
}

/// With no credentials configured, every request is authenticated, whatever
/// headers it carries.
pub proof fn lemma_auth_empty_table(t: Seq<(Seq<char>, Seq<char>)>, header: Option<Seq<char>>)
    requires
        t.len() == 0,
    ensures
        spec_check_auth(t, header).1,
{
}

/// With credentials configured, a request is authenticated exactly when its
/// credential header is present and equals some table key, character for
/// character.
pub proof fn lemma_auth_nonempty_table(t: Seq<(Seq<char>, Seq<char>)>, header: Option<Seq<char>>)
    requires
        t.len() > 0,
    ensures
        spec_check_auth(t, header).1 <==> (header matches Some(v) && has_key(t, v)),
{
    if header is Some {
        lemma_lookup_has_key(t, header.unwrap());
    }
}

impl BasicAuthTable {
    /// An empty table: authentication switched off.
    pub fn new() -> (t: BasicAuthTable)
        ensures
            t@.len() == 0,
    {
        BasicAuthTable { entries: Vec::new() }
    }

    /// Is authentication configured?
    pub fn is_empty(&self) -> (r: bool)
        ensures
            r == (self@.len() == 0),
    {
        self.entries.len() == 0
    }

    /// Validate a request's credential header against the table.
    ///
    /// `header` is the full value of the `Proxy-Authorization` (forward
    /// path) or `Authorization` (origin path) header; `None` stands for a
    /// header that is absent or not text. Returns the username and whether
    /// the request may proceed.
    pub fn check_auth(&self, header: Option<&String>) -> (r: (String, bool))
        ensures
            ({
                let s = spec_check_auth(self@, match header {
                    Some(v) => Some(v@),
                    None => None,
                });
                r.0@ == s.0 && r.1 == s.1
            }),
    {
        if self.entries.len() == 0 {
            return ("unknown".to_owned(), true);
        }
        let v = match header {
            None => {
                return ("unknown".to_owned(), false);
            },
            Some(v) => v,
        };
        let ghost key = v@;
        proof {
            assert(self@.skip(0) =~= self@);
        }
        let mut i: usize = 0;
        while i < self.entries.len()
            invariant
                0 <= i <= self.entries@.len(),
                spec_lookup(self@, key) == spec_lookup(self@.skip(i as int), key),
                self@.len() == self.entries@.len(),
                forall|j: int| 0 <= j < self.entries@.len() ==> self@[j]
                    == (self.entries@[j].0@, self.entries@[j].1@),
                key == v@,
                header == Some(v),
                self.entries@.len() > 0,
            decreases self.entries@.len() - i,
        {
            if self.entries[i].0 == *v {
                proof {
                    assert(self@.skip(i as int)[0] == self@[i as int]);
                    assert(self@[i as int].0 == key);
                    assert(spec_lookup(self@.skip(i as int), key) == Some(self@[i as int].1));
                }
                return (self.entries[i].1.clone(), true);
            }
            proof {
                assert(self@.skip(i as int).drop_first() =~= self@.skip(i as int + 1));
            }
            i = i + 1;
        }
        assert(self@.skip(i as int) =~= Seq::<(Seq<char>, Seq<char>)>::empty());
        ("unknown".to_owned(), false)
    }
}

/// Is `raw` a well-formed `user:pass` credential: a non-empty username
/// before the first colon, and a non-empty password between the first colon
/// and the second (or the end)?
pub open spec fn spec_cred_valid(raw: Seq<char>) -> bool {
    match spec_find_char(raw, ':') {
        None => false,
        Some(i) => i > 0 && spec_cred_password(raw).len() > 0,
    }
}

/// The username part of `user:pass`: everything before the first colon.
pub open spec fn spec_cred_username(raw: Seq<char>) -> Seq<char> {
    match spec_find_char(raw, ':') {
        None => raw,
        Some(i) => raw.take(i),
    }
}

/// The password part of `user:pass`: everything between the first colon and
/// the second (or the end).
pub open spec fn spec_cred_password(raw: Seq<char>) -> Seq<char> {
    match spec_find_char(raw, ':') {
        None => Seq::empty(),
        Some(i) => {
            let rest = raw.skip(i + 1);
            match spec_find_char(rest, ':') {
                None => rest,
                Some(j) => rest.take(j),
            }
        },
    }
}

/// The header value that authenticates the credential `raw`:
/// `Basic <base64(raw)>`.
pub open spec fn spec_cred_key(raw: Seq<char>) -> Seq<char> {
    "Basic "@ + base64_std_of(encode_utf8(raw))
}

/// The table built from raw `user:pass` credentials: one entry per
/// well-formed credential, in order; malformed ones (empty user or empty
/// password) are dropped.
pub open spec fn spec_build_table(users: Seq<Seq<char>>) -> Seq<(Seq<char>, Seq<char>)>
    decreases users.len(),
{
    if users.len() == 0 {
        Seq::empty()
    } else {
        let last = users.last();
        let front = spec_build_table(users.drop_last());
        if spec_cred_valid(last) {
            front.push((spec_cred_key(last), spec_cred_username(last)))
        } else {
            front
        }
    }
}

/// Build the credential table from raw `user:pass` strings, encoding each
/// well-formed one as `Basic <base64(user:pass)>` and dropping the rest.
pub fn build_auth_table(users: &Vec<String>) -> (t: BasicAuthTable)
    ensures
        t@ == spec_build_table(users@.map_values(|u: String| u@)),
{
    let ghost uviews = users@.map_values(|u: String| u@);
    let mut entries: Vec<(String, String)> = Vec::new();
    let mut i: usize = 0;
    while i < users.len()
        invariant
            0 <= i <= users@.len(),
            uviews == users@.map_values(|u: String| u@),
            table_view(entries@) == spec_build_table(uviews.take(i as int)),
        decreases users@.len() - i,
    {
        let raw: &String = &users[i];
        proof {
            assert(uviews.take(i as int + 1).last() == raw@);
            assert(uviews.take(i as int + 1).drop_last() =~= uviews.take(i as int));
        }
        match find_char(raw.as_str(), ':') {
            None => {
                proof {
                    assert(!spec_cred_valid(raw@));
                }
            },
            Some(ci) => {
                let n = raw.as_str().unicode_len();
                let username = raw.as_str().substring_char(0, ci);
                let rest = raw.as_str().substring_char(ci + 1, n);
                proof {
                    assert(rest@ =~= raw@.skip(ci as int + 1));
                }
                let password = match find_char(rest, ':') {
                    None => rest,
                    Some(cj) => rest.substring_char(0, cj),
                };
                proof {
                    assert(spec_cred_username(raw@) == username@);
                    assert(spec_cred_password(raw@) =~= password@);
                }
                if username.unicode_len() > 0 && password.unicode_len() > 0 {
                    let mut key = "Basic ".to_owned();
                    key.append(base64_encode(raw.as_str()).as_str());
                    proof {
                        assert(key@ == spec_cred_key(raw@));
                    }
                    entries.push((key, username.to_owned()));
                    proof {
                        assert(table_view(entries@) =~= spec_build_table(
                            uviews.take(i as int + 1),
                        ));
                    }
                } else {
                    proof {
                        assert(!spec_cred_valid(raw@));
                    }
                }
            },
        }
        i = i + 1;
    }
    proof {
        assert(uviews.take(users@.len() as int) =~= uviews);
    }
    BasicAuthTable { entries }
}

/// The plan of the response that asks a client to authenticate: status 407
/// with `Proxy-Authenticate` on the forward-proxy path, status 401 with
/// `WWW-Authenticate` on the origin path, each carrying the Basic challenge.
pub struct AuthChallenge {
    pub status: u16,
    pub header_name: String,
    pub header_value: String,
    pub body: String,
}

/// Build the authentication challenge: `407 Proxy Authentication Required`
/// with `Proxy-Authenticate` when asked by the proxy path, `401
/// Unauthorized` with `WWW-Authenticate` on the origin path.
pub fn build_authenticate_resp(for_proxy: bool) -> (r: AuthChallenge)
    ensures
        r.status == (if for_proxy { 407int } else { 401int }),
        r.header_name@ == (if for_proxy { "Proxy-Authenticate"@ } else { "WWW-Authenticate"@ }),
        r.header_value@ == "Basic realm=\"are you kidding me\""@,
        r.body@ == "auth need"@,
{
    AuthChallenge {
        status: if for_proxy { 407 } else { 401 },
        header_name: if for_proxy {
            "Proxy-Authenticate".to_owned()
        } else {
            "WWW-Authenticate".to_owned()
        },
        header_value: "Basic realm=\"are you kidding me\"".to_owned(),
        body: "auth need".to_owned(),
    }
}

} // verus!
