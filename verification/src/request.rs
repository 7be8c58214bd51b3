//! The plain-value picture of an HTTP request head that the dispatcher and
//! the planners work on: method, version, URI components and headers.
//!
//! Header names are kept lowercase, as the HTTP/2 wire format and hyper's
//! header map both do; lookups here compare names character-exactly.

use vstd::prelude::*;

use crate::outside::{UriParts, UriPartsV};

verus! {

/// One request or response header.
pub struct Header {
    pub name: String,
    pub value: String,
}

/// The mathematical value of a header.
pub struct HeaderV {
    pub name: Seq<char>,
    pub value: Seq<char>,
}

impl View for Header {
    type V = HeaderV;

    open spec fn view(&self) -> HeaderV {
        HeaderV { name: self.name@, value: self.value@ }
    }
}

impl Header {
    /// A copy with the same name and value.
    pub fn duplicate(&self) -> (r: Header)
        ensures
            r@ == self@,
    {
        Header { name: self.name.clone(), value: self.value.clone() }
    }
}

/// The headers' mathematical values, in order.
pub open spec fn headers_view(hs: Seq<Header>) -> Seq<HeaderV> {
    hs.map_values(|h: Header| h@)
}

/// The value of the first header named `name`.
pub open spec fn spec_get_header(hs: Seq<HeaderV>, name: Seq<char>) -> Option<Seq<char>>
    decreases hs.len(),
{
    if hs.len() == 0 {
        None
    } else if hs[0].name == name {
        Some(hs[0].value)
    } else {
        spec_get_header(hs.drop_first(), name)
    }
}

/// How many headers are named `name`.
pub open spec fn header_count(hs: Seq<HeaderV>, name: Seq<char>) -> nat
    decreases hs.len(),
{
    if hs.len() == 0 {
        0
    } else {
        header_count(hs.drop_last(), name) + if hs.last().name == name {
            1nat
        } else {
            0nat
        }
    }
}

/// The headers with every one named `name` removed.
pub open spec fn spec_remove_header(hs: Seq<HeaderV>, name: Seq<char>) -> Seq<HeaderV>
    decreases hs.len(),
{
    if hs.len() == 0 {
        hs
    } else {
        let front = spec_remove_header(hs.drop_last(), name);
        if hs.last().name == name {
            front
        } else {
            front.push(hs.last())
        }
    }
}

/// The headers with every one named `n1` or `n2` removed.
pub open spec fn spec_remove_two(hs: Seq<HeaderV>, n1: Seq<char>, n2: Seq<char>) -> Seq<HeaderV>
    decreases hs.len(),
{
    if hs.len() == 0 {
        hs
    } else {
        let front = spec_remove_two(hs.drop_last(), n1, n2);
        if hs.last().name == n1 || hs.last().name == n2 {
            front
        } else {
            front.push(hs.last())
        }
    }
}

/// No header is named `name` exactly when the count is zero.
pub proof fn lemma_count_zero_iff_absent(hs: Seq<HeaderV>, name: Seq<char>)
    ensures
        header_count(hs, name) == 0 <==> forall|i: int| 0 <= i < hs.len() ==> hs[i].name != name,
    decreases hs.len(),
{
    if hs.len() > 0 {
        lemma_count_zero_iff_absent(hs.drop_last(), name);
        if header_count(hs, name) == 0 {
            assert forall|i: int| 0 <= i < hs.len() implies hs[i].name != name by {
                if i < hs.len() - 1 {
                    assert(hs.drop_last()[i] == hs[i]);
                }
            }
        }
        if forall|i: int| 0 <= i < hs.len() ==> hs[i].name != name {
            assert forall|i: int| 0 <= i < hs.drop_last().len() implies hs.drop_last()[i].name
                != name by {
                assert(hs.drop_last()[i] == hs[i]);
            }
        }
    }
}

/// A lookup misses exactly when no header carries the name.
pub proof fn lemma_get_header_none_iff_absent(hs: Seq<HeaderV>, name: Seq<char>)
    ensures
        spec_get_header(hs, name) is None <==> forall|i: int|
            0 <= i < hs.len() ==> hs[i].name != name,
    decreases hs.len(),
{
    if hs.len() > 0 {
        lemma_get_header_none_iff_absent(hs.drop_first(), name);
        if hs[0].name != name {
            if spec_get_header(hs, name) is None {
                assert forall|i: int| 0 <= i < hs.len() implies hs[i].name != name by {
                    if i > 0 {
                        assert(hs.drop_first()[i - 1] == hs[i]);
                    }
                }
            } else {
                let i = choose|i: int|
                    0 <= i < hs.drop_first().len() && hs.drop_first()[i].name == name;
                assert(hs[i + 1].name == name);
            }
        }
    }
}

/// Find the first header named `name` (names compared character-exactly).
pub fn get_header(headers: &Vec<Header>, name: &str) -> (r: Option<String>)
    ensures
        match r {
            Some(v) => spec_get_header(headers_view(headers@), name@) == Some(v@),
            None => spec_get_header(headers_view(headers@), name@) is None,
        },
{
    let ghost hs = headers_view(headers@);
    proof {
        assert(hs.skip(0) =~= hs);
    }
    let mut i: usize = 0;
    while i < headers.len()
        invariant
            0 <= i <= headers@.len(),
            hs == headers_view(headers@),
            hs.len() == headers@.len(),
            spec_get_header(hs, name@) == spec_get_header(hs.skip(i as int), name@),
            forall|j: int| 0 <= j < headers@.len() ==> hs[j] == headers@[j]@,
        decreases headers@.len() - i,
    {
        if crate::strutil::str_eq(headers[i].name.as_str(), name) {
            proof {
                assert(hs.skip(i as int)[0] == hs[i as int]);
            }
            return Some(headers[i].value.clone());
        }
        proof {
            assert(hs.skip(i as int).drop_first() =~= hs.skip(i as int + 1));
        }
        i = i + 1;
    }
    proof {
        assert(hs.skip(i as int) =~= Seq::<HeaderV>::empty());
    }
    None
}

/// Copy a header list.
pub fn copy_headers(headers: &Vec<Header>) -> (r: Vec<Header>)
    ensures
        headers_view(r@) == headers_view(headers@),
        r@.len() == headers@.len(),
{
    let mut out: Vec<Header> = Vec::new();
    let mut i: usize = 0;
    while i < headers.len()
        invariant
            0 <= i <= headers@.len(),
            out@.len() == i,
            forall|j: int| 0 <= j < i ==> out@[j]@ == headers@[j]@,
        decreases headers@.len() - i,
    {
        out.push(headers[i].duplicate());
        i = i + 1;
    }
    proof {
        assert(headers_view(out@) =~= headers_view(headers@));
    }
    out
}

/// Remove every header named `n1` or `n2`. The dispatcher uses this to strip
/// `proxy-authorization` and `proxy-connection` before a request is
/// forwarded.
pub fn remove_two_headers(headers: &Vec<Header>, n1: &str, n2: &str) -> (r: Vec<Header>)
    ensures
        headers_view(r@) == spec_remove_two(headers_view(headers@), n1@, n2@),
{
    let ghost hs = headers_view(headers@);
    let mut out: Vec<Header> = Vec::new();
    let mut i: usize = 0;
    while i < headers.len()
        invariant
            0 <= i <= headers@.len(),
            hs == headers_view(headers@),
            hs.len() == headers@.len(),
            headers_view(out@) == spec_remove_two(hs.take(i as int), n1@, n2@),
            forall|j: int| 0 <= j < headers@.len() ==> hs[j] == headers@[j]@,
        decreases headers@.len() - i,
    {
        proof {
            assert(hs.take(i as int + 1).drop_last() =~= hs.take(i as int));
            assert(hs.take(i as int + 1).last() == hs[i as int]);
        }
        let keep = !crate::strutil::str_eq(headers[i].name.as_str(), n1)
            && !crate::strutil::str_eq(headers[i].name.as_str(), n2);
        if keep {
            out.push(headers[i].duplicate());
            proof {
                assert(headers_view(out@) =~= spec_remove_two(hs.take(i as int + 1), n1@, n2@));
            }
        }
        i = i + 1;
    }
    proof {
        assert(hs.take(headers@.len() as int) =~= hs);
    }
    out
}

/// Replace every header named `name` by the single `name: value`, appended
/// at the end.
pub fn set_header(headers: &Vec<Header>, name: &str, value: &str) -> (r: Vec<Header>)
    ensures
        headers_view(r@) == spec_remove_header(headers_view(headers@), name@).push(
            HeaderV { name: name@, value: value@ },
        ),
{
    let ghost hs = headers_view(headers@);
    let mut out: Vec<Header> = Vec::new();
    let mut i: usize = 0;
    while i < headers.len()
        invariant
            0 <= i <= headers@.len(),
            hs == headers_view(headers@),
            hs.len() == headers@.len(),
            headers_view(out@) == spec_remove_header(hs.take(i as int), name@),
            forall|j: int| 0 <= j < headers@.len() ==> hs[j] == headers@[j]@,
        decreases headers@.len() - i,
    {
        proof {
            assert(hs.take(i as int + 1).drop_last() =~= hs.take(i as int));
            assert(hs.take(i as int + 1).last() == hs[i as int]);
        }
        if !crate::strutil::str_eq(headers[i].name.as_str(), name) {
            out.push(headers[i].duplicate());
            proof {
                assert(headers_view(out@) =~= spec_remove_header(hs.take(i as int + 1), name@));
            }
        }
        i = i + 1;
    }
    proof {
        assert(hs.take(headers@.len() as int) =~= hs);
    }
    out.push(Header { name: name.to_owned(), value: value.to_owned() });
    proof {
        assert(headers_view(out@) =~= spec_remove_header(hs, name@).push(
            HeaderV { name: name@, value: value@ },
        ));
    }
    out
}

/// The framing fixup an outbound HTTP/1.1 request needs: if the headers fix
/// the body length neither by `content-length` nor by `transfer-encoding`,
/// exactly one `transfer-encoding: chunked` is added; otherwise the headers
/// stay as they are.
pub open spec fn spec_ensure_framing(hs: Seq<HeaderV>) -> Seq<HeaderV> {
    if spec_get_header(hs, "content-length"@) is None && spec_get_header(
        hs,
        "transfer-encoding"@,
    ) is None {
        hs.push(HeaderV { name: "transfer-encoding"@, value: "chunked"@ })
    } else {
        hs
    }
}

/// Give an outbound HTTP/1.1 request a body framing: add
/// `transfer-encoding: chunked` when neither `content-length` nor
/// `transfer-encoding` is present.
pub fn ensure_framing(headers: &Vec<Header>) -> (r: Vec<Header>)
    ensures
        headers_view(r@) == spec_ensure_framing(headers_view(headers@)),
{
    let cl = get_header(headers, "content-length");
    let te = get_header(headers, "transfer-encoding");
    let mut out = copy_headers(headers);
    if cl.is_none() && te.is_none() {
        out.push(Header { name: "transfer-encoding".to_owned(), value: "chunked".to_owned() });
        proof {
            assert(headers_view(out@) =~= spec_ensure_framing(headers_view(headers@)));
        }
    }
    out
}

/// A request that fixes its body length neither by `content-length` nor by
/// `transfer-encoding` leaves the framing fixup with exactly one
/// `transfer-encoding: chunked` header and no `content-length` header.
pub proof fn lemma_framing_fixup(hs: Seq<HeaderV>)
    requires
        spec_get_header(hs, "content-length"@) is None,
        spec_get_header(hs, "transfer-encoding"@) is None,
    ensures
        header_count(spec_ensure_framing(hs), "transfer-encoding"@) == 1,
        header_count(spec_ensure_framing(hs), "content-length"@) == 0,
        spec_get_header(spec_ensure_framing(hs), "transfer-encoding"@) == Some("chunked"@),
{
    let out = spec_ensure_framing(hs);
    lemma_get_header_none_iff_absent(hs, "transfer-encoding"@);
    lemma_count_zero_iff_absent(hs, "transfer-encoding"@);
    lemma_get_header_none_iff_absent(hs, "content-length"@);
    lemma_count_zero_iff_absent(hs, "content-length"@);
    assert(out.drop_last() =~= hs);
    reveal_strlit("transfer-encoding");
    reveal_strlit("content-length");
    assert("transfer-encoding"@.len() == 17);
    assert("content-length"@.len() == 14);
    assert(out.last().name != "content-length"@);
    assert(header_count(out, "content-length"@) == 0);
    lemma_get_header_none_iff_absent(out, "transfer-encoding"@);
    lemma_count_zero_iff_absent(out, "transfer-encoding"@);
    assert(out.last().name == "transfer-encoding"@);
    lemma_get_push_absent(hs, "transfer-encoding"@, "chunked"@);
}

/// Removal removes exactly the named headers: none of the name survives,
/// and every survivor is one of the originals.
pub proof fn lemma_remove_header_names(hs: Seq<HeaderV>, name: Seq<char>)
    ensures
        forall|i: int|
            0 <= i < spec_remove_header(hs, name).len() ==> spec_remove_header(hs, name)[i].name
                != name,
        forall|i: int|
            0 <= i < spec_remove_header(hs, name).len() ==> exists|j: int|
                0 <= j < hs.len() && #[trigger] spec_remove_header(hs, name)[i] == hs[j],
    decreases hs.len(),
{
    let out = spec_remove_header(hs, name);
    if hs.len() > 0 {
        lemma_remove_header_names(hs.drop_last(), name);
        let front = spec_remove_header(hs.drop_last(), name);
        assert forall|i: int| 0 <= i < out.len() implies out[i].name != name && exists|j: int|
            0 <= j < hs.len() && out[i] == hs[j] by {
            if hs.last().name != name && i == out.len() - 1 {
                assert(out[i] == hs[hs.len() - 1]);
            } else {
                assert(out[i] == front[i]);
                let j = choose|j: int| 0 <= j < hs.drop_last().len() && front[i] == hs.drop_last()[j];
                assert(out[i] == hs[j]);
            }
        }
    }
}

/// Removing one name leaves the presence of any other name untouched.
pub proof fn lemma_remove_keeps_other_name(hs: Seq<HeaderV>, name: Seq<char>, n: Seq<char>)
    requires
        n != name,
        exists|j: int| 0 <= j < hs.len() && hs[j].name == n,
    ensures
        exists|i: int|
            0 <= i < spec_remove_header(hs, name).len() && #[trigger] spec_remove_header(
                hs,
                name,
            )[i].name == n,
    decreases hs.len(),
{
    let out = spec_remove_header(hs, name);
    let front = spec_remove_header(hs.drop_last(), name);
    let j = choose|j: int| 0 <= j < hs.len() && hs[j].name == n;
    if j == hs.len() - 1 {
        assert(hs.last().name == n);
        assert(out[out.len() - 1].name == n);
    } else {
        assert(hs.drop_last()[j].name == n);
        lemma_remove_keeps_other_name(hs.drop_last(), name, n);
        let i = choose|i: int| 0 <= i < front.len() && front[i].name == n;
        assert(out[i].name == n);
    }
}

/// A hit is not disturbed by appending another header.
pub proof fn lemma_get_push_preserves(hs: Seq<HeaderV>, h: HeaderV, name: Seq<char>)
    requires
        spec_get_header(hs, name) is Some,
    ensures
        spec_get_header(hs.push(h), name) == spec_get_header(hs, name),
    decreases hs.len(),
{
    let out = hs.push(h);
    assert(out[0] == hs[0]);
    if hs[0].name != name {
        lemma_get_push_preserves(hs.drop_first(), h, name);
        assert(out.drop_first() =~= hs.drop_first().push(h));
    }
}

/// Looking a name up after pushing a header with that name, where none was
/// present, finds the pushed value.
pub proof fn lemma_get_push_absent(hs: Seq<HeaderV>, name: Seq<char>, value: Seq<char>)
    requires
        spec_get_header(hs, name) is None,
    ensures
        spec_get_header(hs.push(HeaderV { name, value }), name) == Some(value),
    decreases hs.len(),
{
    let out = hs.push(HeaderV { name, value });
    if hs.len() == 0 {
        assert(out[0].name == name);
    } else {
        if hs[0].name != name {
            assert(out[0] == hs[0]);
            lemma_get_push_absent(hs.drop_first(), name, value);
            assert(out.drop_first() =~= hs.drop_first().push(HeaderV { name, value }));
        }
    }
}

/// The plain-value head of an inbound request: what the dispatcher decides
/// on. `is_h2` says whether the client speaks HTTP/2 (where the authority
/// comes from the `:authority` pseudo-header, surfaced in the URI).
pub struct RequestHead {
    pub method: String,
    pub is_h2: bool,
    pub uri: UriParts,
    pub headers: Vec<Header>,
}

/// The mathematical value of a request head.
pub struct RequestHeadV {
    pub method: Seq<char>,
    pub is_h2: bool,
    pub uri: UriPartsV,
    pub headers: Seq<HeaderV>,
}

impl View for RequestHead {
    type V = RequestHeadV;

    open spec fn view(&self) -> RequestHeadV {
        RequestHeadV {
            method: self.method@,
            is_h2: self.is_h2,
            uri: self.uri@,
            headers: headers_view(self.headers@),
        }
    }
}

} // verus!
