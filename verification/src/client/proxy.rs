//! Same-origin HTTP reverse proxy to BigFred (no WebSocket upgrades).

use crate::client::error::Error;
use crate::client::error::ErrorView;
use crate::client::error::Result;
use crate::client::wire::IMPERSONATE_HEADER;
use crate::text::same_text;
use reqwest::Method;
use vstd::prelude::*;
use vstd::slice::*;
use vstd::string::*;
use vstd::utf8::*;

verus! {

/// Headers the host should copy from the inbound HTTP request. Everything else
/// (cookies, host, connection controls) is dropped on purpose.
pub fn forwarded_request_header_names() -> (r: Vec<&'static str>)
    ensures
        r@.len() == 4,
        r@[0]@ == "authorization"@,
        r@[1]@ == "content-type"@,
        r@[2]@ == "accept"@,
        r@[3]@ == IMPERSONATE_HEADER@,
{
    let mut names: Vec<&'static str> = Vec::new();
    names.push("authorization");
    names.push("content-type");
    names.push("accept");
    names.push(IMPERSONATE_HEADER);
    names
}

/// Whether a byte may stand in an HTTP method (a token character of RFC 9110).
pub open spec fn method_byte(b: u8) -> bool {
    ||| 'A' as u8 <= b <= 'Z' as u8
    ||| 'a' as u8 <= b <= 'z' as u8
    ||| '0' as u8 <= b <= '9' as u8
    ||| b == '!' as u8
    ||| b == '#' as u8
    ||| b == '$' as u8
    ||| b == '%' as u8
    ||| b == '&' as u8
    ||| b == '\'' as u8
    ||| b == '*' as u8
    ||| b == '+' as u8
    ||| b == '-' as u8
    ||| b == '.' as u8
    ||| b == '^' as u8
    ||| b == '_' as u8
    ||| b == '`' as u8
    ||| b == '|' as u8
    ||| b == '~' as u8
}

/// Whether a byte string is an HTTP method.
pub open spec fn method_bytes(b: Seq<u8>) -> bool {
    b.len() > 0 && forall|i: int| 0 <= i < b.len() ==> #[trigger] method_byte(b[i])
}

/// `Method::from_bytes`: accepts a non-empty token, which is then the method's
/// name as it was given.
#[verifier::external_body]
fn http_method(method: &str) -> (r: Option<String>)
    ensures
        r is Some <==> method_bytes(method.spec_bytes()),
        r matches Some(name) ==> name@ == method@,
{
    Method::from_bytes(method.as_bytes()).ok().map(|m| m.as_str().to_owned())
}

/// One header: its name and its value.
pub type Header = (String, Vec<u8>);

/// What two lists of headers have in common when they say the same.
pub open spec fn same_headers(a: Seq<Header>, b: Seq<(&str, &[u8])>) -> bool {
    &&& a.len() == b.len()
    &&& forall|i: int|
        0 <= i < a.len() ==> (#[trigger] a[i]).0@ == b[i].0@ && a[i].1@ == b[i].1@
}

/// One request to send upstream.
#[derive(Debug, PartialEq, Eq)]
pub struct ForwardRequest {
    pub method: String,
    pub url: String,
    pub headers: Vec<Header>,
    /// No body at all when the inbound one was empty.
    pub body: Option<Vec<u8>>,
}

/// One proxied response. The host converts this into its HTTP framework type.
#[derive(Debug, PartialEq, Eq)]
pub struct ForwardResponse {
    pub status: u16,
    pub headers: Vec<Header>,
    pub body: Vec<u8>,
}

/// The address of a forwarded request.
pub open spec fn forward_url(api_base: Seq<char>, path: Seq<char>, query: Option<Seq<char>>) -> Seq<
    char,
> {
    match query {
        Some(query) => (api_base + path).push('?') + query,
        None => api_base + path,
    }
}

/// Forwards `method path?query` to `api_base`. `headers` must already be
/// filtered to the allowlist (see [`forwarded_request_header_names`]). A method
/// that is none becomes `GET`.
pub fn forward_request(
    api_base: &str,
    method: &str,
    path: &str,
    query: Option<&str>,
    headers: &[(&str, &[u8])],
    body: &[u8],
) -> (r: ForwardRequest)
    ensures
        r.method@ == (if method_bytes(method.spec_bytes()) {
            method@
        } else {
            "GET"@
        }),
        r.url@ == forward_url(
            api_base@,
            path@,
            match query {
                Some(query) => Some(query@),
                None => None,
            },
        ),
        same_headers(r.headers@, headers@),
        r.headers@.len() == headers@.len(),
        forall|i: int|
            0 <= i < headers@.len() ==> (#[trigger] r.headers@[i]).0@ == headers@[i].0@
                && r.headers@[i].1@ == headers@[i].1@,
        match r.body {
            Some(bytes) => body@.len() > 0 && bytes@ == body@,
            None => body@.len() == 0,
        },
{
    let mut url = api_base.to_owned().concat(path);
    if let Some(query) = query {
        url.push('?');
        url = url.concat(query);
    }
    let method = match http_method(method) {
        Some(name) => name,
        None => "GET".to_owned(),
    };
    let mut kept: Vec<Header> = Vec::new();
    let mut i: usize = 0;
    while i < headers.len()
        invariant
            i <= headers@.len(),
            same_headers(kept@, headers@.take(i as int)),
        decreases headers@.len() - i,
    {
        let (name, value) = headers[i];
        kept.push((name.to_owned(), slice_to_vec(value)));
        i += 1;
    }
    assert(headers@.take(i as int) =~= headers@);
    let body = if body.len() > 0 {
        Some(slice_to_vec(body))
    } else {
        None
    };
    ForwardRequest { method, url, headers: kept, body }
}

/// What the upstream request came to.
#[derive(Debug, PartialEq, Eq)]
pub enum ForwardReply {
    /// No answer; the transport's message.
    Unreachable(String),
    /// An answer: all its headers, names in lower case, and its body or why
    /// that could not be read.
    Answered { status: u16, headers: Vec<Header>, body: core::result::Result<Vec<u8>, String> },
}

/// The first value of the header `name`.
pub open spec fn first_value(headers: Seq<Header>, name: Seq<char>) -> Option<Seq<u8>>
    decreases headers.len(),
{
    if headers.len() == 0 {
        None
    } else if headers[0].0@ == name {
        Some(headers[0].1@)
    } else {
        first_value(headers.skip(1), name)
    }
}

/// The header `name` as it is copied back: its first value, if it has one.
pub open spec fn copied(headers: Seq<Header>, name: Seq<char>) -> Seq<(Seq<char>, Seq<u8>)> {
    match first_value(headers, name) {
        Some(value) => seq![(name, value)],
        None => Seq::empty(),
    }
}

/// The headers that are copied back to the caller: content type, cache control.
pub open spec fn copied_headers(headers: Seq<Header>) -> Seq<(Seq<char>, Seq<u8>)> {
    copied(headers, "content-type"@) + copied(headers, "cache-control"@)
}

/// Names and values of a list of headers.
pub open spec fn header_texts(headers: Seq<Header>) -> Seq<(Seq<char>, Seq<u8>)> {
    headers.map_values(|h: Header| (h.0@, h.1@))
}

fn copy_header(out: &mut Vec<Header>, headers: &Vec<Header>, name: &str)
    ensures
        header_texts(final(out)@) == header_texts(old(out)@) + copied(headers@, name@),
{
    let mut i: usize = 0;
    assert(headers@.skip(0) =~= headers@);
    while i < headers.len()
        invariant
            i <= headers@.len(),
            out@ == old(out)@,
            first_value(headers@.skip(i as int), name@) == first_value(headers@, name@),
        decreases headers@.len() - i,
    {
        let ghost rest = headers@.skip(i as int);
        assert(rest[0] == headers@[i as int]);
        assert(rest.skip(1) =~= headers@.skip(i + 1));
        if same_text(headers[i].0.as_str(), name) {
            out.push((name.to_owned(), slice_to_vec(headers[i].1.as_slice())));
            assert(header_texts(out@) =~= header_texts(old(out)@) + copied(headers@, name@));
            return;
        }
        i += 1;
    }
    assert(header_texts(out@) =~= header_texts(old(out)@) + copied(headers@, name@));
}

/// Turns the upstream reply into the response to hand back.
pub fn forward_response(reply: ForwardReply) -> (r: Result<ForwardResponse>)
    ensures
        match reply {
            ForwardReply::Unreachable(text) => r matches Err(e) && e@
                == ErrorView::ProxyUnreachable(text@),
            ForwardReply::Answered { status, headers, body } => match body {
                Err(text) => r matches Err(e) && e@ == ErrorView::ProxyReadFailed(text@),
                Ok(bytes) => {
                    &&& r matches Ok(res)
                    &&& res.status == status
                    &&& header_texts(res.headers@) == copied_headers(headers@)
                    &&& res.body == bytes
                },
            },
        },
{
    match reply {
        ForwardReply::Unreachable(text) => Err(Error::ProxyUnreachable(text)),
        ForwardReply::Answered { status, headers, body } => match body {
            Err(text) => Err(Error::ProxyReadFailed(text)),
            Ok(bytes) => {
                let mut kept: Vec<Header> = Vec::new();
                copy_header(&mut kept, &headers, "content-type");
                copy_header(&mut kept, &headers, "cache-control");
                assert(header_texts(kept@) =~= copied_headers(headers@));
                Ok(ForwardResponse { status, headers: kept, body: bytes })
            },
        },
    }
}

/// No header but the two allowed ones is ever copied back, and neither twice.
pub proof fn lemma_only_allowed_headers_return(headers: Seq<Header>)
    ensures
        copied_headers(headers).len() <= 2,
        forall|i: int|
            0 <= i < copied_headers(headers).len() ==> {
                let name = (#[trigger] copied_headers(headers)[i]).0;
                name == "content-type"@ || name == "cache-control"@
            },
        forall|i: int, j: int|
            0 <= i < j < copied_headers(headers).len() ==> (#[trigger] copied_headers(headers)[i]).0
                != (#[trigger] copied_headers(headers)[j]).0,
{
    reveal_strlit("content-type");
    reveal_strlit("cache-control");
    assert("content-type"@.len() != "cache-control"@.len());
}

/// The first value of a header is that of the first header of this name, and
/// there is none exactly if no header has it.
pub proof fn lemma_first_value_is_first(headers: Seq<Header>, name: Seq<char>)
    ensures
        match first_value(headers, name) {
            Some(value) => exists|i: int|
                0 <= i < headers.len() && (#[trigger] headers[i]).0@ == name && headers[i].1@
                    == value && forall|j: int| 0 <= j < i ==> (#[trigger] headers[j]).0@ != name,
            None => forall|j: int| 0 <= j < headers.len() ==> (#[trigger] headers[j]).0@ != name,
        },
    decreases headers.len(),
{
    if headers.len() > 0 && headers[0].0@ != name {
        let rest = headers.skip(1);
        lemma_first_value_is_first(rest, name);
        assert(forall|j: int| 0 < j < headers.len() ==> headers[j] == rest[j - 1]);
        match first_value(rest, name) {
            Some(value) => {
                let i = choose|i: int|
                    0 <= i < rest.len() && (#[trigger] rest[i]).0@ == name && rest[i].1@ == value
                        && forall|j: int| 0 <= j < i ==> (#[trigger] rest[j]).0@ != name;
                assert(headers[i + 1] == rest[i]);
                assert forall|j: int| 0 <= j < i + 1 implies (#[trigger] headers[j]).0@ != name by {
                    if j > 0 {
                        assert(headers[j] == rest[j - 1]);
                    }
                }
            },
            None => {
                assert forall|j: int| 0 <= j < headers.len() implies (#[trigger] headers[j]).0@
                    != name by {
                    if j > 0 {
                        assert(headers[j] == rest[j - 1]);
                    }
                }
            },
        }
    } else if headers.len() > 0 {
        assert(headers[0].0@ == name);
    }
}

/// The content type comes back first and the cache control after it, each with
/// its first value, if there is one, and neither if there is none.
pub proof fn lemma_allowed_headers_return(headers: Seq<Header>)
    ensures
        ({
            let back = copied_headers(headers);
            match (first_value(headers, "content-type"@), first_value(headers, "cache-control"@)) {
                (Some(kind), Some(cache)) => back.len() == 2 && back[0] == ("content-type"@, kind)
                    && back[1] == ("cache-control"@, cache),
                (Some(kind), None) => back.len() == 1 && back[0] == ("content-type"@, kind),
                (None, Some(cache)) => back.len() == 1 && back[0] == ("cache-control"@, cache),
                (None, None) => back.len() == 0,
            }
        }),
{
}

/// A forwarded request goes to the API's address and the path, and a query is
/// appended to that after a question mark, also an empty one.
pub proof fn lemma_forward_url(api_base: Seq<char>, path: Seq<char>, query: Seq<char>)
    ensures
        forward_url(api_base, path, None) == api_base + path,
        forward_url(api_base, path, Some(query)) == forward_url(api_base, path, None) + "?"@
            + query,
        forward_url(api_base, path, Some(query)).len() == api_base.len() + path.len() + 1
            + query.len(),
{
    reveal_strlit("?");
    assert(forward_url(api_base, path, Some(query)) =~= api_base + path + "?"@ + query);
}

/// A byte may stand in a method unless it is a control byte, a space, no ASCII or
/// one of the delimiters.
pub proof fn lemma_method_bytes(b: u8)
    ensures
        method_byte(b) <==> 33 <= b <= 126 && b != '"' as u8 && b != '(' as u8 && b != ')' as u8
            && b != ',' as u8 && b != '/' as u8 && !(':' as u8 <= b <= '@' as u8) && !('[' as u8 <= b
            <= ']' as u8) && b != '{' as u8 && b != '}' as u8,
        method_bytes(seq![b]) == method_byte(b),
        !method_bytes(Seq::empty()),
{
    if method_byte(b) {
        assert forall|i: int| 0 <= i < seq![b].len() implies #[trigger] method_byte(seq![b][i]) by {
        }
    } else {
        assert(!method_byte(seq![b][0]));
    }
}

/// Putting two methods together makes a method, and every beginning and end of
/// one that is not empty is one.
pub proof fn lemma_methods_concatenate(a: Seq<u8>, b: Seq<u8>)
    requires
        a.len() > 0,
        b.len() > 0,
    ensures
        method_bytes(a + b) <==> method_bytes(a) && method_bytes(b),
{
    let both = a + b;
    if method_bytes(both) {
        assert(forall|i: int| 0 <= i < a.len() ==> #[trigger] a[i] == both[i]);
        assert(forall|i: int| 0 <= i < b.len() ==> #[trigger] b[i] == both[a.len() + i]);
        assert forall|i: int| 0 <= i < a.len() implies #[trigger] method_byte(a[i]) by {
            assert(method_byte(both[i]));
        }
        assert forall|i: int| 0 <= i < b.len() implies #[trigger] method_byte(b[i]) by {
            assert(method_byte(both[a.len() + i]));
        }
    }
    if method_bytes(a) && method_bytes(b) {
        assert forall|i: int| 0 <= i < both.len() implies #[trigger] method_byte(both[i]) by {
            if i < a.len() {
                assert(method_byte(a[i]));
            } else {
                assert(method_byte(b[i - a.len()]));
            }
        }
    }
}

/// A list of headers says one name and one value for each, in the same order; two
/// lists say the same exactly if they do so header by header.
pub proof fn lemma_header_lists(a: Seq<Header>, b: Seq<(&str, &[u8])>)
    ensures
        header_texts(a).len() == a.len(),
        forall|i: int| 0 <= i < a.len() ==> #[trigger] header_texts(a)[i] == (a[i].0@, a[i].1@),
        same_headers(a, b) <==> header_texts(a) == Seq::new(
            b.len(),
            |i: int| (b[i].0@, b[i].1@),
        ),
{
    let said = Seq::new(b.len(), |i: int| (b[i].0@, b[i].1@));
    if same_headers(a, b) {
        assert(header_texts(a) =~= said);
    }
    if header_texts(a) == said {
        assert(header_texts(a).len() == said.len());
        assert forall|i: int| 0 <= i < a.len() implies (#[trigger] a[i]).0@ == b[i].0@ && a[i].1@
            == b[i].1@ by {
            assert(header_texts(a)[i] == said[i]);
        }
    }
}

} // verus!
