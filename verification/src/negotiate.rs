//! Conditional-request negotiation: from a request and a file's attributes to
//! the status, headers and body use of the response.

use crate::cachebust::{cachebust_suffix, cachebust_uri, query_rewrite, suffix_rewrite};
use crate::etag::{unquote, unquoted};
use crate::text::{bytes_eq, find_byte, index_of, opt_bytes_view, opt_slice_view};
use vstd::prelude::*;
use vstd::slice::{slice_subrange, slice_to_vec};
use vstd::string::*;

verus! {

/// How the fingerprint of a file is carried in its URL.
#[derive(Clone, Debug, PartialEq, Eq)]
pub enum CacheBusting {
    /// Not at all: the URL is stable and clients revalidate.
    Disabled,
    /// As the value of the query parameter of this name.
    Query(Vec<u8>),
    /// At the end of the file's base name, after this separator byte if one
    /// is given.
    Suffix(Option<u8>),
}

/// The method of a request, as far as the negotiation tells methods apart.
#[derive(Clone, Copy, Debug, PartialEq, Eq)]
pub enum Method {
    Get,
    Head,
    Options,
    Other,
}

/// The headers that a response may carry.
#[derive(Clone, Copy, Debug, PartialEq, Eq)]
pub enum HeaderName {
    ContentType,
    ETag,
    CacheControl,
    Allow,
    Location,
}

/// What the negotiation reads of a request.
#[derive(Clone, Debug, PartialEq, Eq)]
pub struct Request {
    pub method: Method,
    /// The path of the request URL.
    pub path: Vec<u8>,
    /// The query string of the request URL, without the `?`, if it has one.
    pub query: Option<Vec<u8>>,
    /// The value of the `If-None-Match` header, if there is one.
    pub if_none_match: Option<Vec<u8>>,
}

/// The response decided on.
#[derive(Clone, Debug, PartialEq, Eq)]
pub struct Response {
    pub status: u16,
    pub headers: Vec<(HeaderName, Vec<u8>)>,
    /// Whether the body is the file's content; it is empty otherwise.
    pub body: bool,
}

/// A response as a mathematical value.
pub struct ResponseView {
    pub status: u16,
    pub headers: Seq<(HeaderName, Seq<u8>)>,
    pub body: bool,
}

/// The headers as mathematical values.
pub open spec fn headers_view(headers: Seq<(HeaderName, Vec<u8>)>) -> Seq<(HeaderName, Seq<u8>)> {
    Seq::new(headers.len(), |i: int| (headers[i].0, headers[i].1@))
}

impl Response {
    /// The response as a mathematical value.
    pub open spec fn view(&self) -> ResponseView {
        ResponseView {
            status: self.status,
            headers: headers_view(self.headers@),
            body: self.body,
        }
    }
}

/// The method that the token `name` stands for; case matters.
pub open spec fn method_of(name: Seq<u8>) -> Method {
    if name == "GET".spec_bytes() {
        Method::Get
    } else if name == "HEAD".spec_bytes() {
        Method::Head
    } else if name == "OPTIONS".spec_bytes() {
        Method::Options
    } else {
        Method::Other
    }
}

impl Method {
    /// Reads a method from its token.
    pub fn parse(name: &[u8]) -> (method: Method)
        ensures
            method == method_of(name@),
    {
        if bytes_eq(name, "GET".as_bytes()) {
            Method::Get
        } else if bytes_eq(name, "HEAD".as_bytes()) {
            Method::Head
        } else if bytes_eq(name, "OPTIONS".as_bytes()) {
            Method::Options
        } else {
            Method::Other
        }
    }
}

/// Whether `b` is white space that trimming removes.
pub open spec fn is_space(b: u8) -> bool {
    (0x09 <= b <= 0x0d) || b == 0x20
}

/// The number of white-space bytes at the start of `s`.
pub open spec fn lead_spaces(s: Seq<u8>) -> int
    decreases s.len(),
{
    if s.len() > 0 && is_space(s[0]) {
        1 + lead_spaces(s.skip(1))
    } else {
        0
    }
}

/// The number of white-space bytes at the end of `s`.
pub open spec fn trail_spaces(s: Seq<u8>) -> int
    decreases s.len(),
{
    if s.len() > 0 && is_space(s.last()) {
        1 + trail_spaces(s.drop_last())
    } else {
        0
    }
}

/// `s` without the white space at its start and at its end.
pub open spec fn trimmed(s: Seq<u8>) -> Seq<u8> {
    let t = s.skip(lead_spaces(s));
    t.take(t.len() - trail_spaces(t))
}

/// Whether a token of the comma-separated list `value`, trimmed, is `*` or
/// is `etag`.
pub open spec fn etag_listed(value: Seq<u8>, etag: Seq<u8>) -> bool
    decreases value.len(),
{
    let n = index_of(value, 0x2c);
    let token = trimmed(value.take(n));
    ||| token == seq![0x2au8]
    ||| token == etag
    ||| (0 <= n < value.len() && etag_listed(value.skip(n + 1), etag))
}

/// Returns `s` without the white space at its start and at its end.
pub fn trim(s: &[u8]) -> (t: &[u8])
    ensures
        t@ == trimmed(s@),
{
    let mut a: usize = 0;
    proof {
        assert(s@.skip(0) =~= s@);
    }
    while a < s.len() && ((0x09 <= s[a] && s[a] <= 0x0d) || s[a] == 0x20)
        invariant
            a <= s@.len(),
            lead_spaces(s@) == a + lead_spaces(s@.skip(a as int)),
        decreases s@.len() - a,
    {
        proof {
            assert(s@.skip(a as int)[0] == s@[a as int]);
            assert(s@.skip(a as int).skip(1) =~= s@.skip(a + 1));
        }
        a += 1;
    }
    proof {
        if a < s@.len() {
            assert(s@.skip(a as int)[0] == s@[a as int]);
        }
    }
    let rest = slice_subrange(s, a, s.len());
    proof {
        assert(rest@ =~= s@.skip(a as int));
        assert(rest@.take(rest@.len() as int) =~= rest@);
    }
    let mut b: usize = rest.len();
    while b > 0 && ((0x09 <= rest[b - 1] && rest[b - 1] <= 0x0d) || rest[b - 1] == 0x20)
        invariant
            b <= rest@.len(),
            trail_spaces(rest@) == rest@.len() - b + trail_spaces(rest@.take(b as int)),
        decreases b,
    {
        proof {
            assert(rest@.take(b as int).last() == rest@[b - 1]);
            assert(rest@.take(b as int).drop_last() =~= rest@.take(b - 1));
        }
        b -= 1;
    }
    proof {
        if b > 0 {
            assert(rest@.take(b as int).last() == rest@[b - 1]);
        }
    }
    let t = slice_subrange(rest, 0, b);
    proof {
        assert(t@ =~= rest@.take(b as int));
    }
    t
}

/// Tests whether the `If-None-Match` value `value` lists `etag`, or `*`.
pub fn none_match_hit(value: &[u8], etag: &[u8]) -> (hit: bool)
    ensures
        hit == etag_listed(value@, etag@),
{
    let mut pos: usize = 0;
    proof {
        assert(value@.skip(0) =~= value@);
    }
    loop
        invariant
            pos <= value@.len(),
            etag_listed(value@, etag@) == etag_listed(value@.skip(pos as int), etag@),
        decreases value@.len() - pos,
    {
        let rest = slice_subrange(value, pos, value.len());
        let n = find_byte(rest, 0x2c);
        let token = trim(slice_subrange(rest, 0, n));
        proof {
            assert(rest@ =~= value@.skip(pos as int));
            assert(rest@.subrange(0, n as int) =~= rest@.take(n as int));
            if n < rest@.len() {
                assert(rest@.skip(n + 1) =~= value@.skip(pos + n + 1));
            }
        }
        let star = token.len() == 1 && token[0] == 0x2a;
        proof {
            assert(star == (token@ == seq![0x2au8])) by {
                if star {
                    assert(token@ =~= seq![0x2au8]);
                }
            }
        }
        if star || bytes_eq(token, etag) {
            return true;
        }
        if n >= rest.len() {
            return false;
        }
        pos = pos + n + 1;
    }
}

/// The value of the `Allow` header.
pub open spec fn allow_value() -> Seq<u8> {
    "GET, HEAD, OPTIONS".spec_bytes()
}

/// The value of the `Cache-Control` header: cache forever where the URL
/// changes with the content, revalidate every time where it does not.
pub open spec fn cache_control_value(busting: CacheBusting) -> Seq<u8> {
    if busting is Disabled {
        "public, max-age=0, must-revalidate".spec_bytes()
    } else {
        "public, max-age=31536000, immutable".spec_bytes()
    }
}

/// The headers that describe the file: its content type, its fingerprint in
/// quotes, and how to cache it.
pub open spec fn base_headers(content_type: Seq<u8>, etag: Seq<u8>, busting: CacheBusting) -> Seq<
    (HeaderName, Seq<u8>),
> {
    seq![
        (HeaderName::ContentType, content_type),
        (HeaderName::ETag, etag),
        (HeaderName::CacheControl, cache_control_value(busting)),
    ]
}

/// The URL that a request must be redirected to so that it names the
/// fingerprint as `busting` asks, or `None` where it does already or
/// nothing is asked.
pub open spec fn redirect_target(
    path: Seq<u8>,
    query: Option<Seq<u8>>,
    etag: Seq<u8>,
    busting: CacheBusting,
) -> Option<Seq<u8>> {
    match busting {
        CacheBusting::Disabled => None,
        CacheBusting::Query(key) => query_rewrite(path, query, key@, unquoted(etag)),
        CacheBusting::Suffix(sep) => suffix_rewrite(path, unquoted(etag), sep),
    }
}

/// The response to a request for a file with the given content type,
/// fingerprint (in quotes) and busting mode. In this order: a method other
/// than GET, HEAD and OPTIONS is refused with 405; a URL that does not name
/// the fingerprint is redirected with 307; OPTIONS is answered with 204;
/// an `If-None-Match` that lists the fingerprint, or `*`, with 304; HEAD with
/// 200 and no body; GET with 200 and the content.
pub open spec fn negotiate(
    method: Method,
    path: Seq<u8>,
    query: Option<Seq<u8>>,
    if_none_match: Option<Seq<u8>>,
    content_type: Seq<u8>,
    etag: Seq<u8>,
    busting: CacheBusting,
) -> ResponseView {
    let base = base_headers(content_type, etag, busting);
    if method == Method::Other {
        ResponseView {
            status: 405,
            headers: seq![(HeaderName::Allow, allow_value())],
            body: false,
        }
    } else if let Some(url) = redirect_target(path, query, etag, busting) {
        ResponseView { status: 307, headers: seq![(HeaderName::Location, url)], body: false }
    } else if method == Method::Options {
        ResponseView {
            status: 204,
            headers: base + seq![(HeaderName::Allow, allow_value())],
            body: false,
        }
    } else if if_none_match is Some && etag_listed(if_none_match->0, etag) {
        ResponseView { status: 304, headers: base, body: false }
    } else {
        ResponseView { status: 200, headers: base, body: method == Method::Get }
    }
}

/// Builds the headers that describe the file.
pub fn response_headers(content_type: &[u8], etag: &[u8], busting: &CacheBusting) -> (headers: Vec<
    (HeaderName, Vec<u8>),
>)
    ensures
        headers_view(headers@) == base_headers(content_type@, etag@, *busting),
{
    let cache_control = match busting {
        CacheBusting::Disabled => "public, max-age=0, must-revalidate".as_bytes_vec(),
        _ => "public, max-age=31536000, immutable".as_bytes_vec(),
    };
    let mut headers: Vec<(HeaderName, Vec<u8>)> = Vec::new();
    headers.push((HeaderName::ContentType, slice_to_vec(content_type)));
    headers.push((HeaderName::ETag, slice_to_vec(etag)));
    headers.push((HeaderName::CacheControl, cache_control));
    proof {
        assert(headers_view(headers@) =~= base_headers(content_type@, etag@, *busting));
    }
    headers
}

/// Decides whether a request must be redirected so that its URL names the
/// fingerprint, and to where.
pub fn cachebust_redirect(
    path: &[u8],
    query: Option<&[u8]>,
    etag: &[u8],
    busting: &CacheBusting,
) -> (url: Option<Vec<u8>>)
    ensures
        opt_bytes_view(url) == redirect_target(path@, opt_slice_view(query), etag@, *busting),
{
    match busting {
        CacheBusting::Disabled => None,
        CacheBusting::Query(key) => cachebust_uri(path, query, key.as_slice(), unquote(etag)),
        CacheBusting::Suffix(sep) => cachebust_suffix(path, unquote(etag), *sep),
    }
}

/// Decides the response to `request` for a file with the given content type,
/// fingerprint (in quotes) and busting mode.
pub fn respond_guard(
    request: &Request,
    content_type: &[u8],
    etag: &[u8],
    busting: &CacheBusting,
) -> (response: Response)
    ensures
        response@ == negotiate(
            request.method,
            request.path@,
            opt_bytes_view(request.query),
            opt_bytes_view(request.if_none_match),
            content_type@,
            etag@,
            *busting,
        ),
{
    if let Method::Other = request.method {
        let mut headers: Vec<(HeaderName, Vec<u8>)> = Vec::new();
        headers.push((HeaderName::Allow, "GET, HEAD, OPTIONS".as_bytes_vec()));
        proof {
            assert(headers_view(headers@) =~= seq![(HeaderName::Allow, allow_value())]);
        }
        return Response { status: 405, headers, body: false };
    }
    let query: Option<&[u8]> = match &request.query {
        Some(q) => Some(q.as_slice()),
        None => None,
    };
    match cachebust_redirect(request.path.as_slice(), query, etag, busting) {
        Some(url) => {
            let ghost target = url@;
            let mut headers: Vec<(HeaderName, Vec<u8>)> = Vec::new();
            headers.push((HeaderName::Location, url));
            proof {
                assert(headers_view(headers@) =~= seq![(HeaderName::Location, target)]);
            }
            return Response { status: 307, headers, body: false };
        },
        None => {},
    }
    let mut headers = response_headers(content_type, etag, busting);
    if let Method::Options = request.method {
        let ghost base = headers_view(headers@);
        headers.push((HeaderName::Allow, "GET, HEAD, OPTIONS".as_bytes_vec()));
        proof {
            assert(headers_view(headers@) =~= base + seq![(HeaderName::Allow, allow_value())]);
        }
        return Response { status: 204, headers, body: false };
    }
    match &request.if_none_match {
        Some(value) => {
            if none_match_hit(value.as_slice(), etag) {
                return Response { status: 304, headers, body: false };
            }
        },
        None => {},
    }
    let body = match request.method {
        Method::Get => true,
        _ => false,
    };
    Response { status: 200, headers, body }
}

/// Every request gets exactly one of five answers, and each has its headers:
/// 405 and 204 carry `Allow`, 307 carries `Location` alone, and 204, 304 and
/// 200 carry the headers that describe the file. Only a GET that is answered
/// with 200 gets the content. Without busting nothing is redirected.
pub proof fn lemma_negotiate_outcomes(
    method: Method,
    path: Seq<u8>,
    query: Option<Seq<u8>>,
    if_none_match: Option<Seq<u8>>,
    content_type: Seq<u8>,
    etag: Seq<u8>,
    busting: CacheBusting,
)
    ensures
        ({
            let r = negotiate(method, path, query, if_none_match, content_type, etag, busting);
            let base = base_headers(content_type, etag, busting);
            let allow = (HeaderName::Allow, allow_value());
            &&& r.status == 200 || r.status == 204 || r.status == 304 || r.status == 307
                || r.status == 405
            &&& r.status == 405 <==> method == Method::Other
            &&& r.status == 405 ==> r.headers == seq![allow]
            &&& r.status == 307 ==> r.headers.len() == 1 && r.headers[0].0 == HeaderName::Location
                && Some(r.headers[0].1) == redirect_target(path, query, etag, busting)
            &&& r.status == 204 ==> method == Method::Options && r.headers == base + seq![allow]
            &&& r.status == 304 || r.status == 200 ==> r.headers == base
            &&& r.status == 304 ==> if_none_match is Some && etag_listed(if_none_match->0, etag)
            &&& r.body <==> r.status == 200 && method == Method::Get
            &&& busting is Disabled ==> r.status != 307
        }),
{
}

} // verus!
