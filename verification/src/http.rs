//! The HTTP requests that a module asks the host to make: which are let through, and what
//! of the response goes back.

use vstd::prelude::*;
use vstd::string::{StringExecFns, StringSliceAdditionalSpecFns};
use vstd::utf8::encode_utf8;

use crate::host_error::HostError;
use crate::origin::{ascii_bytes, https_origin, lemma_ascii_str_bytes, origin_of};

verus! {

broadcast use vstd::utf8::encode_utf8_decode_utf8;

/// The largest request body, in bytes, and the largest response body that is read.
pub const MAX_HTTP_BODY: usize = 2097152;

/// The most headers of a request.
pub const MAX_REQUEST_HEADERS: usize = 32;

/// The most headers of a response that go back to the module.
pub const MAX_RESPONSE_HEADERS: usize = 64;

/// A request as the module hands it over.
#[derive(Debug)]
pub struct HttpRequest {
    pub method: String,
    pub url: String,
    pub headers: Vec<(String, String)>,
    pub body: Vec<u8>,
}

/// The methods that a module may use.
#[derive(Clone, Copy, PartialEq, Eq, Structural, Debug)]
pub enum HttpMethod {
    Get,
    Post,
}

/// A request that the host has let through, with its method in canonical form.
#[derive(Debug)]
pub struct OutboundRequest {
    pub method: HttpMethod,
    pub url: String,
    pub headers: Vec<(String, String)>,
    pub body: Vec<u8>,
}

/// The set of the UTF-8 encodings of the strings of `s`.
pub open spec fn bytes_of_strings(s: Seq<String>) -> Set<Seq<u8>> {
    Set::new(|o: Seq<u8>| exists|i: int| 0 <= i < s.len() && encode_utf8(#[trigger] s[i]@) == o)
}

/// Every origin of the list is granted, whatever its place in it, and nothing else is.
pub proof fn lemma_every_origin_is_granted(origins: Seq<String>)
    ensures
        forall|i: int|
            0 <= i < origins.len() ==> bytes_of_strings(origins).contains(
                encode_utf8(#[trigger] origins[i]@),
            ),
        forall|o: Seq<u8>|
            bytes_of_strings(origins).contains(o) ==> exists|i: int|
                0 <= i < origins.len() && encode_utf8(#[trigger] origins[i]@) == o,
{
    assert forall|i: int| 0 <= i < origins.len() implies bytes_of_strings(origins).contains(
        encode_utf8(#[trigger] origins[i]@),
    ) by {
        let o = encode_utf8(origins[i]@);
        assert(0 <= i < origins.len() && encode_utf8(origins[i]@) == o);
    }
}

/// The origins that the launcher granted to a module.
#[derive(Debug)]
pub struct NetworkGrants {
    origins: Vec<String>,
}

impl View for NetworkGrants {
    type V = Set<Seq<u8>>;

    /// The granted origins, by their bytes.
    closed spec fn view(&self) -> Set<Seq<u8>> {
        bytes_of_strings(self.origins@)
    }
}

/// Whether two strings have the same bytes.
fn same_bytes(a: &[u8], b: &[u8]) -> (r: bool)
    ensures
        r == (a@ == b@),
{
    if a.len() != b.len() {
        return false;
    }
    let mut i: usize = 0;
    while i < a.len()
        invariant
            a.len() == b.len(),
            i <= a.len(),
            forall|j: int| 0 <= j < i ==> a@[j] == b@[j],
        decreases a.len() - i,
    {
        if a[i] != b[i] {
            return false;
        }
        i = i + 1;
    }
    assert(a@ =~= b@);
    true
}

impl NetworkGrants {
    /// The grants of the given origins.
    pub fn new(origins: Vec<String>) -> (r: NetworkGrants)
        ensures
            r@ == bytes_of_strings(origins@),
            forall|i: int| 0 <= i < origins@.len() ==> r@.contains(encode_utf8(#[trigger] origins@[i]@)),
            forall|o: Seq<u8>| r@.contains(o) ==> exists|i: int|
                0 <= i < origins@.len() && encode_utf8(#[trigger] origins@[i]@) == o,
    {
        proof {
            lemma_every_origin_is_granted(origins@);
        }
        NetworkGrants { origins }
    }

    /// Whether `origin`, by its bytes, is granted.
    pub fn grants(&self, origin: &str) -> (r: bool)
        ensures
            r == self@.contains(origin.spec_bytes()),
    {
        let target = origin.as_bytes();
        let mut i: usize = 0;
        while i < self.origins.len()
            invariant
                i <= self.origins@.len(),
                target@ == origin.spec_bytes(),
                forall|j: int| 0 <= j < i ==> encode_utf8(#[trigger] self.origins@[j]@) != target@,
            decreases self.origins@.len() - i,
        {
            if same_bytes(self.origins[i].as_str().as_bytes(), target) {
                assert(encode_utf8(self.origins@[i as int]@) == target@);
                return true;
            }
            i = i + 1;
        }
        false
    }
}

/// `c` with an ASCII lower-case letter made upper-case.
pub open spec fn ascii_upper_byte(c: u8) -> u8 {
    if 0x61 <= c <= 0x7a { (c - 32) as u8 } else { c }
}

/// `c` with an ASCII upper-case letter made lower-case.
pub open spec fn ascii_lower_byte(c: u8) -> u8 {
    if 0x41 <= c <= 0x5a { (c + 32) as u8 } else { c }
}

/// `b` with its ASCII letters made upper-case, as `to_ascii_uppercase` does.
pub open spec fn ascii_uppercase(b: Seq<u8>) -> Seq<u8> {
    b.map_values(|c: u8| ascii_upper_byte(c))
}

/// `b` with its ASCII letters made lower-case, as `to_ascii_lowercase` does.
pub open spec fn ascii_lowercase(b: Seq<u8>) -> Seq<u8> {
    b.map_values(|c: u8| ascii_lower_byte(c))
}

/// The method that `method` names, with ASCII case ignored, where it is GET or POST.
pub open spec fn granted_method(method: Seq<u8>) -> Option<HttpMethod> {
    if ascii_uppercase(method) == ascii_bytes("GET"@) {
        Some(HttpMethod::Get)
    } else if ascii_uppercase(method) == ascii_bytes("POST"@) {
        Some(HttpMethod::Post)
    } else {
        None
    }
}

/// Whether a header name, in lower case, is one that the host reserves.
pub open spec fn is_reserved_header(lower: Seq<u8>) -> bool {
    ||| lower == ascii_bytes("authorization"@)
    ||| lower == ascii_bytes("cookie"@)
    ||| lower == ascii_bytes("proxy-authorization"@)
    ||| lower == ascii_bytes("host"@)
    ||| lower == ascii_bytes("connection"@)
}

/// Whether one of `headers` has a reserved name, with ASCII case ignored.
pub open spec fn has_reserved_header(headers: Seq<(String, String)>) -> bool {
    exists|i: int|
        0 <= i < headers.len() && is_reserved_header(ascii_lowercase(encode_utf8(#[trigger] headers[i].0@)))
}

/// The first reason, if any, for which the host refuses `request` under `grants`: the
/// body over 2 MiB or more than 32 headers; a URL that is no absolute HTTPS URL; an origin
/// not granted; a method other than GET or POST; a reserved header.
pub open spec fn http_request_error(grants: Set<Seq<u8>>, request: HttpRequest) -> Option<HostError> {
    let url = encode_utf8(request.url@);
    if request.body@.len() > MAX_HTTP_BODY || request.headers@.len() > MAX_REQUEST_HEADERS {
        Some(HostError::HttpRequestTooLarge)
    } else if origin_of(url) is None {
        Some(HostError::NotHttps)
    } else if !grants.contains(origin_of(url)->0) {
        Some(HostError::OriginNotGranted)
    } else if granted_method(encode_utf8(request.method@)) is None {
        Some(HostError::MethodNotGranted)
    } else if has_reserved_header(request.headers@) {
        Some(HostError::ForbiddenHeader)
    } else {
        None
    }
}


/// The bytes of an ASCII string.
fn ascii_literal(s: &str) -> (r: &[u8])
    requires
        vstd::string::is_ascii(s),
    ensures
        r@ == ascii_bytes(s@),
{
    proof {
        lemma_ascii_str_bytes(s);
    }
    s.as_bytes()
}

/// Whether `b`, with its ASCII letters made upper-case, is `target`.
fn uppercase_is(b: &[u8], target: &[u8]) -> (r: bool)
    ensures
        r == (ascii_uppercase(b@) == target@),
{
    if b.len() != target.len() {
        return false;
    }
    let mut i: usize = 0;
    while i < b.len()
        invariant
            b.len() == target.len(),
            i <= b.len(),
            forall|j: int| 0 <= j < i ==> ascii_upper_byte(b@[j]) == target@[j],
        decreases b.len() - i,
    {
        let c = b[i];
        let u = if 0x61 <= c && c <= 0x7a { c - 32 } else { c };
        if u != target[i] {
            assert(ascii_uppercase(b@)[i as int] != target@[i as int]);
            return false;
        }
        i = i + 1;
    }
    assert(ascii_uppercase(b@) =~= target@);
    true
}

/// Whether `b`, with its ASCII letters made lower-case, is `target`.
fn lowercase_is(b: &[u8], target: &[u8]) -> (r: bool)
    ensures
        r == (ascii_lowercase(b@) == target@),
{
    if b.len() != target.len() {
        return false;
    }
    let mut i: usize = 0;
    while i < b.len()
        invariant
            b.len() == target.len(),
            i <= b.len(),
            forall|j: int| 0 <= j < i ==> ascii_lower_byte(b@[j]) == target@[j],
        decreases b.len() - i,
    {
        let c = b[i];
        let l = if 0x41 <= c && c <= 0x5a { c + 32 } else { c };
        if l != target[i] {
            assert(ascii_lowercase(b@)[i as int] != target@[i as int]);
            return false;
        }
        i = i + 1;
    }
    assert(ascii_lowercase(b@) =~= target@);
    true
}

/// The method that `method` names, with ASCII case ignored, where it is GET or POST.
pub fn method_named(method: &str) -> (r: Option<HttpMethod>)
    ensures
        r == granted_method(method.spec_bytes()),
{
    proof {
        reveal_strlit("GET");
        reveal_strlit("POST");
    }
    let m = method.as_bytes();
    if uppercase_is(m, ascii_literal("GET")) {
        Some(HttpMethod::Get)
    } else if uppercase_is(m, ascii_literal("POST")) {
        Some(HttpMethod::Post)
    } else {
        None
    }
}

/// Whether `name` is a header that the host reserves, with ASCII case ignored:
/// `authorization`, `cookie`, `proxy-authorization`, `host` or `connection`.
pub fn is_reserved_header_name(name: &str) -> (r: bool)
    ensures
        r == is_reserved_header(ascii_lowercase(name.spec_bytes())),
{
    proof {
        reveal_strlit("authorization");
        reveal_strlit("cookie");
        reveal_strlit("proxy-authorization");
        reveal_strlit("host");
        reveal_strlit("connection");
    }
    let n = name.as_bytes();
    lowercase_is(n, ascii_literal("authorization")) || lowercase_is(n, ascii_literal("cookie"))
        || lowercase_is(n, ascii_literal("proxy-authorization")) || lowercase_is(
        n,
        ascii_literal("host"),
    ) || lowercase_is(n, ascii_literal("connection"))
}

/// Decides whether the host makes `request` for a module that `grants` covers. It is
/// refused with the first of these that fails: a body of at most 2 MiB and at most 32
/// headers; an absolute HTTPS URL; a granted origin; the method GET or POST, in any ASCII
/// case; no reserved header. What passes goes out unchanged, with its method named.
pub fn prepare_http_request(grants: &NetworkGrants, request: HttpRequest) -> (r: Result<
    OutboundRequest,
    HostError,
>)
    ensures
        r is Ok <==> http_request_error(grants@, request) is None,
        r matches Err(e) ==> http_request_error(grants@, request) == Some(e),
        r matches Ok(out) ==> {
            &&& origin_of(encode_utf8(request.url@)) matches Some(o) && grants@.contains(o)
            &&& Some(out.method) == granted_method(encode_utf8(request.method@))
            &&& out.url == request.url
            &&& out.headers == request.headers
            &&& out.body == request.body
        },
{
    if request.body.len() > MAX_HTTP_BODY || request.headers.len() > MAX_REQUEST_HEADERS {
        return Err(HostError::HttpRequestTooLarge);
    }
    let origin = match https_origin(request.url.as_str()) {
        Some(o) => o,
        None => return Err(HostError::NotHttps),
    };
    if !grants.grants(origin) {
        return Err(HostError::OriginNotGranted);
    }
    let method = match method_named(request.method.as_str()) {
        Some(m) => m,
        None => return Err(HostError::MethodNotGranted),
    };
    let mut i: usize = 0;
    while i < request.headers.len()
        invariant
            i <= request.headers@.len(),
            request.body@.len() <= MAX_HTTP_BODY,
            request.headers@.len() <= MAX_REQUEST_HEADERS,
            origin_of(encode_utf8(request.url@)) is Some,
            grants@.contains(origin_of(encode_utf8(request.url@))->0),
            granted_method(encode_utf8(request.method@)) == Some(method),
            forall|j: int|
                0 <= j < i ==> !is_reserved_header(
                    ascii_lowercase(encode_utf8(#[trigger] request.headers@[j].0@)),
                ),
        decreases request.headers@.len() - i,
    {
        if is_reserved_header_name(request.headers[i].0.as_str()) {
            assert(is_reserved_header(
                ascii_lowercase(encode_utf8(request.headers@[i as int].0@)),
            ));
            return Err(HostError::ForbiddenHeader);
        }
        i = i + 1;
    }
    Ok(OutboundRequest {
        method,
        url: request.url,
        headers: request.headers,
        body: request.body,
    })
}


/// The headers of a response that have a text value, in order; `None` stands for a value
/// that is not visible ASCII text.
pub open spec fn text_headers(headers: Seq<(String, Option<String>)>) -> Seq<(String, String)>
    decreases headers.len(),
{
    if headers.len() == 0 {
        Seq::empty()
    } else {
        let before = text_headers(headers.drop_last());
        match headers.last().1 {
            Some(value) => before.push((headers.last().0, value)),
            None => before,
        }
    }
}

/// The first 64 of `headers`, or all of them where there are fewer.
pub open spec fn first_response_headers(headers: Seq<(String, String)>) -> Seq<(String, String)> {
    if headers.len() <= MAX_RESPONSE_HEADERS {
        headers
    } else {
        headers.take(MAX_RESPONSE_HEADERS as int)
    }
}

/// The response headers that go back to the module: those with a text value, in order, at
/// most 64 of them.
pub fn select_response_headers(headers: Vec<(String, Option<String>)>) -> (r: Vec<(String, String)>)
    ensures
        r@ == first_response_headers(text_headers(headers@)),
{
    let ghost all = headers@;
    let mut kept: Vec<(String, String)> = Vec::new();
    for header in it: headers.into_iter()
        invariant
            it.seq() == all,
            kept@ == first_response_headers(text_headers(all.take(it.index() as int))),
    {
        let ghost k = it.index() as int;
        assert(all.take(k + 1).drop_last() =~= all.take(k));
        assert(all.take(k + 1).last() == all[k]);
        assert(header == all[k]);
        let (name, value) = header;
        match value {
            Some(v) => {
                if kept.len() < MAX_RESPONSE_HEADERS {
                    kept.push((name, v));
                }
                proof {
                    let before = text_headers(all.take(k));
                    if before.len() >= MAX_RESPONSE_HEADERS {
                        assert(before.push((name, v)).take(MAX_RESPONSE_HEADERS as int) =~= before.take(
                            MAX_RESPONSE_HEADERS as int,
                        ));
                    }
                }
            },
            None => {},
        }
    }
    assert(all.take(all.len() as int) =~= all);
    kept
}


/// The characters of each name and value of `headers`.
pub open spec fn header_views(headers: Seq<(String, String)>) -> Seq<(Seq<char>, Seq<char>)> {
    headers.map_values(|h: (String, String)| (h.0@, h.1@))
}

/// Whether the `http` crate builds a request from this method, URI and headers, in that
/// order: whether each is valid HTTP as it reads them.
pub uninterp spec fn http_accepts(
    method: Seq<char>,
    uri: Seq<char>,
    headers: Seq<(Seq<char>, Seq<char>)>,
) -> bool;

/// Whether the `http` crate builds a request from `method`, `uri` and `headers`: it runs
/// `Request::builder()`, `method`, `uri`, one `header` per pair in order, and `body`, and
/// tells whether that gave a request.
#[verifier::external_body]
fn http_builds(method: &str, uri: &str, headers: &[(String, String)]) -> (r: bool)
    ensures
        r == http_accepts(method@, uri@, header_views(headers@)),
{
    let mut builder = ureq::http::Request::builder().method(method).uri(uri);
    for (name, value) in headers {
        builder = builder.header(name.as_str(), value.as_str());
    }
    builder.body(()).is_ok()
}

/// A request ready to be sent: the method, URL, headers in order and body that go on the
/// wire, all of which the `http` crate accepts.
#[derive(Debug)]
pub struct SendableRequest {
    pub method: HttpMethod,
    pub url: String,
    pub headers: Vec<(String, String)>,
    pub body: Vec<u8>,
}

/// The header that the host adds to every request it sends.
pub open spec fn user_agent_header() -> (Seq<char>, Seq<char>) {
    ("User-Agent"@, "rayslash-module-host/1"@)
}

/// The name of `method` on the wire.
pub open spec fn method_name(method: HttpMethod) -> Seq<char> {
    match method {
        HttpMethod::Get => "GET"@,
        HttpMethod::Post => "POST"@,
    }
}

/// The check of a request method and of a header name ignores ASCII case: a method or a
/// header name written in upper case, in lower case, or as given gets the same answer.
pub proof fn lemma_method_and_header_checks_ignore_case(b: Seq<u8>)
    ensures
        granted_method(ascii_lowercase(b)) == granted_method(b),
        granted_method(ascii_uppercase(b)) == granted_method(b),
        is_reserved_header(ascii_lowercase(ascii_uppercase(b))) == is_reserved_header(
            ascii_lowercase(b),
        ),
        is_reserved_header(ascii_lowercase(ascii_lowercase(b))) == is_reserved_header(
            ascii_lowercase(b),
        ),
{
    assert(ascii_uppercase(ascii_lowercase(b)) =~= ascii_uppercase(b));
    assert(ascii_uppercase(ascii_uppercase(b)) =~= ascii_uppercase(b));
    assert(ascii_lowercase(ascii_uppercase(b)) =~= ascii_lowercase(b));
    assert(ascii_lowercase(ascii_lowercase(b)) =~= ascii_lowercase(b));
}

/// The name on the wire of a method is read back, by the check of a module's request
/// method, as that method: GET goes out as GET and POST as POST.
pub proof fn lemma_method_name_round_trip(method: HttpMethod)
    ensures
        granted_method(encode_utf8(method_name(method))) == Some(method),
{
    reveal_strlit("GET");
    reveal_strlit("POST");
    assert(vstd::utf8::is_ascii_chars("GET"@));
    assert(vstd::utf8::is_ascii_chars("POST"@));
    vstd::utf8::is_ascii_chars_encode_utf8("GET"@);
    vstd::utf8::is_ascii_chars_encode_utf8("POST"@);
    let get = encode_utf8("GET"@);
    let post = encode_utf8("POST"@);
    assert(get =~= ascii_bytes("GET"@));
    assert(post =~= ascii_bytes("POST"@));
    assert(ascii_uppercase(get) =~= get);
    assert(ascii_uppercase(post) =~= post);
    assert(get.len() != post.len());
}

/// The name of `method` on the wire.
pub fn method_text(method: HttpMethod) -> (r: &'static str)
    ensures
        r@ == method_name(method),
        granted_method(encode_utf8(r@)) == Some(method),
{
    proof {
        lemma_method_name_round_trip(method);
    }
    match method {
        HttpMethod::Get => "GET",
        HttpMethod::Post => "POST",
    }
}

/// Makes the HTTP request that the host sends for `request`: its method, URL and body,
/// and its headers in order followed by the host's `User-Agent: rayslash-module-host/1`.
/// Where the `http` crate does not accept the method, URL or a header as valid HTTP, it is
/// refused as an invalid request.
pub fn build_http_request(request: OutboundRequest) -> (r: Result<SendableRequest, HostError>)
    ensures
        ({
            let headers = header_views(request.headers@).push(user_agent_header());
            &&& r is Ok <==> http_accepts(method_name(request.method), request.url@, headers)
            &&& r matches Ok(out) ==> {
                &&& out.method == request.method
                &&& out.url == request.url
                &&& header_views(out.headers@) == headers
                &&& out.body == request.body
            }
            &&& r matches Err(e) ==> e == HostError::InvalidHttpRequest
        }),
{
    let OutboundRequest { method, url, mut headers, body } = request;
    let ghost before = headers@;
    headers.push((String::from_str("User-Agent"), String::from_str("rayslash-module-host/1")));
    assert(header_views(headers@) =~= header_views(before).push(user_agent_header()));
    if http_builds(method_text(method), url.as_str(), headers.as_slice()) {
        Ok(SendableRequest { method, url, headers, body })
    } else {
        Err(HostError::InvalidHttpRequest)
    }
}

} // verus!
