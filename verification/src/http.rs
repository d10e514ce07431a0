//! Requests and responses as plain values, and how a response is written to
//! the wire.

use crate::bytes::{append, copy, equal, equal_ignoring_case, same_ignoring_case};
use crate::number::{decimal, push_decimal};
use vstd::prelude::*;
use vstd::string::StringSliceAdditionalSpecFns;

verus! {

/// The request methods that have a name of their own; every other token is
/// `Other`.
#[derive(Clone, Copy, Debug, PartialEq, Eq, Structural)]
pub enum Method {
    Get,
    Head,
    Post,
    Put,
    Delete,
    Connect,
    Options,
    Trace,
    Patch,
    Other,
}

/// One header line: a name and a value.
#[derive(Debug)]
pub struct Header {
    pub name: Vec<u8>,
    pub value: Vec<u8>,
}

impl View for Header {
    type V = (Seq<u8>, Seq<u8>);

    open spec fn view(&self) -> (Seq<u8>, Seq<u8>) {
        (self.name@, self.value@)
    }
}

/// The headers of a message as pairs of byte strings, in their order.
pub open spec fn headers_view(headers: Seq<Header>) -> Seq<(Seq<u8>, Seq<u8>)> {
    headers.map_values(|h: Header| h@)
}

/// A parsed request. Once made it cannot be changed.
#[derive(Debug)]
pub struct Request {
    method: Method,
    path: Vec<u8>,
    version: Vec<u8>,
    headers: Vec<Header>,
    body: Vec<u8>,
}

pub struct RequestView {
    pub method: Method,
    pub path: Seq<u8>,
    pub version: Seq<u8>,
    pub headers: Seq<(Seq<u8>, Seq<u8>)>,
    pub body: Seq<u8>,
}

impl View for Request {
    type V = RequestView;

    closed spec fn view(&self) -> RequestView {
        RequestView {
            method: self.method,
            path: self.path@,
            version: self.version@,
            headers: headers_view(self.headers@),
            body: self.body@,
        }
    }
}

/// A response: built once, written once.
#[derive(Debug)]
pub struct Response {
    pub status: u16,
    pub headers: Vec<Header>,
    pub body: Vec<u8>,
}

pub struct ResponseView {
    pub status: u16,
    pub headers: Seq<(Seq<u8>, Seq<u8>)>,
    pub body: Seq<u8>,
}

impl View for Response {
    type V = ResponseView;

    open spec fn view(&self) -> ResponseView {
        ResponseView {
            status: self.status,
            headers: headers_view(self.headers@),
            body: self.body@,
        }
    }
}

/// The method that a token of the request line names. Names are matched in
/// upper case only.
pub open spec fn method_of(token: Seq<u8>) -> Method {
    if token == "GET".spec_bytes() {
        Method::Get
    } else if token == "HEAD".spec_bytes() {
        Method::Head
    } else if token == "POST".spec_bytes() {
        Method::Post
    } else if token == "PUT".spec_bytes() {
        Method::Put
    } else if token == "DELETE".spec_bytes() {
        Method::Delete
    } else if token == "CONNECT".spec_bytes() {
        Method::Connect
    } else if token == "OPTIONS".spec_bytes() {
        Method::Options
    } else if token == "TRACE".spec_bytes() {
        Method::Trace
    } else if token == "PATCH".spec_bytes() {
        Method::Patch
    } else {
        Method::Other
    }
}

impl Method {
    /// The method that `token` names.
    pub fn from_token(token: &[u8]) -> (m: Method)
        ensures
            m == method_of(token@),
    {
        if equal(token, "GET".as_bytes()) {
            Method::Get
        } else if equal(token, "HEAD".as_bytes()) {
            Method::Head
        } else if equal(token, "POST".as_bytes()) {
            Method::Post
        } else if equal(token, "PUT".as_bytes()) {
            Method::Put
        } else if equal(token, "DELETE".as_bytes()) {
            Method::Delete
        } else if equal(token, "CONNECT".as_bytes()) {
            Method::Connect
        } else if equal(token, "OPTIONS".as_bytes()) {
            Method::Options
        } else if equal(token, "TRACE".as_bytes()) {
            Method::Trace
        } else if equal(token, "PATCH".as_bytes()) {
            Method::Patch
        } else {
            Method::Other
        }
    }
}

/// The value of the first header whose name is `name`, letter case aside.
pub open spec fn lookup(headers: Seq<(Seq<u8>, Seq<u8>)>, name: Seq<u8>) -> Option<Seq<u8>>
    decreases headers.len(),
{
    if headers.len() == 0 {
        None
    } else if same_ignoring_case(headers[0].0, name) {
        Some(headers[0].1)
    } else {
        lookup(headers.skip(1), name)
    }
}

/// Finds the value of the first header named `name`, letter case aside.
pub fn find_header<'a>(headers: &'a Vec<Header>, name: &[u8]) -> (r: Option<&'a Vec<u8>>)
    ensures
        match r {
            Some(v) => lookup(headers_view(headers@), name@) == Some(v@),
            None => lookup(headers_view(headers@), name@) is None,
        },
{
    let ghost all = headers_view(headers@);
    let mut i: usize = 0;
    assert(all.skip(0) =~= all);
    while i < headers.len()
        invariant
            i <= headers.len(),
            all == headers_view(headers@),
            lookup(all, name@) == lookup(all.skip(i as int), name@),
        decreases headers.len() - i,
    {
        assert(all.skip(i as int).skip(1) =~= all.skip(i + 1));
        if equal_ignoring_case(headers[i].name.as_slice(), name) {
            return Some(&headers[i].value);
        }
        i += 1;
    }
    None
}

impl Request {
    /// The request with these parts.
    pub fn new(
        method: Method,
        path: Vec<u8>,
        version: Vec<u8>,
        headers: Vec<Header>,
        body: Vec<u8>,
    ) -> (r: Request)
        ensures
            r@ == (RequestView {
                method,
                path: path@,
                version: version@,
                headers: headers_view(headers@),
                body: body@,
            }),
    {
        Request { method, path, version, headers, body }
    }

    pub fn method(&self) -> (m: Method)
        ensures
            m == self@.method,
    {
        self.method
    }

    pub fn path(&self) -> (p: &[u8])
        ensures
            p@ == self@.path,
    {
        self.path.as_slice()
    }

    /// The protocol version as the request line gave it; empty where it gave
    /// none.
    pub fn version(&self) -> (v: &[u8])
        ensures
            v@ == self@.version,
    {
        self.version.as_slice()
    }

    /// The headers in the order of their arrival.
    pub fn headers(&self) -> (h: &Vec<Header>)
        ensures
            headers_view(h@) == self@.headers,
    {
        &self.headers
    }

    pub fn body(&self) -> (b: &[u8])
        ensures
            b@ == self@.body,
    {
        self.body.as_slice()
    }

    /// The value of the first header named `name`, letter case aside.
    pub fn header(&self, name: &[u8]) -> (r: Option<&Vec<u8>>)
        ensures
            match r {
                Some(v) => lookup(self@.headers, name@) == Some(v@),
                None => lookup(self@.headers, name@) is None,
            },
    {
        find_header(&self.headers, name)
    }
}

/// The reason phrase that goes with a status code on the status line.
pub open spec fn reason_of(status: u16) -> Seq<u8> {
    if status == 200 {
        "OK".spec_bytes()
    } else if status == 201 {
        "Created".spec_bytes()
    } else if status == 204 {
        "No Content".spec_bytes()
    } else if status == 400 {
        "Bad Request".spec_bytes()
    } else if status == 404 {
        "Not Found".spec_bytes()
    } else if status == 405 {
        "Method Not Allowed".spec_bytes()
    } else if status == 408 {
        "Request Timeout".spec_bytes()
    } else if status == 500 {
        "Internal Server Error".spec_bytes()
    } else if status == 503 {
        "Service Unavailable".spec_bytes()
    } else {
        "Unknown".spec_bytes()
    }
}

/// The reason phrase that goes with a status code.
pub fn reason_phrase(status: u16) -> (r: &'static [u8])
    ensures
        r@ == reason_of(status),
{
    if status == 200 {
        "OK".as_bytes()
    } else if status == 201 {
        "Created".as_bytes()
    } else if status == 204 {
        "No Content".as_bytes()
    } else if status == 400 {
        "Bad Request".as_bytes()
    } else if status == 404 {
        "Not Found".as_bytes()
    } else if status == 405 {
        "Method Not Allowed".as_bytes()
    } else if status == 408 {
        "Request Timeout".as_bytes()
    } else if status == 500 {
        "Internal Server Error".as_bytes()
    } else if status == 503 {
        "Service Unavailable".as_bytes()
    } else {
        "Unknown".as_bytes()
    }
}

/// The response with this status and body whose one header is the content
/// type.
pub open spec fn typed_response(status: u16, content_type: Seq<u8>, body: Seq<u8>) -> ResponseView {
    ResponseView {
        status,
        headers: seq![("Content-Type".spec_bytes(), content_type)],
        body,
    }
}

impl Response {
    /// A response with a status, a content type and a body.
    pub fn new(status: u16, content_type: &[u8], body: Vec<u8>) -> (r: Response)
        ensures
            r@ == typed_response(status, content_type@, body@),
    {
        let mut headers: Vec<Header> = Vec::new();
        headers.push(Header { name: copy("Content-Type".as_bytes()), value: copy(content_type) });
        let r = Response { status, headers, body };
        assert(r@.headers =~= seq![("Content-Type".spec_bytes(), content_type@)]);
        r
    }

    /// The value of the first header named `name`, letter case aside.
    pub fn header(&self, name: &[u8]) -> (r: Option<&Vec<u8>>)
        ensures
            match r {
                Some(v) => lookup(self@.headers, name@) == Some(v@),
                None => lookup(self@.headers, name@) is None,
            },
    {
        find_header(&self.headers, name)
    }
}

pub open spec fn crlf() -> Seq<u8> {
    seq![0x0du8, 0x0au8]
}

/// `VERSION SP STATUS SP REASON CRLF`.
pub open spec fn status_line(status: u16) -> Seq<u8> {
    "HTTP/1.1 ".spec_bytes() + decimal(status as nat) + seq![0x20u8] + reason_of(status) + crlf()
}

/// `Name: Value CRLF`.
pub open spec fn header_line(header: (Seq<u8>, Seq<u8>)) -> Seq<u8> {
    header.0 + ": ".spec_bytes() + header.1 + crlf()
}

/// The header lines of a message, one after the other.
pub open spec fn header_block(headers: Seq<(Seq<u8>, Seq<u8>)>) -> Seq<u8>
    decreases headers.len(),
{
    if headers.len() == 0 {
        Seq::empty()
    } else {
        header_block(headers.drop_last()) + header_line(headers.last())
    }
}

/// The bytes of a response on the wire: the status line, the response's
/// headers in their order, a `Content-Length` header that gives the length of
/// the body, an empty line, and the body.
pub open spec fn encoded(r: ResponseView) -> Seq<u8> {
    status_line(r.status) + header_block(r.headers) + header_line(
        ("Content-Length".spec_bytes(), decimal(r.body.len())),
    ) + crlf() + r.body
}

fn push_crlf(out: &mut Vec<u8>)
    ensures
        final(out)@ == old(out)@ + crlf(),
{
    out.push(0x0d);
    out.push(0x0a);
}

/// Writes a response as the bytes that go on the wire.
pub fn encode(r: &Response) -> (out: Vec<u8>)
    ensures
        out@ == encoded(r@),
{
    let mut out: Vec<u8> = Vec::new();
    append(&mut out, "HTTP/1.1 ".as_bytes());
    push_decimal(&mut out, r.status as u64);
    out.push(0x20);
    append(&mut out, reason_phrase(r.status));
    push_crlf(&mut out);
    let ghost all = headers_view(r.headers@);
    let mut i: usize = 0;
    while i < r.headers.len()
        invariant
            i <= r.headers.len(),
            all == headers_view(r.headers@),
            out@ == status_line(r.status) + header_block(all.take(i as int)),
        decreases r.headers.len() - i,
    {
        append(&mut out, r.headers[i].name.as_slice());
        append(&mut out, ": ".as_bytes());
        append(&mut out, r.headers[i].value.as_slice());
        push_crlf(&mut out);
        assert(all.take(i + 1).drop_last() =~= all.take(i as int));
        i += 1;
    }
    assert(all.take(i as int) =~= all);
    let ghost before = out@;
    append(&mut out, "Content-Length".as_bytes());
    append(&mut out, ": ".as_bytes());
    push_decimal(&mut out, r.body.len() as u64);
    push_crlf(&mut out);
    assert(out@ =~= before + header_line(
        ("Content-Length".spec_bytes(), decimal(r.body@.len())),
    ));
    push_crlf(&mut out);
    append(&mut out, r.body.as_slice());
    out
}

} // verus!
