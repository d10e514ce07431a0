//! The wire parser: from the bytes of one read to a request.

use crate::bytes::{copy, find, first_occurrence, is_prefix, lemma_first_occurrence};
use crate::http::{
    find_header, headers_view, lookup, method_of, Header, Method, Request, RequestView,
};
use crate::number::{parse_unsigned, unsigned_of};
use vstd::prelude::*;
use vstd::slice::slice_subrange;
use vstd::string::StringSliceAdditionalSpecFns;

verus! {

/// Why a buffer holds no request.
#[derive(Clone, Copy, Debug, PartialEq, Eq, Structural)]
pub enum ParseError {
    /// The request line holds no token at all.
    EmptyRequestLine,
    /// The request line holds a method and nothing after it.
    MissingTarget,
}

/// ASCII whitespace: space, tab, line feed, form feed, carriage return.
pub open spec fn is_space(b: u8) -> bool {
    b == 0x20 || b == 0x09 || b == 0x0a || b == 0x0c || b == 0x0d
}

pub open spec fn line_break() -> Seq<u8> {
    seq![0x0du8, 0x0au8]
}

/// The empty line that ends the header block: CRLF CRLF.
pub open spec fn blank_line() -> Seq<u8> {
    seq![0x0du8, 0x0au8, 0x0du8, 0x0au8]
}

pub open spec fn colon() -> Seq<u8> {
    seq![0x3au8]
}

/// How many bytes of whitespace `s` begins with.
pub open spec fn leading_spaces(s: Seq<u8>) -> nat
    decreases s.len(),
{
    if s.len() > 0 && is_space(s[0]) {
        1 + leading_spaces(s.skip(1))
    } else {
        0
    }
}

/// How many bytes other than whitespace `s` begins with.
pub open spec fn leading_token(s: Seq<u8>) -> nat
    decreases s.len(),
{
    if s.len() > 0 && !is_space(s[0]) {
        1 + leading_token(s.skip(1))
    } else {
        0
    }
}

/// How many bytes of whitespace `s` ends with.
pub open spec fn trailing_spaces(s: Seq<u8>) -> nat
    decreases s.len(),
{
    if s.len() > 0 && is_space(s.last()) {
        1 + trailing_spaces(s.drop_last())
    } else {
        0
    }
}

/// `s` without the whitespace at its two ends.
pub open spec fn trimmed(s: Seq<u8>) -> Seq<u8> {
    let t = s.skip(leading_spaces(s) as int);
    t.take(t.len() - trailing_spaces(t))
}

/// The first run of bytes other than whitespace in `s`; empty where there is
/// none.
pub open spec fn first_token(s: Seq<u8>) -> Seq<u8> {
    let t = s.skip(leading_spaces(s) as int);
    t.take(leading_token(t) as int)
}

/// What follows the first token of `s`.
pub open spec fn after_first_token(s: Seq<u8>) -> Seq<u8> {
    let t = s.skip(leading_spaces(s) as int);
    t.skip(leading_token(t) as int)
}

/// `s` up to its first line break, or all of it where it has none.
pub open spec fn first_line(s: Seq<u8>) -> Seq<u8> {
    match first_occurrence(s, line_break()) {
        Some(i) => s.take(i),
        None => s,
    }
}

/// What follows the first line break of `s`, where it has one.
pub open spec fn after_first_line(s: Seq<u8>) -> Option<Seq<u8>> {
    match first_occurrence(s, line_break()) {
        Some(i) => Some(s.skip(i + 2)),
        None => None,
    }
}

/// The header that a line states: the name before its first colon and the
/// value after it, both trimmed. A line without a colon states none.
pub open spec fn header_of(line: Seq<u8>) -> Option<(Seq<u8>, Seq<u8>)> {
    match first_occurrence(line, colon()) {
        Some(i) => Some((trimmed(line.take(i)), trimmed(line.skip(i + 1)))),
        None => None,
    }
}

/// The headers that the lines of `block` state, in their order.
pub open spec fn headers_of(block: Seq<u8>) -> Seq<(Seq<u8>, Seq<u8>)>
    decreases block.len(),
{
    let rest = match after_first_line(block) {
        Some(more) => {
            proof {
                lemma_first_occurrence(block, line_break());
            }
            headers_of(more)
        },
        None => Seq::empty(),
    };
    match header_of(first_line(block)) {
        Some(h) => seq![h] + rest,
        None => rest,
    }
}

pub open spec fn headers_of_rest(block: Option<Seq<u8>>) -> Seq<(Seq<u8>, Seq<u8>)> {
    match block {
        Some(b) => headers_of(b),
        None => Seq::empty(),
    }
}

/// The part of the buffer before the blank line; all of it where there is no
/// blank line.
pub open spec fn head_of(buf: Seq<u8>) -> Seq<u8> {
    match first_occurrence(buf, blank_line()) {
        Some(i) => buf.take(i),
        None => buf,
    }
}

/// The part of the buffer after the blank line; empty where there is no blank
/// line.
pub open spec fn rest_of(buf: Seq<u8>) -> Seq<u8> {
    match first_occurrence(buf, blank_line()) {
        Some(i) => buf.skip(i + 4),
        None => Seq::empty(),
    }
}

/// The body: of what was read after the blank line, as many bytes as
/// `Content-Length` gives, where that header is there and is a numeral; else
/// all of it.
pub open spec fn body_of(headers: Seq<(Seq<u8>, Seq<u8>)>, rest: Seq<u8>) -> Seq<u8> {
    match lookup(headers, "Content-Length".spec_bytes()) {
        Some(v) => match unsigned_of(v, u64::MAX as nat) {
            Some(n) => if n < rest.len() {
                rest.take(n as int)
            } else {
                rest
            },
            None => rest,
        },
        None => rest,
    }
}

/// What a buffer holds: the request, or the reason why it holds none.
pub open spec fn parsed(buf: Seq<u8>) -> Result<RequestView, ParseError> {
    let head = head_of(buf);
    let line = first_line(head);
    let method = first_token(line);
    let target = first_token(after_first_token(line));
    let version = first_token(after_first_token(after_first_token(line)));
    let headers = headers_of_rest(after_first_line(head));
    if method.len() == 0 {
        Err(ParseError::EmptyRequestLine)
    } else if target.len() == 0 {
        Err(ParseError::MissingTarget)
    } else {
        Ok(
            RequestView {
                method: method_of(method),
                path: target,
                version,
                headers,
                body: body_of(headers, rest_of(buf)),
            },
        )
    }
}

pub fn is_space_byte(b: u8) -> (r: bool)
    ensures
        r == is_space(b),
{
    b == 0x20 || b == 0x09 || b == 0x0a || b == 0x0c || b == 0x0d
}

fn count_leading_spaces(s: &[u8]) -> (n: usize)
    ensures
        n == leading_spaces(s@),
        n <= s.len(),
{
    let mut i: usize = 0;
    assert(s@.skip(0) =~= s@);
    while i < s.len()
        invariant
            i <= s.len(),
            leading_spaces(s@) == i + leading_spaces(s@.skip(i as int)),
        decreases s.len() - i,
    {
        if !is_space_byte(s[i]) {
            return i;
        }
        assert(s@.skip(i as int).skip(1) =~= s@.skip(i + 1));
        i += 1;
    }
    i
}

fn count_leading_token(s: &[u8]) -> (n: usize)
    ensures
        n == leading_token(s@),
        n <= s.len(),
{
    let mut i: usize = 0;
    assert(s@.skip(0) =~= s@);
    while i < s.len()
        invariant
            i <= s.len(),
            leading_token(s@) == i + leading_token(s@.skip(i as int)),
        decreases s.len() - i,
    {
        if is_space_byte(s[i]) {
            return i;
        }
        assert(s@.skip(i as int).skip(1) =~= s@.skip(i + 1));
        i += 1;
    }
    i
}

fn count_trailing_spaces(s: &[u8]) -> (n: usize)
    ensures
        n == trailing_spaces(s@),
        n <= s.len(),
{
    let mut k: usize = s.len();
    assert(s@.take(k as int) =~= s@);
    while k > 0
        invariant
            k <= s.len(),
            trailing_spaces(s@) == (s.len() - k) + trailing_spaces(s@.take(k as int)),
        decreases k,
    {
        if !is_space_byte(s[k - 1]) {
            return s.len() - k;
        }
        assert(s@.take(k as int).drop_last() =~= s@.take(k - 1));
        k -= 1;
    }
    s.len()
}

/// `s` without the whitespace at its two ends.
pub fn trim(s: &[u8]) -> (t: &[u8])
    ensures
        t@ == trimmed(s@),
{
    let a: usize = count_leading_spaces(s);
    let inner = slice_subrange(s, a, s.len());
    let z: usize = count_trailing_spaces(inner);
    let t = slice_subrange(inner, 0, inner.len() - z);
    t
}

/// Splits `s` into its first token and what follows the token.
pub fn split_token(s: &[u8]) -> (r: (&[u8], &[u8]))
    ensures
        r.0@ == first_token(s@),
        r.1@ == after_first_token(s@),
{
    let a: usize = count_leading_spaces(s);
    let inner = slice_subrange(s, a, s.len());
    let n: usize = count_leading_token(inner);
    let token = slice_subrange(inner, 0, n);
    let after = slice_subrange(inner, n, inner.len());
    (token, after)
}

/// Splits `s` at its first line break.
pub fn split_line(s: &[u8]) -> (r: (&[u8], Option<&[u8]>))
    ensures
        r.0@ == first_line(s@),
        match r.1 {
            Some(more) => after_first_line(s@) == Some(more@) && more@.len() < s@.len(),
            None => after_first_line(s@) is None,
        },
{
    let pattern: [u8; 2] = [0x0d, 0x0a];
    let pattern = pattern.as_slice();
    match find(s, pattern) {
        Some(i) => {
            let line = slice_subrange(s, 0, i);
            let end: usize = s.len();
            let more = slice_subrange(s, i + 2, end);
            (line, Some(more))
        },
        None => (s, None),
    }
}

/// Reads one header line.
pub fn parse_header(line: &[u8]) -> (r: Option<Header>)
    ensures
        match r {
            Some(h) => header_of(line@) == Some(h@),
            None => header_of(line@) is None,
        },
{
    let pattern: [u8; 1] = [0x3a];
    let pattern = pattern.as_slice();
    assert(pattern@ =~= colon());
    match find(line, pattern) {
        Some(i) => {
            let name = slice_subrange(line, 0, i);
            let end: usize = line.len();
            let value = slice_subrange(line, i + 1, end);
            Some(Header { name: copy(trim(name)), value: copy(trim(value)) })
        },
        None => None,
    }
}

/// Reads the header lines of a block.
pub fn parse_headers(block: Option<&[u8]>) -> (headers: Vec<Header>)
    ensures
        headers_view(headers@) == headers_of_rest(
            match block {
                Some(b) => Some(b@),
                None => None,
            },
        ),
{
    let mut headers: Vec<Header> = Vec::new();
    let mut cur: Option<&[u8]> = block;
    let ghost all = headers_of_rest(
        match block {
            Some(b) => Some(b@),
            None => None,
        },
    );
    loop
        invariant
            all == headers_of_rest(
                match block {
                    Some(b) => Some(b@),
                    None => None,
                },
            ),
            all == headers_view(headers@) + headers_of_rest(
                match cur {
                    Some(b) => Some(b@),
                    None => None,
                },
            ),
        decreases
                match cur {
                    Some(b) => b@.len() + 1,
                    None => 0,
                },
    {
        match cur {
            None => {
                return headers;
            },
            Some(b) => {
                let (line, more) = split_line(b);
                match parse_header(line) {
                    Some(h) => headers.push(h),
                    None => {},
                }
                assert(all =~= headers_view(headers@) + headers_of_rest(
                    match more {
                        Some(m) => Some(m@),
                        None => None,
                    },
                ));
                cur = more;
            },
        }
    }
}

/// Parses the bytes of one read as a request.
///
/// The header block ends at the first blank line; where the buffer has none,
/// all of it is the header block and the body is empty. The first line gives
/// method, path and version, split at whitespace; the version is kept as it
/// stands. Lines that follow state headers. A request line with fewer than two
/// tokens is the one error.
pub fn parse_request(buf: &[u8]) -> (r: Result<Request, ParseError>)
    ensures
        match r {
            Ok(req) => parsed(buf@) == Ok::<RequestView, ParseError>(req@),
            Err(e) => parsed(buf@) == Err::<RequestView, ParseError>(e),
        },
{
    let pattern: [u8; 4] = [0x0d, 0x0a, 0x0d, 0x0a];
    let pattern = pattern.as_slice();
    let (head, rest): (&[u8], &[u8]) = match find(buf, pattern) {
        Some(i) => {
            let head = slice_subrange(buf, 0, i);
            let end: usize = buf.len();
            let rest = slice_subrange(buf, i + 4, end);
            (head, rest)
        },
        None => {
            let rest = slice_subrange(buf, 0, 0);
            assert(rest@ =~= Seq::empty());
            (buf, rest)
        },
    };
    let (line, block) = split_line(head);
    let (method, after_method) = split_token(line);
    if method.len() == 0 {
        return Err(ParseError::EmptyRequestLine);
    }
    let (target, after_target) = split_token(after_method);
    if target.len() == 0 {
        return Err(ParseError::MissingTarget);
    }
    let (version, _) = split_token(after_target);
    let headers = parse_headers(block);
    let body: &[u8] = match find_header(&headers, "Content-Length".as_bytes()) {
        Some(v) => match parse_unsigned(v.as_slice(), u64::MAX) {
            Some(n) => if n < rest.len() as u64 {
                let cut = slice_subrange(rest, 0, n as usize);
                cut
            } else {
                rest
            },
            None => rest,
        },
        None => rest,
    };
    Ok(Request::new(Method::from_token(method), copy(target), copy(version), headers, copy(body)))
}

/// The body of a request is an initial part of what was read after the blank
/// line: nothing beyond the buffer is waited for. It is empty where the
/// buffer has no blank line. It is shorter than what was read only where
/// `Content-Length` holds a numeral, and then it is as long as the numeral
/// says.
pub proof fn law_body_within_buffer(buf: Seq<u8>)
    requires
        parsed(buf) is Ok,
    ensures
        is_prefix(parsed(buf)->Ok_0.body, rest_of(buf)),
        first_occurrence(buf, blank_line()) is None ==> parsed(buf)->Ok_0.body.len() == 0,
        parsed(buf)->Ok_0.body.len() < rest_of(buf).len() ==> (lookup(
            parsed(buf)->Ok_0.headers,
            "Content-Length".spec_bytes(),
        ) matches Some(v) && unsigned_of(v, u64::MAX as nat) == Some(
            parsed(buf)->Ok_0.body.len(),
        )),
{
    let rest = rest_of(buf);
    assert(rest.subrange(0, rest.len() as int) =~= rest);
}

/// A buffer holds a request exactly where its request line has two tokens.
pub proof fn law_malformed_iff_fewer_than_two_tokens(buf: Seq<u8>)
    ensures
        parsed(buf) is Ok <==> first_token(first_line(head_of(buf))).len() > 0 && first_token(
            after_first_token(first_line(head_of(buf))),
        ).len() > 0,
{
}

} // verus!
