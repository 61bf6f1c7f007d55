//! HTTP/1.1 request-line parsing and response assembly.
//!
//! Everything works on bytes: the surrounding binary reads the request line
//! from the socket and hands it in as `&[u8]`, and gets the response back as
//! a byte vector ready to write. All parsing decisions are specified over
//! `Seq<u8>` and proved exact.

use vstd::prelude::*;
use vstd::string::StringSliceAdditionalSpecFns;

verus! {

/// The HTTP request methods.
#[derive(Clone, Copy, Debug, PartialEq, Eq, Structural)]
pub enum RequestType {
    GET,
    HEAD,
    POST,
    PUT,
    DELETE,
    CONNECT,
    OPTIONS,
    TRACE,
    PATCH,
}

/// The ASCII bytes of a method's name.
pub open spec fn method_bytes(m: RequestType) -> Seq<u8> {
    match m {
        RequestType::GET => seq![71u8, 69u8, 84u8],
        RequestType::HEAD => seq![72u8, 69u8, 65u8, 68u8],
        RequestType::POST => seq![80u8, 79u8, 83u8, 84u8],
        RequestType::PUT => seq![80u8, 85u8, 84u8],
        RequestType::DELETE => seq![68u8, 69u8, 76u8, 69u8, 84u8, 69u8],
        RequestType::CONNECT => seq![67u8, 79u8, 78u8, 78u8, 69u8, 67u8, 84u8],
        RequestType::OPTIONS => seq![79u8, 80u8, 84u8, 73u8, 79u8, 78u8, 83u8],
        RequestType::TRACE => seq![84u8, 82u8, 65u8, 67u8, 69u8],
        RequestType::PATCH => seq![80u8, 65u8, 84u8, 67u8, 72u8],
    }
}

/// What parsing a method name yields: the unique method whose name the bytes
/// spell, or an error.
pub open spec fn parse_method(b: Seq<u8>) -> Result<RequestType, ()> {
    if b == method_bytes(RequestType::GET) {
        Ok(RequestType::GET)
    } else if b == method_bytes(RequestType::HEAD) {
        Ok(RequestType::HEAD)
    } else if b == method_bytes(RequestType::POST) {
        Ok(RequestType::POST)
    } else if b == method_bytes(RequestType::PUT) {
        Ok(RequestType::PUT)
    } else if b == method_bytes(RequestType::DELETE) {
        Ok(RequestType::DELETE)
    } else if b == method_bytes(RequestType::CONNECT) {
        Ok(RequestType::CONNECT)
    } else if b == method_bytes(RequestType::OPTIONS) {
        Ok(RequestType::OPTIONS)
    } else if b == method_bytes(RequestType::TRACE) {
        Ok(RequestType::TRACE)
    } else if b == method_bytes(RequestType::PATCH) {
        Ok(RequestType::PATCH)
    } else {
        Err(())
    }
}

/// Byte-for-byte slice equality.
fn bytes_eq(a: &[u8], b: &[u8]) -> (r: bool)
    ensures
        r == (a@ == b@),
{
    if a.len() != b.len() {
        return false;
    }
    let mut i: usize = 0;
    while i < a.len()
        invariant
            i <= a@.len(),
            a@.len() == b@.len(),
            forall|j: int| 0 <= j < i ==> a@[j] == b@[j],
        decreases a@.len() - i,
    {
        if a[i] != b[i] {
            return false;
        }
        i = i + 1;
    }
    proof {
        assert(a@ =~= b@);
    }
    true
}

/// The name of `m`, as the bytes `method_bytes(m)`.
fn method_name(m: RequestType) -> (v: Vec<u8>)
    ensures
        v@ == method_bytes(m),
{
    let v: Vec<u8> = match m {
        RequestType::GET => vec![71u8, 69u8, 84u8],
        RequestType::HEAD => vec![72u8, 69u8, 65u8, 68u8],
        RequestType::POST => vec![80u8, 79u8, 83u8, 84u8],
        RequestType::PUT => vec![80u8, 85u8, 84u8],
        RequestType::DELETE => vec![68u8, 69u8, 76u8, 69u8, 84u8, 69u8],
        RequestType::CONNECT => vec![67u8, 79u8, 78u8, 78u8, 69u8, 67u8, 84u8],
        RequestType::OPTIONS => vec![79u8, 80u8, 84u8, 73u8, 79u8, 78u8, 83u8],
        RequestType::TRACE => vec![84u8, 82u8, 65u8, 67u8, 69u8],
        RequestType::PATCH => vec![80u8, 65u8, 84u8, 67u8, 72u8],
    };
    proof {
        assert(v@ =~= method_bytes(m));
    }
    v
}

impl RequestType {
    /// Parse a method name given as bytes.
    pub fn from_bytes(b: &[u8]) -> (r: Result<RequestType, ()>)
        ensures
            r == parse_method(b@),
    {
        if bytes_eq(b, method_name(RequestType::GET).as_slice()) {
            Ok(RequestType::GET)
        } else if bytes_eq(b, method_name(RequestType::HEAD).as_slice()) {
            Ok(RequestType::HEAD)
        } else if bytes_eq(b, method_name(RequestType::POST).as_slice()) {
            Ok(RequestType::POST)
        } else if bytes_eq(b, method_name(RequestType::PUT).as_slice()) {
            Ok(RequestType::PUT)
        } else if bytes_eq(b, method_name(RequestType::DELETE).as_slice()) {
            Ok(RequestType::DELETE)
        } else if bytes_eq(b, method_name(RequestType::CONNECT).as_slice()) {
            Ok(RequestType::CONNECT)
        } else if bytes_eq(b, method_name(RequestType::OPTIONS).as_slice()) {
            Ok(RequestType::OPTIONS)
        } else if bytes_eq(b, method_name(RequestType::TRACE).as_slice()) {
            Ok(RequestType::TRACE)
        } else if bytes_eq(b, method_name(RequestType::PATCH).as_slice()) {
            Ok(RequestType::PATCH)
        } else {
            Err(())
        }
    }

    /// Parse a method name given as a string slice.
    pub fn from_str(s: &str) -> (r: Result<RequestType, ()>)
        ensures
            r == parse_method(s.spec_bytes()),
    {
        RequestType::from_bytes(s.as_bytes())
    }
}

/// Why a request line was rejected, one variant per check the parser makes.
#[derive(Clone, Copy, Debug, PartialEq, Eq, Structural)]
pub enum RequestError {
    /// The line does not consist of exactly three space-separated fields.
    BadRequestLine,
    /// The third field is not `HTTP/1.1`.
    UnsupportedVersion,
    /// The first field is not a known method name.
    InvalidMethod,
}

/// A parsed request line: the method and the path exactly as sent.
#[derive(Debug)]
pub struct Request {
    pub method: RequestType,
    pub path: Vec<u8>,
}

/// The ASCII bytes of `HTTP/1.1`.
pub open spec fn http11_bytes() -> Seq<u8> {
    seq![72u8, 84u8, 84u8, 80u8, 47u8, 49u8, 46u8, 49u8]
}

/// The index of the first space in `line` at or after `from`, or `line.len()`
/// if there is none.
pub open spec fn find_space(line: Seq<u8>, from: int) -> int
    decreases line.len() - from,
{
    if from < 0 || from >= line.len() {
        line.len() as int
    } else if line[from] == 32u8 {
        from
    } else {
        find_space(line, from + 1)
    }
}

/// What parsing a request line yields. The line must hold exactly two
/// spaces, splitting it into method, path and version; the version must be
/// `HTTP/1.1`; the method must parse. Errors are reported in that order.
pub open spec fn parse_line(line: Seq<u8>) -> Result<(RequestType, Seq<u8>), RequestError> {
    let i = find_space(line, 0);
    let j = find_space(line, i + 1);
    let k = find_space(line, j + 1);
    if i == line.len() || j == line.len() || k != line.len() {
        Err(RequestError::BadRequestLine)
    } else if line.subrange(j + 1, line.len() as int) != http11_bytes() {
        Err(RequestError::UnsupportedVersion)
    } else {
        match parse_method(line.subrange(0, i)) {
            Ok(m) => Ok((m, line.subrange(i + 1, j))),
            Err(_) => Err(RequestError::InvalidMethod),
        }
    }
}

/// The index of the first space in `line` at or after `from`, or `line.len()`.
fn find_space_from(line: &[u8], from: usize) -> (r: usize)
    requires
        from <= line@.len(),
    ensures
        r == find_space(line@, from as int),
        from <= r <= line@.len(),
{
    let mut i: usize = from;
    while i < line.len()
        invariant
            from <= i <= line@.len(),
            find_space(line@, from as int) == find_space(line@, i as int),
        decreases line@.len() - i,
    {
        if line[i] == 32u8 {
            return i;
        }
        i = i + 1;
    }
    i
}

/// Parse a request line into method and path.
pub fn parse_request_line(line: &[u8]) -> (r: Result<Request, RequestError>)
    ensures
        match r {
            Ok(req) => parse_line(line@) == Ok::<_, RequestError>((req.method, req.path@)),
            Err(e) => parse_line(line@) == Err::<(RequestType, Seq<u8>), _>(e),
        },
{
    let n = line.len();
    let i = find_space_from(line, 0);
    if i == n {
        return Err(RequestError::BadRequestLine);
    }
    let j = find_space_from(line, i + 1);
    if j == n {
        return Err(RequestError::BadRequestLine);
    }
    let k = find_space_from(line, j + 1);
    if k != n {
        return Err(RequestError::BadRequestLine);
    }
    let version = vstd::slice::slice_subrange(line, j + 1, n);
    let http11: Vec<u8> = vec![72u8, 84u8, 84u8, 80u8, 47u8, 49u8, 46u8, 49u8];
    proof {
        assert(http11@ =~= http11_bytes());
    }
    if !bytes_eq(version, http11.as_slice()) {
        return Err(RequestError::UnsupportedVersion);
    }
    let method_field = vstd::slice::slice_subrange(line, 0, i);
    match RequestType::from_bytes(method_field) {
        Ok(m) => {
            let path = vstd::slice::slice_to_vec(vstd::slice::slice_subrange(line, i + 1, j));
            Ok(Request { method: m, path })
        },
        Err(_) => Err(RequestError::InvalidMethod),
    }
}

/// Whether the responder serves this method: only `GET` and `HEAD` are.
pub fn method_supported(m: RequestType) -> (b: bool)
    ensures
        b == (m == RequestType::GET || m == RequestType::HEAD),
{
    match m {
        RequestType::GET => true,
        RequestType::HEAD => true,
        _ => false,
    }
}

/// The ASCII bytes of the web root prefix `./web`.
pub open spec fn web_root_bytes() -> Seq<u8> {
    seq![46u8, 47u8, 119u8, 101u8, 98u8]
}

/// The ASCII bytes of the default page `/hello.html`.
pub open spec fn default_page_bytes() -> Seq<u8> {
    seq![47u8, 104u8, 101u8, 108u8, 108u8, 111u8, 46u8, 104u8, 116u8, 109u8, 108u8]
}

/// Where a request path points on disk: `/` is routed to the default page,
/// and every path is rooted under the web root.
pub open spec fn resolved_path(path: Seq<u8>) -> Seq<u8> {
    if path == seq![47u8] {
        web_root_bytes() + default_page_bytes()
    } else {
        web_root_bytes() + path
    }
}

/// Turn a request path into the file path to serve.
pub fn resolve_path(path: &[u8]) -> (r: Vec<u8>)
    ensures
        r@ == resolved_path(path@),
{
    let mut r: Vec<u8> = vec![46u8, 47u8, 119u8, 101u8, 98u8];
    proof {
        assert(r@ =~= web_root_bytes());
    }
    let slash: Vec<u8> = vec![47u8];
    proof {
        assert(slash@ =~= seq![47u8]);
    }
    if bytes_eq(path, slash.as_slice()) {
        let mut page: Vec<u8> = vec![
            47u8, 104u8, 101u8, 108u8, 108u8, 111u8, 46u8, 104u8, 116u8, 109u8, 108u8,
        ];
        proof {
            assert(page@ =~= default_page_bytes());
        }
        r.append(&mut page);
    } else {
        let mut copy = vstd::slice::slice_to_vec(path);
        r.append(&mut copy);
    }
    r
}

/// The ASCII bytes of the status line for a found or missing file.
pub open spec fn status_line_bytes(found: bool) -> Seq<u8> {
    if found {
        // HTTP/1.1 200 OK
        seq![72u8, 84u8, 84u8, 80u8, 47u8, 49u8, 46u8, 49u8, 32u8, 50u8, 48u8, 48u8, 32u8, 79u8, 75u8]
    } else {
        // HTTP/1.1 404 NOT FOUND
        seq![
            72u8, 84u8, 84u8, 80u8, 47u8, 49u8, 46u8, 49u8, 32u8, 52u8, 48u8, 52u8, 32u8, 78u8,
            79u8, 84u8, 32u8, 70u8, 79u8, 85u8, 78u8, 68u8,
        ]
    }
}

/// The status line to send, depending on whether the file was found.
pub fn status_line(found: bool) -> (r: Vec<u8>)
    ensures
        r@ == status_line_bytes(found),
{
    if found {
        let r: Vec<u8> = vec![
            72u8, 84u8, 84u8, 80u8, 47u8, 49u8, 46u8, 49u8, 32u8, 50u8, 48u8, 48u8, 32u8, 79u8,
            75u8,
        ];
        proof {
            assert(r@ =~= status_line_bytes(true));
        }
        r
    } else {
        let r: Vec<u8> = vec![
            72u8, 84u8, 84u8, 80u8, 47u8, 49u8, 46u8, 49u8, 32u8, 52u8, 48u8, 52u8, 32u8, 78u8,
            79u8, 84u8, 32u8, 70u8, 79u8, 85u8, 78u8, 68u8,
        ];
        proof {
            assert(r@ =~= status_line_bytes(false));
        }
        r
    }
}

/// The decimal digits of `n`, as ASCII bytes, most significant first.
pub open spec fn decimal_bytes(n: nat) -> Seq<u8>
    decreases n,
{
    if n < 10 {
        seq![(48 + n) as u8]
    } else {
        decimal_bytes(n / 10).push((48 + n % 10) as u8)
    }
}

/// Render `n` in decimal.
pub fn to_decimal(n: usize) -> (r: Vec<u8>)
    ensures
        r@ == decimal_bytes(n as nat),
    decreases n,
{
    if n < 10 {
        let r: Vec<u8> = vec![48u8 + (n as u8)];
        proof {
            assert(r@ =~= decimal_bytes(n as nat));
        }
        r
    } else {
        let mut r = to_decimal(n / 10);
        r.push(48u8 + ((n % 10) as u8));
        proof {
            assert(r@ =~= decimal_bytes(n as nat));
        }
        r
    }
}

/// The ASCII bytes of carriage return and line feed.
pub open spec fn crlf() -> Seq<u8> {
    seq![13u8, 10u8]
}

/// The ASCII bytes of `Content-Length: `.
pub open spec fn content_length_label() -> Seq<u8> {
    seq![
        67u8, 111u8, 110u8, 116u8, 101u8, 110u8, 116u8, 45u8, 76u8, 101u8, 110u8, 103u8, 116u8,
        104u8, 58u8, 32u8,
    ]
}

/// The full response: status line, a `Content-Length` header giving the byte
/// length of `contents`, a blank line, and — only when a body is wanted —
/// the contents themselves.
pub open spec fn response_bytes(status: Seq<u8>, contents: Seq<u8>, include_body: bool) -> Seq<u8> {
    status + crlf() + content_length_label() + decimal_bytes(contents.len()) + crlf() + crlf() + (
    if include_body {
        contents
    } else {
        Seq::<u8>::empty()
    })
}

/// Assemble the response for `contents` under `status`. A `HEAD` response
/// passes `include_body == false` and gets the headers alone, with the
/// `Content-Length` still describing the file.
pub fn build_response(status: &[u8], contents: &[u8], include_body: bool) -> (r: Vec<u8>)
    ensures
        r@ == response_bytes(status@, contents@, include_body),
{
    let mut r: Vec<u8> = Vec::new();
    r.extend_from_slice(status);
    r.push(13u8);
    r.push(10u8);
    let mut label: Vec<u8> = vec![
        67u8, 111u8, 110u8, 116u8, 101u8, 110u8, 116u8, 45u8, 76u8, 101u8, 110u8, 103u8, 116u8,
        104u8, 58u8, 32u8,
    ];
    proof {
        assert(label@ =~= content_length_label());
    }
    r.append(&mut label);
    let mut digits = to_decimal(contents.len());
    r.append(&mut digits);
    r.push(13u8);
    r.push(10u8);
    r.push(13u8);
    r.push(10u8);
    if include_body {
        r.extend_from_slice(contents);
    }
    proof {
        assert(r@ =~= response_bytes(status@, contents@, include_body));
    }
    r
}

} // verus!
