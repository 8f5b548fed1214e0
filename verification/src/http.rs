//! What the web server does with one connection, as far as it computes: it
//! takes the request line apart, chooses one of two canned replies, and
//! frames the reply for the wire. Reading the line, waiting, reading the
//! page and writing the bytes are left to the caller.

use vstd::prelude::*;
use vstd::slice::slice_subrange;
use vstd::string::StringSliceAdditionalSpecFns;

verus! {

/// The byte that separates the fields of a request line.
pub const SPACE: u8 = 0x20;

/// The request methods that the server knows by name.
#[derive(Clone, Copy, Debug, PartialEq, Eq, Structural)]
pub enum HTTPMethod {
    GET,
    POST,
    PUT,
    DELETE,
}

impl HTTPMethod {
    /// The method with this name. Names are matched exactly, in upper
    /// case.
    pub open spec fn named(name: Seq<char>) -> Result<HTTPMethod, ()> {
        if name == "GET"@ {
            Ok(HTTPMethod::GET)
        } else if name == "POST"@ {
            Ok(HTTPMethod::POST)
        } else if name == "PUT"@ {
            Ok(HTTPMethod::PUT)
        } else if name == "DELETE"@ {
            Ok(HTTPMethod::DELETE)
        } else {
            Err(())
        }
    }

    /// Reads a method from its name.
    pub fn from_str(s: &str) -> (method: Result<HTTPMethod, ()>)
        ensures
            method == Self::named(s@),
    {
        broadcast use vstd::utf8::encode_utf8_decode_utf8;

        let name = s.as_bytes();
        assert(vstd::utf8::decode_utf8(s.spec_bytes()) == s@);
        assert(vstd::utf8::decode_utf8("GET".spec_bytes()) == "GET"@);
        assert(vstd::utf8::decode_utf8("POST".spec_bytes()) == "POST"@);
        assert(vstd::utf8::decode_utf8("PUT".spec_bytes()) == "PUT"@);
        assert(vstd::utf8::decode_utf8("DELETE".spec_bytes()) == "DELETE"@);
        if bytes_eq(name, "GET".as_bytes()) {
            Ok(HTTPMethod::GET)
        } else if bytes_eq(name, "POST".as_bytes()) {
            Ok(HTTPMethod::POST)
        } else if bytes_eq(name, "PUT".as_bytes()) {
            Ok(HTTPMethod::PUT)
        } else if bytes_eq(name, "DELETE".as_bytes()) {
            Ok(HTTPMethod::DELETE)
        } else {
            Err(())
        }
    }
}

/// Whether two byte strings are the same.
pub fn bytes_eq(a: &[u8], b: &[u8]) -> (same: bool)
    ensures
        same == (a@ == b@),
{
    if a.len() != b.len() {
        return false;
    }
    let mut i: usize = 0;
    while i < a.len()
        invariant
            a@.len() == b@.len(),
            i <= a@.len(),
            a@.take(i as int) == b@.take(i as int),
        decreases a@.len() - i,
    {
        if a[i] != b[i] {
            return false;
        }
        assert(a@.take(i + 1) =~= a@.take(i as int).push(a@[i as int]));
        assert(b@.take(i + 1) =~= b@.take(i as int).push(b@[i as int]));
        i += 1;
    }
    assert(a@ =~= a@.take(i as int));
    assert(b@ =~= b@.take(i as int));
    true
}

/// The position of the first space at `from` or after it; the length of
/// the line if there is none.
pub open spec fn next_space(line: Seq<u8>, from: int) -> int
    decreases line.len() - from,
{
    if from < 0 || from >= line.len() {
        line.len() as int
    } else if line[from] == SPACE {
        from
    } else {
        next_space(line, from + 1)
    }
}

/// The method and the route of a request line. A request line has exactly
/// three fields, with one space after the first and one after the second:
/// the method, the route and the version. A field may be empty. A line
/// with fewer or more spaces than two is no request line.
pub open spec fn request_line(line: Seq<u8>) -> Option<(Seq<u8>, Seq<u8>)> {
    let first = next_space(line, 0);
    let second = next_space(line, first + 1);
    let third = next_space(line, second + 1);
    if first < line.len() && second < line.len() && third >= line.len() {
        Some((line.subrange(0, first), line.subrange(first + 1, second)))
    } else {
        None
    }
}

/// Finds the first space at `from` or after it.
pub fn find_space(line: &[u8], from: usize) -> (at: usize)
    requires
        from <= line@.len(),
    ensures
        at == next_space(line@, from as int),
        from <= at <= line@.len(),
{
    let mut at: usize = from;
    while at < line.len()
        invariant
            from <= at <= line@.len(),
            next_space(line@, from as int) == next_space(line@, at as int),
        decreases line@.len() - at,
    {
        if line[at] == SPACE {
            return at;
        }
        at += 1;
    }
    at
}

/// The method and the route of a request line, as they stand in it.
#[derive(Clone, Copy, Debug)]
pub struct RequestLine<'a> {
    /// The first field.
    pub method: &'a [u8],
    /// The second field.
    pub route: &'a [u8],
}

/// Takes a request line apart. The line comes without its line ending.
pub fn parse_request_line<'a>(line: &'a [u8]) -> (parsed: Option<RequestLine<'a>>)
    ensures
        match parsed {
            Some(request) => request_line(line@) == Some((request.method@, request.route@)),
            None => request_line(line@) is None,
        },
{
    let first = find_space(line, 0);
    if first >= line.len() {
        return None;
    }
    let second = find_space(line, first + 1);
    if second >= line.len() {
        return None;
    }
    let third = find_space(line, second + 1);
    if third < line.len() {
        return None;
    }
    Some(
        RequestLine {
            method: slice_subrange(line, 0, first),
            route: slice_subrange(line, first + 1, second),
        },
    )
}

/// The status of a reply.
#[derive(Clone, Copy, Debug, PartialEq, Eq, Structural)]
pub enum Status {
    /// 200: the page is there.
    Success,
    /// 404: there is no such page.
    NotFound,
}

impl Status {
    /// The status line of a reply with this status, without its line
    /// ending.
    pub open spec fn spec_line(self) -> Seq<char> {
        match self {
            Status::Success => "HTTP/1.1 200 OK"@,
            Status::NotFound => "HTTP/1.1 404 NOT FOUND"@,
        }
    }

    /// The status line of a reply with this status, without its line
    /// ending.
    pub fn line(self) -> (line: &'static str)
        ensures
            line@ == self.spec_line(),
    {
        match self {
            Status::Success => "HTTP/1.1 200 OK",
            Status::NotFound => "HTTP/1.1 404 NOT FOUND",
        }
    }
}

/// The pages that the server can send.
#[derive(Clone, Copy, Debug, PartialEq, Eq, Structural)]
pub enum Page {
    /// The greeting.
    Hello,
    /// The page for everything else.
    NotFound,
}

impl Page {
    /// Where the page is kept.
    pub open spec fn spec_path(self) -> Seq<char> {
        match self {
            Page::Hello => "src/hello.html"@,
            Page::NotFound => "src/404.html"@,
        }
    }

    /// Where the page is kept.
    pub fn path(self) -> (path: &'static str)
        ensures
            path@ == self.spec_path(),
    {
        match self {
            Page::Hello => "src/hello.html",
            Page::NotFound => "src/404.html",
        }
    }
}

/// What the server answers to a request.
#[derive(Clone, Copy, Debug, PartialEq, Eq, Structural)]
pub struct Reply {
    /// The status to report.
    pub status: Status,
    /// The page to send as the body.
    pub page: Page,
    /// How many seconds to wait before answering.
    pub delay_secs: u64,
}

/// The reply to a request for `route` with `method`. `GET /` is answered
/// with the greeting at once, `GET /sleep` with the greeting after five
/// seconds, and everything else with the page for what is not there.
pub open spec fn reply_to(method: Seq<u8>, route: Seq<u8>) -> Reply {
    if method == "GET".spec_bytes() && route == "/".spec_bytes() {
        Reply { status: Status::Success, page: Page::Hello, delay_secs: 0 }
    } else if method == "GET".spec_bytes() && route == "/sleep".spec_bytes() {
        Reply { status: Status::Success, page: Page::Hello, delay_secs: 5 }
    } else {
        Reply { status: Status::NotFound, page: Page::NotFound, delay_secs: 0 }
    }
}

/// Chooses the reply to a request.
pub fn route(method: &[u8], path: &[u8]) -> (reply: Reply)
    ensures
        reply == reply_to(method@, path@),
{
    let get = bytes_eq(method, "GET".as_bytes());
    if get && bytes_eq(path, "/".as_bytes()) {
        Reply { status: Status::Success, page: Page::Hello, delay_secs: 0 }
    } else if get && bytes_eq(path, "/sleep".as_bytes()) {
        Reply { status: Status::Success, page: Page::Hello, delay_secs: 5 }
    } else {
        Reply { status: Status::NotFound, page: Page::NotFound, delay_secs: 0 }
    }
}

/// The decimal digits of `n`, without leading zeros.
pub open spec fn decimal(n: nat) -> Seq<u8>
    decreases n,
{
    if n < 10 {
        seq![(0x30 + n) as u8]
    } else {
        decimal(n / 10).push((0x30 + n % 10) as u8)
    }
}

/// A reply on the wire: the status line, the length of the body in bytes,
/// an empty line, and the body.
pub open spec fn response(status: Status, contents: Seq<u8>) -> Seq<u8> {
    vstd::utf8::encode_utf8(status.spec_line()) + "\r\nContent-Length: ".spec_bytes() + decimal(
        contents.len(),
    ) + "\r\n\r\n".spec_bytes() + contents
}

/// Appends the decimal digits of `n` to `out`.
pub fn push_decimal(out: &mut Vec<u8>, n: usize)
    ensures
        final(out)@ == old(out)@ + decimal(n as nat),
    decreases n,
{
    if n >= 10 {
        push_decimal(out, n / 10);
    }
    let digit: usize = n % 10;
    out.push(0x30u8 + digit as u8);
    assert(out@ =~= old(out)@ + decimal(n as nat));
}

/// Frames a reply for the wire.
pub fn render_response(status: Status, contents: &[u8]) -> (bytes: Vec<u8>)
    ensures
        bytes@ == response(status, contents@),
{
    let mut bytes: Vec<u8> = Vec::new();
    bytes.extend_from_slice(status.line().as_bytes());
    bytes.extend_from_slice("\r\nContent-Length: ".as_bytes());
    push_decimal(&mut bytes, contents.len());
    bytes.extend_from_slice("\r\n\r\n".as_bytes());
    bytes.extend_from_slice(contents);
    assert(bytes@ =~= response(status, contents@));
    bytes
}

} // verus!
