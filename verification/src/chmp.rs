//! CHMP (Canon Home Management Protocol) HTTP transport.
//!
//! CHMP wraps the pixma binary command protocol in HTTP POST/GET cycles
//! on port 80. Each command is sent as a POST, and the response is
//! retrieved with a subsequent GET. Both use `application/octet-stream`.
//!
//! This module holds what the transport decides: the request texts, whether
//! a status line is a success, what the response headers announce and how
//! a chunked body is framed. The connection itself reads and writes.
use vstd::prelude::*;
use vstd::string::*;

use crate::error::PixmaError;
use crate::wire::push_bytes;
use crate::text::{
    lemma_decimal_first_digit, lemma_decimal_parses_back, back_spaces, skip_spaces,
    append_decimal, chars_of, contains_chars, contains_text, decimal, lowercase_text,
    matches_at, occurs_at, parse_uint, parse_uint_chars, to_lowercase, trim_bounds, trimmed,
    IntErrorKind,
};

verus! {

/// The scanner endpoint used when none is given.
pub const DEFAULT_CHMP_PATH: &'static str = "/canon/ij/command2/port3";

/// Host and path of a CHMP endpoint.
pub struct ChmpEndpoint {
    pub host: String,
    pub path: String,
}

/// The text of the POST request that carries a body of `len` bytes.
pub open spec fn post_request_text(host: Seq<char>, path: Seq<char>, len: nat) -> Seq<char> {
    "POST "@ + path + " HTTP/1.1\r\nHost: "@ + host
        + "\r\nX-CHMP-Version: 1.4.0\r\nX-CHMP-Timeout: 20\r\nContent-Type: application/octet-stream\r\nContent-Length: "@
        + decimal(len) + "\r\nConnection: Keep-Alive\r\n\r\n"@
}

/// The text of the GET request that fetches a reply.
pub open spec fn get_request_text(host: Seq<char>, path: Seq<char>) -> Seq<char> {
    "GET "@ + path + " HTTP/1.1\r\nHost: "@ + host
        + "\r\nContent-Type: application/octet-stream\r\nConnection: Keep-Alive\r\nX-CHMP-Version: 1.4.0\r\n\r\n"@
}

impl ChmpEndpoint {
    /// The endpoint on `host`, at `path` or the scanner path by default.
    pub fn new(host: &str, path: Option<&str>) -> (e: Self)
        ensures
            e.host@ == host@,
            path matches Some(p) ==> e.path@ == p@,
            path is None ==> e.path@ == DEFAULT_CHMP_PATH@,
    {
        let p = match path {
            Some(p) => p,
            None => DEFAULT_CHMP_PATH,
        };
        ChmpEndpoint { host: String::from_str(host), path: String::from_str(p) }
    }

    /// The POST request head for a body of `body_len` bytes.
    pub fn post_request(&self, body_len: usize) -> (r: String)
        ensures
            r@ == post_request_text(self.host@, self.path@, body_len as nat),
    {
        let mut r = String::from_str("POST ");
        r.append(self.path.as_str());
        r.append(" HTTP/1.1\r\nHost: ");
        r.append(self.host.as_str());
        r.append(
            "\r\nX-CHMP-Version: 1.4.0\r\nX-CHMP-Timeout: 20\r\nContent-Type: application/octet-stream\r\nContent-Length: ",
        );
        append_decimal(&mut r, body_len as u64);
        r.append("\r\nConnection: Keep-Alive\r\n\r\n");
        r
    }

    /// The GET request head.
    pub fn get_request(&self) -> (r: String)
        ensures
            r@ == get_request_text(self.host@, self.path@),
    {
        let mut r = String::from_str("GET ");
        r.append(self.path.as_str());
        r.append(" HTTP/1.1\r\nHost: ");
        r.append(self.host.as_str());
        r.append(
            "\r\nContent-Type: application/octet-stream\r\nConnection: Keep-Alive\r\nX-CHMP-Version: 1.4.0\r\n\r\n",
        );
        r
    }
}

/// A received line without surrounding white space (`str::trim`).
pub fn trim_line(line: &str) -> (t: &str)
    ensures
        t@ == trimmed(line@),
{
    let cs = chars_of(line);
    let (a, b) = trim_bounds(cs.as_slice());
    line.substring_char(a, b)
}

/// Whether a (trimmed) status line reports success: it contains `200`.
pub open spec fn status_line_ok(status: Seq<char>) -> bool {
    contains_text(status, "200"@)
}

fn status_contains_200(status: &str) -> (b: bool)
    ensures
        b == status_line_ok(status@),
{
    let cs = chars_of(status);
    let pat = chars_of("200");
    contains_chars(cs.as_slice(), pat.as_slice())
}

/// Accepts the status line of a POST reply.
pub fn check_post_status(status: &str) -> (res: Result<(), PixmaError>)
    ensures
        status_line_ok(status@) ==> res is Ok,
        !status_line_ok(status@) ==> (res matches Err(PixmaError::Protocol(m)) && m@
            == "POST failed: "@ + status@),
{
    if status_contains_200(status) {
        Ok(())
    } else {
        let mut m = String::from_str("POST failed: ");
        m.append(status);
        Err(PixmaError::Protocol(m))
    }
}

/// Accepts the status line of a GET reply.
pub fn check_get_status(status: &str) -> (res: Result<(), PixmaError>)
    ensures
        status_line_ok(status@) ==> res is Ok,
        !status_line_ok(status@) ==> (res matches Err(PixmaError::Protocol(m)) && m@
            == "GET failed: "@ + status@),
{
    if status_contains_200(status) {
        Ok(())
    } else {
        let mut m = String::from_str("GET failed: ");
        m.append(status);
        Err(PixmaError::Protocol(m))
    }
}

/// What the headers of a reply announce.
#[derive(Debug, Clone, Copy, PartialEq, Eq, Structural)]
pub struct HeaderInfo {
    pub content_length: usize,
    pub chunked: bool,
}

/// `Content-Length` value of a lower-cased header line that starts with
/// `content-length:`; zero when it is not a number.
pub open spec fn content_length_value(lower: Seq<char>) -> usize {
    match parse_uint(trimmed(lower.skip(15)), 10, usize::MAX as nat) {
        Ok(v) => v as usize,
        Err(_) => 0,
    }
}

/// The effect of one header line (trimmed, then lower-cased) on what the
/// headers announce.
pub open spec fn header_effect(info: HeaderInfo, lower: Seq<char>) -> HeaderInfo {
    if occurs_at(lower, "content-length:"@, 0) {
        HeaderInfo { content_length: content_length_value(lower), ..info }
    } else if contains_text(lower, "transfer-encoding"@) && contains_text(lower, "chunked"@) {
        HeaderInfo { chunked: true, ..info }
    } else {
        info
    }
}

/// A header line changes only what it announces: a `content-length:` line
/// sets the length and leaves the chunked flag; a line naming
/// `transfer-encoding` and `chunked` sets the flag and leaves the length; any
/// other line (such as `connection: keep-alive`) changes nothing.
pub proof fn lemma_header_frame(info: HeaderInfo, lower: Seq<char>)
    ensures
        occurs_at(lower, "content-length:"@, 0) ==> header_effect(info, lower).chunked
            == info.chunked,
        !occurs_at(lower, "content-length:"@, 0) && contains_text(lower, "transfer-encoding"@)
            && contains_text(lower, "chunked"@) ==> header_effect(info, lower).chunked
            && header_effect(info, lower).content_length == info.content_length,
        !occurs_at(lower, "content-length:"@, 0) && !(contains_text(lower, "transfer-encoding"@)
            && contains_text(lower, "chunked"@)) ==> header_effect(info, lower) == info,
{
}

impl HeaderInfo {
    /// Nothing announced yet: no length, not chunked.
    pub fn new() -> (h: Self)
        ensures
            h.content_length == 0,
            !h.chunked,
    {
        HeaderInfo { content_length: 0, chunked: false }
    }

    /// Takes in one header line. Returns `true` at the blank line that ends
    /// the headers.
    pub fn header_line(&mut self, line: &str) -> (end: bool)
        ensures
            end == (trimmed(line@).len() == 0),
            end ==> *final(self) == *old(self),
            !end ==> *final(self) == header_effect(*old(self), lowercase_text(trimmed(line@))),
    {
        let cs = chars_of(line);
        let (a, b) = trim_bounds(cs.as_slice());
        if a == b {
            return true;
        }
        let trimmed_line = line.substring_char(a, b);
        let lower_string = to_lowercase(trimmed_line);
        let lower = chars_of(lower_string.as_str());
        let prefix = chars_of("content-length:");
        proof {
            reveal_strlit("content-length:");
        }
        if matches_at(lower.as_slice(), prefix.as_slice(), 0) {
            let rest = vstd::slice::slice_subrange(lower.as_slice(), 15, lower.len());
            let (c, d) = trim_bounds(rest);
            assert(rest@ == lower@.skip(15));
            self.content_length = match parse_uint_chars(rest, c, d, 10, usize::MAX as u64) {
                Ok(v) => v as usize,
                Err(_) => 0,
            };
        } else {
            let te = chars_of("transfer-encoding");
            let ch = chars_of("chunked");
            if contains_chars(lower.as_slice(), te.as_slice()) && contains_chars(
                lower.as_slice(),
                ch.as_slice(),
            ) {
                self.chunked = true;
            }
        }
        false
    }
}

/// How the body of a GET reply is framed.
#[derive(Debug, Clone, Copy, PartialEq, Eq, Structural)]
pub enum BodyMode {
    /// `Transfer-Encoding: chunked`.
    Chunked,
    /// Exactly this many bytes.
    Length(usize),
    /// No body.
    Empty,
}

/// How the body of a GET reply with these headers is read.
pub fn body_mode(info: &HeaderInfo) -> (m: BodyMode)
    ensures
        info.chunked ==> m == BodyMode::Chunked,
        !info.chunked && info.content_length > 0 ==> m == BodyMode::Length(info.content_length),
        !info.chunked && info.content_length == 0 ==> m == BodyMode::Empty,
{
    if info.chunked {
        BodyMode::Chunked
    } else if info.content_length > 0 {
        BodyMode::Length(info.content_length)
    } else {
        BodyMode::Empty
    }
}

/// One size line of a chunked body.
#[derive(Debug, Clone, Copy, PartialEq, Eq, Structural)]
pub enum ChunkLine {
    /// A blank line: skip it.
    Blank,
    /// The terminating zero-size chunk.
    Last,
    /// A chunk of this many bytes follows.
    Data(usize),
}

/// `Display` of `core::num::ParseIntError` for each kind.
pub open spec fn int_error_text(e: IntErrorKind) -> Seq<char> {
    match e {
        IntErrorKind::Empty => "cannot parse integer from empty string"@,
        IntErrorKind::InvalidDigit => "invalid digit found in string"@,
        IntErrorKind::PosOverflow => "number too large to fit in target type"@,
    }
}

/// Reads the size line of a chunk: hexadecimal, surrounding white space ignored.
pub fn parse_chunk_size_line(line: &str) -> (res: Result<ChunkLine, PixmaError>)
    ensures
        ({
            let t = trimmed(line@);
            if t.len() == 0 {
                res == Ok::<ChunkLine, PixmaError>(ChunkLine::Blank)
            } else {
                match parse_uint(t, 16, usize::MAX as nat) {
                    Ok(v) => if v == 0 {
                        res == Ok::<ChunkLine, PixmaError>(ChunkLine::Last)
                    } else {
                        res == Ok::<ChunkLine, PixmaError>(ChunkLine::Data(v as usize))
                    },
                    Err(e) => res matches Err(PixmaError::Protocol(m)) && m@ == "bad chunk size '"@
                        + t + "': "@ + int_error_text(e),
                }
            }
        }),
{
    let cs = chars_of(line);
    let (a, b) = trim_bounds(cs.as_slice());
    if a == b {
        return Ok(ChunkLine::Blank);
    }
    match parse_uint_chars(cs.as_slice(), a, b, 16, usize::MAX as u64) {
        Ok(v) => if v == 0 {
            Ok(ChunkLine::Last)
        } else {
            Ok(ChunkLine::Data(v as usize))
        },
        Err(e) => {
            let mut m = String::from_str("bad chunk size '");
            m.append(line.substring_char(a, b));
            m.append("': ");
            match e {
                IntErrorKind::Empty => m.append("cannot parse integer from empty string"),
                IntErrorKind::InvalidDigit => m.append("invalid digit found in string"),
                IntErrorKind::PosOverflow => m.append("number too large to fit in target type"),
            }
            Err(PixmaError::Protocol(m))
        },
    }
}


/// A chunked body being read: the data of the chunks taken in so far, in order.
pub struct ChunkedBody {
    data: Vec<u8>,
}

impl View for ChunkedBody {
    type V = Seq<u8>;

    closed spec fn view(&self) -> Seq<u8> {
        self.data@
    }
}

impl ChunkedBody {
    /// A body with no chunk yet.
    pub fn new() -> (b: Self)
        ensures
            b@ == Seq::<u8>::empty(),
    {
        ChunkedBody { data: Vec::new() }
    }

    /// Takes in the data of the next chunk: it follows what came before.
    pub fn add_chunk(&mut self, chunk: &[u8])
        ensures
            final(self)@ == old(self)@ + chunk@,
    {
        push_bytes(&mut self.data, chunk);
    }

    /// The whole body: the chunks' data, in order.
    pub fn into_body(self) -> (body: Vec<u8>)
        ensures
            body@ == self@,
    {
        self.data
    }
}

/// The length written into a request head is the length read back from that
/// header line (once lower-cased): `Content-Length: n` announces `n` bytes.
pub proof fn lemma_content_length_roundtrip(info: HeaderInfo, n: usize)
    ensures
        header_effect(info, "content-length: "@ + decimal(n as nat)).content_length == n,
        header_effect(info, "content-length: "@ + decimal(n as nat)).chunked == info.chunked,
{
    reveal_strlit("content-length: ");
    reveal_strlit("content-length:");
    let d = decimal(n as nat);
    let lower = "content-length: "@ + d;
    lemma_decimal_first_digit(n as nat);
    assert(lower.subrange(0, 15) =~= "content-length:"@);
    assert(occurs_at(lower, "content-length:"@, 0));
    let rest = lower.skip(15);
    assert(rest =~= seq![' '] + d);
    assert(skip_spaces(rest, 1) == 1);
    assert(skip_spaces(rest, 0) == 1);
    assert(rest[rest.len() - 1] == d.last());
    assert(back_spaces(rest, 1, rest.len() as int) == rest.len());
    assert(trimmed(rest) =~= d);
    lemma_decimal_parses_back(n as nat, usize::MAX as nat);
}

} // verus!
