//! Requests, and how one is read off a buffer.
//!
//! A request is a request line of three parts divided by single spaces, header
//! lines up to the first line that holds no colon, and a body of as many bytes
//! as the `Content-Length` header says. A line ends with LF; a CR before it is
//! dropped.

use vstd::prelude::*;
use vstd::string::*;
use vstd::utf8::{decode_utf8, encode_utf8, valid_utf8};

use super::error::{Error, ErrorView};
use super::header::{spec_get, spec_insert, spec_render, HeaderMap, Headers};
use super::text::{
    chars_of, find, find_char, parse_usize, spec_parse_usize, spec_trim, substring, trim_bounds,
    ParseIntError,
};
use crate::io::IoError;

verus! {

/// One HTTP request.
#[derive(Debug)]
pub struct Request {
    pub method: String,
    /// The path and query, percent-decoded.
    pub target: String,
    pub version: String,
    pub headers: HeaderMap,
    pub body: Vec<u8>,
}

/// The mathematical content of a [`Request`].
pub struct RequestView {
    pub method: Seq<char>,
    pub target: Seq<char>,
    pub version: Seq<char>,
    pub headers: Headers,
    pub body: Seq<u8>,
}

impl View for Request {
    type V = RequestView;

    open spec fn view(&self) -> RequestView {
        RequestView {
            method: self.method@,
            target: self.target@,
            version: self.version@,
            headers: self.headers@,
            body: self.body@,
        }
    }
}

impl Clone for Request {
    fn clone(&self) -> (r: Self)
        ensures
            r@ == self@,
    {
        Request {
            method: self.method.clone(),
            target: self.target.clone(),
            version: self.version.clone(),
            headers: self.headers.clone(),
            body: self.body.clone(),
        }
    }
}

/// What percent-decoding makes of a request target: each `%` with two
/// hexadecimal digits behind it becomes the byte that they denote, and the
/// bytes are read as UTF-8, a replacement character standing for what is not.
pub uninterp spec fn percent_decoded(target: Seq<char>) -> Seq<char>;

/// Whether percent-decoding leaves a target as it is, for all that is known
/// here: a target without a `%` holds nothing to decode.
pub open spec fn spec_plain_target(target: Seq<char>) -> bool {
    !target.contains('%')
}

/// The index of the first byte `b` at or after `from`, or the length of `bytes`.
pub open spec fn find_byte(bytes: Seq<u8>, b: u8, from: int) -> int
    decreases bytes.len() - from,
{
    if from < 0 || from >= bytes.len() {
        bytes.len() as int
    } else if bytes[from] == b {
        from
    } else {
        find_byte(bytes, b, from + 1)
    }
}

/// The bytes of the line that starts at `from`, without its line end, and the
/// offset of the next line. There is no line where no LF follows.
pub open spec fn spec_line(bytes: Seq<u8>, from: int) -> Option<(Seq<u8>, int)> {
    let lf = find_byte(bytes, 10, from);
    if from < 0 || lf >= bytes.len() {
        None
    } else {
        let end = if lf > from && bytes[lf - 1] == 13 {
            lf - 1
        } else {
            lf
        };
        Some((bytes.subrange(from, end), lf + 1))
    }
}

/// The text of the line that starts at `from`, and the offset of the next
/// line. Input that ends before the line does, and a line that is not UTF-8,
/// are I/O errors.
pub open spec fn spec_text_line(bytes: Seq<u8>, from: int) -> Result<(Seq<char>, int), ErrorView> {
    match spec_line(bytes, from) {
        None => Err(ErrorView::IO(IoError::UnexpectedEof)),
        Some((line, next)) => if valid_utf8(line) {
            Ok((decode_utf8(line), next))
        } else {
            Err(ErrorView::IO(IoError::InvalidData))
        },
    }
}

/// The three parts of a request line: it must hold exactly two spaces.
pub open spec fn spec_request_line(line: Seq<char>) -> Option<(Seq<char>, Seq<char>, Seq<char>)> {
    let a = find_char(line, ' ', 0);
    let b = find_char(line, ' ', a + 1);
    let c = find_char(line, ' ', b + 1);
    if a < line.len() && b < line.len() && c >= line.len() {
        Some(
            (
                line.subrange(0, a),
                line.subrange(a + 1, b),
                line.subrange(b + 1, line.len() as int),
            ),
        )
    } else {
        None
    }
}

/// The key and the value of a header line: what stands before and behind its
/// first colon, without the white space at either end. A line without a colon
/// is no header line.
pub open spec fn spec_header_line(line: Seq<char>) -> Option<(Seq<char>, Seq<char>)> {
    let colon = find_char(line, ':', 0);
    if colon < line.len() {
        Some(
            (
                spec_trim(line.subrange(0, colon)),
                spec_trim(line.subrange(colon + 1, line.len() as int)),
            ),
        )
    } else {
        None
    }
}

/// The header mapping read from `from` on, added to `headers`, and the offset
/// behind the line that ends the headers: the first line without a colon.
/// (Every line takes at least one byte, so the last branch is never reached;
/// it is there to show that the reading ends.)
pub open spec fn spec_headers(bytes: Seq<u8>, from: int, headers: Headers) -> Result<
    (Headers, int),
    ErrorView,
>
    decreases bytes.len() - from,
{
    match spec_text_line(bytes, from) {
        Err(e) => Err(e),
        Ok((line, next)) => match spec_header_line(line) {
            None => Ok((headers, next)),
            Some((key, value)) => if next > from {
                spec_headers(bytes, next, spec_insert(headers, key, value))
            } else {
                Err(ErrorView::IO(IoError::UnexpectedEof))
            },
        },
    }
}

/// The length of the body that the headers announce: none without a
/// `Content-Length`.
pub open spec fn spec_content_length(headers: Headers) -> Result<nat, ParseIntError> {
    match spec_get(headers, "Content-Length"@) {
        None => Ok(0),
        Some(value) => spec_parse_usize(value),
    }
}

/// The request at the front of `bytes` with its target as it stands on the
/// wire, and the number of bytes that the request takes.
pub open spec fn spec_parse_raw(bytes: Seq<u8>) -> Result<(RequestView, int), ErrorView> {
    match spec_text_line(bytes, 0) {
        Err(e) => Err(e),
        Ok((line, next)) => match spec_request_line(line) {
            None => Err(ErrorView::BadRequestLine(line)),
            Some((method, target, version)) => match spec_headers(bytes, next, Seq::empty()) {
                Err(e) => Err(e),
                Ok((headers, body_at)) => match spec_content_length(headers) {
                    Err(e) => Err(ErrorView::BadContentLength(e)),
                    Ok(len) => if body_at + len > bytes.len() {
                        Err(ErrorView::IO(IoError::UnexpectedEof))
                    } else {
                        Ok(
                            (
                                RequestView {
                                    method,
                                    target,
                                    version,
                                    headers,
                                    body: bytes.subrange(body_at, body_at + len),
                                },
                                body_at + len,
                            ),
                        )
                    },
                },
            },
        },
    }
}

/// The request at the front of `bytes`, its target percent-decoded.
pub open spec fn spec_parse(bytes: Seq<u8>) -> Result<(RequestView, int), ErrorView> {
    match spec_parse_raw(bytes) {
        Err(e) => Err(e),
        Ok((raw, used)) => Ok((RequestView { target: percent_decoded(raw.target), ..raw }, used)),
    }
}

/// The request line: method, target and version with single spaces between.
pub open spec fn spec_request_line_of(request: RequestView) -> Seq<char> {
    request.method + " "@ + request.target + " "@ + request.version
}

/// The bytes of a request: the request line, the header lines, an empty
/// line, and the body.
pub open spec fn spec_to_bytes(request: RequestView) -> Seq<u8> {
    encode_utf8(spec_request_line_of(request) + "\r\n"@ + spec_render(request.headers) + "\r\n"@)
        + request.body
}

/// Reads `bytes` as UTF-8 text.
///
/// This is `core::str::from_utf8`. The contract states its documentation: the
/// call succeeds exactly on well-formed UTF-8, and the text it returns is the
/// one that the bytes encode.
#[verifier::external_body]
fn str_from_utf8(bytes: &[u8]) -> (r: Option<&str>)
    ensures
        r is Some <==> valid_utf8(bytes@),
        r matches Some(text) ==> text@ == decode_utf8(bytes@),
{
    core::str::from_utf8(bytes).ok()
}

/// Percent-decodes a request target.
///
/// This is `percent_encoding::percent_decode_str` followed by its
/// `decode_utf8_lossy`. The result depends on the target alone; the contract
/// gives it the name [`percent_decoded`]. It states one fact of it: only a
/// `%` starts anything that is decoded, so a target without one comes back
/// as it is.
#[verifier::external_body]
fn percent_decode(target: &str) -> (r: String)
    ensures
        r@ == percent_decoded(target@),
        spec_plain_target(target@) ==> r@ == target@,
{
    percent_encoding::percent_decode_str(target).decode_utf8_lossy().into_owned()
}

/// Finds the first byte `b` at or after `from`; returns the length where
/// there is none.
fn find_in_bytes(bytes: &[u8], b: u8, from: usize) -> (r: usize)
    ensures
        r == find_byte(bytes@, b, from as int),
        from <= bytes@.len() ==> from <= r <= bytes@.len(),
{
    let total: usize = bytes.len();
    if from >= total {
        return total;
    }
    let mut i: usize = from;
    while i < total && bytes[i] != b
        invariant
            from <= i <= total == bytes@.len(),
            find_byte(bytes@, b, from as int) == find_byte(bytes@, b, i as int),
        decreases total - i,
    {
        i = i + 1;
    }
    i
}

/// Reads the line that starts at `from`. Returns its text and the offset of
/// the next line.
pub fn read_line(bytes: &[u8], from: usize) -> (r: Result<(String, usize), Error>)
    requires
        from <= bytes@.len(),
    ensures
        spec_text_line(bytes@, from as int) == match r {
            Ok((line, next)) => Ok((line@, next as int)),
            Err(e) => Err(e@),
        },
        r matches Ok((_, next)) ==> from < next <= bytes@.len(),
{
    let lf = find_in_bytes(bytes, 10, from);
    if lf >= bytes.len() {
        return Err(Error::IO(IoError::UnexpectedEof));
    }
    let end: usize = if lf > from && bytes[lf - 1] == 13 {
        lf - 1
    } else {
        lf
    };
    match str_from_utf8(vstd::slice::slice_subrange(bytes, from, end)) {
        None => Err(Error::IO(IoError::InvalidData)),
        Some(text) => Ok((text.to_owned(), lf + 1)),
    }
}

/// Splits a request line into method, target and version.
pub fn parse_request_line(line: &str) -> (r: Option<(String, String, String)>)
    ensures
        spec_request_line(line@) == match r {
            Some((method, target, version)) => Some((method@, target@, version@)),
            None => None,
        },
{
    let chars = chars_of(line);
    let total: usize = chars.len();
    let a = find(chars.as_slice(), ' ', 0);
    if a >= total {
        return None;
    }
    let b = find(chars.as_slice(), ' ', a + 1);
    if b >= total {
        return None;
    }
    let c = find(chars.as_slice(), ' ', b + 1);
    if c < total {
        return None;
    }
    Some((substring(line, 0, a), substring(line, a + 1, b), substring(line, b + 1, total)))
}

/// Splits a header line into key and value.
pub fn parse_header_line(line: &str) -> (r: Option<(String, String)>)
    ensures
        spec_header_line(line@) == match r {
            Some((key, value)) => Some((key@, value@)),
            None => None,
        },
{
    let chars = chars_of(line);
    let total: usize = chars.len();
    let colon = find(chars.as_slice(), ':', 0);
    if colon >= total {
        return None;
    }
    let key = trim_bounds(chars.as_slice(), 0, colon);
    let value = trim_bounds(chars.as_slice(), colon + 1, total);
    Some((substring(line, key.0, key.1), substring(line, value.0, value.1)))
}

/// The length of the body that the headers announce.
pub fn content_length(headers: &HeaderMap) -> (r: Result<usize, ParseIntError>)
    ensures
        spec_content_length(headers@) == match r {
            Ok(n) => Ok(n as nat),
            Err(e) => Err(e),
        },
{
    match headers.get("Content-Length") {
        None => Ok(0),
        Some(value) => parse_usize(value.as_str()),
    }
}

/// Reads header lines from `from` on, up to and including the first line
/// without a colon. Returns the mapping and the offset behind that line.
pub fn read_headers(bytes: &[u8], from: usize) -> (r: Result<(HeaderMap, usize), Error>)
    requires
        from <= bytes@.len(),
    ensures
        spec_headers(bytes@, from as int, Seq::empty()) == match r {
            Ok((headers, next)) => Ok((headers@, next as int)),
            Err(e) => Err(e@),
        },
        r matches Ok((_, next)) ==> from < next <= bytes@.len(),
{
    let mut headers = HeaderMap::new();
    let mut pos: usize = from;
    loop
        invariant
            from <= pos <= bytes@.len(),
            spec_headers(bytes@, from as int, Seq::empty()) == spec_headers(
                bytes@,
                pos as int,
                headers@,
            ),
        decreases bytes@.len() - pos,
    {
        let (text, next) = match read_line(bytes, pos) {
            Err(e) => { return Err(e); },
            Ok(found) => found,
        };
        match parse_header_line(text.as_str()) {
            None => {
                return Ok((headers, next));
            },
            Some((key, value)) => {
                headers.insert(key.as_str(), value.as_str());
                pos = next;
            },
        }
    }
}

/// How many bytes a request that was refused with `error` has used up: the
/// request line where that was malformed, the whole head where the
/// `Content-Length` was. Nothing is used up where reading failed.
pub open spec fn spec_refused_len(bytes: Seq<u8>, error: ErrorView) -> int {
    match error {
        ErrorView::BadRequestLine(_) => match spec_text_line(bytes, 0) {
            Ok((_, next)) => next,
            Err(_) => 0,
        },
        ErrorView::BadContentLength(_) => match spec_text_line(bytes, 0) {
            Ok((_, next)) => match spec_headers(bytes, next, Seq::empty()) {
                Ok((_, body_at)) => body_at,
                Err(_) => 0,
            },
            Err(_) => 0,
        },
        _ => 0,
    }
}

/// How many bytes of `bytes` to drop after [`Request::try_from_buf`] has
/// refused them with `error`, so that the next request can be read.
pub fn refused_len(bytes: &[u8], error: &Error) -> (r: usize)
    ensures
        r == spec_refused_len(bytes@, error@),
        r <= bytes@.len(),
{
    match error {
        Error::BadRequestLine(_) => match read_line(bytes, 0) {
            Ok((_, next)) => next,
            Err(_) => 0,
        },
        Error::BadContentLength(_) => match read_line(bytes, 0) {
            Ok((_, next)) => match read_headers(bytes, next) {
                Ok((_, body_at)) => body_at,
                Err(_) => 0,
            },
            Err(_) => 0,
        },
        _ => 0,
    }
}

impl Request {
    /// Reads one request off the front of `bytes`, leaving the target as it
    /// stands on the wire. Returns the request and the number of bytes it took.
    pub fn parse_raw(bytes: &[u8]) -> (r: Result<(Request, usize), Error>)
        ensures
            spec_parse_raw(bytes@) == match r {
                Ok((request, used)) => Ok((request@, used as int)),
                Err(e) => Err(e@),
            },
            r matches Ok((_, used)) ==> used <= bytes@.len(),
    {
        let (line, first) = match read_line(bytes, 0) {
            Err(e) => { return Err(e); },
            Ok(found) => found,
        };
        let (method, target, version) = match parse_request_line(line.as_str()) {
            None => { return Err(Error::BadRequestLine(line)); },
            Some(parts) => parts,
        };
        let (headers, body_at) = match read_headers(bytes, first) {
            Err(e) => { return Err(e); },
            Ok(found) => found,
        };
        let len = match content_length(&headers) {
            Err(e) => { return Err(Error::BadContentLength(e)); },
            Ok(len) => len,
        };
        if len > bytes.len() - body_at {
            return Err(Error::IO(IoError::UnexpectedEof));
        }
        let end: usize = body_at + len;
        let body = vstd::slice::slice_to_vec(vstd::slice::slice_subrange(bytes, body_at, end));
        Ok((Request { method, target, version, headers, body }, end))
    }

    /// Reads one request off the front of `bytes`. Returns the request and
    /// the number of bytes it took.
    ///
    /// Input that ends before the request does gives `Error::IO`; a caller
    /// that reads from a live connection keeps the bytes and tries again
    /// with more.
    pub fn try_from_buf(bytes: &[u8]) -> (r: Result<(Request, usize), Error>)
        ensures
            spec_parse(bytes@) == match r {
                Ok((request, used)) => Ok((request@, used as int)),
                Err(e) => Err(e@),
            },
            r matches Ok((_, used)) ==> used <= bytes@.len(),
            spec_parse_raw(bytes@) matches Ok((raw, _)) ==> (spec_plain_target(raw.target)
                ==> percent_decoded(raw.target) == raw.target),
    {
        match Request::parse_raw(bytes) {
            Err(e) => Err(e),
            Ok((raw, used)) => {
                let target = percent_decode(raw.target.as_str());
                Ok(
                    (
                        Request {
                            method: raw.method,
                            target,
                            version: raw.version,
                            headers: raw.headers,
                            body: raw.body,
                        },
                        used,
                    ),
                )
            },
        }
    }

    /// The request line: method, target and version.
    pub fn request_line(&self) -> (r: String)
        ensures
            r@ == spec_request_line_of(self@),
    {
        let mut line = self.method.clone();
        line.append(" ");
        line.append(self.target.as_str());
        line.append(" ");
        line.append(self.version.as_str());
        line
    }

    /// The bytes of the request as it goes over the wire.
    pub fn to_bytes(&self) -> (r: Vec<u8>)
        ensures
            r@ == spec_to_bytes(self@),
    {
        let mut head = self.request_line();
        head.append("\r\n");
        head.append(self.headers.render().as_str());
        head.append("\r\n");
        let mut bytes = head.as_str().as_bytes_vec();
        bytes.extend_from_slice(self.body.as_slice());
        bytes
    }
}

/// A byte that is found stays where it is when more input arrives.
pub proof fn lemma_find_byte_stable(bytes: Seq<u8>, more: Seq<u8>, b: u8, from: int)
    requires
        0 <= from,
        find_byte(bytes, b, from) < bytes.len(),
    ensures
        find_byte(bytes + more, b, from) == find_byte(bytes, b, from),
        from <= find_byte(bytes, b, from),
    decreases bytes.len() - from,
{
    let longer = bytes + more;
    assert(longer[from] == bytes[from]);
    if bytes[from] != b {
        lemma_find_byte_stable(bytes, more, b, from + 1);
    }
}

/// A line that is whole stays the same when more input arrives.
pub proof fn lemma_text_line_stable(bytes: Seq<u8>, more: Seq<u8>, from: int)
    requires
        spec_text_line(bytes, from) != Err::<(Seq<char>, int), ErrorView>(
            ErrorView::IO(IoError::UnexpectedEof),
        ),
    ensures
        spec_text_line(bytes + more, from) == spec_text_line(bytes, from),
        spec_text_line(bytes, from) matches Ok((_, next)) ==> 0 <= from < next <= bytes.len(),
{
    let longer = bytes + more;
    let lf = find_byte(bytes, 10, from);
    lemma_find_byte_stable(bytes, more, 10, from);
    let end = if lf > from && bytes[lf - 1] == 13 {
        lf - 1
    } else {
        lf
    };
    if lf > from {
        assert(longer[lf - 1] == bytes[lf - 1]);
    }
    assert(longer.subrange(from, end) =~= bytes.subrange(from, end));
}

/// Headers that are whole stay the same when more input arrives.
pub proof fn lemma_headers_stable(bytes: Seq<u8>, more: Seq<u8>, from: int, headers: Headers)
    requires
        spec_headers(bytes, from, headers) != Err::<(Headers, int), ErrorView>(
            ErrorView::IO(IoError::UnexpectedEof),
        ),
    ensures
        spec_headers(bytes + more, from, headers) == spec_headers(bytes, from, headers),
        spec_headers(bytes, from, headers) matches Ok((_, next)) ==> 0 <= from < next <= bytes.len(),
    decreases bytes.len() - from,
{
    lemma_text_line_stable(bytes, more, from);
    match spec_text_line(bytes, from) {
        Err(_) => {},
        Ok((line, next)) => match spec_header_line(line) {
            None => {},
            Some((key, value)) => {
                lemma_headers_stable(bytes, more, next, spec_insert(headers, key, value));
            },
        },
    }
}

/// More input does not change what a request is: once
/// [`Request::try_from_buf`] has answered with a request or has refused one,
/// it answers the same whatever is appended to the input. Only the answer
/// that the input ended early can change, which is why a caller may try again
/// with more bytes.
pub proof fn lemma_parse_stable(bytes: Seq<u8>, more: Seq<u8>)
    requires
        spec_parse(bytes) != Err::<(RequestView, int), ErrorView>(
            ErrorView::IO(IoError::UnexpectedEof),
        ),
    ensures
        spec_parse(bytes + more) == spec_parse(bytes),
{
    let longer = bytes + more;
    lemma_text_line_stable(bytes, more, 0);
    match spec_text_line(bytes, 0) {
        Err(_) => {},
        Ok((line, next)) => match spec_request_line(line) {
            None => {},
            Some(_) => {
                lemma_headers_stable(bytes, more, next, Seq::empty());
                match spec_headers(bytes, next, Seq::empty()) {
                    Err(_) => {},
                    Ok((headers, body_at)) => match spec_content_length(headers) {
                        Err(_) => {},
                        Ok(len) => {
                            assert(body_at + len <= bytes.len());
                            assert(longer.subrange(body_at, body_at + len) =~= bytes.subrange(
                                body_at,
                                body_at + len,
                            ));
                        },
                    },
                }
            },
        },
    }
}

} // verus!
