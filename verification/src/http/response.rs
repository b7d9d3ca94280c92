//! Responses, built step by step and serialized once.

use vstd::prelude::*;
use vstd::string::*;
use vstd::utf8::encode_utf8;

use super::header::{spec_insert, spec_render, HeaderMap, Headers};

verus! {

/// One HTTP response.
#[derive(Debug)]
pub struct Response {
    pub version: String,
    pub status_code: String,
    pub description: String,
    pub headers: HeaderMap,
    pub body: Vec<u8>,
}

/// The mathematical content of a [`Response`].
pub struct ResponseView {
    pub version: Seq<char>,
    pub status_code: Seq<char>,
    pub description: Seq<char>,
    pub headers: Headers,
    pub body: Seq<u8>,
}

impl View for Response {
    type V = ResponseView;

    open spec fn view(&self) -> ResponseView {
        ResponseView {
            version: self.version@,
            status_code: self.status_code@,
            description: self.description@,
            headers: self.headers@,
            body: self.body@,
        }
    }
}

impl Clone for Response {
    fn clone(&self) -> (r: Self)
        ensures
            r@ == self@,
    {
        Response {
            version: self.version.clone(),
            status_code: self.status_code.clone(),
            description: self.description.clone(),
            headers: self.headers.clone(),
            body: self.body.clone(),
        }
    }
}

/// The response with a status and nothing else, for HTTP/1.1.
pub open spec fn spec_new(status_code: Seq<char>, description: Seq<char>) -> ResponseView {
    ResponseView {
        version: "HTTP/1.1"@,
        status_code,
        description,
        headers: Seq::empty(),
        body: Seq::empty(),
    }
}

/// The response with one header written.
pub open spec fn spec_with_header(response: ResponseView, key: Seq<char>, value: Seq<char>) -> ResponseView {
    ResponseView { headers: spec_insert(response.headers, key, value), ..response }
}

/// The response with another body.
pub open spec fn spec_with_body(response: ResponseView, body: Seq<u8>) -> ResponseView {
    ResponseView { body, ..response }
}

/// The response with `body` under the content type `content_type`.
pub open spec fn spec_typed(response: ResponseView, content_type: Seq<char>, body: Seq<u8>) -> ResponseView {
    spec_with_body(spec_with_header(response, "Content-Type"@, content_type), body)
}

/// The status line: version, status code and description.
pub open spec fn spec_response_line(response: ResponseView) -> Seq<char> {
    response.version + " "@ + response.status_code + " "@ + response.description
}

/// The status line and the header lines.
pub open spec fn spec_response_headers(response: ResponseView) -> Seq<char> {
    spec_response_line(response) + "\r\n"@ + spec_render(response.headers)
}

/// The bytes of a response: the status line, the header lines, an empty
/// line, and the body.
pub open spec fn spec_to_bytes(response: ResponseView) -> Seq<u8> {
    encode_utf8(spec_response_headers(response) + "\r\n"@) + response.body
}

impl Response {
    /// A response with a status, no headers and no body.
    pub fn new(status_code: &str, description: &str) -> (r: Self)
        ensures
            r@ == spec_new(status_code@, description@),
    {
        Response {
            version: "HTTP/1.1".to_owned(),
            status_code: status_code.to_owned(),
            description: description.to_owned(),
            headers: HeaderMap::new(),
            body: Vec::new(),
        }
    }

    /// Writes one header, in place of any value that the key had.
    pub fn with_header(self, key: &str, value: &str) -> (r: Self)
        ensures
            r@ == spec_with_header(self@, key@, value@),
    {
        let mut response = self;
        response.headers.insert(key, value);
        response
    }

    /// Writes one header. The same as [`Response::with_header`].
    pub fn header(self, key: &str, value: &str) -> (r: Self)
        ensures
            r@ == spec_with_header(self@, key@, value@),
    {
        self.with_header(key, value)
    }

    /// Replaces the body.
    pub fn with_body(self, body: Vec<u8>) -> (r: Self)
        ensures
            r@ == spec_with_body(self@, body@),
    {
        let mut response = self;
        response.body = body;
        response
    }

    /// Appends to the body.
    pub fn body(self, body: &[u8]) -> (r: Self)
        ensures
            r@ == spec_with_body(self@, self@.body + body@),
    {
        let mut response = self;
        let ghost before = response.body@;
        response.body.extend_from_slice(body);
        assert(response.body@ == before + body@);
        response
    }

    /// The status line.
    pub fn response_line(&self) -> (r: String)
        ensures
            r@ == spec_response_line(self@),
    {
        let mut line = self.version.clone();
        line.append(" ");
        line.append(self.status_code.as_str());
        line.append(" ");
        line.append(self.description.as_str());
        line
    }

    /// The status line and the header lines, each with its line end.
    pub fn response_headers(&self) -> (r: String)
        ensures
            r@ == spec_response_headers(self@),
    {
        let mut head = self.response_line();
        head.append("\r\n");
        head.append(self.headers.render().as_str());
        head
    }

    /// The bytes of the response as it goes over the wire.
    pub fn to_bytes(&self) -> (r: Vec<u8>)
        ensures
            r@ == spec_to_bytes(self@),
    {
        let mut head = self.response_headers();
        head.append("\r\n");
        let mut bytes = head.as_str().as_bytes_vec();
        bytes.extend_from_slice(self.body.as_slice());
        bytes
    }

    /// `200 OK`.
    pub fn ok() -> (r: Self)
        ensures
            r@ == spec_new("200"@, "OK"@),
    {
        Response::new("200", "OK")
    }

    /// `404 Not Found`, with `error` as the body.
    pub fn not_found(error: &str) -> (r: Self)
        ensures
            r@ == spec_with_body(spec_new("404"@, "Not Found"@), encode_utf8(error@)),
    {
        Response::new("404", "Not Found").with_body(error.as_bytes_vec())
    }

    /// `500 Internal Server Error`, with `error` as the body.
    pub fn err(error: &str) -> (r: Self)
        ensures
            r@ == spec_with_body(
                spec_new("500"@, "Internal Server Error"@),
                encode_utf8(error@),
            ),
    {
        Response::new("500", "Internal Server Error").with_body(error.as_bytes_vec())
    }

    /// Gives the response a body of plain text.
    pub fn plain(self, body: Vec<u8>) -> (r: Self)
        ensures
            r@ == spec_typed(self@, "text/plain; charset=utf-8"@, body@),
    {
        self.with_header("Content-Type", "text/plain; charset=utf-8").with_body(body)
    }

    /// Gives the response a body of arbitrary bytes.
    pub fn file(self, body: Vec<u8>) -> (r: Self)
        ensures
            r@ == spec_typed(self@, "application/octet-reader"@, body@),
    {
        self.with_header("Content-Type", "application/octet-reader").with_body(body)
    }

    /// Gives the response a body of HTML.
    pub fn html(self, body: Vec<u8>) -> (r: Self)
        ensures
            r@ == spec_typed(self@, "text/html; charset=utf-8"@, body@),
    {
        self.with_header("Content-Type", "text/html; charset=utf-8").with_body(body)
    }
}

} // verus!
