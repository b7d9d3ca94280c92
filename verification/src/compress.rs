//! The compression hook: a middleware that decompresses request bodies and
//! compresses response bodies, by the encodings `gzip`, `deflate` and `zlib`.
//!
//! The codecs themselves are not this library's: each call goes to an outside
//! implementation, and what it returns, the stream or the failure, is known
//! here by name only.

use vstd::prelude::*;
use vstd::std_specs::convert::FromSpec;
use vstd::string::*;

use crate::http::header::{spec_get, spec_insert, spec_remove};
use crate::http::request::{Request, RequestView};
use crate::http::response::{spec_with_header, Response, ResponseView};
use crate::http::text::{
    chars_of, decimal, find, find_char, spec_trim, substring, trim_bounds, usize_to_string,
};
use crate::io::IoError;
use crate::middleware::{outcome, relation, Middleware, Next, Relation};

verus! {

/// The encodings that the hook knows.
#[derive(Debug, Clone, Copy, PartialEq, Eq, Structural)]
pub enum Codec {
    Gzip,
    Deflate,
    Zlib,
}

/// What compressing `data` as a gzip stream at the default level gives: the
/// stream, or the failure of the codec.
pub uninterp spec fn gzip_compressed(data: Seq<u8>) -> Result<Seq<u8>, IoError>;

/// What compressing `data` as a raw deflate stream at the default level
/// gives: the stream, or the failure of the codec.
pub uninterp spec fn deflate_compressed(data: Seq<u8>) -> Result<Seq<u8>, IoError>;

/// What compressing `data` as a zlib stream at the default level gives: the
/// stream, or the failure of the codec.
pub uninterp spec fn zlib_compressed(data: Seq<u8>) -> Result<Seq<u8>, IoError>;

/// What decompressing `data` as a gzip stream gives: the data that the
/// stream holds, or the failure of the codec.
pub uninterp spec fn gzip_decompressed(data: Seq<u8>) -> Result<Seq<u8>, IoError>;

/// What decompressing `data` as a raw deflate stream gives: the data that
/// the stream holds, or the failure of the codec.
pub uninterp spec fn deflate_decompressed(data: Seq<u8>) -> Result<Seq<u8>, IoError>;

/// What decompressing `data` as a zlib stream gives: the data that the
/// stream holds, or the failure of the codec.
pub uninterp spec fn zlib_decompressed(data: Seq<u8>) -> Result<Seq<u8>, IoError>;

/// The mathematical content of what a codec returns.
pub open spec fn coded(result: Result<Vec<u8>, IoError>) -> Result<Seq<u8>, IoError> {
    match result {
        Ok(out) => Ok(out@),
        Err(e) => Err(e),
    }
}

/// The mathematical content of what [`try_compress`] and [`try_decompress`]
/// return.
pub open spec fn tried(result: Result<Option<Vec<u8>>, IoError>) -> Result<
    Option<Seq<u8>>,
    IoError,
> {
    match result {
        Ok(Some(out)) => Ok(Some(out@)),
        Ok(None) => Ok(None),
        Err(e) => Err(e),
    }
}

/// The codec that an encoding name stands for.
pub open spec fn spec_codec(name: Seq<char>) -> Option<Codec> {
    if name == "gzip"@ {
        Some(Codec::Gzip)
    } else if name == "deflate"@ {
        Some(Codec::Deflate)
    } else if name == "zlib"@ {
        Some(Codec::Zlib)
    } else {
        None
    }
}

/// What a codec makes of `data` when it compresses.
pub open spec fn spec_compressed(codec: Codec, data: Seq<u8>) -> Result<Seq<u8>, IoError> {
    match codec {
        Codec::Gzip => gzip_compressed(data),
        Codec::Deflate => deflate_compressed(data),
        Codec::Zlib => zlib_compressed(data),
    }
}

/// What a codec makes of `data` when it decompresses.
pub open spec fn spec_decompressed(codec: Codec, data: Seq<u8>) -> Result<Seq<u8>, IoError> {
    match codec {
        Codec::Gzip => gzip_decompressed(data),
        Codec::Deflate => deflate_decompressed(data),
        Codec::Zlib => zlib_decompressed(data),
    }
}

/// What compressing by the encoding `encoding` gives: nothing for a name
/// that the hook does not know, else what the codec makes of the data.
pub open spec fn spec_try_compress(encoding: Seq<char>, data: Seq<u8>) -> Result<
    Option<Seq<u8>>,
    IoError,
> {
    match spec_codec(encoding) {
        None => Ok(None),
        Some(codec) => match spec_compressed(codec, data) {
            Ok(out) => Ok(Some(out)),
            Err(e) => Err(e),
        },
    }
}

/// What decompressing by the encoding `encoding` gives: nothing for a name
/// that the hook does not know, else what the codec makes of the data.
pub open spec fn spec_try_decompress(encoding: Seq<char>, data: Seq<u8>) -> Result<
    Option<Seq<u8>>,
    IoError,
> {
    match spec_codec(encoding) {
        None => Ok(None),
        Some(codec) => match spec_decompressed(codec, data) {
            Ok(out) => Ok(Some(out)),
            Err(e) => Err(e),
        },
    }
}

/// The first encoding that a client accepts and the hook knows: the names are
/// divided by commas and trimmed, and taken from `from` on. (A comma is never
/// found in front of `from`; that test is there to show that the search ends.)
pub open spec fn spec_choose(accept: Seq<char>, from: int) -> Option<(Seq<char>, Codec)>
    decreases accept.len() - from,
{
    if from < 0 || from > accept.len() {
        None
    } else {
        let comma = find_char(accept, ',', from);
        let name = spec_trim(accept.subrange(from, comma));
        match spec_codec(name) {
            Some(codec) => Some((name, codec)),
            None => if comma < from || comma >= accept.len() {
                None
            } else {
                spec_choose(accept, comma + 1)
            },
        }
    }
}

/// The request as it goes on once its body has been decompressed to `body`:
/// the encoding is no longer named, and the length is that of the new body.
pub open spec fn spec_decoded_request(request: RequestView, body: Seq<u8>) -> RequestView {
    RequestView {
        headers: spec_insert(
            spec_remove(request.headers, "Content-Encoding"@),
            "Content-Length"@,
            decimal(body.len()),
        ),
        body,
        ..request
    }
}

/// The codec that the body of a request must be decompressed with, if any.
pub open spec fn spec_request_codec(request: RequestView) -> Option<Codec> {
    match spec_get(request.headers, "Content-Encoding"@) {
        Some(name) => spec_codec(name),
        None => None,
    }
}

/// The response with `body` as its compressed body under the encoding `name`.
pub open spec fn spec_encoded_response(response: ResponseView, name: Seq<char>, body: Seq<u8>) -> ResponseView {
    spec_with_header(ResponseView { body, ..response }, "Content-Encoding"@, name)
}

/// The encoding that a response is compressed with: none for a body below
/// `min_size`, none where the request names no encoding that the hook knows.
pub open spec fn spec_response_encoding(
    min_size: usize,
    request: RequestView,
    response: ResponseView,
) -> Option<(Seq<char>, Codec)> {
    if response.body.len() >= min_size {
        match spec_get(request.headers, "Accept-Encoding"@) {
            Some(accept) => spec_choose(accept, 0),
            None => None,
        }
    } else {
        None
    }
}

/// The error that the hook answers with where a codec has failed with
/// `failure`: the failure, turned into the pipeline's error.
pub open spec fn spec_codec_error<E: From<IoError>>(
    failure: IoError,
    result: Result<ResponseView, E>,
) -> bool {
    result is Err && (E::obeys_from_spec() ==> result == Err::<ResponseView, E>(
        E::from_spec(failure),
    ))
}

/// What the hook makes of a response of the continuation: a response that
/// is to be compressed comes back with the compressed body and the name of
/// the encoding, or as an error where the codec fails; any other comes back
/// as it is.
pub open spec fn spec_outward<E: From<IoError>>(
    min_size: usize,
    inward: RequestView,
    response: ResponseView,
    result: Result<ResponseView, E>,
) -> bool {
    match spec_response_encoding(min_size, inward, response) {
        None => result == Ok::<ResponseView, E>(response),
        Some((name, codec)) => match spec_compressed(codec, response.body) {
            Ok(body) => result == Ok::<ResponseView, E>(
                spec_encoded_response(response, name, body),
            ),
            Err(failure) => spec_codec_error(failure, result),
        },
    }
}

/// What the hook answers once the request goes inward as `inward`: the
/// continuation is asked with it, an error of its own comes back as it is,
/// and a response comes back as [`spec_outward`] says.
pub open spec fn spec_forwarded<E: From<IoError>>(
    min_size: usize,
    inward: RequestView,
    next: Relation<E>,
    result: Result<ResponseView, E>,
) -> bool {
    exists|inner: Result<ResponseView, E>| #[trigger]
        next(inward, inner) && match inner {
            Err(e) => result == Err::<ResponseView, E>(e),
            Ok(response) => spec_outward(min_size, inward, response, result),
        }
}

/// Compresses `data` as a gzip stream.
///
/// This is `flate2::write::GzEncoder` at the default level, writing into a `Vec`: written
/// once and finished. What comes back, the stream or the kind of the
/// failure, depends on the data alone; the contract gives it the name
/// [`gzip_compressed`]. Of the kinds of failure, `UnexpectedEof` and `InvalidData`
/// are told apart and every other is `Other`.
#[verifier::external_body]
fn gzip_encode(data: &[u8]) -> (r: Result<Vec<u8>, IoError>)
    ensures
        coded(r) == gzip_compressed(data@),
{
    let mut codec = flate2::write::GzEncoder::new(Vec::new(), flate2::Compression::default());
    let done = match std::io::Write::write_all(&mut codec, data) {
        Ok(()) => codec.finish(),
        Err(e) => Err(e),
    };
    match done {
        Ok(out) => Ok(out),
        Err(e) => match e.kind() {
            std::io::ErrorKind::UnexpectedEof => Err(IoError::UnexpectedEof),
            std::io::ErrorKind::InvalidData => Err(IoError::InvalidData),
            _ => Err(IoError::Other),
        },
    }
}

/// Compresses `data` as a raw deflate stream.
///
/// This is `flate2::write::DeflateEncoder` at the default level, writing into a `Vec`: written
/// once and finished. What comes back, the stream or the kind of the
/// failure, depends on the data alone; the contract gives it the name
/// [`deflate_compressed`]. Of the kinds of failure, `UnexpectedEof` and `InvalidData`
/// are told apart and every other is `Other`.
#[verifier::external_body]
fn deflate_encode(data: &[u8]) -> (r: Result<Vec<u8>, IoError>)
    ensures
        coded(r) == deflate_compressed(data@),
{
    let mut codec = flate2::write::DeflateEncoder::new(Vec::new(), flate2::Compression::default());
    let done = match std::io::Write::write_all(&mut codec, data) {
        Ok(()) => codec.finish(),
        Err(e) => Err(e),
    };
    match done {
        Ok(out) => Ok(out),
        Err(e) => match e.kind() {
            std::io::ErrorKind::UnexpectedEof => Err(IoError::UnexpectedEof),
            std::io::ErrorKind::InvalidData => Err(IoError::InvalidData),
            _ => Err(IoError::Other),
        },
    }
}

/// Compresses `data` as a zlib stream.
///
/// This is `flate2::write::ZlibEncoder` at the default level, writing into a `Vec`: written
/// once and finished. What comes back, the stream or the kind of the
/// failure, depends on the data alone; the contract gives it the name
/// [`zlib_compressed`]. Of the kinds of failure, `UnexpectedEof` and `InvalidData`
/// are told apart and every other is `Other`.
#[verifier::external_body]
fn zlib_encode(data: &[u8]) -> (r: Result<Vec<u8>, IoError>)
    ensures
        coded(r) == zlib_compressed(data@),
{
    let mut codec = flate2::write::ZlibEncoder::new(Vec::new(), flate2::Compression::default());
    let done = match std::io::Write::write_all(&mut codec, data) {
        Ok(()) => codec.finish(),
        Err(e) => Err(e),
    };
    match done {
        Ok(out) => Ok(out),
        Err(e) => match e.kind() {
            std::io::ErrorKind::UnexpectedEof => Err(IoError::UnexpectedEof),
            std::io::ErrorKind::InvalidData => Err(IoError::InvalidData),
            _ => Err(IoError::Other),
        },
    }
}

/// Decompresses a gzip stream.
///
/// This is `flate2::write::GzDecoder`, writing into a `Vec`: written
/// once and finished. What comes back, the stream or the kind of the
/// failure, depends on the data alone; the contract gives it the name
/// [`gzip_decompressed`]. Of the kinds of failure, `UnexpectedEof` and `InvalidData`
/// are told apart and every other is `Other`.
#[verifier::external_body]
fn gzip_decode(data: &[u8]) -> (r: Result<Vec<u8>, IoError>)
    ensures
        coded(r) == gzip_decompressed(data@),
{
    let mut codec = flate2::write::GzDecoder::new(Vec::new());
    let done = match std::io::Write::write_all(&mut codec, data) {
        Ok(()) => codec.finish(),
        Err(e) => Err(e),
    };
    match done {
        Ok(out) => Ok(out),
        Err(e) => match e.kind() {
            std::io::ErrorKind::UnexpectedEof => Err(IoError::UnexpectedEof),
            std::io::ErrorKind::InvalidData => Err(IoError::InvalidData),
            _ => Err(IoError::Other),
        },
    }
}

/// Decompresses a raw deflate stream.
///
/// This is `flate2::write::DeflateDecoder`, writing into a `Vec`: written
/// once and finished. What comes back, the stream or the kind of the
/// failure, depends on the data alone; the contract gives it the name
/// [`deflate_decompressed`]. Of the kinds of failure, `UnexpectedEof` and `InvalidData`
/// are told apart and every other is `Other`.
#[verifier::external_body]
fn deflate_decode(data: &[u8]) -> (r: Result<Vec<u8>, IoError>)
    ensures
        coded(r) == deflate_decompressed(data@),
{
    let mut codec = flate2::write::DeflateDecoder::new(Vec::new());
    let done = match std::io::Write::write_all(&mut codec, data) {
        Ok(()) => codec.finish(),
        Err(e) => Err(e),
    };
    match done {
        Ok(out) => Ok(out),
        Err(e) => match e.kind() {
            std::io::ErrorKind::UnexpectedEof => Err(IoError::UnexpectedEof),
            std::io::ErrorKind::InvalidData => Err(IoError::InvalidData),
            _ => Err(IoError::Other),
        },
    }
}

/// Decompresses a zlib stream.
///
/// This is `flate2::write::ZlibDecoder`, writing into a `Vec`: written
/// once and finished. What comes back, the stream or the kind of the
/// failure, depends on the data alone; the contract gives it the name
/// [`zlib_decompressed`]. Of the kinds of failure, `UnexpectedEof` and `InvalidData`
/// are told apart and every other is `Other`.
#[verifier::external_body]
fn zlib_decode(data: &[u8]) -> (r: Result<Vec<u8>, IoError>)
    ensures
        coded(r) == zlib_decompressed(data@),
{
    let mut codec = flate2::write::ZlibDecoder::new(Vec::new());
    let done = match std::io::Write::write_all(&mut codec, data) {
        Ok(()) => codec.finish(),
        Err(e) => Err(e),
    };
    match done {
        Ok(out) => Ok(out),
        Err(e) => match e.kind() {
            std::io::ErrorKind::UnexpectedEof => Err(IoError::UnexpectedEof),
            std::io::ErrorKind::InvalidData => Err(IoError::InvalidData),
            _ => Err(IoError::Other),
        },
    }
}

/// The codec that an encoding name stands for.
pub fn codec_of(name: &str) -> (r: Option<Codec>)
    ensures
        r == spec_codec(name@),
{
    let name = name.to_owned();
    if name == "gzip".to_owned() {
        Some(Codec::Gzip)
    } else if name == "deflate".to_owned() {
        Some(Codec::Deflate)
    } else if name == "zlib".to_owned() {
        Some(Codec::Zlib)
    } else {
        proof {
            reveal_strlit("gzip");
            reveal_strlit("deflate");
            reveal_strlit("zlib");
        }
        None
    }
}

/// Compresses `data` by the encoding `encoding`, if the hook knows it.
/// Whether the codec succeeds, and what it gives, is the codec's to say.
pub fn try_compress(encoding: &str, data: &[u8]) -> (r: Result<Option<Vec<u8>>, IoError>)
    ensures
        tried(r) == spec_try_compress(encoding@, data@),
{
    let encoded = match codec_of(encoding) {
        None => { return Ok(None); },
        Some(Codec::Gzip) => gzip_encode(data),
        Some(Codec::Deflate) => deflate_encode(data),
        Some(Codec::Zlib) => zlib_encode(data),
    };
    match encoded {
        Ok(out) => Ok(Some(out)),
        Err(e) => Err(e),
    }
}

/// Decompresses `data` by the encoding `encoding`, if the hook knows it.
/// Whether the codec succeeds, and what it gives, is the codec's to say.
pub fn try_decompress(encoding: &str, data: &[u8]) -> (r: Result<Option<Vec<u8>>, IoError>)
    ensures
        tried(r) == spec_try_decompress(encoding@, data@),
{
    let decoded = match codec_of(encoding) {
        None => { return Ok(None); },
        Some(Codec::Gzip) => gzip_decode(data),
        Some(Codec::Deflate) => deflate_decode(data),
        Some(Codec::Zlib) => zlib_decode(data),
    };
    match decoded {
        Ok(out) => Ok(Some(out)),
        Err(e) => Err(e),
    }
}

/// The first encoding in an `Accept-Encoding` value that the hook knows.
pub fn choose_encoding(accept: &str) -> (r: Option<(String, Codec)>)
    ensures
        spec_choose(accept@, 0) == match r {
            Some((name, codec)) => Some((name@, codec)),
            None => None,
        },
        r matches Some((name, codec)) ==> spec_codec(name@) == Some(codec),
{
    let chars = chars_of(accept);
    let total: usize = chars.len();
    let mut from: usize = 0;
    loop
        invariant
            from <= total == chars@.len(),
            chars@ == accept@,
            spec_choose(accept@, 0) == spec_choose(accept@, from as int),
        decreases total - from,
    {
        let comma = find(chars.as_slice(), ',', from);
        let bounds = trim_bounds(chars.as_slice(), from, comma);
        let name = substring(accept, bounds.0, bounds.1);
        match codec_of(name.as_str()) {
            Some(codec) => {
                return Some((name, codec));
            },
            None => {
                if comma >= total {
                    return None;
                }
                from = comma + 1;
            },
        }
    }
}

/// The request as it goes on once its body has been decompressed to `body`.
pub fn decoded_request(request: &Request, body: Vec<u8>) -> (r: Request)
    ensures
        r@ == spec_decoded_request(request@, body@),
{
    let mut inward = request.clone();
    let length = usize_to_string(body.len());
    inward.body = body;
    inward.headers.remove("Content-Encoding");
    inward.headers.insert("Content-Length", length.as_str());
    inward
}

/// The response with `body` as its compressed body under the encoding `name`.
pub fn encoded_response(response: Response, name: &str, body: Vec<u8>) -> (r: Response)
    ensures
        r@ == spec_encoded_response(response@, name@, body@),
{
    let mut outward = response;
    outward.body = body;
    outward.with_header("Content-Encoding", name)
}

/// The compression hook. Responses with a body of fewer than `min_size`
/// bytes are left as they are.
#[derive(Debug, Clone, Copy, PartialEq, Eq, Structural)]
pub struct CompressMiddleware {
    pub min_size: usize,
}

impl<E: From<IoError>> Middleware<E> for CompressMiddleware {
    /// A request whose body is compressed by an encoding that the hook knows
    /// is decompressed first: where that fails, the failure is the answer and
    /// the continuation is not asked. The continuation is asked with the
    /// decompressed request, or with the request as it is, and its answer
    /// comes back as [`spec_forwarded`] says.
    open spec fn handles(
        &self,
        request: RequestView,
        next: Relation<E>,
        result: Result<ResponseView, E>,
    ) -> bool {
        match spec_request_codec(request) {
            None => spec_forwarded(self.min_size, request, next, result),
            Some(codec) => match spec_decompressed(codec, request.body) {
                Err(failure) => spec_codec_error(failure, result),
                Ok(body) => spec_forwarded(
                    self.min_size,
                    spec_decoded_request(request, body),
                    next,
                    result,
                ),
            },
        }
    }

    fn call<N: Next<E>>(&self, request: &Request, next: &N) -> (r: Result<Response, E>) {
        let inward: Option<Request> = match request.headers.get("Content-Encoding") {
            None => None,
            Some(encoding) => match try_decompress(encoding.as_str(), request.body.as_slice()) {
                Err(e) => { return Err(E::from(e)); },
                Ok(None) => None,
                Ok(Some(body)) => Some(decoded_request(request, body)),
            },
        };
        let seen: &Request = match &inward {
            Some(decoded) => decoded,
            None => request,
        };
        let inner = next.call(seen);
        proof {
            assert(relation(next)(seen@, outcome(inner)));
        }
        let response = match inner {
            Err(e) => { return Err(e); },
            Ok(response) => response,
        };
        let ghost plain = response@;
        let ghost encoding = spec_response_encoding(self.min_size, seen@, plain);
        if response.body.len() >= self.min_size {
            if let Some(accept) = seen.headers.get("Accept-Encoding") {
                if let Some((name, codec)) = choose_encoding(accept.as_str()) {
                    proof {
                        assert(encoding == Some((name@, codec)));
                    }
                    match try_compress(name.as_str(), response.body.as_slice()) {
                        Err(e) => {
                            let r = Err(E::from(e));
                            proof {
                                assert(spec_outward(self.min_size, seen@, plain, outcome(r)));
                            }
                            return r;
                        },
                        Ok(Some(body)) => {
                            let r = Ok(encoded_response(response, name.as_str(), body));
                            proof {
                                assert(spec_outward(self.min_size, seen@, plain, outcome(r)));
                            }
                            return r;
                        },
                        Ok(None) => {},
                    }
                }
            }
        }
        proof {
            assert(encoding is None);
        }
        let r = Ok(response);
        proof {
            assert(spec_outward(self.min_size, seen@, plain, outcome(r)));
        }
        r
    }
}

} // verus!
