//! The opening handshake: the HTTP exchange that turns a connection over to
//! the WebSocket protocol.

use vstd::prelude::*;
use vstd::string::*;
use vstd::utf8::encode_utf8;

use crate::http::header::spec_get;
use crate::http::request::{Request, RequestView};
use crate::http::response::{spec_new, spec_with_header, Response, ResponseView};
use crate::middleware::{outcome, relation, Middleware, Next, Relation};

verus! {

/// The SHA-1 digest of `data`: twenty bytes.
pub uninterp spec fn sha1_digest(data: Seq<u8>) -> Seq<u8>;

/// The base64 form of `data` in the standard alphabet, padded.
pub uninterp spec fn base64_standard(data: Seq<u8>) -> Seq<char>;

/// The longest key, in bytes, that the handshake accepts. Longer input would
/// overflow the bit count of the digest.
pub const MAX_KEY_LEN: u64 = 0x0fff_ffff_ffff_ff00;

/// The constant that every key is joined with before it is hashed.
pub open spec fn spec_guid() -> Seq<char> {
    "258EAFA5-E914-47DA-95CA-C5AB0DC85B11"@
}

/// The value of `Sec-WebSocket-Accept` that answers `key`: the base64 form of
/// the SHA-1 digest of the key joined with the constant.
pub open spec fn spec_accept_key(key: Seq<char>) -> Seq<char> {
    base64_standard(sha1_digest(encode_utf8(key + spec_guid())))
}

/// The response that completes the handshake with the given accept value.
pub open spec fn spec_upgrade_response(accept: Seq<char>) -> ResponseView {
    spec_with_header(
        spec_with_header(
            spec_with_header(
                spec_with_header(
                    spec_new("101"@, "Switching Protocols"@),
                    "Upgrade"@,
                    "websocket"@,
                ),
                "Connection"@,
                "Upgrade"@,
            ),
            "Sec-WebSocket-Accept"@,
            accept,
        ),
        "Sec-WebSocket-Version"@,
        "13"@,
    )
}

/// Whether a request asks for the WebSocket protocol.
pub open spec fn spec_wants_upgrade(request: RequestView) -> bool {
    spec_get(request.headers, "Upgrade"@) == Some("websocket"@)
}

/// Whether a key can be answered: it is not longer than [`MAX_KEY_LEN`].
pub open spec fn spec_key_fits(key: Seq<char>) -> bool {
    encode_utf8(key).len() <= MAX_KEY_LEN
}

/// How the handshake answers a request, if it answers it: a request that
/// asks for the upgrade gets `101` with the accept value of its key, or `400`
/// where it has no key that can be answered. Other requests are not for the
/// handshake.
pub open spec fn spec_handshake(request: RequestView) -> Option<ResponseView> {
    if spec_wants_upgrade(request) {
        match spec_get(request.headers, "Sec-WebSocket-Key"@) {
            Some(key) => if spec_key_fits(key) {
                Some(spec_upgrade_response(spec_accept_key(key)))
            } else {
                Some(spec_new("400"@, "Bad Request"@))
            },
            None => Some(spec_new("400"@, "Bad Request"@)),
        }
    } else {
        None
    }
}

/// Hashes `data` with SHA-1.
///
/// This is `sha1_smol::Sha1::from`, `digest` and `Digest::bytes`. The digest
/// depends on the data alone; the contract gives it the name [`sha1_digest`]
/// and states its length, which the return type fixes. Input of 2^61 bytes or
/// more is left out: the bit count would overflow.
#[verifier::external_body]
fn sha1(data: &[u8]) -> (r: Vec<u8>)
    requires
        data@.len() < 0x1000_0000_0000_0000,
    ensures
        r@ == sha1_digest(data@),
        r@.len() == 20,
{
    sha1_smol::Sha1::from(data).digest().bytes().to_vec()
}

/// Encodes a digest as base64.
///
/// This is `base64::Engine::encode` on the engine `STANDARD`. The text
/// depends on the bytes alone; the contract gives it the name
/// [`base64_standard`]. The call panics where the length of the text would
/// overflow, which twenty bytes cannot cause.
#[verifier::external_body]
fn base64_encode(data: &[u8]) -> (r: String)
    requires
        data@.len() == 20,
    ensures
        r@ == base64_standard(data@),
{
    base64::Engine::encode(&base64::engine::general_purpose::STANDARD, data)
}

/// The value of `Sec-WebSocket-Accept` that answers `key`.
pub fn accept_key(key: &str) -> (r: String)
    requires
        spec_key_fits(key@),
    ensures
        r@ == spec_accept_key(key@),
{
    let mut joined = key.to_owned();
    joined.append("258EAFA5-E914-47DA-95CA-C5AB0DC85B11");
    let bytes = joined.as_str().as_bytes_vec();
    proof {
        lemma_joined_len(key@);
    }
    let digest = sha1(bytes.as_slice());
    base64_encode(digest.as_slice())
}

/// Joining the constant to a key adds 36 bytes.
proof fn lemma_joined_len(key: Seq<char>)
    ensures
        encode_utf8(key + spec_guid()).len() == encode_utf8(key).len() + 36,
{
    reveal_strlit("258EAFA5-E914-47DA-95CA-C5AB0DC85B11");
    let guid = spec_guid();
    assert(guid.len() == 36);
    vstd::utf8::is_ascii_chars_encode_utf8(guid);
    lemma_encode_concat(key, guid);
}

/// The UTF-8 form of two texts joined is their UTF-8 forms joined.
pub proof fn lemma_encode_concat(a: Seq<char>, b: Seq<char>)
    ensures
        encode_utf8(a + b) == encode_utf8(a) + encode_utf8(b),
    decreases a.len(),
{
    if a.len() == 0 {
        assert(a + b =~= b);
        assert(encode_utf8(a) =~= Seq::<u8>::empty());
        assert(encode_utf8(a) + encode_utf8(b) =~= encode_utf8(b));
    } else {
        assert((a + b).drop_first() =~= a.drop_first() + b);
        lemma_encode_concat(a.drop_first(), b);
        assert((a + b)[0] == a[0]);
    }
}

/// The response that completes the handshake with the given accept value.
pub fn upgrade_response(accept: &str) -> (r: Response)
    ensures
        r@ == spec_upgrade_response(accept@),
{
    Response::new("101", "Switching Protocols").with_header("Upgrade", "websocket").with_header(
        "Connection",
        "Upgrade",
    ).with_header("Sec-WebSocket-Accept", accept).with_header("Sec-WebSocket-Version", "13")
}

/// Answers a request that asks for the upgrade; returns nothing for others.
pub fn handshake(request: &Request) -> (r: Option<Response>)
    ensures
        spec_handshake(request@) == match r {
            Some(response) => Some(response@),
            None => None,
        },
{
    let wants: bool = match request.headers.get("Upgrade") {
        Some(value) => *value == "websocket".to_owned(),
        None => false,
    };
    if !wants {
        return None;
    }
    match request.headers.get("Sec-WebSocket-Key") {
        None => Some(Response::new("400", "Bad Request")),
        Some(key) => {
            if key.as_str().as_bytes().len() as u64 <= MAX_KEY_LEN {
                let accept = accept_key(key.as_str());
                Some(upgrade_response(accept.as_str()))
            } else {
                Some(Response::new("400", "Bad Request"))
            }
        },
    }
}

/// The middleware that performs the opening handshake. Requests that do not
/// ask for the upgrade pass through unchanged.
#[derive(Debug, Clone, Copy, PartialEq, Eq, Structural)]
pub struct WebSocketHandshakeMiddleware;

impl<E> Middleware<E> for WebSocketHandshakeMiddleware {
    open spec fn handles(
        &self,
        request: RequestView,
        next: Relation<E>,
        result: Result<ResponseView, E>,
    ) -> bool {
        match spec_handshake(request) {
            Some(response) => result == Ok::<ResponseView, E>(response),
            None => next(request, result),
        }
    }

    fn call<N: Next<E>>(&self, request: &Request, next: &N) -> (r: Result<Response, E>) {
        match handshake(request) {
            Some(response) => Ok(response),
            None => {
                let r = next.call(request);
                proof {
                    assert(relation(next)(request@, outcome(r)));
                }
                r
            },
        }
    }
}

} // verus!
