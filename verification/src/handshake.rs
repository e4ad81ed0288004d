//! The upgrade handshake: from an HTTP request to the response that
//! completes the switch to the WebSocket protocol.

use base64::engine::general_purpose::STANDARD;
use base64::Engine;
use sha1::{Digest, Sha1};
use vstd::prelude::*;
use vstd::slice::{slice_subrange, slice_to_vec};
use vstd::string::*;
use crate::error::WsError;
use crate::scan::{contains, find, first_index, lemma_first_index_is_first};

verus! {

/// The SHA-1 digest of a byte sequence.
pub uninterp spec fn sha1_digest(data: Seq<u8>) -> Seq<u8>;

/// The base64 text of a byte sequence, in the standard alphabet with
/// padding, as bytes.
pub uninterp spec fn base64_standard(data: Seq<u8>) -> Seq<u8>;

/// Computes the SHA-1 digest of `data`.
///
/// Calls `sha1::Sha1::digest` (the one-shot form of `digest::Digest`). The
/// contract names the result and states its length: the output type of
/// `Sha1` is an array of 20 bytes.
#[verifier::external_body]
fn sha1(data: &[u8]) -> (digest: Vec<u8>)
    ensures
        digest@ == sha1_digest(data@),
        digest@.len() == 20,
{
    Sha1::digest(data).to_vec()
}

/// Encodes `data` as base64 in the standard alphabet with padding.
///
/// Calls `base64::Engine::encode` on `general_purpose::STANDARD`. The
/// contract names the result and states its length: four characters for
/// every three bytes begun, as the outside function sizes its buffer. The
/// outside function panics where the encoded length does not fit in
/// `usize`; the bound on the input keeps well clear of that on every
/// supported width.
#[verifier::external_body]
fn base64_encode(data: &[u8]) -> (text: Vec<u8>)
    requires
        data@.len() <= 0x3000_0000,
    ensures
        text@ == base64_standard(data@),
        text@.len() == 4 * ((data@.len() + 2) / 3),
{
    STANDARD.encode(data).into_bytes()
}

/// The literal that marks a request as an upgrade request.
pub open spec fn upgrade_marker() -> Seq<u8> {
    "Upgrade: websocket".spec_bytes()
}

/// The literal that introduces the client's key.
pub open spec fn key_header() -> Seq<u8> {
    "Sec-WebSocket-Key: ".spec_bytes()
}

/// The line break of HTTP.
pub open spec fn line_break() -> Seq<u8> {
    "\r\n".spec_bytes()
}

/// The constant that the protocol appends to the client's key.
pub open spec fn accept_magic() -> Seq<u8> {
    "258EAFA5-E914-47DA-95CA-C5AB0DC85B11".spec_bytes()
}

/// The response up to the accept value.
pub open spec fn response_prefix() -> Seq<u8> {
    "HTTP/1.1 101 Switching Protocols\r\nUpgrade: websocket\r\nConnection: Upgrade\r\nSec-WebSocket-Accept: ".spec_bytes()
}

/// What ends the response.
pub open spec fn response_suffix() -> Seq<u8> {
    "\r\n\r\n".spec_bytes()
}

/// The accept value for a client key: base64 of the SHA-1 digest of the
/// key followed by the protocol's constant.
pub open spec fn spec_accept_key(key: Seq<u8>) -> Seq<u8> {
    base64_standard(sha1_digest(key + accept_magic()))
}

/// The response that completes the upgrade for a client key.
pub open spec fn upgrade_response(key: Seq<u8>) -> Seq<u8> {
    response_prefix() + spec_accept_key(key) + response_suffix()
}

/// The client's key in a request: the bytes between the first key header
/// and the line break that follows it. Without the header the key is
/// missing; without the line break the request is malformed.
pub open spec fn spec_key(request: Seq<u8>) -> Result<Seq<u8>, WsError> {
    match first_index(request, key_header()) {
        None => Err(WsError::MissingKey),
        Some(i) => {
            let rest = request.skip(i + key_header().len());
            match first_index(rest, line_break()) {
                None => Err(WsError::InvalidUpgradeRequest),
                Some(j) => Ok(rest.take(j)),
            }
        },
    }
}

/// What the negotiator makes of a request: nothing where the request does
/// not ask for an upgrade, else the response for its key, or the error of
/// the key's extraction.
pub open spec fn spec_negotiate(request: Seq<u8>) -> Result<Option<Seq<u8>>, WsError> {
    if !contains(request, upgrade_marker()) {
        Ok(None)
    } else {
        match spec_key(request) {
            Ok(key) => Ok(Some(upgrade_response(key))),
            Err(e) => Err(e),
        }
    }
}

/// Computes the accept value for a client key. It has 28 bytes: the
/// base64 text of a digest of 20 bytes.
pub fn accept_key(key: &[u8]) -> (accept: Vec<u8>)
    ensures
        accept@ == spec_accept_key(key@),
        accept@.len() == 28,
{
    let mut data: Vec<u8> = slice_to_vec(key);
    data.extend_from_slice("258EAFA5-E914-47DA-95CA-C5AB0DC85B11".as_bytes());
    assert(data@ =~= key@ + accept_magic());
    let digest = sha1(data.as_slice());
    base64_encode(digest.as_slice())
}

/// Returns the response that completes the upgrade, around the given
/// accept value.
pub fn response_with(accept: &[u8]) -> (response: Vec<u8>)
    ensures
        response@ == response_prefix() + accept@ + response_suffix(),
{
    let mut response: Vec<u8> = slice_to_vec(
        "HTTP/1.1 101 Switching Protocols\r\nUpgrade: websocket\r\nConnection: Upgrade\r\nSec-WebSocket-Accept: ".as_bytes(),
    );
    response.extend_from_slice(accept);
    response.extend_from_slice("\r\n\r\n".as_bytes());
    response
}

/// Extracts the client's key from a request.
pub fn extract_key(request: &[u8]) -> (r: Result<Vec<u8>, WsError>)
    ensures
        match spec_key(request@) {
            Ok(key) => r matches Ok(k) && k@ == key,
            Err(e) => r matches Err(x) && x == e,
        },
{
    let header = "Sec-WebSocket-Key: ".as_bytes();
    let i: usize = match find(request, header) {
        Some(i) => i,
        None => {
            return Err(WsError::MissingKey);
        },
    };
    proof {
        lemma_first_index_is_first(request@, header@);
    }
    let total: usize = request.len();
    let start: usize = i + header.len();
    let rest = slice_subrange(request, start, total);
    assert(rest@ =~= request@.skip(start as int));
    let j: usize = match find(rest, "\r\n".as_bytes()) {
        Some(j) => j,
        None => {
            return Err(WsError::InvalidUpgradeRequest);
        },
    };
    proof {
        lemma_first_index_is_first(rest@, line_break());
    }
    let key = slice_subrange(rest, 0, j);
    assert(key@ =~= rest@.take(j as int));
    Ok(slice_to_vec(key))
}

/// Negotiates the upgrade for one request.
///
/// Returns `Ok(None)` where the request does not hold the upgrade marker,
/// the complete response where it does and its key can be read, and
/// `MissingKey` or `InvalidUpgradeRequest` where the key cannot be read.
pub fn negotiate(request: &[u8]) -> (r: Result<Option<Vec<u8>>, WsError>)
    ensures
        match spec_negotiate(request@) {
            Ok(Some(response)) => r matches Ok(Some(v)) && v@ == response,
            Ok(None) => r matches Ok(None),
            Err(e) => r matches Err(x) && x == e,
        },
{
    let marker = "Upgrade: websocket".as_bytes();
    if find(request, marker).is_none() {
        proof {
            lemma_first_index_is_first(request@, marker@);
        }
        return Ok(None);
    }
    let key = match extract_key(request) {
        Ok(key) => key,
        Err(e) => {
            return Err(e);
        },
    };
    let accept = accept_key(key.as_slice());
    let response = response_with(accept.as_slice());
    Ok(Some(response))
}

} // verus!
