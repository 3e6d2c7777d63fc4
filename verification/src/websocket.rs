//! The client side of the WebSocket opening handshake (RFC 6455, section 4):
//! the random key, the upgrade request, the `Sec-WebSocket-Accept` value
//! that the server must answer with, and the check of the server's reply.

use crate::codec::{
    base64_encode, base64_len, base64_standard, is_base64_symbol, lemma_base64_shape, sha1,
    sha1_digest,
};
use crate::text::{contains_bytes, contains_bytes_spec};
use rand::Rng;
use vstd::prelude::*;
use vstd::string::StringSliceAdditionalSpecFns;
use vstd::utf8::encode_utf8;

verus! {

/// The GUID that RFC 6455 appends to the key before hashing.
pub const WEBSOCKET_GUID: &'static str = "258EAFA5-E914-47DA-95CA-C5AB0DC85B11";

/// Sixteen bytes from the thread-local random generator.
///
/// Calls `rand::rng()` and `Rng::random::<[u8; 16]>`. Nothing is promised of
/// the bytes: they are random.
#[verifier::external_body]
fn random_key_bytes() -> (bytes: [u8; 16]) {
    rand::rng().random()
}

/// A fresh `Sec-WebSocket-Key`: the Base64 text of 16 random bytes, 22
/// alphabet characters and `==`. Which bytes it encodes is fixed by the
/// text (`lemma_base64_injective`).
pub fn generate_websocket_key() -> (key: String)
    ensures
        exists|bytes: Seq<u8>| bytes.len() == 16 && key@ == base64_standard(bytes),
        key@.len() == 24,
        forall|i: int| 0 <= i < 22 ==> is_base64_symbol(#[trigger] key@[i]),
        key@[22] == '=',
        key@[23] == '=',
{
    let bytes = random_key_bytes();
    assert(bytes@.len() == 16);
    proof {
        lemma_base64_shape(bytes@);
    }
    base64_encode(bytes.as_slice())
}

/// The HTTP/1.1 upgrade request for `host` with the key `key`.
pub open spec fn handshake_request(host: Seq<char>, key: Seq<char>) -> Seq<char> {
    "GET / HTTP/1.1\r\nHost: "@ + host
        + "\r\nConnection: Upgrade\r\nUpgrade: websocket\r\nSec-WebSocket-Key: "@ + key
        + "\r\nSec-WebSocket-Version: 13\r\n\r\n"@
}

/// Writes the HTTP/1.1 upgrade request that opens a WebSocket to `host`.
pub fn build_websocket_handshake_request(host: &str, key: &str) -> (request: String)
    ensures
        request@ == handshake_request(host@, key@),
{
    let mut request = String::from_str("GET / HTTP/1.1\r\nHost: ");
    request.append(host);
    request.append("\r\nConnection: Upgrade\r\nUpgrade: websocket\r\nSec-WebSocket-Key: ");
    request.append(key);
    request.append("\r\nSec-WebSocket-Version: 13\r\n\r\n");
    request
}

/// The bytes that are hashed for the accept value of `key`: its UTF-8 bytes
/// followed by those of the GUID.
pub open spec fn accept_input(key: Seq<char>) -> Seq<u8> {
    encode_utf8(key) + encode_utf8(WEBSOCKET_GUID@)
}

/// The `Sec-WebSocket-Accept` value that answers `key`: the Base64 text of
/// the SHA-1 digest of the key followed by the GUID.
pub open spec fn websocket_accept(key: Seq<char>) -> Seq<char> {
    base64_standard(sha1_digest(accept_input(key)))
}

/// Computes the `Sec-WebSocket-Accept` value that answers `key`: 27
/// alphabet characters and `=`, the Base64 text of a 20-byte digest.
pub fn calculate_websocket_accept(key: &str) -> (accept: String)
    ensures
        accept@ == websocket_accept(key@),
        accept@ == base64_standard(sha1_digest(key.spec_bytes() + WEBSOCKET_GUID.spec_bytes())),
        accept@.len() == 28,
        forall|i: int| 0 <= i < 27 ==> is_base64_symbol(#[trigger] accept@[i]),
        accept@[27] == '=',
{
    let mut input = key.as_bytes_vec();
    input.extend_from_slice(WEBSOCKET_GUID.as_bytes());
    assert(input@ =~= accept_input(key@));
    let digest = sha1(input.as_slice());
    assert(base64_len(20) == 28);
    proof {
        lemma_base64_shape(digest@);
    }
    base64_encode(digest.as_slice())
}

/// Whether the server's reply to the upgrade request carries the accept
/// value for `key` anywhere in it (compared byte for byte).
pub fn handshake_accepted(response: &str, key: &str) -> (accepted: bool)
    ensures
        accepted == contains_bytes_spec(
            response.spec_bytes(),
            encode_utf8(websocket_accept(key@)),
        ),
        accepted == contains_bytes_spec(
            response.spec_bytes(),
            encode_utf8(
                base64_standard(sha1_digest(key.spec_bytes() + WEBSOCKET_GUID.spec_bytes())),
            ),
        ),
{
    let expected_accept = calculate_websocket_accept(key);
    contains_bytes(response.as_bytes(), expected_accept.as_str().as_bytes())
}

/// The accept value hashes the key's own UTF-8 bytes, unchanged and in
/// order, followed by the bytes of the RFC 6455 GUID.
pub proof fn lemma_accept_hashes_key_bytes(key: Seq<char>)
    ensures
        accept_input(key).take(encode_utf8(key).len() as int) == encode_utf8(key),
        accept_input(key).skip(encode_utf8(key).len() as int) == encode_utf8(
            "258EAFA5-E914-47DA-95CA-C5AB0DC85B11"@,
        ),
        websocket_accept(key) == base64_standard(
            sha1_digest(encode_utf8(key) + encode_utf8("258EAFA5-E914-47DA-95CA-C5AB0DC85B11"@)),
        ),
{
    let k = encode_utf8(key);
    let g = encode_utf8(WEBSOCKET_GUID@);
    assert((k + g).take(k.len() as int) =~= k);
    assert((k + g).skip(k.len() as int) =~= g);
}

/// A reply that carries the accept value for `key` between any text before
/// and after it passes the handshake check.
pub proof fn lemma_reply_with_accept_passes(before: Seq<u8>, key: Seq<char>, after: Seq<u8>)
    ensures
        contains_bytes_spec(
            before + encode_utf8(websocket_accept(key)) + after,
            encode_utf8(websocket_accept(key)),
        ),
{
    let accept = encode_utf8(websocket_accept(key));
    let reply = before + accept + after;
    assert(reply.subrange(before.len() as int, before.len() + accept.len() as int) =~= accept);
    assert(crate::text::occurs_at(reply, accept, before.len() as int));
}

/// What a read from the TLS stream returned.
#[derive(Debug, PartialEq, Eq, Structural)]
pub enum ReadOutcome {
    /// This many bytes arrived.
    Data(usize),
    /// The server closed the connection.
    Closed,
    /// The read failed.
    Failed,
}

/// Sorts the return value of a TLS read: a positive count of bytes, zero
/// for a closed connection, a negative value for an error.
pub fn classify_read(received: i32) -> (outcome: ReadOutcome)
    ensures
        received > 0 ==> outcome == ReadOutcome::Data(received as usize),
        received == 0 ==> outcome == ReadOutcome::Closed,
        received < 0 ==> outcome == ReadOutcome::Failed,
{
    if received > 0 {
        ReadOutcome::Data(received as usize)
    } else if received == 0 {
        ReadOutcome::Closed
    } else {
        ReadOutcome::Failed
    }
}

} // verus!
