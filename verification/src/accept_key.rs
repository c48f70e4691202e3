//! Derivation of the `Sec-WebSocket-Accept` value from the client's
//! `Sec-WebSocket-Key`, as RFC 6455 section 1.3 prescribes: the key is
//! followed by a fixed GUID, the whole is digested and the digest is written
//! in base64.
//!
//! The digest and the base64 text come from the `sha1` and `rustc_serialize`
//! crates. Their results are not restated here: each has a name, and the
//! contracts of this module say which bytes are handed to which.

use vstd::prelude::*;
use vstd::string::*;
use vstd::utf8::*;
use rustc_serialize::base64::{ToBase64, STANDARD};

verus! {

/// The GUID that RFC 6455 appends to the client's key before digesting.
pub const WEBSOCKET_GUID: &'static str = "258EAFA5-E914-47DA-95CA-C5AB0DC85B11";

/// The hasher counts the bits it has taken in 64 bits, so it can digest
/// fewer than 2^61 bytes.
pub const DIGEST_CAPACITY: u64 = 0x2000_0000_0000_0000;

/// `sha1::Sha1`, the hasher. Verus sees nothing inside it.
#[verifier::external_type_specification]
#[verifier::external_body]
pub struct ExSha1(sha1::Sha1);

/// `core::str::Utf8Error`, which is only ever dropped here.
#[verifier::external_type_specification]
#[verifier::external_body]
pub struct ExUtf8Error(core::str::Utf8Error);

/// The bytes that a hasher has been given since it was made, in order.
pub uninterp spec fn sha1_fed(hasher: sha1::Sha1) -> Seq<u8>;

/// The 20 bytes that `sha1::Sha1::output` writes for a hasher that was given
/// `data`. For a client key of 24 characters they are the SHA-1 digest. The
/// crate pads data whose length is 55 modulo 64 with one block more than
/// SHA-1 does, so at those lengths they are not.
pub uninterp spec fn sha1_digest(data: Seq<u8>) -> Seq<u8>;

/// The text that `to_base64` with the `STANDARD` configuration gives for
/// `bytes`.
pub uninterp spec fn base64_standard(bytes: Seq<u8>) -> Seq<char>;

/// Whether a character is one that base64 with the standard alphabet and
/// padding writes: a letter, a digit, `+`, `/` or `=`.
pub open spec fn is_base64_char(c: char) -> bool {
    ||| 'A' <= c <= 'Z'
    ||| 'a' <= c <= 'z'
    ||| '0' <= c <= '9'
    ||| c == '+'
    ||| c == '/'
    ||| c == '='
}

/// Whether a text has the shape of an accept value: the 28 characters that
/// base64 writes for 20 bytes.
pub open spec fn accept_shaped(text: Seq<char>) -> bool {
    &&& text.len() == 28
    &&& forall|i: int| 0 <= i < text.len() ==> is_base64_char(#[trigger] text[i])
}

/// `sha1::Sha1::new`: a fresh hasher has been given nothing.
pub assume_specification[ sha1::Sha1::new ]() -> (hasher: sha1::Sha1)
    ensures
        sha1_fed(hasher) == Seq::<u8>::empty(),
;

/// `sha1::Sha1::update`: the hasher takes `data` after what it already has.
/// It keeps the bytes of an unfinished block and digests full blocks in
/// order, so only the concatenation of what it was given matters. Its
/// running count of bytes is a `u64`.
pub assume_specification[ sha1::Sha1::update ](hasher: &mut sha1::Sha1, data: &[u8])
    requires
        sha1_fed(*old(hasher)).len() + data@.len() <= u64::MAX,
    ensures
        sha1_fed(*final(hasher)) == sha1_fed(*old(hasher)) + data@,
;

/// `sha1::Sha1::output` into a buffer of 20 bytes: the digest of what the
/// hasher was given. The hasher multiplies its byte count by 8 in a `u64`,
/// which the bound keeps from overflowing.
#[verifier::external_body]
fn sha1_output(hasher: &sha1::Sha1) -> (out: [u8; 20])
    requires
        sha1_fed(*hasher).len() < DIGEST_CAPACITY,
    ensures
        out@ == sha1_digest(sha1_fed(*hasher)),
{
    let mut buf: [u8; 20] = [0u8; 20];
    hasher.output(&mut buf);
    buf
}

/// `ToBase64::to_base64` on the bytes of a digest, with the crate's
/// `STANDARD` configuration. That configuration pads and breaks no lines,
/// so 20 bytes give four characters for each three bytes begun, 28 in all,
/// each from the standard alphabet or the padding `=`.
#[verifier::external_body]
fn digest_to_base64(digest: &[u8; 20]) -> (text: String)
    ensures
        text@ == base64_standard(digest@),
        accept_shaped(text@),
{
    digest.to_base64(STANDARD)
}

/// `core::str::from_utf8`: the bytes as text where they are valid UTF-8, an
/// error where they are not.
pub assume_specification[ core::str::from_utf8 ](bytes: &[u8]) -> (text: Result<
    &str,
    core::str::Utf8Error,
>)
    ensures
        text is Ok <==> valid_utf8(bytes@),
        text matches Ok(s) ==> s.spec_bytes() == bytes@,
;

/// The bytes as an owned text, where they are valid UTF-8.
pub fn text_of(bytes: &[u8]) -> (text: Option<String>)
    ensures
        text is Some <==> valid_utf8(bytes@),
        text matches Some(s) ==> s@ == decode_utf8(bytes@),
{
    match core::str::from_utf8(bytes) {
        Ok(s) => {
            proof {
                encode_utf8_decode_utf8(s@);
            }
            Some(String::from_str(s))
        },
        Err(_) => None,
    }
}

/// The bytes that are digested for a client key: the key as UTF-8, then the
/// GUID.
pub open spec fn accept_preimage(key: Seq<char>) -> Seq<u8> {
    encode_utf8(key) + encode_utf8(WEBSOCKET_GUID@)
}

/// The accept value that answers a client key.
pub open spec fn accept_value(key: Seq<char>) -> Seq<char> {
    base64_standard(sha1_digest(accept_preimage(key)))
}

/// Whether a key is short enough for the hasher.
pub open spec fn key_fits(key: Seq<char>) -> bool {
    accept_preimage(key).len() < DIGEST_CAPACITY
}

/// Derives the `Sec-WebSocket-Accept` value for a client key.
///
/// The digest is the `sha1` crate's. It is the SHA-1 digest except where the
/// key and the GUID together are 55 bytes modulo 64, as with a key of 19
/// bytes: there the crate pads one block more than SHA-1 does and the value
/// is not the one that RFC 6455 asks for. The key of a WebSocket client has
/// 24 bytes.
pub fn gen_key(key: &String) -> (accept: String)
    requires
        key_fits(key@),
    ensures
        accept@ == accept_value(key@),
        accept_shaped(accept@),
{
    let mut m = sha1::Sha1::new();
    m.update(key.as_str().as_bytes());
    m.update(WEBSOCKET_GUID.as_bytes());
    assert(sha1_fed(m) =~= accept_preimage(key@));
    let buf = sha1_output(&m);
    digest_to_base64(&buf)
}

/// Tells whether `gen_key` can take this key.
pub fn key_is_digestible(key: &String) -> (fits: bool)
    ensures
        fits == key_fits(key@),
{
    let key_len: u64 = key.as_str().as_bytes().len() as u64;
    let guid_len: u64 = WEBSOCKET_GUID.as_bytes().len() as u64;
    key_len < DIGEST_CAPACITY && guid_len < DIGEST_CAPACITY - key_len
}

/// Why no accept value can be derived.
#[derive(Clone, Copy, Debug, PartialEq, Eq, Structural)]
pub enum KeyError {
    /// The request carried no key.
    MissingKey,
    /// The key is no text, or is too long to be digested.
    Unusable,
}

/// Whether the bytes of a key can be answered: they are text, and short
/// enough to be digested.
pub open spec fn usable_key(key: Seq<u8>) -> bool {
    valid_utf8(key) && key_fits(decode_utf8(key))
}

/// What is derived from the bytes of the key that a request carried, if it
/// carried one.
pub open spec fn derived(key: Option<Seq<u8>>) -> Result<Seq<char>, KeyError> {
    match key {
        None => Err(KeyError::MissingKey),
        Some(bytes) => if usable_key(bytes) {
            Ok(accept_value(decode_utf8(bytes)))
        } else {
            Err(KeyError::Unusable)
        },
    }
}

/// The bytes of a key, if there is one.
pub open spec fn bytes_of(key: Option<&Vec<u8>>) -> Option<Seq<u8>> {
    match key {
        Some(bytes) => Some(bytes@),
        None => None,
    }
}

/// Derives the accept value from the key that a request carried. A request
/// without a key has none, and neither has one whose key cannot be used.
pub fn derive_accept(key: Option<&Vec<u8>>) -> (accept: Result<String, KeyError>)
    ensures
        match accept {
            Ok(text) => derived(bytes_of(key)) == Ok::<Seq<char>, KeyError>(text@) && accept_shaped(
                text@,
            ),
            Err(error) => derived(bytes_of(key)) == Err::<Seq<char>, KeyError>(error),
        },
{
    match key {
        None => Err(KeyError::MissingKey),
        Some(bytes) => match text_of(bytes.as_slice()) {
            None => Err(KeyError::Unusable),
            Some(text) => if key_is_digestible(&text) {
                Ok(gen_key(&text))
            } else {
                Err(KeyError::Unusable)
            },
        },
    }
}

} // verus!
