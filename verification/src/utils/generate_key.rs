use crate::utils::byte_buffer::push_range;
use crate::websocket_types::WEBSOCKET_GUID;
use vstd::prelude::*;
use vstd::utf8::encode_utf8;

verus! {

/// The SHA-1 digest of a byte string.
pub uninterp spec fn sha1_digest(data: Seq<u8>) -> Seq<u8>;

/// The Base64 text of a byte string, in the standard alphabet with padding.
pub uninterp spec fn base64_standard(data: Seq<u8>) -> Seq<char>;

/// `sha1::Digest::digest` on `sha1::Sha1`: the SHA-1 digest of `data`,
/// which is always twenty bytes long. Nothing more is known here of what the
/// digest holds.
#[verifier::external_body]
fn sha1_of(data: &[u8]) -> (digest: Vec<u8>)
    ensures
        digest@ == sha1_digest(data@),
        digest@.len() == 20,
{
    <sha1::Sha1 as sha1::Digest>::digest(data).to_vec()
}

/// `base64::Engine::encode` on `base64::engine::general_purpose::STANDARD`:
/// the Base64 text of `data`. The call panics where the length of the text
/// does not fit a `usize`, which the precondition leaves out.
#[verifier::external_body]
fn base64_of(data: &[u8]) -> (text: String)
    requires
        (data@.len() / 3) * 4 + 4 <= usize::MAX,
    ensures
        text@ == base64_standard(data@),
{
    base64::Engine::encode(&base64::engine::general_purpose::STANDARD, data)
}

/// `rand::thread_rng` and `rand::RngCore::fill_bytes`: sixteen bytes from the
/// thread's random number generator. Nothing is known of them. The call
/// panics where the operating system gives the generator no seed, which no
/// argument decides.
#[verifier::external_body]
fn random_nonce() -> (bytes: [u8; 16]) {
    let mut rng = rand::thread_rng();
    let mut bytes = [0u8; 16];
    rand::RngCore::fill_bytes(&mut rng, &mut bytes);
    bytes
}

/// The value of `Sec-WebSocket-Accept` that answers the key `key`: the
/// Base64 text of the SHA-1 digest of the key followed by the protocol's
/// fixed identifier.
pub open spec fn accept_of(key: Seq<char>) -> Seq<char> {
    base64_standard(sha1_digest(encode_utf8(key) + encode_utf8(WEBSOCKET_GUID@)))
}

/// The handshake key that stands for a nonce of sixteen bytes.
pub fn key_from_nonce(nonce: &[u8; 16]) -> (key: String)
    ensures
        key@ == base64_standard(nonce@),
{
    base64_of(nonce.as_slice())
}

/// A fresh handshake key: the Base64 text of sixteen random bytes.
pub fn generate_key() -> (key: String)
    ensures
        exists|nonce: Seq<u8>| nonce.len() == 16 && key@ == #[trigger] base64_standard(nonce),
{
    let random_bytes: [u8; 16] = random_nonce();
    let key: String = key_from_nonce(&random_bytes);
    key
}

/// The value of `Sec-WebSocket-Accept` that proves to the client that its
/// key was understood.
pub fn generate_accept(key: String) -> (accept: String)
    ensures
        accept@ == accept_of(key@),
{
    let mut key_concatenate: Vec<u8> = Vec::new();
    let key_bytes: &[u8] = key.as_str().as_bytes();
    push_range(&mut key_concatenate, key_bytes, 0, key_bytes.len());
    let guid_bytes: &[u8] = WEBSOCKET_GUID.as_bytes();
    push_range(&mut key_concatenate, guid_bytes, 0, guid_bytes.len());
    assert(key_bytes@.subrange(0, key_bytes@.len() as int) =~= key_bytes@);
    assert(guid_bytes@.subrange(0, guid_bytes@.len() as int) =~= guid_bytes@);
    let hashed: Vec<u8> = sha1_of(key_concatenate.as_slice());
    base64_of(hashed.as_slice())
}

} // verus!
