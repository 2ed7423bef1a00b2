use vstd::prelude::*;
use base64::engine::general_purpose::URL_SAFE_NO_PAD;
use base64::Engine;
use chacha20poly1305::aead::{Aead, KeyInit};
use chacha20poly1305::{Key, XChaCha20Poly1305, XNonce};
use rand::RngCore;

verus! {

/// The number of bytes of a nonce.
pub const NONCE_LEN: usize = 24;

/// The number of bytes of a master key.
pub const KEY_LEN: usize = 32;

/// The plaintexts that the cipher accepts are shorter than this: the block
/// counter of the stream cipher has 32 bits and a block is 64 bytes.
pub open spec fn seal_limit() -> int {
    274877906880
}

/// Decryption failed: bad text encoding, a truncated input, or a ciphertext
/// that does not authenticate under the key.
#[derive(Clone, Copy, Debug, PartialEq, Eq, Structural)]
pub struct DecryptionError;

/// Encryption failed: the plaintext is too long for the cipher.
#[derive(Clone, Copy, Debug, PartialEq, Eq, Structural)]
pub struct EncryptionError;

#[verifier::external_type_specification]
#[verifier::external_body]
pub struct ExAeadError(chacha20poly1305::Error);

#[verifier::external_type_specification]
#[verifier::external_body]
pub struct ExDecodeError(base64::DecodeError);

/// The ciphertext and tag that XChaCha20-Poly1305 gives for a key, a nonce and a plaintext.
pub uninterp spec fn xchacha_seal(key: Seq<u8>, nonce: Seq<u8>, plaintext: Seq<u8>) -> Seq<u8>;

/// What XChaCha20-Poly1305 decryption gives for a key, a nonce and a ciphertext with tag.
pub uninterp spec fn xchacha_open(key: Seq<u8>, nonce: Seq<u8>, ciphertext: Seq<u8>) -> Option<Seq<u8>>;

/// The URL-safe base64 text of some bytes, without padding.
pub uninterp spec fn b64_url_encoded(b: Seq<u8>) -> Seq<char>;

/// The bytes that URL-safe unpadded base64 decoding gives for a text, if any.
pub uninterp spec fn b64_url_decoded(s: Seq<char>) -> Option<Seq<u8>>;

/// The stored text for a plaintext sealed under `key` with `nonce`: the nonce
/// followed by ciphertext and tag, in URL-safe unpadded base64.
pub open spec fn sealed_text(key: Seq<u8>, nonce: Seq<u8>, plaintext: Seq<u8>) -> Seq<char> {
    b64_url_encoded(nonce + xchacha_seal(key, nonce, plaintext))
}

/// What decryption of a stored text under `key` gives.
pub open spec fn opened(key: Seq<u8>, text: Seq<char>) -> Result<Seq<u8>, DecryptionError> {
    match b64_url_decoded(text) {
        None => Err(DecryptionError),
        Some(data) => if data.len() < NONCE_LEN {
            Err(DecryptionError)
        } else {
            match xchacha_open(key, data.take(NONCE_LEN as int), data.skip(NONCE_LEN as int)) {
                Some(p) => Ok(p),
                None => Err(DecryptionError),
            }
        },
    }
}

/// The stored text is one that encryption of `plaintext` under `key` gave.
pub open spec fn encrypt_post(key: Seq<u8>, plaintext: Seq<u8>, r: Result<String, EncryptionError>) -> bool {
    &&& (r is Ok <==> plaintext.len() < seal_limit())
    &&& (r is Ok ==> exists|n: Seq<u8>| n.len() == NONCE_LEN && r->Ok_0@ == sealed_text(key, n, plaintext))
}

/// The result of decrypting `text` under `key` is what `opened` says, and the
/// text of a plaintext sealed under the same key opens to that plaintext.
pub open spec fn decrypt_post(key: Seq<u8>, text: Seq<char>, r: Result<Vec<u8>, DecryptionError>) -> bool {
    &&& match r {
        Ok(p) => opened(key, text) == Ok::<Seq<u8>, DecryptionError>(p@),
        Err(e) => opened(key, text) == Err::<Seq<u8>, DecryptionError>(e),
    }
    &&& forall|n: Seq<u8>, p: Seq<u8>|
        n.len() == NONCE_LEN && p.len() < seal_limit() && text == #[trigger] sealed_text(key, n, p)
            ==> r is Ok && r->Ok_0@ == p
}

/// Relies on `Engine::encode` of base64's URL_SAFE_NO_PAD engine.
#[verifier::external_body]
fn url_encode(b: &[u8]) -> (r: String)
    ensures
        r@ == b64_url_encoded(b@),
{
    URL_SAFE_NO_PAD.encode(b)
}

/// Relies on `Engine::decode` of base64's URL_SAFE_NO_PAD engine: a text that
/// the engine's own `encode` gave decodes to the bytes it was made from.
#[verifier::external_body]
fn url_decode(s: &str) -> (r: Result<Vec<u8>, base64::DecodeError>)
    ensures
        r is Ok <==> b64_url_decoded(s@) is Some,
        r is Ok ==> r->Ok_0@ == b64_url_decoded(s@)->0,
        forall|b: Seq<u8>| s@ == #[trigger] b64_url_encoded(b) ==> (r is Ok && r->Ok_0@ == b),
{
    URL_SAFE_NO_PAD.decode(s)
}

/// Relies on `Aead::encrypt` of XChaCha20Poly1305, which fails only when the
/// plaintext holds `seal_limit()` bytes or more.
#[verifier::external_body]
fn xchacha_encrypt(key: &[u8; 32], nonce: &[u8; 24], plaintext: &[u8]) -> (r: Result<Vec<u8>, chacha20poly1305::Error>)
    ensures
        r is Ok <==> plaintext@.len() < seal_limit(),
        r is Ok ==> r->Ok_0@ == xchacha_seal(key@, nonce@, plaintext@),
{
    let cipher = XChaCha20Poly1305::new(Key::from_slice(key));
    cipher.encrypt(XNonce::from_slice(nonce), plaintext)
}

/// Relies on `Aead::decrypt` of XChaCha20Poly1305: what its `encrypt` gave
/// under the same key and nonce decrypts to the plaintext.
#[verifier::external_body]
fn xchacha_decrypt(key: &[u8; 32], nonce: &[u8], ciphertext: &[u8]) -> (r: Result<Vec<u8>, chacha20poly1305::Error>)
    requires
        nonce@.len() == NONCE_LEN,
    ensures
        r is Ok <==> xchacha_open(key@, nonce@, ciphertext@) is Some,
        r is Ok ==> r->Ok_0@ == xchacha_open(key@, nonce@, ciphertext@)->0,
        forall|p: Seq<u8>|
            p.len() < seal_limit() && ciphertext@ == #[trigger] xchacha_seal(key@, nonce@, p)
                ==> (r is Ok && r->Ok_0@ == p),
{
    let cipher = XChaCha20Poly1305::new(Key::from_slice(key));
    cipher.decrypt(XNonce::from_slice(nonce), ciphertext)
}

/// Relies on rand's thread-local generator, a cryptographically secure one,
/// for a fresh nonce.
#[verifier::external_body]
fn random_nonce() -> (r: [u8; 24]) {
    let mut n = [0u8; 24];
    rand::rng().fill_bytes(&mut n);
    n
}

/// Seals `plaintext` under `key` with the given nonce and encodes nonce,
/// ciphertext and tag as URL-safe unpadded base64 text.
pub fn encrypt_with_nonce(key: &[u8; 32], nonce: &[u8; 24], plaintext: &[u8]) -> (r: Result<String, EncryptionError>)
    ensures
        r is Ok <==> plaintext@.len() < seal_limit(),
        r is Ok ==> r->Ok_0@ == sealed_text(key@, nonce@, plaintext@),
{
    match xchacha_encrypt(key, nonce, plaintext) {
        Err(_) => Err(EncryptionError),
        Ok(ct) => {
            let mut combined: Vec<u8> = Vec::new();
            let mut i: usize = 0;
            while i < NONCE_LEN
                invariant
                    0 <= i <= NONCE_LEN,
                    combined@ == nonce@.take(i as int),
                decreases NONCE_LEN - i,
            {
                combined.push(nonce[i]);
                i = i + 1;
            }
            let mut j: usize = 0;
            while j < ct.len()
                invariant
                    0 <= j <= ct@.len(),
                    combined@ == nonce@ + ct@.take(j as int),
                decreases ct.len() - j,
            {
                combined.push(ct[j]);
                j = j + 1;
            }
            assert(ct@.take(ct@.len() as int) == ct@);
            Ok(url_encode(combined.as_slice()))
        },
    }
}

/// Encrypts `plaintext` under `key` with a fresh random nonce.
pub fn encrypt_config(key: &[u8; 32], plaintext: &[u8]) -> (r: Result<String, EncryptionError>)
    ensures
        encrypt_post(key@, plaintext@, r),
{
    let nonce = random_nonce();
    encrypt_with_nonce(key, &nonce, plaintext)
}

/// Decodes a stored text, splits off the nonce, and authenticates and decrypts
/// the rest under `key`.
pub fn decrypt_config(key: &[u8; 32], ciphertext_b64: &str) -> (r: Result<Vec<u8>, DecryptionError>)
    ensures
        decrypt_post(key@, ciphertext_b64@, r),
{
    let data = match url_decode(ciphertext_b64) {
        Ok(d) => d,
        Err(_) => return Err(DecryptionError),
    };
    if data.len() < NONCE_LEN {
        return Err(DecryptionError);
    }
    let (nonce, ct) = data.as_slice().split_at(NONCE_LEN);
    assert(nonce@ == data@.take(NONCE_LEN as int));
    assert(ct@ == data@.skip(NONCE_LEN as int));
    let r = match xchacha_decrypt(key, nonce, ct) {
        Ok(p) => Ok(p),
        Err(_) => Err(DecryptionError),
    };
    assert forall|n: Seq<u8>, p: Seq<u8>|
        n.len() == NONCE_LEN && p.len() < seal_limit() && ciphertext_b64@ == #[trigger] sealed_text(key@, n, p)
            implies r is Ok && r->Ok_0@ == p by {
        let whole = n + xchacha_seal(key@, n, p);
        assert(data@ == whole);
        assert(whole.take(NONCE_LEN as int) =~= n);
        assert(whole.skip(NONCE_LEN as int) =~= xchacha_seal(key@, n, p));
    }
    r
}

/// Decrypting under a key what encryption under that key gave returns the
/// plaintext, for every plaintext that the cipher accepts.
pub proof fn lemma_round_trip(
    key: Seq<u8>,
    plaintext: Seq<u8>,
    sealed: Result<String, EncryptionError>,
    text: Seq<char>,
    opened_result: Result<Vec<u8>, DecryptionError>,
)
    requires
        plaintext.len() < seal_limit(),
        encrypt_post(key, plaintext, sealed),
        text == sealed->Ok_0@,
        decrypt_post(key, text, opened_result),
    ensures
        sealed is Ok,
        opened_result is Ok,
        opened_result->Ok_0@ == plaintext,
{
    let n = choose|n: Seq<u8>| n.len() == NONCE_LEN && sealed->Ok_0@ == sealed_text(key, n, plaintext);
    assert(text == sealed_text(key, n, plaintext));
}

} // verus!
