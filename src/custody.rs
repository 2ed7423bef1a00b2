use vstd::prelude::*;
use base64::engine::general_purpose::STANDARD;
use base64::Engine;
use rand::RngCore;
use crate::cipher::KEY_LEN;

verus! {

/// Why the master key could not be had from its record.
#[derive(Clone, Copy, Debug, PartialEq, Eq, Structural)]
pub enum CustodyError {
    /// No key record is present.
    Read,
    /// A key record is present but is not the base64 text of 32 bytes.
    Format,
}

/// What the configuration directory holds: the text of the key record and
/// the text of the encrypted blob, each absent when its file is.
pub struct ConfigFiles {
    pub key_record: Option<String>,
    pub blob: Option<String>,
}

/// The text of an optional file.
pub open spec fn text_of(o: Option<String>) -> Option<Seq<char>> {
    match o {
        Some(s) => Some(s@),
        None => None,
    }
}

/// The standard padded base64 text of some bytes.
pub uninterp spec fn b64_std_encoded(b: Seq<u8>) -> Seq<char>;

/// The bytes that standard padded base64 decoding gives for a text, if any.
pub uninterp spec fn b64_std_decoded(s: Seq<char>) -> Option<Seq<u8>>;

/// A text without its leading and trailing white space.
pub uninterp spec fn trimmed(s: Seq<char>) -> Seq<char>;

/// The master key that a key record holds.
pub open spec fn key_from_record(record: Option<Seq<char>>) -> Result<Seq<u8>, CustodyError> {
    match record {
        None => Err(CustodyError::Read),
        Some(s) => match b64_std_decoded(trimmed(s)) {
            Some(b) => if b.len() == KEY_LEN {
                Ok(b)
            } else {
                Err(CustodyError::Format)
            },
            None => Err(CustodyError::Format),
        },
    }
}

/// The view of a key result.
pub open spec fn key_result(r: Result<[u8; 32], CustodyError>) -> Result<Seq<u8>, CustodyError> {
    match r {
        Ok(k) => Ok(k@),
        Err(e) => Err(e),
    }
}

/// An existing key record is kept; a missing one is replaced by the record
/// of some 32 bytes.
pub open spec fn provisioned(before: Option<Seq<char>>, after: Option<Seq<char>>) -> bool {
    match before {
        Some(_) => after == before,
        None => exists|k: Seq<u8>| k.len() == KEY_LEN && after == Some(b64_std_encoded(k)),
    }
}

/// What making sure of a key does: provision it when absent, leave the blob,
/// and load the key from the record.
pub open spec fn ensure_key_post(
    before: ConfigFiles,
    after: ConfigFiles,
    r: Result<[u8; 32], CustodyError>,
) -> bool {
    &&& provisioned(text_of(before.key_record), text_of(after.key_record))
    &&& text_of(after.blob) == text_of(before.blob)
    &&& key_result(r) == key_from_record(text_of(after.key_record))
}

/// Relies on `Engine::encode` of base64's STANDARD engine.
#[verifier::external_body]
fn std_encode(b: &[u8]) -> (r: String)
    ensures
        r@ == b64_std_encoded(b@),
{
    STANDARD.encode(b)
}

/// Relies on `Engine::decode` of base64's STANDARD engine.
#[verifier::external_body]
fn std_decode(s: &str) -> (r: Result<Vec<u8>, base64::DecodeError>)
    ensures
        r is Ok <==> b64_std_decoded(s@) is Some,
        r is Ok ==> r->Ok_0@ == b64_std_decoded(s@)->0,
{
    STANDARD.decode(s)
}

/// Relies on `str::trim`, which drops leading and trailing white space.
#[verifier::external_body]
fn trim_text(s: &str) -> (r: &str)
    ensures
        r@ == trimmed(s@),
{
    s.trim()
}

/// Relies on rand's thread-local generator, a cryptographically secure one,
/// for a fresh master key.
#[verifier::external_body]
fn random_key() -> (r: [u8; 32]) {
    let mut k = [0u8; 32];
    rand::rng().fill_bytes(&mut k);
    k
}

/// Whether a key record is present.
pub fn is_key_exist(files: &ConfigFiles) -> (r: bool)
    ensures
        r == files.key_record is Some,
{
    files.key_record.is_some()
}

/// Stores `key` as the key record, in standard base64.
pub fn install_key(files: &mut ConfigFiles, key: &[u8; 32])
    requires
        old(files).key_record is None,
    ensures
        text_of(final(files).key_record) == Some(b64_std_encoded(key@)),
        text_of(final(files).blob) == text_of(old(files).blob),
{
    files.key_record = Some(std_encode(key));
}

/// Generates a fresh master key and stores its record. An existing record is
/// never overwritten: the blob encrypted under it would be lost.
pub fn setup_key(files: &mut ConfigFiles)
    requires
        old(files).key_record is None,
    ensures
        provisioned(text_of(old(files).key_record), text_of(final(files).key_record)),
        text_of(final(files).blob) == text_of(old(files).blob),
{
    let key = random_key();
    install_key(files, &key);
    assert(key@.len() == KEY_LEN && text_of(files.key_record) == Some(b64_std_encoded(key@)));
}

/// Reads the master key from its record: the trimmed text must be the
/// standard base64 of exactly 32 bytes.
pub fn load_key(files: &ConfigFiles) -> (r: Result<[u8; 32], CustodyError>)
    ensures
        key_result(r) == key_from_record(text_of(files.key_record)),
{
    let record = match &files.key_record {
        Some(s) => s,
        None => return Err(CustodyError::Read),
    };
    let decoded = match std_decode(trim_text(record.as_str())) {
        Ok(d) => d,
        Err(_) => return Err(CustodyError::Format),
    };
    if decoded.len() != KEY_LEN {
        return Err(CustodyError::Format);
    }
    let mut key = [0u8; 32];
    let mut i: usize = 0;
    while i < KEY_LEN
        invariant
            0 <= i <= KEY_LEN,
            decoded@.len() == KEY_LEN,
            forall|j: int| 0 <= j < i ==> key@[j] == decoded@[j],
        decreases KEY_LEN - i,
    {
        key[i] = decoded[i];
        i = i + 1;
    }
    assert(key@ =~= decoded@);
    Ok(key)
}

/// Provisions the master key when no record is present, then loads it.
pub fn ensure_key(files: &mut ConfigFiles) -> (r: Result<[u8; 32], CustodyError>)
    ensures
        ensure_key_post(*old(files), *final(files), r),
{
    if !is_key_exist(files) {
        setup_key(files);
    }
    load_key(files)
}

/// Making sure of the key twice in a row gives the same key, and the second
/// time changes nothing.
pub proof fn lemma_provision_idempotent(
    first: ConfigFiles,
    between: ConfigFiles,
    last: ConfigFiles,
    r1: Result<[u8; 32], CustodyError>,
    r2: Result<[u8; 32], CustodyError>,
)
    requires
        ensure_key_post(first, between, r1),
        ensure_key_post(between, last, r2),
    ensures
        text_of(last.key_record) == text_of(between.key_record),
        text_of(last.blob) == text_of(between.blob),
        key_result(r2) == key_result(r1),
{
}

} // verus!
