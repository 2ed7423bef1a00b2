use vstd::prelude::*;
use std::collections::BTreeMap;
use crate::cipher::{
    decrypt_config, encrypt_config, opened, seal_limit, sealed_text, DecryptionError,
    EncryptionError, NONCE_LEN,
};
use crate::custody::{
    ensure_key, is_key_exist, key_from_record, load_key, provisioned, setup_key, text_of,
    ConfigFiles, CustodyError,
};
use crate::mapping::{entries_view, pairs_map, SecretMapping};

verus! {

/// Why the mapping could not be loaded.
#[derive(Clone, Copy, Debug, PartialEq, Eq, Structural)]
pub enum LoadError {
    /// The master key could not be had.
    Custody(CustodyError),
    /// The blob did not decrypt under the master key.
    Decryption(DecryptionError),
    /// The decrypted blob is not a JSON object of strings.
    Format,
}

/// Why the mapping could not be saved.
#[derive(Clone, Copy, Debug, PartialEq, Eq, Structural)]
pub enum SaveError {
    /// The master key could not be had.
    Custody(CustodyError),
    /// The mapping could not be serialised.
    Serialize,
    /// The serialised mapping could not be encrypted.
    Encryption(EncryptionError),
}

#[verifier::external_type_specification]
#[verifier::external_body]
pub struct ExJsonError(serde_json::Error);

/// The pretty-printed JSON object that serde_json writes for a mapping.
pub uninterp spec fn json_pretty_of(m: Map<Seq<char>, Seq<char>>) -> Seq<u8>;

/// The mapping that serde_json reads from some bytes as an object of strings, if any.
pub uninterp spec fn json_mapping_of(b: Seq<u8>) -> Option<Map<Seq<char>, Seq<char>>>;

/// Relies on `serde_json::to_vec_pretty` on an ordered map of strings, which
/// fails only for a map with keys that are not strings.
#[verifier::external_body]
fn to_json(entries: &Vec<(String, String)>) -> (r: Result<Vec<u8>, serde_json::Error>)
    ensures
        r is Ok,
        r->Ok_0@ == json_pretty_of(pairs_map(entries_view(entries@))),
{
    let m: BTreeMap<&str, &str> = entries.iter().map(|e| (e.0.as_str(), e.1.as_str())).collect();
    serde_json::to_vec_pretty(&m)
}

/// Relies on `serde_json::from_slice` into an ordered map of strings; the map
/// is handed on as its entries.
#[verifier::external_body]
fn from_json(b: &[u8]) -> (r: Result<Vec<(String, String)>, serde_json::Error>)
    ensures
        r is Ok <==> json_mapping_of(b@) is Some,
        r is Ok ==> pairs_map(entries_view(r->Ok_0@)) == json_mapping_of(b@)->0,
{
    let m: BTreeMap<String, String> = serde_json::from_slice(b)?;
    Ok(m.into_iter().collect())
}

/// What loading gives for the given key record and blob: the empty mapping
/// when there is no blob, else the mapping that the decrypted blob holds.
pub open spec fn loaded(
    key_record: Option<Seq<char>>,
    blob: Option<Seq<char>>,
) -> Result<Map<Seq<char>, Seq<char>>, LoadError> {
    match blob {
        None => Ok(Map::empty()),
        Some(b) => match key_from_record(key_record) {
            Err(e) => Err(LoadError::Custody(e)),
            Ok(k) => match opened(k, b) {
                Err(e) => Err(LoadError::Decryption(e)),
                Ok(p) => match json_mapping_of(p) {
                    None => Err(LoadError::Format),
                    Some(m) => Ok(m),
                },
            },
        },
    }
}

/// The blob that saving `m` under the key record leaves: the mapping's JSON
/// sealed under the record's key with some nonce.
pub open spec fn blob_holds(key_record: Option<Seq<char>>, blob: Option<Seq<char>>, m: Map<Seq<char>, Seq<char>>) -> bool {
    exists|n: Seq<u8>|
        n.len() == NONCE_LEN && blob == Some(
            sealed_text(key_from_record(key_record)->Ok_0, n, json_pretty_of(m)),
        )
}

/// What saving `m` does to the directory, and when it fails.
pub open spec fn save_post(
    before: ConfigFiles,
    after: ConfigFiles,
    m: Map<Seq<char>, Seq<char>>,
    r: Result<(), SaveError>,
) -> bool {
    &&& provisioned(text_of(before.key_record), text_of(after.key_record))
    &&& match key_from_record(text_of(after.key_record)) {
        Err(e) => r == Err::<(), SaveError>(SaveError::Custody(e)),
        Ok(k) => if json_pretty_of(m).len() < seal_limit() {
            r is Ok && blob_holds(text_of(after.key_record), text_of(after.blob), m)
        } else {
            r == Err::<(), SaveError>(SaveError::Encryption(EncryptionError))
        },
    }
    &&& r is Err ==> text_of(after.blob) == text_of(before.blob)
}

/// What loading does to the directory and what it returns: the result is
/// `loaded` of the key record and blob, and a blob that saving a mapping left
/// yields what serde_json reads back from that mapping's JSON.
pub open spec fn load_post(before: ConfigFiles, after: ConfigFiles, r: Result<SecretMapping, LoadError>) -> bool {
    &&& provisioned(text_of(before.key_record), text_of(after.key_record))
    &&& text_of(after.blob) == text_of(before.blob)
    &&& match r {
        Ok(m) => m.wf() && loaded(text_of(after.key_record), text_of(after.blob))
            == Ok::<Map<Seq<char>, Seq<char>>, LoadError>(m@),
        Err(e) => loaded(text_of(after.key_record), text_of(after.blob))
            == Err::<Map<Seq<char>, Seq<char>>, LoadError>(e),
    }
    &&& forall|m: Map<Seq<char>, Seq<char>>|
        key_from_record(text_of(after.key_record)) is Ok && json_pretty_of(m).len() < seal_limit()
            && #[trigger] blob_holds(text_of(after.key_record), text_of(after.blob), m) ==> match json_mapping_of(
            json_pretty_of(m),
        ) {
            Some(read) => r is Ok && r->Ok_0@ == read,
            None => r == Err::<SecretMapping, LoadError>(LoadError::Format),
        }
}

/// Builds a mapping from entries; a later entry for a provider wins.
pub fn mapping_from_entries(entries: Vec<(String, String)>) -> (r: SecretMapping)
    ensures
        r.wf(),
        r@ == pairs_map(entries_view(entries@)),
{
    let mut m = SecretMapping::new();
    let mut i: usize = 0;
    while i < entries.len()
        invariant
            0 <= i <= entries@.len(),
            m.wf(),
            m@ == pairs_map(entries_view(entries@.take(i as int))),
        decreases entries.len() - i,
    {
        let ghost before = entries@.take(i as int);
        let k = entries[i].0.clone();
        let v = entries[i].1.clone();
        m.set(k, v);
        proof {
            let next = entries@.take(i + 1);
            assert(entries_view(next).drop_last() =~= entries_view(before));
            assert(entries_view(next).last() == (k@, v@));
        }
        i = i + 1;
    }
    assert(entries@.take(entries@.len() as int) =~= entries@);
    m
}

/// Loads the mapping from the directory. A missing key record is provisioned
/// first; a missing blob is the first run and gives the empty mapping.
pub fn load_config(files: &mut ConfigFiles) -> (r: Result<SecretMapping, LoadError>)
    ensures
        load_post(*old(files), *final(files), r),
        old(files).blob is None ==> r is Ok && r->Ok_0@ == Map::<Seq<char>, Seq<char>>::empty(),
{
    if !is_key_exist(files) {
        setup_key(files);
    }
    let blob = match &files.blob {
        None => return Ok(SecretMapping::new()),
        Some(b) => b,
    };
    let key = match load_key(files) {
        Ok(k) => k,
        Err(e) => return Err(LoadError::Custody(e)),
    };
    let decrypted = decrypt_config(&key, blob.as_str());
    let json = match decrypted {
        Ok(p) => p,
        Err(e) => return Err(LoadError::Decryption(e)),
    };
    let r = match from_json(json.as_slice()) {
        Ok(entries) => Ok(mapping_from_entries(entries)),
        Err(_) => Err(LoadError::Format),
    };
    assert forall|m: Map<Seq<char>, Seq<char>>|
        key_from_record(text_of(files.key_record)) is Ok && json_pretty_of(m).len() < seal_limit()
            && #[trigger] blob_holds(text_of(files.key_record), text_of(files.blob), m) implies match json_mapping_of(
            json_pretty_of(m),
        ) {
            Some(read) => r is Ok && r->Ok_0@ == read,
            None => r == Err::<SecretMapping, LoadError>(LoadError::Format),
        } by {
        let n = choose|n: Seq<u8>|
            n.len() == NONCE_LEN && text_of(files.blob) == Some(
                sealed_text(key_from_record(text_of(files.key_record))->Ok_0, n, json_pretty_of(m)),
            );
        assert(blob@ == sealed_text(key@, n, json_pretty_of(m)));
    }
    r
}

/// Serialises the mapping, encrypts it under the master key (provisioned
/// first when missing) and replaces the blob. On failure the blob is kept.
pub fn save_config_safe(files: &mut ConfigFiles, cfg: &SecretMapping) -> (r: Result<(), SaveError>)
    requires
        cfg.wf(),
    ensures
        save_post(*old(files), *final(files), cfg@, r),
{
    let key = match ensure_key(files) {
        Ok(k) => k,
        Err(e) => return Err(SaveError::Custody(e)),
    };
    let json = match to_json(cfg.entries()) {
        Ok(j) => j,
        Err(_) => return Err(SaveError::Serialize),
    };
    let enc = match encrypt_config(&key, json.as_slice()) {
        Ok(t) => t,
        Err(e) => return Err(SaveError::Encryption(e)),
    };
    files.blob = Some(enc);
    Ok(())
}

/// Invariant of the store: what a successful save leaves, a later load reads
/// back as the mapping that serde_json reads from the saved JSON.
pub proof fn lemma_save_then_load(
    first: ConfigFiles,
    saved: ConfigFiles,
    last: ConfigFiles,
    m: Map<Seq<char>, Seq<char>>,
    r: Result<SecretMapping, LoadError>,
)
    requires
        save_post(first, saved, m, Ok(())),
        load_post(saved, last, r),
    ensures
        json_mapping_of(json_pretty_of(m)) is Some ==> r is Ok && r->Ok_0@ == json_mapping_of(json_pretty_of(m))->0,
        json_mapping_of(json_pretty_of(m)) is None ==> r == Err::<SecretMapping, LoadError>(LoadError::Format),
{
    assert(blob_holds(text_of(last.key_record), text_of(last.blob), m));
}

} // verus!
