use api_manager::cipher::{decrypt_config, encrypt_config, DecryptionError};
use api_manager::custody::{
    ensure_key, install_key, is_key_exist, load_key, setup_key, ConfigFiles, CustodyError,
};
use api_manager::mapping::SecretMapping;
use api_manager::store::{load_config, save_config_safe, LoadError, SaveError};
use base64::engine::general_purpose::{STANDARD, URL_SAFE_NO_PAD};
use base64::Engine;

fn empty_dir() -> ConfigFiles {
    ConfigFiles { key_record: None, blob: None }
}

fn s(t: &str) -> String {
    t.to_string()
}

#[test]
fn key_exists_only_with_a_record() {
    let mut files = empty_dir();
    assert!(!is_key_exist(&files));
    setup_key(&mut files);
    assert!(is_key_exist(&files));
}

#[test]
fn install_key_writes_standard_base64() {
    let mut files = empty_dir();
    install_key(&mut files, &[0u8; 32]);
    let expected = format!("{}=", "A".repeat(43));
    assert_eq!(files.key_record, Some(expected));
    assert_eq!(load_key(&files), Ok([0u8; 32]));
}

#[test]
fn load_key_reads_record_with_white_space() {
    let key = [0xabu8; 32];
    let files = ConfigFiles { key_record: Some(format!("  {}\n", STANDARD.encode(key))), blob: None };
    assert_eq!(load_key(&files), Ok(key));
}

#[test]
fn load_key_without_record_is_read_error() {
    assert_eq!(load_key(&empty_dir()), Err(CustodyError::Read));
}

#[test]
fn load_key_of_bad_text_is_format_error() {
    let files = ConfigFiles { key_record: Some(s("%%% not base64")), blob: None };
    assert_eq!(load_key(&files), Err(CustodyError::Format));
}

#[test]
fn load_key_of_short_key_is_format_error() {
    let files = ConfigFiles { key_record: Some(STANDARD.encode([1u8; 16])), blob: None };
    assert_eq!(load_key(&files), Err(CustodyError::Format));
}

#[test]
fn setup_key_makes_a_loadable_key() {
    let mut files = empty_dir();
    setup_key(&mut files);
    let record = files.key_record.clone().unwrap();
    assert_eq!(STANDARD.decode(record).unwrap().len(), 32);
    assert!(load_key(&files).is_ok());
}

#[test]
fn ensure_key_twice_gives_same_key() {
    let mut files = empty_dir();
    let k1 = ensure_key(&mut files).unwrap();
    let record = files.key_record.clone();
    let k2 = ensure_key(&mut files).unwrap();
    assert_eq!(k1, k2);
    assert_eq!(files.key_record, record);
}

#[test]
fn ensure_key_keeps_existing_record() {
    let key = [5u8; 32];
    let mut files = empty_dir();
    install_key(&mut files, &key);
    assert_eq!(ensure_key(&mut files), Ok(key));
}

#[test]
fn first_run_load_is_empty() {
    let mut files = empty_dir();
    let m = load_config(&mut files).unwrap();
    assert!(m.entries().is_empty());
    assert!(files.key_record.is_some());
    assert!(files.blob.is_none());
}

#[test]
fn first_run_load_with_bad_key_record_is_empty() {
    let mut files = ConfigFiles { key_record: Some(s("garbage")), blob: None };
    let m = load_config(&mut files).unwrap();
    assert!(m.entries().is_empty());
    assert_eq!(files.key_record, Some(s("garbage")));
}

#[test]
fn save_then_load_gives_the_mapping() {
    let mut files = empty_dir();
    let mut m = load_config(&mut files).unwrap();
    m.set(s("openai"), s("sk-abc"));
    m.set(s("clé"), s("ключ-🔑"));
    assert_eq!(save_config_safe(&mut files, &m), Ok(()));
    let back = load_config(&mut files).unwrap();
    assert_eq!(back.get(&s("openai")), "sk-abc");
    assert_eq!(back.get(&s("clé")), "ключ-🔑");
    assert_eq!(back.get(&s("unknown")), "");
    assert_eq!(back.entries().len(), 2);
}

#[test]
fn saved_blob_holds_pretty_json() {
    let key = [9u8; 32];
    let mut files = empty_dir();
    install_key(&mut files, &key);
    let mut m = SecretMapping::new();
    m.set(s("openai"), s("sk-abc"));
    save_config_safe(&mut files, &m).unwrap();
    let blob = files.blob.clone().unwrap();
    let json = decrypt_config(&key, &blob).unwrap();
    assert_eq!(json, b"{\n  \"openai\": \"sk-abc\"\n}".to_vec());
}

#[test]
fn save_of_empty_mapping_round_trips() {
    let mut files = empty_dir();
    save_config_safe(&mut files, &SecretMapping::new()).unwrap();
    assert!(files.blob.is_some());
    assert!(load_config(&mut files).unwrap().entries().is_empty());
}

#[test]
fn save_with_bad_key_record_keeps_blob() {
    let mut files = empty_dir();
    let mut m = SecretMapping::new();
    m.set(s("p"), s("v"));
    save_config_safe(&mut files, &m).unwrap();
    let before = files.blob.clone();
    files.key_record = Some(STANDARD.encode([1u8; 31]));
    m.set(s("p"), s("w"));
    assert_eq!(save_config_safe(&mut files, &m), Err(SaveError::Custody(CustodyError::Format)));
    assert_eq!(files.blob, before);
}

#[test]
fn tampered_blob_fails_to_load() {
    let mut files = empty_dir();
    let mut m = SecretMapping::new();
    m.set(s("p"), s("v"));
    save_config_safe(&mut files, &m).unwrap();
    let data = URL_SAFE_NO_PAD.decode(files.blob.clone().unwrap()).unwrap();
    for i in 0..data.len() {
        let mut bad = data.clone();
        bad[i] ^= 0x80;
        let mut copy = ConfigFiles {
            key_record: files.key_record.clone(),
            blob: Some(URL_SAFE_NO_PAD.encode(&bad)),
        };
        match load_config(&mut copy) {
            Err(e) => assert_eq!(e, LoadError::Decryption(DecryptionError)),
            Ok(_) => panic!("tampered blob loaded"),
        }
    }
}

#[test]
fn blob_under_another_key_fails_to_load() {
    let mut files = empty_dir();
    save_config_safe(&mut files, &SecretMapping::new()).unwrap();
    let mut other = ConfigFiles { key_record: None, blob: files.blob.clone() };
    match load_config(&mut other) {
        Err(e) => assert_eq!(e, LoadError::Decryption(DecryptionError)),
        Ok(_) => panic!("blob loaded under a new key"),
    }
    assert!(other.key_record.is_some());
}

#[test]
fn blob_that_is_not_json_fails_with_format() {
    let key = [4u8; 32];
    let mut files = empty_dir();
    install_key(&mut files, &key);
    files.blob = Some(encrypt_config(&key, b"[1, 2]").unwrap());
    match load_config(&mut files) {
        Err(e) => assert_eq!(e, LoadError::Format),
        Ok(_) => panic!("non-object loaded"),
    }
}

#[test]
fn blob_with_bad_key_record_fails_with_custody() {
    let mut files = ConfigFiles { key_record: Some(s("short")), blob: Some(s("AAAA")) };
    match load_config(&mut files) {
        Err(e) => assert_eq!(e, LoadError::Custody(CustodyError::Format)),
        Ok(_) => panic!("loaded without a key"),
    }
}
