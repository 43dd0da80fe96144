use base64::engine::general_purpose::STANDARD;
use base64::Engine;
use judo::crypto::{can_seal, digest_command, open, open_bytes, seal, seal_with, CryptoError};
use judo::proto::EnvelopeBody;
use serde_json::Value;

fn body() -> EnvelopeBody {
    EnvelopeBody {
        argv: vec!["sudo".to_string(), "whoami".to_string()],
        cwd: "/tmp".to_string(),
        runas: "root".to_string(),
        uid: 1001,
        agent_user: "agent".to_string(),
        harness: Some("codex".to_string()),
        workspace: "/tmp".to_string(),
        summary: "agent wants sudo whoami".to_string(),
        categories: vec!["sudo.exec".to_string()],
        ttl_offer: Some(("sudo.exec".to_string(), 15)),
    }
}

fn to_json(body: &EnvelopeBody) -> Vec<u8> {
    let text = |s: &String| Value::from(s.as_str());
    let texts = |list: &Vec<String>| Value::from(list.clone());
    let mut object = serde_json::Map::new();
    object.insert("argv".to_string(), texts(&body.argv));
    object.insert("cwd".to_string(), text(&body.cwd));
    object.insert("runas".to_string(), text(&body.runas));
    object.insert("uid".to_string(), Value::from(body.uid));
    object.insert("agent_user".to_string(), text(&body.agent_user));
    object.insert("harness".to_string(), Value::from(body.harness.clone()));
    object.insert("workspace".to_string(), text(&body.workspace));
    object.insert("summary".to_string(), text(&body.summary));
    object.insert("categories".to_string(), texts(&body.categories));
    let offer = match &body.ttl_offer {
        Some((category, mins)) => Value::from(vec![text(category), Value::from(*mins)]),
        None => Value::Null,
    };
    object.insert("ttl_offer".to_string(), offer);
    serde_json::to_vec(&Value::Object(object)).unwrap()
}

fn from_json(bytes: &[u8]) -> EnvelopeBody {
    let v = serde_json::from_slice::<Value>(bytes).unwrap();
    let text = |v: &Value| v.as_str().unwrap().to_string();
    let texts = |v: &Value| v.as_array().unwrap().iter().map(text).collect::<Vec<_>>();
    EnvelopeBody {
        argv: texts(&v["argv"]),
        cwd: text(&v["cwd"]),
        runas: text(&v["runas"]),
        uid: v["uid"].as_u64().unwrap() as u32,
        agent_user: text(&v["agent_user"]),
        harness: v["harness"].as_str().map(|s| s.to_string()),
        workspace: text(&v["workspace"]),
        summary: text(&v["summary"]),
        categories: texts(&v["categories"]),
        ttl_offer: v["ttl_offer"].as_array().map(|o| (text(&o[0]), o[1].as_u64().unwrap())),
    }
}

#[test]
fn seal_round_trips_body_and_uses_fresh_nonce() {
    let body = body();

    let (ciphertext_a, key_a) = seal(&to_json(&body)).expect("seal first envelope");
    let (ciphertext_b, key_b) = seal(&to_json(&body)).expect("seal second envelope");

    assert_ne!(ciphertext_a, ciphertext_b);
    assert_ne!(key_a, key_b);
    assert_eq!(
        from_json(&open(&ciphertext_a, &key_a).expect("open first envelope")),
        body
    );
    assert_eq!(
        from_json(&open(&ciphertext_b, &key_b).expect("open second envelope")),
        body
    );
}

#[test]
fn sealing_is_fixed_by_key_and_nonce() {
    let key = vec![7u8; 32];
    let nonce = vec![9u8; 24];
    let (ciphertext, fragment) = seal_with(&b"hello".to_vec(), &key, &nonce).unwrap();
    let sealed = STANDARD.decode(&ciphertext).unwrap();
    assert_eq!(fragment, STANDARD.encode(&key));
    assert_eq!(&sealed[..24], &nonce[..]);
    assert_eq!(sealed.len(), 24 + 5 + 16);
    assert_ne!(&sealed[24..29], b"hello");
    assert_eq!(seal_with(&b"hello".to_vec(), &key, &nonce).unwrap().0, ciphertext);
    assert_eq!(open(&ciphertext, &fragment).unwrap(), b"hello");
    let (other, _) = seal_with(&b"hello".to_vec(), &key, &vec![8u8; 24]).unwrap();
    assert_ne!(other, ciphertext);
    let (_, another) = seal_with(&b"hello".to_vec(), &vec![6u8; 32], &nonce).unwrap();
    assert_ne!(another, fragment);
    assert_eq!(STANDARD.decode(&fragment).unwrap(), key);
    let (empty, fragment) = seal_with(&vec![], &key, &nonce).unwrap();
    assert_eq!(open(&empty, &fragment).unwrap(), Vec::<u8>::new());
}

#[test]
fn faults_are_named_in_turn() {
    let key = STANDARD.encode([7u8; 32]);
    let (ciphertext, _) = seal_with(&b"x".to_vec(), &vec![7u8; 32], &vec![9u8; 24]).unwrap();
    let error = open("***", &key).unwrap_err();
    assert!(matches!(error, CryptoError::CiphertextNotBase64 { .. }));
    assert_eq!(
        error.message(),
        "ciphertext is not valid base64: Invalid symbol 42, offset 0."
    );
    let short = STANDARD.encode([1u8; 24]);
    assert_eq!(open(&short, "***").unwrap_err(), CryptoError::CiphertextTooShort);
    let error = open(&ciphertext, "***").unwrap_err();
    assert!(matches!(error, CryptoError::KeyNotBase64 { .. }));
    assert_eq!(error.message(), "key is not valid base64: Invalid symbol 42, offset 0.");
    let error = open(&ciphertext, &STANDARD.encode([7u8; 31])).unwrap_err();
    assert_eq!((&error, error.message()), (&CryptoError::WrongKeyLength, "key must be 32 bytes".to_string()));
    let error = open(&ciphertext, &STANDARD.encode([8u8; 32])).unwrap_err();
    assert_eq!(error, CryptoError::DecryptionFailed);
    assert_eq!(error.message(), "envelope decryption failed");
    assert_eq!(CryptoError::CiphertextTooShort.message(), "ciphertext is too short");
    assert_eq!(CryptoError::EncryptionFailed.message(), "envelope encryption failed");
    let mut sealed = STANDARD.decode(&ciphertext).unwrap();
    sealed[24] ^= 1;
    assert_eq!(open_bytes(&sealed, &vec![7u8; 32]).unwrap_err(), CryptoError::DecryptionFailed);
    assert_eq!(open_bytes(&vec![0u8; 30], &vec![7u8; 32]), Err(CryptoError::DecryptionFailed));
}

#[test]
fn only_so_much_can_be_sealed() {
    assert!(can_seal(0));
    assert!(can_seal(274877906816));
    assert!(!can_seal(274877906817));
}

#[test]
fn digests_tell_commands_apart() {
    assert_eq!(digest_command(""), "47DEQpj8HBSa+/TImW+5JCeuQeRkm5NMpJWZG3hSuFU=");
    assert_ne!(digest_command("ls"), digest_command("ls "));
}
