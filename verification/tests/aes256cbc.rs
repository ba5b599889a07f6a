use aes256cbc::b64decode;
use aes256cbc::b64encode;
use aes256cbc::bytes_match;
use aes256cbc::key::check_own_digest;
use aes256cbc::key::encrypt_then_decrypt;
use aes256cbc::CipherError;
use aes256cbc::Config;
use aes256cbc::CyclesConfig;
use aes256cbc::DecryptError;
use aes256cbc::Key;

#[test]
fn test_encrypt_and_decrypt() {
    let config = Config::builtin(None);
    let password = String::from("123456");
    let key = Key::from_password(&password.as_bytes(), &config);

    let plaintext = b"This is a secret";
    let cyphertext = key.encrypt(plaintext).unwrap();

    let decrypted = key.decrypt(&cyphertext).unwrap();
    assert_eq!(decrypted, b"This is a secret".to_vec());
}

#[test]
fn test_envelope_length_concrete() {
    let config = Config::builtin(None);
    let key = Key::from_password(b"123456", &config);

    let plaintext = b"This is a secret";
    let cyphertext = key.encrypt(plaintext).unwrap();

    // digest width plus the padded plaintext: one extra block for padding.
    assert_eq!(cyphertext.len(), 32 + (plaintext.len() / 16 + 1) * 16);
    assert_eq!(cyphertext.len(), 64);

    let decrypted = key.decrypt(&cyphertext).unwrap();
    assert_eq!(decrypted, plaintext.to_vec());
}

#[test]
fn test_b64encode_hello() {
    assert_eq!(b64encode(b"Hello"), String::from("SGVsbG8="));
}

#[test]
fn test_b64decode_hello() {
    assert_eq!(b64decode("SGVsbG8="), Some(b"Hello".to_vec()));
}

#[test]
fn test_b64decode_invalid() {
    assert_eq!(b64decode("!!!"), None);
}

#[test]
fn test_b64_round_trip_empty() {
    let encoded = b64encode(b"");
    assert_eq!(encoded, String::new());
    assert_eq!(b64decode(&encoded), Some(Vec::new()));
}

#[test]
fn test_empty_plaintext_round_trip() {
    let config = Config::builtin(None);
    let key = Key::from_password(b"123456", &config);

    let cyphertext = key.encrypt(b"").unwrap();
    // one full padding block after the digest
    assert_eq!(cyphertext.len(), 48);

    let decrypted = key.decrypt(&cyphertext).unwrap();
    assert_eq!(decrypted, Vec::new());
}

#[test]
fn test_derive_deterministic() {
    let config = Config::builtin(None);
    let k1 = Key::from_password(b"123456", &config);
    let k2 = Key::from_password(b"123456", &config);

    assert_eq!(k1.algo_text(), k2.algo_text());
    assert_eq!(k1.key_text(), k2.key_text());
    assert_eq!(k1.mac_text(), k2.mac_text());
    assert_eq!(k1.iv_text(), k2.iv_text());
    assert_eq!(k1.magic(), k2.magic());
    assert_eq!(k1.digest(), k2.digest());
}

#[test]
fn test_derivation_known_vectors() {
    let config = Config::builtin(None);
    let key = Key::from_password(b"123456", &config);

    assert_eq!(key.algo_text(), String::from("aes-256-cbc"));
    assert_eq!(key.key_text(), String::from("QPZvGK7YZ+GeZ0zIuq//LxmZgqR9hSAZ4T56/K1W+84="));
    assert_eq!(key.mac_text(), String::from("HZsilqoRyuFTjL0fDKe1lgydxGfcPntn43Bh90vczUo="));
    assert_eq!(key.iv_text(), String::from("UJ3V7rWSrwHSPxOFzrlhtg=="));
    assert_eq!(key.magic(), Some(vec![1000, 1000, 1000]));
    assert_eq!(
        key.iv_bytes(),
        vec![80, 157, 213, 238, 181, 146, 175, 1, 210, 63, 19, 133, 206, 185, 97, 182]
    );
    assert_eq!(
        key.digest(),
        vec![
            18, 175, 206, 180, 165, 161, 217, 83, 234, 203, 136, 8, 28, 28, 41, 141, 170, 70, 113,
            142, 53, 174, 142, 168, 18, 166, 44, 211, 197, 2, 94, 224,
        ]
    );
}

#[test]
fn test_key_separation() {
    let config = Config::builtin(None);
    let k1 = Key::from_password(b"123456", &config);
    let k2 = Key::from_password(b"654321", &config);

    assert_ne!(k1.digest(), k2.digest());
    assert_ne!(k1.key_text(), k2.key_text());
}

#[test]
fn test_separation_by_cycles() {
    let c1 = Config::from_vec(&[100, 200, 300]);
    let c2 = Config::from_vec(&[101, 200, 300]);
    let k1 = Key::from_password(b"123456", &c1);
    let k2 = Key::from_password(b"123456", &c2);

    assert_ne!(k1.digest(), k2.digest());
}

#[test]
fn test_ownership_gate() {
    let config = Config::builtin(None);
    let own = Key::from_password(b"123456", &config);
    let other = Key::from_password(b"another password", &config);

    let own_digest = own.digest();
    assert!(own.check_digest(&own_digest));
    assert!(check_own_digest(&own));
    assert!(!own.check_digest(&other.digest()));
    assert!(!own.check_digest(b"short"));
}

#[test]
fn test_tamper_detection() {
    let config = Config::builtin(None);
    let key = Key::from_password(b"123456", &config);
    let cyphertext = key.encrypt(b"This is a secret").unwrap();

    for byte in 0..32 {
        for bit in 0..8 {
            let mut tampered = cyphertext.clone();
            tampered[byte] ^= 1u8 << bit;
            assert_eq!(key.decrypt(&tampered), Err(DecryptError::KeyMismatch));
        }
    }
}

#[test]
fn test_wrong_key_mismatch() {
    let config = Config::builtin(None);
    let key = Key::from_password(b"123456", &config);
    let other = Key::from_password(b"654321", &config);
    let cyphertext = key.encrypt(b"This is a secret").unwrap();

    assert_eq!(other.decrypt(&cyphertext), Err(DecryptError::KeyMismatch));
}

#[test]
fn test_truncation_detection() {
    let config = Config::builtin(None);
    let key = Key::from_password(b"123456", &config);
    let cyphertext = key.encrypt(b"This is a secret").unwrap();

    // a ciphertext body that is not a whole number of blocks
    let truncated = &cyphertext[..32 + 17];
    assert_eq!(
        key.decrypt(truncated),
        Err(DecryptError::Cipher(CipherError::InvalidLength))
    );

    // too short to carry the digest prefix at all
    let short = &cyphertext[..16];
    assert_eq!(key.decrypt(short), Err(DecryptError::KeyMismatch));
}

#[test]
fn test_empty_body_invalid_padding() {
    let config = Config::builtin(None);
    let key = Key::from_password(b"123456", &config);

    // a digest-only envelope has no padding block to strip
    let envelope = key.digest();
    assert_eq!(
        key.decrypt(&envelope),
        Err(DecryptError::Cipher(CipherError::InvalidPadding))
    );
}

#[test]
fn test_generate() {
    let key = Key::generate();

    assert_eq!(key.algo_text(), String::from("aes-256-cbc"));
    assert_eq!(key.magic(), None);
    assert_eq!(key.digest().len(), 32);
    assert!(check_own_digest(&key));

    let cyphertext = key.encrypt(b"generated keys round-trip too").unwrap();
    let decrypted = key.decrypt(&cyphertext).unwrap();
    assert_eq!(decrypted, b"generated keys round-trip too".to_vec());
}

#[test]
fn test_generate_keys_differ() {
    let k1 = Key::generate();
    let k2 = Key::generate();
    assert_ne!(k1.key_text(), k2.key_text());
}

#[test]
fn test_from_fields_round_trip() {
    let config = Config::builtin(None);
    let key = Key::from_password(b"123456", &config);

    let rebuilt = Key::from_fields(
        key.algo_text(),
        key.key_text(),
        key.mac_text(),
        key.iv_text(),
        key.magic(),
    )
    .unwrap();

    assert_eq!(rebuilt.digest(), key.digest());
    assert_eq!(rebuilt.magic(), key.magic());

    let cyphertext = key.encrypt(b"persisted and back").unwrap();
    assert_eq!(rebuilt.decrypt(&cyphertext).unwrap(), b"persisted and back".to_vec());
}

#[test]
fn test_from_fields_rejects_bad_fields() {
    let config = Config::builtin(None);
    let key = Key::from_password(b"123456", &config);

    // not base64 at all
    assert!(Key::from_fields(
        key.algo_text(),
        String::from("*not base64*"),
        key.mac_text(),
        key.iv_text(),
        None,
    )
    .is_none());

    // valid base64, wrong width
    assert!(Key::from_fields(
        key.algo_text(),
        key.key_text(),
        key.mac_text(),
        String::from("SGVsbG8="),
        None,
    )
    .is_none());
}

#[test]
fn test_round_trip_law() {
    let config = Config::from_vec(&[50, 60, 70]);
    let key = Key::from_password(b"law", &config);
    for len in [0usize, 1, 15, 16, 17, 31, 32, 5000] {
        let data = vec![0xabu8; len];
        assert_eq!(encrypt_then_decrypt(&key, &data), data);
    }
}

#[test]
fn test_bytes_match() {
    assert!(bytes_match(b"", b""));
    assert!(bytes_match(b"abc", b"abc"));
    assert!(!bytes_match(b"abc", b"abd"));
    assert!(!bytes_match(b"abc", b"abcd"));
    assert!(!bytes_match(b"abcd", b"abc"));
}

#[test]
fn test_cycles_config_vec_round_trip() {
    let cycles = CyclesConfig { key: 7, salt: 11, iv: 13 };
    assert_eq!(cycles.to_vec(), vec![7, 11, 13]);
    assert_eq!(CyclesConfig::from_vec(&[7, 11, 13]), cycles);
}

#[test]
fn test_config_builtin() {
    let config = Config::builtin(Some(String::from("key.yaml")));
    assert_eq!(config.key_cycles(), 1000);
    assert_eq!(config.salt_cycles(), 1000);
    assert_eq!(config.iv_cycles(), 1000);
    assert_eq!(config.default_key_path, Some(String::from("key.yaml")));
}

#[test]
fn test_config_from_vec() {
    let config = Config::from_vec(&[100, 200, 300]);
    assert_eq!(config.key_cycles(), 100);
    assert_eq!(config.salt_cycles(), 200);
    assert_eq!(config.iv_cycles(), 300);
    assert_eq!(config.default_key_path, None);
}

#[test]
fn test_doc_example_round_trip() {
    let config = Config::from_vec(&[100, 200, 300]);
    let password = String::from("I <3 Nickelback");
    let key = Key::from_password(&password.as_bytes(), &config);

    let plaintext = b"Some secret information";
    let cyphertext = key.encrypt(plaintext).ok().expect("encryption failed");
    let decrypted = key.decrypt(&cyphertext).ok().expect("decryption failed");

    assert_eq!((*plaintext).to_vec(), decrypted);
}
