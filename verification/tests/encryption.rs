use mcpanel::security::encryption::{base64_decode, base64_encode, constant_time_compare, Encryption, EncryptionError};

#[test]
fn base64_encodes_with_padding() {
    assert_eq!(base64_encode(b""), "");
    assert_eq!(base64_encode(b"abc"), "YWJj");
    assert_eq!(base64_encode(b"hello"), "aGVsbG8=");
    assert_eq!(base64_encode(b"hi"), "aGk=");
    assert_eq!(base64_encode(&[0xff, 0xfe, 0xfd]), "//79");
}

#[test]
fn base64_decodes_whole_groups() {
    assert_eq!(base64_decode("YWJj").ok(), Some(b"abc".to_vec()));
    assert_eq!(base64_decode("YWJjZGVm").ok(), Some(b"abcdef".to_vec()));
    assert_eq!(base64_decode("").ok(), Some(Vec::new()));
}

#[test]
fn base64_decode_drops_a_trailing_partial_group() {
    assert_eq!(base64_decode("aGVsbG8=").ok(), Some(b"hel".to_vec()));
}

#[test]
fn base64_decode_reports_the_bad_position() {
    match base64_decode("ab!c") {
        Err(EncryptionError::InvalidData { message }) => assert_eq!(message, "Invalid base64 character at position 2"),
        _ => panic!("expected InvalidData"),
    }
}

#[test]
fn constant_time_compare_is_equality() {
    assert!(constant_time_compare(b"same", b"same"));
    assert!(!constant_time_compare(b"same", b"sane"));
    assert!(!constant_time_compare(b"short", b"longer"));
    assert!(constant_time_compare(b"", b""));
}

#[test]
fn no_key_is_reported() {
    let mut e = Encryption::new();
    match e.encrypt("x") {
        Err(EncryptionError::NoKey { message }) => assert_eq!(message, "Master encryption key not set"),
        _ => panic!("expected NoKey"),
    }
    assert_eq!(e.get_stats().encryption_operations, 0);
}

#[test]
fn encrypt_then_decrypt_gives_the_text_back() {
    let mut e = Encryption::new().with_master_key((1u8..=32).collect());
    let d = e.encrypt("ab").unwrap();
    assert_eq!(d.version, 1);
    assert_eq!(base64_decode(&d.nonce).unwrap().len(), 12);
    assert_eq!(e.decrypt(&d).unwrap(), "ab");
    let d = e.encrypt("hello").unwrap();
    assert_eq!(e.decrypt(&d).unwrap(), "hello");
}

#[test]
fn stored_hash_does_not_verify_after_decoding_drops_the_tail() {
    let e = Encryption::new();
    let h = e.hash_password("secret").unwrap();
    assert_eq!(h.algorithm, "Argon2id");
    assert_eq!(h.hash.len(), 44);
    assert_eq!(e.verify_password("secret", &h).ok(), Some(false));
}

#[test]
fn generated_material_has_the_requested_size() {
    let e = Encryption::new();
    assert_eq!(e.generate_key().len(), 32);
    assert_eq!(e.generate_salt(16).len(), 16);
    assert_eq!(e.generate_random_bytes(5).len(), 5);
}
