use parallax::crypto::{
    derive_master_key, derive_session_key, generate_nonce, hkdf_sha256, hmac_sha256,
    pbkdf2_sha256, verify_hmac_sha256,
};

fn hex(bytes: &[u8]) -> String {
    bytes.iter().map(|b| format!("{b:02x}")).collect()
}

#[test]
fn pbkdf2_matches_known_vector() {
    let out = pbkdf2_sha256(b"password", b"salt", 1, 32);
    assert_eq!(hex(&out), "120fb6cffcf8b32c43e7225256c4f837a86548c92ccc35480805987cb70be17b");
}

#[test]
fn hkdf_matches_rfc_vector() {
    let ikm = [0x0bu8; 22];
    let salt: Vec<u8> = (0u8..13).collect();
    let info: Vec<u8> = (0xf0u8..0xfa).collect();
    let out = hkdf_sha256(&ikm, &salt, &info, 42);
    assert_eq!(
        hex(&out),
        "3cb25f25faacd57a90434f64d0362f2a2d2d0a90cf1a5a4c5db02d56ecc4c5bf34007208d5b887185865"
    );
}

#[test]
fn hmac_matches_known_vector() {
    let tag = hmac_sha256(b"key", b"The quick brown fox jumps over the lazy dog");
    assert_eq!(hex(&tag), "f7bc83f430538424b13298e6aa6fb143ef4d59a14946175997479dbc2d1a3cd8");
}

#[test]
fn hmac_verification_accepts_only_the_tag() {
    let tag = hmac_sha256(b"k", b"data");
    assert!(verify_hmac_sha256(b"k", b"data", &tag));
    let mut wrong = tag.clone();
    wrong[0] ^= 1;
    assert!(!verify_hmac_sha256(b"k", b"data", &wrong));
    assert!(!verify_hmac_sha256(b"k", b"data", &tag[..31]));
    assert!(!verify_hmac_sha256(b"other", b"data", &tag));
}

#[test]
fn master_and_session_keys_match_known_values() {
    let master = derive_master_key("123456");
    assert_eq!(hex(&master), "2e5f597159ff88f71c0b7e89210ce8c98099c08e90584c2f069b58e6c988083d");
    let nonce: Vec<u8> = (0u8..32).collect();
    let session = derive_session_key(&master, &nonce);
    assert_eq!(hex(&session), "d913dc84175ad2bef565fcddf66e74869810545cac92ca741ee1bca3c5e15b37");
    let tag = hmac_sha256(&session, &nonce);
    assert_eq!(hex(&tag), "c049918ae8df3b0ce40536e1bd61a1745e85167f4367bd79f6893fff2505dc7d");
}

#[test]
fn nonces_are_32_bytes_and_differ() {
    let a = generate_nonce();
    let b = generate_nonce();
    assert_eq!(a.len(), 32);
    assert_ne!(a, b);
}
