//! Key derivation and message authentication for pairing: PBKDF2, HKDF and
//! HMAC over SHA-256, from the `pbkdf2`, `hkdf` and `hmac` crates.
use vstd::prelude::*;

use hmac::Mac;
use rand::RngCore;

use crate::bytes::push_bytes;

verus! {

pub const NONCE_LEN: usize = 32;

pub const KEY_LEN: usize = 32;

pub const HMAC_LEN: usize = 32;

pub const PBKDF2_ITERATIONS: u32 = 100_000;

/// The salt that derives the master key from the pairing token.
pub open spec fn pbkdf2_salt() -> Seq<u8> {
    vstd::utf8::encode_utf8("parallax-control"@)
}

/// The `info` input of the session key derivation.
pub open spec fn hkdf_info() -> Seq<u8> {
    vstd::utf8::encode_utf8("parallax-control-auth"@)
}

/// PBKDF2-HMAC-SHA256 of `password` and `salt` with `iterations` rounds, `key_len` bytes long.
pub uninterp spec fn spec_pbkdf2_sha256(
    password: Seq<u8>,
    salt: Seq<u8>,
    iterations: u32,
    key_len: usize,
) -> Seq<u8>;

/// HKDF-SHA256 (extract with `salt`, expand with `info`) of `ikm`, `key_len` bytes long.
pub uninterp spec fn spec_hkdf_sha256(
    ikm: Seq<u8>,
    salt: Seq<u8>,
    info: Seq<u8>,
    key_len: usize,
) -> Seq<u8>;

/// The HMAC-SHA256 tag of `data` under `key`.
pub uninterp spec fn spec_hmac_sha256(key: Seq<u8>, data: Seq<u8>) -> Seq<u8>;

/// A nonce of `NONCE_LEN` bytes from the operating system's random source
/// (`rand::rngs::OsRng::fill_bytes`). Nothing is stated of its value; the
/// source panics only where the operating system cannot supply randomness.
#[verifier::external_body]
pub fn generate_nonce() -> (nonce: [u8; 32]) {
    let mut nonce = [0u8; 32];
    rand::rngs::OsRng.fill_bytes(&mut nonce);
    nonce
}

/// `pbkdf2::pbkdf2_hmac::<sha2::Sha256>`: fills `key_len` bytes with the key
/// derived from `password` and `salt`. Stated: the result has `key_len` bytes and
/// is the PBKDF2 function of exactly these four inputs.
#[verifier::external_body]
pub fn pbkdf2_sha256(password: &[u8], salt: &[u8], iterations: u32, key_len: usize) -> (out: Vec<
    u8,
>)
    ensures
        out@ == spec_pbkdf2_sha256(password@, salt@, iterations, key_len),
        out@.len() == key_len,
{
    let mut out = vec![0u8; key_len];
    pbkdf2::pbkdf2_hmac::<sha2::Sha256>(password, salt, iterations, &mut out);
    out
}

/// `hkdf::Hkdf::<sha2::Sha256>::new(Some(salt), ikm)` then `expand(info, ..)` into
/// `key_len` bytes. The crate refuses more than 255 blocks of 32 bytes, so
/// `key_len` is bounded. Stated: `key_len` bytes, a function of the four inputs.
#[verifier::external_body]
pub fn hkdf_sha256(ikm: &[u8], salt: &[u8], info: &[u8], key_len: usize) -> (out: Vec<u8>)
    requires
        key_len <= 255 * 32,
    ensures
        out@ == spec_hkdf_sha256(ikm@, salt@, info@, key_len),
        out@.len() == key_len,
{
    let hkdf = hkdf::Hkdf::<sha2::Sha256>::new(Some(salt), ikm);
    let mut out = vec![0u8; key_len];
    hkdf.expand(info, &mut out).expect("HKDF expand should only fail on invalid output length");
    out
}

/// `hmac::Hmac::<sha2::Sha256>` keyed with `key` (any length is accepted), fed
/// `data`, finalized. Stated: a 32-byte tag that is a function of key and data.
#[verifier::external_body]
pub fn hmac_sha256(key: &[u8], data: &[u8]) -> (tag: Vec<u8>)
    ensures
        tag@ == spec_hmac_sha256(key@, data@),
        tag@.len() == HMAC_LEN,
{
    let mut mac = hmac::Hmac::<sha2::Sha256>::new_from_slice(key).expect(
        "HMAC can take any key size",
    );
    mac.update(data);
    mac.finalize().into_bytes().to_vec()
}

/// `Mac::verify_slice` on `hmac::Hmac::<sha2::Sha256>` keyed with `key` and fed
/// `data`: a constant-time comparison that succeeds exactly when `expected` has
/// the tag's length and equals the tag.
#[verifier::external_body]
pub fn verify_hmac_sha256(key: &[u8], data: &[u8], expected: &[u8]) -> (ok: bool)
    ensures
        ok == (expected@ == spec_hmac_sha256(key@, data@)),
{
    let mut mac = hmac::Hmac::<sha2::Sha256>::new_from_slice(key).expect(
        "HMAC can take any key size",
    );
    mac.update(data);
    mac.verify_slice(expected).is_ok()
}

/// The bytes of a string slice.
pub fn str_bytes(s: &str) -> (out: Vec<u8>)
    ensures
        out@ == vstd::utf8::encode_utf8(s@),
{
    let mut out: Vec<u8> = Vec::new();
    push_bytes(&mut out, s.as_bytes());
    assert(out@ =~= vstd::utf8::encode_utf8(s@));
    out
}

/// The master key of a pairing token: PBKDF2 with the fixed salt and 100000 rounds.
pub fn derive_master_key(pairing_token: &str) -> (key: Vec<u8>)
    ensures
        key@ == spec_pbkdf2_sha256(
            vstd::utf8::encode_utf8(pairing_token@),
            pbkdf2_salt(),
            PBKDF2_ITERATIONS,
            KEY_LEN,
        ),
        key@.len() == KEY_LEN,
{
    let salt = str_bytes("parallax-control");
    pbkdf2_sha256(pairing_token.as_bytes(), salt.as_slice(), PBKDF2_ITERATIONS, KEY_LEN)
}

/// The spec of the session key for a master key and a challenge nonce.
pub open spec fn session_key_of(master_key: Seq<u8>, nonce: Seq<u8>) -> Seq<u8> {
    spec_hkdf_sha256(master_key, nonce, hkdf_info(), KEY_LEN)
}

/// The session key: HKDF of the master key, salted with the challenge nonce.
pub fn derive_session_key(master_key: &[u8], nonce: &[u8]) -> (key: Vec<u8>)
    ensures
        key@ == session_key_of(master_key@, nonce@),
        key@.len() == KEY_LEN,
{
    let info = str_bytes("parallax-control-auth");
    hkdf_sha256(master_key, nonce, info.as_slice(), KEY_LEN)
}

} // verus!
