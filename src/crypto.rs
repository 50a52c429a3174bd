//! Key derivation and token decryption.

use vstd::prelude::*;
use vstd::utf8::{decode_utf8, encode_utf8, valid_utf8};

use base64::Engine as _;
use hmac::Mac as _;

verus! {

/// Number of PBKDF2 rounds used for every key the archive holds.
pub const KDF_ROUNDS: u32 = 100000;

/// Length in bytes of a derived symmetric key.
pub const KEY_LEN: usize = 32;

/// Lowercase hex digest of HMAC-SHA256 keyed by `key` over `msg`.
pub uninterp spec fn hmac_sha256_hex_of(key: Seq<u8>, msg: Seq<u8>) -> Seq<char>;

/// PBKDF2-HMAC-SHA256 output of `len` bytes.
pub uninterp spec fn pbkdf2_sha256_of(secret: Seq<u8>, salt: Seq<u8>, rounds: u32, len: usize) -> Seq<u8>;

/// URL-safe, padded base64 text of `b`.
pub uninterp spec fn url_b64_encode_of(b: Seq<u8>) -> Seq<char>;

/// URL-safe, padded base64 decoding of `s`; `None` when `s` is not such text.
pub uninterp spec fn url_b64_decode_of(s: Seq<char>) -> Option<Seq<u8>>;

/// The authenticated plaintext of a Fernet `token` under the base64 `key`;
/// `None` when the key is not 32 bytes of base64 or the token does not
/// authenticate under it.
pub uninterp spec fn fernet_open_of(key: Seq<char>, token: Seq<char>) -> Option<Seq<u8>>;

/// Relies on hmac's `Hmac::<Sha256>` (any key length is accepted) and on the
/// lowercase hex formatting of its output.
#[verifier::external_body]
pub(crate) fn hmac_sha256_hex(key: &[u8], msg: &[u8]) -> (r: String)
    ensures
        r@ == hmac_sha256_hex_of(key@, msg@),
{
    let mut mac = hmac::Hmac::<sha2::Sha256>::new_from_slice(key).expect("HMAC takes any key length");
    mac.update(msg);
    format!("{:x}", mac.finalize().into_bytes())
}

/// Relies on pbkdf2's `pbkdf2_hmac::<Sha256>`, which fills the output slice
/// and does not panic for HMAC.
#[verifier::external_body]
pub(crate) fn pbkdf2_sha256(secret: &[u8], salt: &[u8], rounds: u32, len: usize) -> (r: Vec<u8>)
    ensures
        r@ == pbkdf2_sha256_of(secret@, salt@, rounds, len),
        r@.len() == len,
{
    let mut out = vec![0u8; len];
    pbkdf2::pbkdf2_hmac::<sha2::Sha256>(secret, salt, rounds, &mut out);
    out
}

/// Relies on base64's `general_purpose::URL_SAFE.encode`: padded output of
/// four characters per started group of three bytes (`encoded_len`); the
/// length computation panics only on overflow.
#[verifier::external_body]
pub(crate) fn url_b64_encode(b: &[u8]) -> (r: String)
    requires
        b@.len() <= 0x3fff_ffff_ffff_ffff,
    ensures
        r@ == url_b64_encode_of(b@),
        r@.len() == 4 * ((b@.len() + 2) / 3),
{
    base64::engine::general_purpose::URL_SAFE.encode(b)
}

/// Relies on base64's `general_purpose::URL_SAFE.decode`, which fails on text
/// that is not URL-safe padded base64.
#[verifier::external_body]
pub(crate) fn url_b64_decode(s: &str) -> (r: Option<Vec<u8>>)
    ensures
        match r {
            Some(v) => url_b64_decode_of(s@) == Some(v@),
            None => url_b64_decode_of(s@) is None,
        },
{
    base64::engine::general_purpose::URL_SAFE.decode(s).ok()
}

/// Relies on fernet's `Fernet::new` and `Fernet::decrypt`. Decryption also
/// compares the token's timestamp with the clock, so a token that
/// authenticates may still be refused; plaintext that is returned is always
/// the authenticated plaintext.
#[verifier::external_body]
pub(crate) fn fernet_decrypt(key: &str, token: &str) -> (r: Option<Vec<u8>>)
    ensures
        match r {
            Some(v) => fernet_open_of(key@, token@) == Some(v@),
            None => true,
        },
        fernet_open_of(key@, token@) is None ==> r is None,
{
    match fernet::Fernet::new(key) {
        Some(f) => f.decrypt(token).ok(),
        None => None,
    }
}

/// Relies on `String::from_utf8`, which fails exactly on invalid UTF-8.
#[verifier::external_body]
pub(crate) fn utf8_string(b: Vec<u8>) -> (r: Option<String>)
    ensures
        r is Some <==> valid_utf8(b@),
        r matches Some(s) ==> s@ == decode_utf8(b@),
{
    String::from_utf8(b).ok()
}

/// The Fernet key text derived from `secret` and the raw `salt`.
pub open spec fn derived_key(secret: Seq<char>, salt: Seq<u8>) -> Seq<char> {
    url_b64_encode_of(pbkdf2_sha256_of(encode_utf8(secret), salt, KDF_ROUNDS, KEY_LEN))
}

/// The text that `token` decrypts to under `key`, if it authenticates and is UTF-8.
pub open spec fn opened_text(key: Seq<char>, token: Seq<char>) -> Option<Seq<char>> {
    match fernet_open_of(key, token) {
        Some(b) => if valid_utf8(b) { Some(decode_utf8(b)) } else { None },
        None => None,
    }
}

/// The value returned when a token does not decrypt.
#[derive(Debug, Clone, Copy, PartialEq, Eq)]
pub struct DecryptionError;

/// Stretches `secret` with `salt` into a URL-safe base64 Fernet key
/// (PBKDF2-HMAC-SHA256, fixed rounds, 32 bytes).
pub fn derive_key(secret: &str, salt: &[u8]) -> (r: String)
    ensures
        r@ == derived_key(secret@, salt@),
        r@.len() == 44,
{
    let raw = pbkdf2_sha256(secret.as_bytes(), salt, KDF_ROUNDS, KEY_LEN);
    url_b64_encode(raw.as_slice())
}

/// Decrypts a Fernet `message` with the base64 `key`.
pub fn decrypt_by_key(key: &str, message: &str) -> (r: Result<Vec<u8>, DecryptionError>)
    ensures
        r matches Ok(v) ==> fernet_open_of(key@, message@) == Some(v@),
        fernet_open_of(key@, message@) is None ==> r is Err,
{
    match fernet_decrypt(key, message) {
        Some(v) => Ok(v),
        None => Err(DecryptionError),
    }
}

/// Decrypts a Fernet `message` to text; `None` when it does not decrypt or is
/// not UTF-8.
pub fn decrypt_text(key: &str, message: &str) -> (r: Option<String>)
    ensures
        r matches Some(s) ==> opened_text(key@, message@) == Some(s@),
        opened_text(key@, message@) is None ==> r is None,
{
    match decrypt_by_key(key, message) {
        Ok(v) => utf8_string(v),
        Err(_) => None,
    }
}

/// Key derivation is a function of its inputs: equal secrets and salts give
/// equal keys.
pub proof fn derive_key_deterministic(s1: Seq<char>, salt1: Seq<u8>, s2: Seq<char>, salt2: Seq<u8>)
    requires
        s1 == s2,
        salt1 == salt2,
    ensures
        derived_key(s1, salt1) == derived_key(s2, salt2),
{
}

} // verus!
