//! Key derivation, authenticated encryption, and the encodings around them.

use vstd::prelude::*;

use aes_gcm::aead::Aead;
use aes_gcm::KeyInit;
use base64::Engine;
use zeroize::Zeroize;

verus! {

#[verifier::external_type_specification]
#[verifier::external_body]
pub struct ExAeadError(aes_gcm::Error);

#[verifier::external_type_specification]
#[verifier::external_body]
pub struct ExBase64DecodeError(base64::DecodeError);

#[verifier::external_type_specification]
#[verifier::external_body]
pub struct ExRandomError(getrandom::Error);

/// The most bytes that AES-GCM takes as a message under one nonce.
pub const MAX_MESSAGE_BYTES: u64 = 0xF_FFFF_FFE0;

/// The most bytes that AES-GCM takes as associated data.
pub const MAX_ASSOCIATED_BYTES: u64 = 0x10_0000_0000;

/// What PBKDF2 with HMAC-SHA-256 derives: 32 bytes from a password, a salt and
/// a number of rounds.
pub uninterp spec fn pbkdf2_sha256(password: Seq<u8>, salt: Seq<u8>, rounds: u32) -> Seq<u8>;

/// `pbkdf2::pbkdf2_hmac` with `sha2::Sha256`: fills 32 bytes that depend on the
/// password, the salt and the rounds alone.
#[verifier::external_body]
pub(crate) fn derive(password: &[u8], salt: &[u8], rounds: u32) -> (key: Vec<u8>)
    ensures
        key@ == pbkdf2_sha256(password@, salt@, rounds),
        key@.len() == 32,
{
    let mut key = vec![0u8; 32];
    pbkdf2::pbkdf2_hmac::<sha2::Sha256>(password, salt, rounds, &mut key);
    key
}

/// What AES-256-GCM makes of a message: its ciphertext and the tag behind it.
pub uninterp spec fn gcm_sealed(
    key: Seq<u8>,
    nonce: Seq<u8>,
    message: Seq<u8>,
    associated: Seq<u8>,
) -> Seq<u8>;

/// The message that AES-256-GCM takes out of a ciphertext, or nothing where the
/// tag does not fit.
pub uninterp spec fn gcm_opened(
    key: Seq<u8>,
    nonce: Seq<u8>,
    sealed: Seq<u8>,
    associated: Seq<u8>,
) -> Option<Seq<u8>>;

/// `aes_gcm::Aes256Gcm` with `Aead::encrypt`: fails exactly where the
/// associated data is too long; the result is 16 bytes longer than the message,
/// and opening it with the same key, nonce and associated data gives the
/// message back.
#[verifier::external_body]
pub(crate) fn seal(key: &[u8], nonce: &[u8], message: &[u8], associated: &[u8]) -> (r: Result<
    Vec<u8>,
    aes_gcm::Error,
>)
    requires
        key@.len() == 32,
        nonce@.len() == 12,
        message@.len() <= MAX_MESSAGE_BYTES,
    ensures
        r is Err <==> associated@.len() > MAX_ASSOCIATED_BYTES,
        r matches Ok(sealed) ==> sealed@ == gcm_sealed(key@, nonce@, message@, associated@)
            && sealed@.len() == message@.len() + 16 && gcm_opened(
            key@,
            nonce@,
            sealed@,
            associated@,
        ) == Some(message@),
{
    let cipher = aes_gcm::Aes256Gcm::new(aes_gcm::Key::<aes_gcm::Aes256Gcm>::from_slice(key));
    cipher.encrypt(aes_gcm::Nonce::from_slice(nonce), aes_gcm::aead::Payload { msg: message, aad: associated })
}

/// `aes_gcm::Aes256Gcm` with `Aead::decrypt`: the message, or an error where
/// the tag does not fit; both depend on the arguments alone.
#[verifier::external_body]
pub(crate) fn open(key: &[u8], nonce: &[u8], sealed: &[u8], associated: &[u8]) -> (r: Result<
    Vec<u8>,
    aes_gcm::Error,
>)
    requires
        key@.len() == 32,
        nonce@.len() == 12,
        sealed@.len() <= MAX_MESSAGE_BYTES + 16,
    ensures
        match r {
            Ok(message) => gcm_opened(key@, nonce@, sealed@, associated@) == Some(message@),
            Err(_) => gcm_opened(key@, nonce@, sealed@, associated@) is None,
        },
{
    let cipher = aes_gcm::Aes256Gcm::new(aes_gcm::Key::<aes_gcm::Aes256Gcm>::from_slice(key));
    cipher.decrypt(aes_gcm::Nonce::from_slice(nonce), aes_gcm::aead::Payload { msg: sealed, aad: associated })
}

/// The text that standard Base64 with padding gives for bytes.
pub uninterp spec fn base64_encoded(bytes: Seq<u8>) -> Seq<char>;

/// The bytes that standard Base64 with padding reads from a text, or nothing
/// where the text is not in that encoding.
pub uninterp spec fn base64_decoded(text: Seq<char>) -> Option<Seq<u8>>;

/// How many characters standard Base64 with padding gives for a number of
/// bytes: four for each three, the last three begun or full.
pub open spec fn base64_length(count: nat) -> nat {
    4 * ((count + 2) / 3)
}

/// `base64::engine::general_purpose::STANDARD` with `Engine::encode`: a text
/// of ASCII characters, four for each three bytes begun, from which the same
/// engine reads the bytes back.
#[verifier::external_body]
pub(crate) fn encode_base64(bytes: &[u8]) -> (r: String)
    ensures
        r@ == base64_encoded(bytes@),
        r@.len() == base64_length(bytes@.len()),
        vstd::utf8::is_ascii_chars(r@),
        base64_decoded(r@) == Some(bytes@),
{
    base64::engine::general_purpose::STANDARD.encode(bytes)
}

/// `base64::engine::general_purpose::STANDARD` with `Engine::decode`: the bytes
/// that the text stands for, or an error; both depend on the text alone.
#[verifier::external_body]
pub(crate) fn decode_base64(text: &str) -> (r: Result<Vec<u8>, base64::DecodeError>)
    ensures
        match r {
            Ok(bytes) => base64_decoded(text@) == Some(bytes@),
            Err(_) => base64_decoded(text@) is None,
        },
{
    base64::engine::general_purpose::STANDARD.decode(text)
}

/// `getrandom::fill`: fresh random bytes in place of the old ones, whose number
/// stays, or an error. Nothing is claimed of the bytes.
#[verifier::external_body]
pub(crate) fn fill_random(bytes: &mut Vec<u8>) -> (r: Result<(), getrandom::Error>)
    ensures
        final(bytes)@.len() == old(bytes)@.len(),
{
    getrandom::fill(bytes)
}

/// `getrandom::Error` with `to_string`: its message, of which nothing is
/// claimed.
#[verifier::external_body]
pub(crate) fn random_error_text(error: &getrandom::Error) -> String {
    error.to_string()
}

/// `zeroize::Zeroize` on `Vec<u8>`: overwrites the bytes and leaves the vector
/// empty.
#[verifier::external_body]
pub(crate) fn wipe_bytes(bytes: &mut Vec<u8>)
    ensures
        final(bytes)@.len() == 0,
{
    bytes.zeroize();
}

/// `zeroize::Zeroize` on `String`: overwrites the characters and leaves the
/// text empty.
#[verifier::external_body]
pub(crate) fn wipe_text(text: &mut String)
    ensures
        final(text)@.len() == 0,
{
    text.zeroize();
}

} // verus!
