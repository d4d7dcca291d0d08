//! The brain's key derivation, sealing and signatures. The cryptography is
//! done by `argon2`, `chacha20poly1305`, `ed25519-dalek` and `base64`; this
//! module decides what is derived, sealed, signed and checked, and which
//! error a failure is.
use vstd::prelude::*;

use base64::Engine as _;
use chacha20poly1305::aead::{Aead, KeyInit};
use ed25519_dalek::{Signer, Verifier};

use crate::brain::state::{BrainError, BrainErrorView};
use crate::brain::types::{BrainManifest, EncryptedBlob};

verus! {

/// What standard base64 (with padding) decodes a text to, if it is valid.
pub uninterp spec fn base64_decoded(text: Seq<char>) -> Option<Seq<u8>>;

/// The standard base64 alphabet: `A`-`Z`, `a`-`z`, `0`-`9`, `+`, `/`.
pub open spec fn b64_digit(n: int) -> char {
    if n < 26 {
        (n + 65) as char
    } else if n < 52 {
        (n - 26 + 97) as char
    } else if n < 62 {
        (n - 52 + 48) as char
    } else if n == 62 {
        '+'
    } else {
        '/'
    }
}

/// The standard base64 text of bytes, padded with `=`: each group of three
/// bytes gives four digits of six bits each, high bits first; a last group
/// of one or two bytes is zero-filled and padded to four characters.
pub open spec fn base64_encoded(bytes: Seq<u8>) -> Seq<char>
    decreases bytes.len(),
{
    if bytes.len() == 0 {
        Seq::empty()
    } else {
        let b0 = bytes[0] as int;
        let b1 = if bytes.len() > 1 { bytes[1] as int } else { 0 };
        let b2 = if bytes.len() > 2 { bytes[2] as int } else { 0 };
        if bytes.len() == 1 {
            seq![b64_digit(b0 / 4), b64_digit((b0 % 4) * 16), '=', '=']
        } else if bytes.len() == 2 {
            seq![b64_digit(b0 / 4), b64_digit((b0 % 4) * 16 + b1 / 16), b64_digit((b1 % 16) * 4), '=']
        } else {
            seq![
                b64_digit(b0 / 4),
                b64_digit((b0 % 4) * 16 + b1 / 16),
                b64_digit((b1 % 16) * 4 + b2 / 64),
                b64_digit(b2 % 64),
            ] + base64_encoded(bytes.skip(3))
        }
    }
}

/// The 32-byte key Argon2id with default parameters derives from a secret
/// and a salt.
pub uninterp spec fn argon2_key(secret: Seq<u8>, salt: Seq<u8>) -> Seq<u8>;

/// What XChaCha20-Poly1305 seals a message into under a key, nonce and
/// associated data.
pub uninterp spec fn xchacha_sealed(key: Seq<u8>, nonce: Seq<u8>, aad: Seq<u8>, msg: Seq<u8>) -> Seq<u8>;

/// What XChaCha20-Poly1305 opens a ciphertext to, when it authenticates.
pub uninterp spec fn xchacha_opened(key: Seq<u8>, nonce: Seq<u8>, aad: Seq<u8>, ct: Seq<u8>) -> Option<Seq<u8>>;

/// The Ed25519 verifying key of a 32-byte signing key.
pub uninterp spec fn ed25519_public_key(signing_key: Seq<u8>) -> Seq<u8>;

/// The Ed25519 signature of a message under a 32-byte signing key.
pub uninterp spec fn ed25519_signature(signing_key: Seq<u8>, msg: Seq<u8>) -> Seq<u8>;

/// Whether 32 bytes are a usable Ed25519 verifying key.
pub uninterp spec fn ed25519_key_ok(key: Seq<u8>) -> bool;

/// Whether a 64-byte signature of a message verifies under a verifying key.
pub uninterp spec fn ed25519_verifies(key: Seq<u8>, msg: Seq<u8>, sig: Seq<u8>) -> bool;

/// `base64::engine::general_purpose::STANDARD.encode`: the base64 text of
/// the bytes, which decodes back to them.
#[verifier::external_body]
fn b64_encode(bytes: &[u8]) -> (text: String)
    ensures
        text@ == base64_encoded(bytes@),
        base64_decoded(text@) == Some(bytes@),
{
    base64::engine::general_purpose::STANDARD.encode(bytes)
}

/// `base64::engine::general_purpose::STANDARD.decode`: the decoded bytes,
/// or `None` for text that is not valid padded base64.
#[verifier::external_body]
fn b64_decode(text: &str) -> (r: Option<Vec<u8>>)
    ensures
        match r {
            Some(b) => base64_decoded(text@) == Some(b@),
            None => base64_decoded(text@) is None,
        },
{
    base64::engine::general_purpose::STANDARD.decode(text).ok()
}

/// `argon2::Argon2::default().hash_password_into` with a 32-byte output:
/// it fails exactly when the salt is shorter than 8 or the secret or salt
/// longer than `u32::MAX` bytes.
#[verifier::external_body]
fn argon2_derive(secret: &[u8], salt: &[u8]) -> (r: Option<Vec<u8>>)
    ensures
        r is Some <==> (8 <= salt@.len() <= 0xFFFF_FFFF && secret@.len() <= 0xFFFF_FFFF),
        r matches Some(k) ==> k@ == argon2_key(secret@, salt@) && k@.len() == 32,
{
    let mut key = [0u8; 32];
    match argon2::Argon2::default().hash_password_into(secret, salt, &mut key) {
        Ok(()) => Some(key.to_vec()),
        Err(_) => None,
    }
}

/// `XChaCha20Poly1305::encrypt` with the message and associated data: the
/// ciphertext, which opens back to the message under the same key, nonce
/// and associated data. It fails exactly when the message spans
/// `u32::MAX` or more blocks of 64 bytes (the cipher's block counter limit).
#[verifier::external_body]
fn xchacha_encrypt(key: &[u8], nonce: &[u8], aad: &[u8], msg: &[u8]) -> (r: Option<Vec<u8>>)
    requires
        key@.len() == 32,
        nonce@.len() == 24,
    ensures
        r is Some <==> msg@.len() / 64 < 0xFFFF_FFFF,
        r matches Some(c) ==> c@ == xchacha_sealed(key@, nonce@, aad@, msg@) && xchacha_opened(
            key@,
            nonce@,
            aad@,
            c@,
        ) == Some(msg@),
{
    let cipher = chacha20poly1305::XChaCha20Poly1305::new(chacha20poly1305::Key::from_slice(key));
    let payload = chacha20poly1305::aead::Payload { msg, aad };
    cipher.encrypt(chacha20poly1305::XNonce::from_slice(nonce), payload).ok()
}

/// `XChaCha20Poly1305::decrypt`: the message, or `None` when the
/// ciphertext does not authenticate.
#[verifier::external_body]
fn xchacha_decrypt(key: &[u8], nonce: &[u8], aad: &[u8], ct: &[u8]) -> (r: Option<Vec<u8>>)
    requires
        key@.len() == 32,
        nonce@.len() == 24,
    ensures
        match r {
            Some(m) => xchacha_opened(key@, nonce@, aad@, ct@) == Some(m@),
            None => xchacha_opened(key@, nonce@, aad@, ct@) is None,
        },
{
    let cipher = chacha20poly1305::XChaCha20Poly1305::new(chacha20poly1305::Key::from_slice(key));
    let payload = chacha20poly1305::aead::Payload { msg: ct, aad };
    cipher.decrypt(chacha20poly1305::XNonce::from_slice(nonce), payload).ok()
}

/// `SigningKey::verifying_key` of `SigningKey::from_bytes`: the 32 bytes of
/// the verifying key, which is a usable key.
#[verifier::external_body]
fn ed25519_public(signing_key: &[u8]) -> (pk: Vec<u8>)
    requires
        signing_key@.len() == 32,
    ensures
        pk@ == ed25519_public_key(signing_key@),
        pk@.len() == 32,
        ed25519_key_ok(pk@),
{
    let bytes: [u8; 32] = signing_key.try_into().unwrap();
    ed25519_dalek::SigningKey::from_bytes(&bytes).verifying_key().to_bytes().to_vec()
}

/// `Signer::sign` of `SigningKey::from_bytes`: the 64 signature bytes,
/// which verify under the signing key's verifying key.
#[verifier::external_body]
fn ed25519_sign(signing_key: &[u8], msg: &[u8]) -> (sig: Vec<u8>)
    requires
        signing_key@.len() == 32,
    ensures
        sig@ == ed25519_signature(signing_key@, msg@),
        sig@.len() == 64,
        ed25519_verifies(ed25519_public_key(signing_key@), msg@, sig@),
{
    let bytes: [u8; 32] = signing_key.try_into().unwrap();
    ed25519_dalek::SigningKey::from_bytes(&bytes).sign(msg).to_bytes().to_vec()
}

/// Whether `VerifyingKey::from_bytes` accepts the 32 bytes.
#[verifier::external_body]
fn ed25519_key_valid(key: &[u8]) -> (ok: bool)
    requires
        key@.len() == 32,
    ensures
        ok == ed25519_key_ok(key@),
{
    let bytes: [u8; 32] = key.try_into().unwrap();
    ed25519_dalek::VerifyingKey::from_bytes(&bytes).is_ok()
}

/// `Verifier::verify` of a usable verifying key and `Signature::from_bytes`:
/// whether the signature verifies.
#[verifier::external_body]
fn ed25519_verify(key: &[u8], msg: &[u8], sig: &[u8]) -> (ok: bool)
    requires
        key@.len() == 32,
        sig@.len() == 64,
        ed25519_key_ok(key@),
    ensures
        ok == ed25519_verifies(key@, msg@, sig@),
{
    let key_bytes: [u8; 32] = key.try_into().unwrap();
    let sig_bytes: [u8; 64] = sig.try_into().unwrap();
    let vk = ed25519_dalek::VerifyingKey::from_bytes(&key_bytes).unwrap();
    vk.verify(msg, &ed25519_dalek::Signature::from_bytes(&sig_bytes)).is_ok()
}

/// The bytes a standard base64 text decodes to, if it is valid.
pub fn decode_b64(text: &str) -> (r: Option<Vec<u8>>)
    ensures
        match r {
            Some(b) => base64_decoded(text@) == Some(b@),
            None => base64_decoded(text@) is None,
        },
{
    b64_decode(text)
}

/// The standard base64 text of bytes.
pub fn encode_b64(bytes: &[u8]) -> (text: String)
    ensures
        text@ == base64_encoded(bytes@),
        base64_decoded(text@) == Some(bytes@),
{
    b64_encode(bytes)
}

/// The brain key derived from a secret and a salt, or why not.
pub fn derive_key(secret: &[u8], salt: &[u8]) -> (r: Result<Vec<u8>, BrainError>)
    ensures
        (8 <= salt@.len() <= 0xFFFF_FFFF && secret@.len() <= 0xFFFF_FFFF) ==> (r matches Ok(k) && k@
            == argon2_key(secret@, salt@) && k@.len() == 32),
        !(8 <= salt@.len() <= 0xFFFF_FFFF && secret@.len() <= 0xFFFF_FFFF) ==> (r matches Err(e) && e@
            == BrainErrorView::KeyDerivationFailed),
{
    match argon2_derive(secret, salt) {
        Some(k) => Ok(k),
        None => Err(BrainError::KeyDerivationFailed),
    }
}

/// Seals `plain` under the key and associated data with the given nonce
/// (drawn fresh by the caller): the nonce and ciphertext in base64, which
/// open back to `plain` under the same key and associated data. It succeeds
/// exactly when `plain` spans fewer than `u32::MAX` blocks of 64 bytes.
pub fn encrypt_bytes(key: &[u8], aad: &[u8], plain: &[u8], nonce: &[u8]) -> (r: Result<
    EncryptedBlob,
    BrainError,
>)
    requires
        key@.len() == 32,
        nonce@.len() == 24,
    ensures
        r is Ok <==> plain@.len() / 64 < 0xFFFF_FFFF,
        r matches Ok(b) ==> b.nonce_b64@ == base64_encoded(nonce@) && b.ciphertext_b64@
            == base64_encoded(xchacha_sealed(key@, nonce@, aad@, plain@)),
        r matches Err(e) ==> e@ == BrainErrorView::EncryptionFailed,
        r matches Ok(b) ==> nonce_fits(b.nonce_b64@) && decrypt_spec(
            key@,
            aad@,
            b.nonce_b64@,
            b.ciphertext_b64@,
        ) == Ok::<Seq<u8>, BrainErrorView>(plain@),
{
    match xchacha_encrypt(key, nonce, aad, plain) {
        Some(c) => Ok(EncryptedBlob { nonce_b64: b64_encode(nonce), ciphertext_b64: b64_encode(c.as_slice()) }),
        None => Err(BrainError::EncryptionFailed),
    }
}

/// Whether a blob's nonce is fit to decrypt with: it decodes to 24 bytes,
/// or does not decode at all (which is an error, not a panic).
pub open spec fn nonce_fits(blob_nonce_b64: Seq<char>) -> bool {
    match base64_decoded(blob_nonce_b64) {
        Some(n) => n.len() == 24,
        None => true,
    }
}

/// What opening a blob gives: its nonce and ciphertext decoded, then the
/// message they open to.
pub open spec fn decrypt_spec(
    key: Seq<u8>,
    aad: Seq<u8>,
    nonce_b64: Seq<char>,
    ciphertext_b64: Seq<char>,
) -> Result<Seq<u8>, BrainErrorView> {
    match base64_decoded(nonce_b64) {
        None => Err(BrainErrorView::InvalidBase64),
        Some(n) => match base64_decoded(ciphertext_b64) {
            None => Err(BrainErrorView::InvalidBase64),
            Some(c) => match xchacha_opened(key, n, aad, c) {
                None => Err(BrainErrorView::DecryptionFailed),
                Some(m) => Ok(m),
            },
        },
    }
}

/// Opens a blob sealed under the key and associated data (see
/// [`decrypt_spec`]).
pub fn decrypt_bytes(key: &[u8], aad: &[u8], blob: &EncryptedBlob) -> (r: Result<Vec<u8>, BrainError>)
    requires
        key@.len() == 32,
        nonce_fits(blob.nonce_b64@),
    ensures
        match decrypt_spec(key@, aad@, blob.nonce_b64@, blob.ciphertext_b64@) {
            Ok(m) => r matches Ok(x) && x@ == m,
            Err(e) => r matches Err(x) && x@ == e,
        },
{
    let nonce = match b64_decode(blob.nonce_b64.as_str()) {
        Some(n) => n,
        None => {
            return Err(BrainError::InvalidBase64);
        },
    };
    let ct = match b64_decode(blob.ciphertext_b64.as_str()) {
        Some(c) => c,
        None => {
            return Err(BrainError::InvalidBase64);
        },
    };
    match xchacha_decrypt(key, nonce.as_slice(), aad, ct.as_slice()) {
        Some(m) => Ok(m),
        None => Err(BrainError::DecryptionFailed),
    }
}

/// Opens a blob as [`decrypt_bytes`] does, or `None` when its nonce
/// decodes to other than 24 bytes (where the nonce conversion panics).
pub fn try_decrypt_bytes(key: &[u8], aad: &[u8], blob: &EncryptedBlob) -> (r: Option<
    Result<Vec<u8>, BrainError>,
>)
    requires
        key@.len() == 32,
    ensures
        !nonce_fits(blob.nonce_b64@) ==> r is None,
        nonce_fits(blob.nonce_b64@) ==> (r matches Some(res) && match decrypt_spec(
            key@,
            aad@,
            blob.nonce_b64@,
            blob.ciphertext_b64@,
        ) {
            Ok(m) => res matches Ok(x) && x@ == m,
            Err(e) => res matches Err(x) && x@ == e,
        }),
{
    match b64_decode(blob.nonce_b64.as_str()) {
        Some(n) => if n.len() != 24 {
            return None;
        },
        None => {},
    }
    Some(decrypt_bytes(key, aad, blob))
}

/// The base64 verifying key of a 32-byte signing key.
pub fn public_key_b64(signing_key: &[u8]) -> (text: String)
    requires
        signing_key@.len() == 32,
    ensures
        text@ == base64_encoded(ed25519_public_key(signing_key@)),
        base64_decoded(text@) == Some(ed25519_public_key(signing_key@)),
        ed25519_public_key(signing_key@).len() == 32,
        ed25519_key_ok(ed25519_public_key(signing_key@)),
{
    let pk = ed25519_public(signing_key);
    b64_encode(pk.as_slice())
}

/// The base64 signature of a manifest's signing payload (its JSON with an
/// empty signature) under a 32-byte signing key.
pub fn sign_payload(signing_key: &[u8], payload: &[u8]) -> (sig_b64: String)
    requires
        signing_key@.len() == 32,
    ensures
        sig_b64@ == base64_encoded(ed25519_signature(signing_key@, payload@)),
        base64_decoded(sig_b64@) == Some(ed25519_signature(signing_key@, payload@)),
        ed25519_signature(signing_key@, payload@).len() == 64,
        ed25519_verifies(
            ed25519_public_key(signing_key@),
            payload@,
            ed25519_signature(signing_key@, payload@),
        ),
{
    let sig = ed25519_sign(signing_key, payload);
    b64_encode(sig.as_slice())
}

/// What checking a manifest's signature over its signing payload gives:
/// the key and signature must decode from base64, be 32 and 64 bytes, the
/// key must be usable, and the signature must verify.
pub open spec fn signature_check_spec(
    public_key_b64: Seq<char>,
    signature_b64: Seq<char>,
    payload: Seq<u8>,
) -> Result<(), BrainErrorView> {
    match base64_decoded(public_key_b64) {
        None => Err(BrainErrorView::InvalidBase64),
        Some(k) => if k.len() != 32 {
            Err(BrainErrorView::InvalidVerifyingKey)
        } else if !ed25519_key_ok(k) {
            Err(BrainErrorView::KeyRejected)
        } else {
            match base64_decoded(signature_b64) {
                None => Err(BrainErrorView::InvalidBase64),
                Some(s) => if s.len() != 64 {
                    Err(BrainErrorView::InvalidSignature)
                } else if !ed25519_verifies(k, payload, s) {
                    Err(BrainErrorView::SignatureMismatch)
                } else {
                    Ok(())
                },
            }
        },
    }
}

/// Checks a manifest's signature over its signing payload (see
/// [`signature_check_spec`]).
pub fn verify_manifest_signature(manifest: &BrainManifest, payload: &[u8]) -> (r: Result<(), BrainError>)
    ensures
        match signature_check_spec(manifest.signing_public_key_b64@, manifest.signature_b64@, payload@) {
            Ok(()) => r is Ok,
            Err(e) => r matches Err(x) && x@ == e,
        },
{
    let key = match b64_decode(manifest.signing_public_key_b64.as_str()) {
        Some(k) => k,
        None => {
            return Err(BrainError::InvalidBase64);
        },
    };
    if key.len() != 32 {
        return Err(BrainError::InvalidVerifyingKey);
    }
    if !ed25519_key_valid(key.as_slice()) {
        return Err(BrainError::KeyRejected);
    }
    let sig = match b64_decode(manifest.signature_b64.as_str()) {
        Some(s) => s,
        None => {
            return Err(BrainError::InvalidBase64);
        },
    };
    if sig.len() != 64 {
        return Err(BrainError::InvalidSignature);
    }
    if !ed25519_verify(key.as_slice(), payload, sig.as_slice()) {
        return Err(BrainError::SignatureMismatch);
    }
    Ok(())
}

/// A manifest that carries the verifying key of a signing key and that
/// key's signature of the signing payload passes the signature check; the
/// facts it needs are what [`public_key_b64`] and [`sign_payload`] ensure.
pub proof fn lemma_signed_manifest_verifies(signing_key: Seq<u8>, payload: Seq<u8>)
    requires
        signing_key.len() == 32,
        ed25519_public_key(signing_key).len() == 32,
        ed25519_key_ok(ed25519_public_key(signing_key)),
        ed25519_signature(signing_key, payload).len() == 64,
        ed25519_verifies(ed25519_public_key(signing_key), payload, ed25519_signature(signing_key, payload)),
        base64_decoded(base64_encoded(ed25519_public_key(signing_key))) == Some(ed25519_public_key(signing_key)),
        base64_decoded(base64_encoded(ed25519_signature(signing_key, payload))) == Some(
            ed25519_signature(signing_key, payload),
        ),
    ensures
        signature_check_spec(
            base64_encoded(ed25519_public_key(signing_key)),
            base64_encoded(ed25519_signature(signing_key, payload)),
            payload,
        ) == Ok::<(), BrainErrorView>(()),
{
}

} // verus!
