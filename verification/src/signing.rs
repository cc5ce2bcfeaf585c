//! Ed25519 signatures over serialized payloads, carried as standard base64.

use vstd::prelude::*;

verus! {

/// Standard base64 (with padding) of a byte sequence, as the `base64` crate's
/// `STANDARD` engine encodes it.
pub uninterp spec fn spec_b64(data: Seq<u8>) -> Seq<char>;

/// What the `STANDARD` engine decodes from a text: the bytes, or `None` when
/// the text is not canonical padded base64.
pub uninterp spec fn spec_b64_decode(text: Seq<char>) -> Option<Seq<u8>>;

/// The 32-byte Ed25519 public key of a 32-byte secret key.
pub uninterp spec fn spec_ed25519_public(secret: Seq<u8>) -> Seq<u8>;

/// The 64-byte Ed25519 signature of a message under a 32-byte secret key
/// (Ed25519 signing is deterministic).
pub uninterp spec fn spec_ed25519_sign(secret: Seq<u8>, msg: Seq<u8>) -> Seq<u8>;

/// Whether 32 bytes decompress to a curve point usable as a verifying key.
pub uninterp spec fn spec_ed25519_key_ok(public: Seq<u8>) -> bool;

/// Whether a 64-byte signature verifies for a message under a public key.
pub uninterp spec fn spec_ed25519_verifies(public: Seq<u8>, msg: Seq<u8>, sig: Seq<u8>) -> bool;

/// Calls `base64::Engine::encode` on the `STANDARD` engine; the text is named
/// by `spec_b64`.
#[verifier::external_body]
pub(crate) fn b64_encode(data: &[u8]) -> (r: String)
    ensures
        r@ == spec_b64(data@),
{
    base64::Engine::encode(&base64::engine::general_purpose::STANDARD, data)
}

/// Calls `base64::Engine::decode` on the `STANDARD` engine; the result is
/// named by `spec_b64_decode`. Decoding gives back what encoding was given, as
/// the crate documents for its engines.
#[verifier::external_body]
pub(crate) fn b64_decode(text: &str) -> (r: Option<Vec<u8>>)
    ensures
        match r {
            Some(v) => spec_b64_decode(text@) == Some(v@),
            None => spec_b64_decode(text@) is None,
        },
        forall|d: Seq<u8>| #[trigger] spec_b64(d) == text@ ==> r.is_some() && r.unwrap()@ == d,
{
    base64::Engine::decode(&base64::engine::general_purpose::STANDARD, text).ok()
}

/// Calls `SigningKey::from_bytes(..).verifying_key().to_bytes()` of
/// `ed25519-dalek`: the public key of a secret key, named by
/// `spec_ed25519_public`. A key derived this way always decompresses.
#[verifier::external_body]
pub(crate) fn ed25519_public_key(secret: &[u8]) -> (r: Vec<u8>)
    requires
        secret@.len() == 32,
    ensures
        r@ == spec_ed25519_public(secret@),
        r@.len() == 32,
        spec_ed25519_key_ok(r@),
{
    let s: [u8; 32] = secret.try_into().unwrap();
    ed25519_dalek::SigningKey::from_bytes(&s).verifying_key().to_bytes().to_vec()
}

/// Calls `ed25519_dalek::Signer::sign` with a signing key made from the
/// secret bytes; the signature is named by `spec_ed25519_sign`.
#[verifier::external_body]
pub(crate) fn ed25519_sign(secret: &[u8], msg: &[u8]) -> (r: Vec<u8>)
    requires
        secret@.len() == 32,
    ensures
        r@ == spec_ed25519_sign(secret@, msg@),
        r@.len() == 64,
{
    let s: [u8; 32] = secret.try_into().unwrap();
    let key = ed25519_dalek::SigningKey::from_bytes(&s);
    ed25519_dalek::Signer::sign(&key, msg).to_bytes().to_vec()
}

/// Calls `VerifyingKey::from_bytes` of `ed25519-dalek` and reports whether it
/// succeeded (the bytes decompress to a curve point).
#[verifier::external_body]
pub(crate) fn ed25519_key_valid(public: &[u8]) -> (r: bool)
    requires
        public@.len() == 32,
    ensures
        r == spec_ed25519_key_ok(public@),
{
    let p: [u8; 32] = public.try_into().unwrap();
    ed25519_dalek::VerifyingKey::from_bytes(&p).is_ok()
}

/// Calls `ed25519_dalek::Verifier::verify` for a valid public key; the verdict
/// is named by `spec_ed25519_verifies`. A signature made with the secret key
/// of that public key over the same message verifies (Ed25519 correctness).
#[verifier::external_body]
pub(crate) fn ed25519_verify(public: &[u8], msg: &[u8], sig: &[u8]) -> (r: bool)
    requires
        public@.len() == 32,
        sig@.len() == 64,
        spec_ed25519_key_ok(public@),
    ensures
        r == spec_ed25519_verifies(public@, msg@, sig@),
        forall|secret: Seq<u8>| secret.len() == 32 && public@ == #[trigger] spec_ed25519_public(secret)
            && sig@ == spec_ed25519_sign(secret, msg@) ==> r,
{
    let p: [u8; 32] = public.try_into().unwrap();
    let s: [u8; 64] = sig.try_into().unwrap();
    let key = ed25519_dalek::VerifyingKey::from_bytes(&p).unwrap();
    ed25519_dalek::Verifier::verify(&key, msg, &ed25519_dalek::Signature::from_bytes(&s)).is_ok()
}

/// Why a signed payload was refused.
#[derive(Debug, Clone, Copy, PartialEq, Eq, Structural)]
pub enum SignatureCheckError {
    /// The signer's public key is not base64.
    PubkeyNotBase64,
    /// The signer's public key is not 32 bytes.
    PubkeyWrongLength,
    /// The signer's public key is not a point on the curve.
    PubkeyInvalid,
    /// The signature is not base64.
    SignatureNotBase64,
    /// The signature is not 64 bytes.
    SignatureWrongLength,
    /// The signature does not verify for the payload.
    SignatureInvalid,
}

/// The verdict on a payload signed under a base64 public key with a base64 signature.
pub open spec fn spec_check_signature(pubkey_b64: Seq<char>, sig_b64: Seq<char>, payload: Seq<u8>) -> Result<(), SignatureCheckError> {
    match spec_b64_decode(pubkey_b64) {
        None => Err(SignatureCheckError::PubkeyNotBase64),
        Some(pk) => if pk.len() != 32 {
            Err(SignatureCheckError::PubkeyWrongLength)
        } else if !spec_ed25519_key_ok(pk) {
            Err(SignatureCheckError::PubkeyInvalid)
        } else {
            match spec_b64_decode(sig_b64) {
                None => Err(SignatureCheckError::SignatureNotBase64),
                Some(sig) => if sig.len() != 64 {
                    Err(SignatureCheckError::SignatureWrongLength)
                } else if !spec_ed25519_verifies(pk, payload, sig) {
                    Err(SignatureCheckError::SignatureInvalid)
                } else {
                    Ok(())
                },
            }
        },
    }
}

/// Checks a payload against its signer's base64 public key and base64
/// signature, in that order: key decoding, key length, key validity, signature
/// decoding, signature length, verification.
pub fn verify_signed_payload(pubkey_b64: &str, signature_b64: &str, payload: &[u8]) -> (r: Result<(), SignatureCheckError>)
    ensures
        r == spec_check_signature(pubkey_b64@, signature_b64@, payload@),
{
    let pk = match b64_decode(pubkey_b64) {
        Some(v) => v,
        None => return Err(SignatureCheckError::PubkeyNotBase64),
    };
    if pk.len() != 32 {
        return Err(SignatureCheckError::PubkeyWrongLength);
    }
    if !ed25519_key_valid(pk.as_slice()) {
        return Err(SignatureCheckError::PubkeyInvalid);
    }
    let sig = match b64_decode(signature_b64) {
        Some(v) => v,
        None => return Err(SignatureCheckError::SignatureNotBase64),
    };
    if sig.len() != 64 {
        return Err(SignatureCheckError::SignatureWrongLength);
    }
    if !ed25519_verify(pk.as_slice(), payload, sig.as_slice()) {
        return Err(SignatureCheckError::SignatureInvalid);
    }
    Ok(())
}

/// The base64 public key recorded as the signer of a payload.
pub fn signer_pubkey_b64(secret: &[u8]) -> (r: String)
    requires
        secret@.len() == 32,
    ensures
        r@ == spec_b64(spec_ed25519_public(secret@)),
{
    let pk = ed25519_public_key(secret);
    b64_encode(pk.as_slice())
}

/// The base64 signature of a payload under a 32-byte secret key. What it
/// returns verifies: `verify_signed_payload` accepts it for the same payload
/// under the public key that `signer_pubkey_b64` records for the secret key.
pub fn sign_payload_b64(secret: &[u8], payload: &[u8]) -> (r: String)
    requires
        secret@.len() == 32,
    ensures
        r@ == spec_b64(spec_ed25519_sign(secret@, payload@)),
        spec_check_signature(spec_b64(spec_ed25519_public(secret@)), r@, payload@) == Ok::<(), SignatureCheckError>(()),
{
    let sig = ed25519_sign(secret, payload);
    let r = b64_encode(sig.as_slice());
    let pk = ed25519_public_key(secret);
    let pk_text = b64_encode(pk.as_slice());
    let pk_back = b64_decode(pk_text.as_str());
    let sig_back = b64_decode(r.as_str());
    let ok = ed25519_verify(pk.as_slice(), payload, sig.as_slice());
    assert(pk_back.is_some() && pk_back.unwrap()@ == pk@);
    assert(sig_back.is_some() && sig_back.unwrap()@ == sig@);
    assert(ok);
    r
}

} // verus!
