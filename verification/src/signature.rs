//! Ed25519 key pairs, signing and hex-encoded signature verification.

use vstd::prelude::*;
use ed25519_dalek::{Signer, Verifier};
use crate::digest::{hex_decode, hex_decode_spec, hex_encode, hex_error_message, hex_lower, lemma_hex_text};
use crate::text::{trim_str, trimmed};
use crate::error::{owned, PoxError};

verus! {

/// The Ed25519 public key of a 32-byte secret key.
pub uninterp spec fn ed25519_public_key(secret: Seq<u8>) -> Seq<u8>;

/// The deterministic Ed25519 signature of a message under a 32-byte secret key.
pub uninterp spec fn ed25519_sign(secret: Seq<u8>, message: Seq<u8>) -> Seq<u8>;

/// Whether 32 bytes decode to a public key (`None`), or else the text of the error.
pub uninterp spec fn ed25519_key_check(public: Seq<u8>) -> Option<Seq<char>>;

/// Whether a signature verifies for a message under a public key.
pub uninterp spec fn ed25519_verify(public: Seq<u8>, message: Seq<u8>, signature: Seq<u8>) -> bool;

/// Public key of a secret key (`SigningKey::from_bytes` then `verifying_key`). It is
/// the compression of a curve point, so it decodes again as a public key.
#[verifier::external_body]
fn public_key_from_secret(secret: &[u8; 32]) -> (r: [u8; 32])
    ensures
        r@ == ed25519_public_key(secret@),
        ed25519_key_check(r@) is None,
{
    ed25519_dalek::SigningKey::from_bytes(secret).verifying_key().to_bytes()
}

/// Signs `message` (`Signer::sign`); the signature verifies under the public key of
/// the same secret key.
#[verifier::external_body]
fn sign_bytes(secret: &[u8; 32], message: &[u8]) -> (r: [u8; 64])
    ensures
        r@ == ed25519_sign(secret@, message@),
        ed25519_verify(ed25519_public_key(secret@), message@, r@),
{
    ed25519_dalek::SigningKey::from_bytes(secret).sign(message).to_bytes()
}

/// A fresh secret key drawn from the operating system's generator
/// (`SigningKey::generate` with `OsRng`); nothing is known of its value.
#[verifier::external_body]
fn random_secret_key() -> (r: [u8; 32]) {
    let mut rng = rand::rngs::OsRng;
    ed25519_dalek::SigningKey::generate(&mut rng).to_bytes()
}

/// Decodes a public key (`VerifyingKey::from_bytes`); on failure, the error's text.
#[verifier::external_body]
fn check_public_key(public: &[u8; 32]) -> (r: Option<String>)
    ensures
        match r {
            None => ed25519_key_check(public@) is None,
            Some(t) => ed25519_key_check(public@) == Some(t@),
        },
{
    match ed25519_dalek::VerifyingKey::from_bytes(public) {
        Ok(_) => None,
        Err(e) => Some(e.to_string()),
    }
}

/// Verifies a signature (`Verifier::verify` of a `VerifyingKey`).
#[verifier::external_body]
fn verify_bytes(public: &[u8; 32], message: &[u8], signature: &[u8; 64]) -> (r: bool)
    requires
        ed25519_key_check(public@) is None,
    ensures
        r == ed25519_verify(public@, message@, signature@),
{
    let key = ed25519_dalek::VerifyingKey::from_bytes(public).unwrap();
    let sig = ed25519_dalek::Signature::from_bytes(signature);
    key.verify(message, &sig).is_ok()
}

/// An Ed25519 key pair: the 32-byte secret key and its 32-byte public key.
#[derive(Debug, Clone, PartialEq, Eq)]
pub struct KeyPair {
    pub signing_key: [u8; 32],
    pub verifying_key: [u8; 32],
}

/// The secret key named by hexadecimal text (after trimming), or the error message.
pub open spec fn private_key_from_hex(text: Seq<char>) -> Result<Seq<u8>, Seq<char>> {
    let b = vstd::utf8::encode_utf8(trimmed(text));
    match hex_decode_spec(b) {
        Err(e) => Err("Invalid private key hex: "@ + hex_error_message(e)),
        Ok(k) => if k.len() != 32 {
            Err("Private key must be exactly 32 bytes"@)
        } else {
            Ok(k)
        },
    }
}

fn to_array32(v: &Vec<u8>) -> (r: [u8; 32])
    requires
        v@.len() == 32,
    ensures
        r@ == v@,
{
    let mut arr = [0u8; 32];
    let mut i: usize = 0;
    while i < 32
        invariant
            0 <= i <= 32,
            v@.len() == 32,
            forall|k: int| 0 <= k < i ==> arr@[k] == v@[k],
        decreases 32 - i,
    {
        arr.set(i, v[i]);
        i = i + 1;
    }
    assert(arr@ =~= v@);
    arr
}

fn to_array64(v: &Vec<u8>) -> (r: [u8; 64])
    requires
        v@.len() == 64,
    ensures
        r@ == v@,
{
    let mut arr = [0u8; 64];
    let mut i: usize = 0;
    while i < 64
        invariant
            0 <= i <= 64,
            v@.len() == 64,
            forall|k: int| 0 <= k < i ==> arr@[k] == v@[k],
        decreases 64 - i,
    {
        arr.set(i, v[i]);
        i = i + 1;
    }
    assert(arr@ =~= v@);
    arr
}

impl KeyPair {
    /// The public key is the one of the secret key, and it decodes as a public key.
    pub open spec fn wf(&self) -> bool {
        &&& self.verifying_key@ == ed25519_public_key(self.signing_key@)
        &&& ed25519_key_check(self.verifying_key@) is None
    }

    /// A fresh key pair from the operating system's generator.
    pub fn generate() -> (r: Self)
        ensures
            r.wf(),
    {
        let signing_key = random_secret_key();
        let verifying_key = public_key_from_secret(&signing_key);
        KeyPair { signing_key, verifying_key }
    }

    /// The key pair of a hex-encoded secret key.
    pub fn from_private_hex(hex_str: &str) -> (r: crate::error::Result<Self>)
        ensures
            match private_key_from_hex(hex_str@) {
                Ok(k) => r matches Ok(kp) && kp.signing_key@ == k && kp.wf(),
                Err(m) => r matches Err(PoxError::Security(t)) && t@ == m,
            },
    {
        let t = trim_str(hex_str);
        let bytes = match hex_decode(t.as_bytes()) {
            Ok(b) => b,
            Err(e) => {
                let mut m = owned("Invalid private key hex: ");
                m.append(e.message().as_str());
                return Err(PoxError::Security(m));
            },
        };
        if bytes.len() != 32 {
            return Err(PoxError::Security(owned("Private key must be exactly 32 bytes")));
        }
        let signing_key = to_array32(&bytes);
        let verifying_key = public_key_from_secret(&signing_key);
        Ok(KeyPair { signing_key, verifying_key })
    }

    pub fn public_key_hex(&self) -> (r: String)
        ensures
            r@ == hex_lower(self.verifying_key@),
    {
        hex_encode(&self.verifying_key)
    }

    pub fn private_key_hex(&self) -> (r: String)
        ensures
            r@ == hex_lower(self.signing_key@),
    {
        hex_encode(&self.signing_key)
    }

    /// Hex-encoded Ed25519 signature of `message`. Checked against the key pair's own
    /// hex-encoded public key, the signature is accepted.
    pub fn sign_message(&self, message: &[u8]) -> (r: String)
        ensures
            r@ == hex_lower(ed25519_sign(self.signing_key@, message@)),
            self.wf() ==> signature_check(message@, hex_lower(self.verifying_key@), r@) == Ok::<
                bool,
                Seq<char>,
            >(true),
    {
        let sig = sign_bytes(&self.signing_key, message);
        proof {
            lemma_hex_text(self.verifying_key@);
            lemma_hex_text(sig@);
        }
        hex_encode(&sig)
    }
}

/// Hex-encoding a 32-byte secret key and reading it back gives the same key.
pub proof fn lemma_private_key_hex_roundtrip(secret: Seq<u8>)
    requires
        secret.len() == 32,
    ensures
        private_key_from_hex(hex_lower(secret)) == Ok::<Seq<u8>, Seq<char>>(secret),
{
    lemma_hex_text(secret);
}

/// Outcome of checking a hex-encoded signature of `message` against a hex-encoded public
/// key: whether it verifies, or the message of the error that stopped the check.
pub open spec fn signature_check(message: Seq<u8>, public_hex: Seq<char>, signature_hex: Seq<char>) -> Result<bool, Seq<char>> {
    match hex_decode_spec(vstd::utf8::encode_utf8(trimmed(public_hex))) {
        Err(e) => Err("Invalid public key hex: "@ + hex_error_message(e)),
        Ok(pk) => if pk.len() != 32 {
            Err("Public key must be 32 bytes"@)
        } else {
            match ed25519_key_check(pk) {
                Some(t) => Err("Invalid verifying key: "@ + t),
                None => match hex_decode_spec(vstd::utf8::encode_utf8(trimmed(signature_hex))) {
                    Err(e) => Err("Invalid signature hex: "@ + hex_error_message(e)),
                    Ok(sig) => if sig.len() != 64 {
                        Err("Signature must be 64 bytes"@)
                    } else {
                        Ok(ed25519_verify(pk, message, sig))
                    },
                },
            }
        },
    }
}

/// Checks a hex-encoded Ed25519 signature of `message` against a hex-encoded public key.
pub fn verify_signature_hex(message: &[u8], public_key_hex: &str, signature_hex: &str) -> (r: crate::error::Result<bool>)
    ensures
        match signature_check(message@, public_key_hex@, signature_hex@) {
            Ok(b) => r == Ok::<bool, PoxError>(b),
            Err(m) => r matches Err(PoxError::Security(t)) && t@ == m,
        },
{
    let pk_text = trim_str(public_key_hex);
    let pub_bytes = match hex_decode(pk_text.as_bytes()) {
        Ok(b) => b,
        Err(e) => {
            let mut m = owned("Invalid public key hex: ");
            m.append(e.message().as_str());
            return Err(PoxError::Security(m));
        },
    };
    if pub_bytes.len() != 32 {
        return Err(PoxError::Security(owned("Public key must be 32 bytes")));
    }
    let pub_arr = to_array32(&pub_bytes);
    match check_public_key(&pub_arr) {
        Some(t) => {
            let mut m = owned("Invalid verifying key: ");
            m.append(t.as_str());
            return Err(PoxError::Security(m));
        },
        None => {},
    }
    let sig_text = trim_str(signature_hex);
    let sig_bytes = match hex_decode(sig_text.as_bytes()) {
        Ok(b) => b,
        Err(e) => {
            let mut m = owned("Invalid signature hex: ");
            m.append(e.message().as_str());
            return Err(PoxError::Security(m));
        },
    };
    if sig_bytes.len() != 64 {
        return Err(PoxError::Security(owned("Signature must be 64 bytes")));
    }
    let sig_arr = to_array64(&sig_bytes);
    Ok(verify_bytes(&pub_arr, message, &sig_arr))
}

} // verus!
