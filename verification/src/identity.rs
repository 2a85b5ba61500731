//! Device identity: an Ed25519 signing key held as 32 secret bytes, its
//! public key and base64 encoding, signing, signature verification, and
//! the human-comparable fingerprint.

use vstd::prelude::*;

use base64::Engine;
use ed25519_dalek::{Signer, Verifier};
use rand::RngCore;
use vstd::string::StrSliceExecFns;
use vstd::string::StringExecFns;

use crate::crypto::{sha256, sha256_of};

verus! {

/// What the Ed25519 public key of a 32-byte secret is: a function of the
/// secret alone.
pub uninterp spec fn ed25519_public_key_of(secret: Seq<u8>) -> Seq<u8>;

/// What Ed25519 signing produces: deterministic in secret and message.
pub uninterp spec fn ed25519_signature_of(secret: Seq<u8>, message: Seq<u8>) -> Seq<u8>;

/// Whether an Ed25519 signature verifies under a public key: a function
/// of the three byte strings alone.
pub uninterp spec fn ed25519_verifies(public_key: Seq<u8>, message: Seq<u8>, signature: Seq<u8>) -> bool;

/// Whether 32 bytes parse as a valid Ed25519 public key.
pub uninterp spec fn ed25519_key_parses(public_key: Seq<u8>) -> bool;

/// What base64 (standard alphabet, no padding) encoding returns.
pub uninterp spec fn base64_of(bytes: Seq<u8>) -> Seq<char>;

/// What base64 (standard alphabet, no padding) decoding returns.
pub uninterp spec fn base64_decoding_of(text: Seq<char>) -> Option<Seq<u8>>;

/// Relies on rand's OsRng (RngCore::fill_bytes): fresh bytes from the
/// operating system's cryptographic generator; nothing can be promised
/// of their values.
#[verifier::external_body]
pub(crate) fn random_bytes_32() -> [u8; 32] {
    let mut bytes = [0u8; 32];
    rand::rngs::OsRng.fill_bytes(&mut bytes);
    bytes
}

/// Relies on ed25519_dalek::SigningKey::from_bytes (every 32-byte string
/// is a secret key), SigningKey::verifying_key and VerifyingKey::to_bytes:
/// the public key is a function of the secret alone, and its bytes parse
/// back with VerifyingKey::from_bytes.
#[verifier::external_body]
fn ed25519_public_key(secret: &[u8; 32]) -> (r: [u8; 32])
    ensures
        r@ == ed25519_public_key_of(secret@),
        ed25519_key_parses(r@),
{
    ed25519_dalek::SigningKey::from_bytes(secret).verifying_key().to_bytes()
}

/// Relies on ed25519_dalek's Signer::sign for SigningKey: RFC 8032
/// signing is deterministic in secret and message, and the signature it
/// produces verifies under the matching public key.
#[verifier::external_body]
fn ed25519_sign(secret: &[u8; 32], message: &[u8]) -> (r: [u8; 64])
    ensures
        r@ == ed25519_signature_of(secret@, message@),
        ed25519_verifies(ed25519_public_key_of(secret@), message@, r@),
{
    ed25519_dalek::SigningKey::from_bytes(secret).sign(message).to_bytes()
}

/// Relies on ed25519_dalek::VerifyingKey::from_bytes (rejects bytes that
/// are not a valid key) and Verifier::verify: the outcome is a function
/// of key, message and signature bytes alone.
#[verifier::external_body]
fn ed25519_check(public_key: &[u8; 32], message: &[u8], signature: &[u8; 64]) -> (r: Option<bool>)
    ensures
        r is Some <==> ed25519_key_parses(public_key@),
        r matches Some(v) ==> v == ed25519_verifies(public_key@, message@, signature@),
{
    match ed25519_dalek::VerifyingKey::from_bytes(public_key) {
        Ok(vk) => {
            let sig = ed25519_dalek::Signature::from_bytes(signature);
            Some(vk.verify(message, &sig).is_ok())
        },
        Err(_) => None,
    }
}

/// Relies on base64's STANDARD_NO_PAD engine (Engine::encode): the
/// encoding is a function of the bytes alone and decodes back to them.
#[verifier::external_body]
fn base64_encode(bytes: &[u8]) -> (r: String)
    ensures
        r@ == base64_of(bytes@),
        base64_decoding_of(r@) == Some(bytes@),
{
    base64::engine::general_purpose::STANDARD_NO_PAD.encode(bytes)
}

/// Relies on base64's STANDARD_NO_PAD engine (Engine::decode): the
/// outcome is a function of the text alone.
#[verifier::external_body]
fn base64_decode(text: &str) -> (r: Option<Vec<u8>>)
    ensures
        match r {
            Some(v) => base64_decoding_of(text@) == Some(v@),
            None => base64_decoding_of(text@) is None,
        },
{
    match base64::engine::general_purpose::STANDARD_NO_PAD.decode(text) {
        Ok(v) => Some(v),
        Err(_) => None,
    }
}

/// Errors of the identity layer.
#[derive(Debug, Clone, PartialEq, Eq)]
pub enum IdentityError {
    Io(String),
    InvalidKey,
    InvalidBase64,
}

impl IdentityError {
    /// Human-readable description of the error.
    pub fn message(&self) -> String {
        match self {
            IdentityError::Io(m) => String::from_str("I/O error: ").concat(m.as_str()),
            IdentityError::InvalidKey => String::from_str("invalid key bytes"),
            IdentityError::InvalidBase64 => String::from_str("invalid base64 input"),
        }
    }
}

/// A device identity: the 32 secret bytes of an Ed25519 signing key.
#[derive(Clone, Debug)]
pub struct DeviceIdentity {
    secret: [u8; 32],
}

/// The fingerprint characters of a digest: the first 16 bytes as
/// uppercase hex pairs joined by `:` — 47 characters.
pub open spec fn spec_fingerprint_chars(digest: Seq<u8>) -> Seq<char> {
    Seq::new(
        47,
        |i: int|
            if i % 3 == 2 {
                ':'
            } else if i % 3 == 0 {
                spec_hex_digit((digest[i / 3] >> 4) as u8)
            } else {
                spec_hex_digit((digest[i / 3] & 0xf) as u8)
            },
    )
}

/// The uppercase hex character of a value below 16.
pub open spec fn spec_hex_digit(v: u8) -> char {
    if v < 10 {
        ((48 + v) as u8) as char
    } else {
        ((55 + v) as u8) as char
    }
}

impl DeviceIdentity {
    /// The secret bytes of the identity.
    pub closed spec fn spec_secret(self) -> Seq<u8> {
        self.secret@
    }

    /// Generates a fresh identity from 32 bytes of OS randomness.
    pub fn generate() -> Self {
        Self { secret: random_bytes_32() }
    }

    /// Builds the identity owning these 32 secret bytes.
    pub fn from_secret_bytes(secret: [u8; 32]) -> (r: Self)
        ensures
            r.spec_secret() == secret@,
    {
        Self { secret }
    }

    /// The raw 32 secret bytes, for persistence.
    pub fn secret_key_bytes(&self) -> (r: [u8; 32])
        ensures
            r@ == self.spec_secret(),
    {
        self.secret
    }

    /// The 32-byte public verifying key.
    pub fn public_key_bytes(&self) -> (r: [u8; 32])
        ensures
            r@ == ed25519_public_key_of(self.spec_secret()),
            ed25519_key_parses(r@),
    {
        ed25519_public_key(&self.secret)
    }

    /// The public key in base64 without padding.
    pub fn public_key_b64(&self) -> (r: String)
        ensures
            r@ == base64_of(ed25519_public_key_of(self.spec_secret())),
            base64_decoding_of(r@) == Some(ed25519_public_key_of(self.spec_secret())),
            ed25519_key_parses(ed25519_public_key_of(self.spec_secret())),
            ed25519_public_key_of(self.spec_secret()).len() == 32,
    {
        let pk = self.public_key_bytes();
        base64_encode(pk.as_slice())
    }

    /// Signs a message, yielding the 64 signature bytes; the signature
    /// verifies under this identity's public key.
    pub fn sign(&self, message: &[u8]) -> (r: [u8; 64])
        ensures
            r@ == ed25519_signature_of(self.spec_secret(), message@),
            ed25519_verifies(ed25519_public_key_of(self.spec_secret()), message@, r@),
    {
        ed25519_sign(&self.secret, message)
    }

    /// The fingerprint shown for out-of-band trust checks: the first 16
    /// bytes of SHA-256 of the public key, as uppercase hex pairs joined
    /// by `:` — always 47 characters.
    pub fn fingerprint(&self) -> (r: String)
        ensures
            r@ == spec_fingerprint_chars(sha256_of(ed25519_public_key_of(self.spec_secret()))),
            r@.len() == 47,
    {
        let pk = self.public_key_bytes();
        let digest = sha256(pk.as_slice());
        let ghost dv = digest@;
        let table = "0123456789ABCDEF";
        proof {
            reveal_strlit("0123456789ABCDEF");
        }
        let mut out = String::new();
        let mut i: usize = 0;
        while i < 16
            invariant
                i <= 16,
                dv == sha256_of(ed25519_public_key_of(self.spec_secret())),
                digest@ == dv,
                table@ =~= "0123456789ABCDEF"@,
                table@.len() == 16,
                forall|v: u8| 0 <= v < 16 ==> #[trigger] table@[v as int] == spec_hex_digit(v),
                table.is_ascii(),
                out@.len() == (if i == 0 {
                    0int
                } else {
                    3 * i - 1
                }),
                forall|j: int| 0 <= j < out@.len() ==> out@[j] == spec_fingerprint_chars(dv)[j],
            decreases 16 - i,
        {
            if i > 0 {
                out.append(":");
                proof {
                    reveal_strlit(":");
                }
            }
            let b: u8 = digest[i];
            proof {
                assert((b >> 4) < 16 && (b & 0xf) < 16) by (bit_vector);
            }
            let hi: usize = (b >> 4) as usize;
            let lo: usize = (b & 0xf) as usize;
            out.append(table.substring_ascii(hi, hi + 1));
            out.append(table.substring_ascii(lo, lo + 1));
            i = i + 1;
        }
        proof {
            assert(out@ =~= spec_fingerprint_chars(dv));
        }
        out
    }
}

/// Copies a 32-byte slice into an array.
fn bytes32_from_slice(s: &[u8]) -> (r: [u8; 32])
    requires
        s@.len() == 32,
    ensures
        r@ == s@,
{
    let r: [u8; 32] = [
        s[0],
        s[1],
        s[2],
        s[3],
        s[4],
        s[5],
        s[6],
        s[7],
        s[8],
        s[9],
        s[10],
        s[11],
        s[12],
        s[13],
        s[14],
        s[15],
        s[16],
        s[17],
        s[18],
        s[19],
        s[20],
        s[21],
        s[22],
        s[23],
        s[24],
        s[25],
        s[26],
        s[27],
        s[28],
        s[29],
        s[30],
        s[31],
    ];
    proof {
        assert(r@ =~= s@);
    }
    r
}

/// What verifying a signature against a base64 public key yields:
/// `InvalidBase64` on undecodable text, `InvalidKey` when the decoded
/// bytes are not a 32-byte valid key, else whether the signature checks.
pub open spec fn spec_verify_signature(pk_b64: Seq<char>, message: Seq<u8>, signature: Seq<u8>) -> Result<
    bool,
    IdentityError,
> {
    match base64_decoding_of(pk_b64) {
        None => Err(IdentityError::InvalidBase64),
        Some(pk) => if pk.len() != 32 {
            Err(IdentityError::InvalidKey)
        } else if !ed25519_key_parses(pk) {
            Err(IdentityError::InvalidKey)
        } else {
            Ok(ed25519_verifies(pk, message, signature))
        },
    }
}

/// Verifies signature bytes against a base64 (no padding) public key.
pub fn verify_signature(public_key_b64: &str, message: &[u8], signature: &[u8; 64]) -> (r: Result<
    bool,
    IdentityError,
>)
    ensures
        r == spec_verify_signature(public_key_b64@, message@, signature@),
{
    let pk_bytes = match base64_decode(public_key_b64) {
        Some(v) => v,
        None => {
            return Err(IdentityError::InvalidBase64);
        },
    };
    if pk_bytes.len() != 32 {
        return Err(IdentityError::InvalidKey);
    }
    let key = bytes32_from_slice(pk_bytes.as_slice());
    match ed25519_check(&key, message, signature) {
        Some(valid) => Ok(valid),
        None => Err(IdentityError::InvalidKey),
    }
}

} // verus!
