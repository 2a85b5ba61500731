use p2p_core::identity::{verify_signature, DeviceIdentity, IdentityError};

#[test]
fn generate_has_public_key_and_fingerprint() {
    let id = DeviceIdentity::generate();
    let public_key = id.public_key_b64();
    let fp = id.fingerprint();

    assert!(!public_key.is_empty());
    assert_eq!(fp.len(), 47); // 16 bytes -> "AA:.." format => 16*2 + 15 separators
    assert!(fp.chars().all(|c| c.is_ascii_hexdigit() || c == ':'));
}

#[test]
fn sign_and_verify_roundtrip() {
    let id = DeviceIdentity::generate();
    let msg = b"handshake-message";
    let sig = id.sign(msg);
    let ok = verify_signature(&id.public_key_b64(), msg, &sig).expect("verify");
    assert!(ok);
}

#[test]
fn secret_bytes_round_trip_preserves_public_key() {
    let id = DeviceIdentity::generate();
    let original_pk = id.public_key_b64();

    let reloaded = DeviceIdentity::from_secret_bytes(id.secret_key_bytes());
    assert_eq!(reloaded.public_key_b64(), original_pk);
    assert_eq!(reloaded.fingerprint(), id.fingerprint());
}

#[test]
fn verify_signature_rejects_garbage_keys() {
    let id = DeviceIdentity::generate();
    let sig = id.sign(b"msg");

    let err = verify_signature("!!!not-base64!!!", b"msg", &sig).expect_err("bad base64");
    assert!(matches!(err, IdentityError::InvalidBase64));

    let err = verify_signature("AAAA", b"msg", &sig).expect_err("wrong length");
    assert!(matches!(err, IdentityError::InvalidKey));
}

#[test]
fn tampered_message_fails_verification() {
    let id = DeviceIdentity::generate();
    let sig = id.sign(b"original");
    let ok = verify_signature(&id.public_key_b64(), b"tampered", &sig).expect("verify runs");
    assert!(!ok);
}
