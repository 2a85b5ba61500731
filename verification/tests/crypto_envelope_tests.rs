use p2p_core::crypto::{
    decrypt_chunk, decrypt_chunk_with_aad, derive_nonce, encrypt_chunk, encrypt_chunk_with_aad,
    Direction,
};

#[test]
fn encrypt_then_decrypt_round_trip() {
    let key = [9u8; 32];
    let nonce = derive_nonce(42, 7, Direction::SenderToReceiver);
    let plaintext = b"hello encrypted world";

    let ciphertext = encrypt_chunk(&key, nonce, plaintext).expect("encrypt");
    assert_ne!(ciphertext, plaintext);

    let decrypted = decrypt_chunk(&key, nonce, &ciphertext).expect("decrypt");
    assert_eq!(decrypted, plaintext);
}

#[test]
fn decryption_fails_with_wrong_key() {
    let good_key = [1u8; 32];
    let bad_key = [2u8; 32];
    let nonce = derive_nonce(1001, 3, Direction::SenderToReceiver);

    let ciphertext = encrypt_chunk(&good_key, nonce, b"payload").expect("encrypt");
    let result = decrypt_chunk(&bad_key, nonce, &ciphertext);

    assert!(result.is_err());
}

#[test]
fn decryption_fails_with_wrong_aad() {
    let key = [7u8; 32];
    let nonce = derive_nonce(55, 2, Direction::SenderToReceiver);

    let ciphertext =
        encrypt_chunk_with_aad(&key, nonce, b"payload", b"header-v2").expect("encrypt");

    let result = decrypt_chunk_with_aad(&key, nonce, &ciphertext, b"header-v1");
    assert!(result.is_err());
}

#[test]
fn nonce_derivation_changes_with_direction_and_index() {
    let n1 = derive_nonce(5, 1, Direction::SenderToReceiver);
    let n2 = derive_nonce(5, 2, Direction::SenderToReceiver);
    let n3 = derive_nonce(5, 1, Direction::ReceiverToSender);

    assert_ne!(n1, n2);
    assert_ne!(n1, n3);
    assert_eq!(n1.len(), 12);
}

#[test]
fn nonce_layout_is_id_then_index_then_direction() {
    let n = derive_nonce(0x0102030405060708, 0x00a0b0c0, Direction::ReceiverToSender);
    assert_eq!(&n[..8], &[1, 2, 3, 4, 5, 6, 7, 8]);
    assert_eq!(&n[8..11], &[0xa0, 0xb0, 0xc0]);
    assert_eq!(n[11], 0x02);
}

#[test]
fn ciphertext_is_plaintext_plus_tag() {
    let key = [3u8; 32];
    let nonce = derive_nonce(9, 0, Direction::SenderToReceiver);
    let ciphertext = encrypt_chunk(&key, nonce, b"abcde").expect("encrypt");
    assert_eq!(ciphertext.len(), 5 + 16);

    let empty = encrypt_chunk(&key, nonce, b"").expect("encrypt empty");
    assert_eq!(empty.len(), 16);
    let back = decrypt_chunk(&key, nonce, &empty).expect("decrypt empty");
    assert!(back.is_empty());
}

#[test]
fn truncated_ciphertext_is_rejected() {
    let key = [4u8; 32];
    let nonce = derive_nonce(10, 1, Direction::SenderToReceiver);
    let ciphertext = encrypt_chunk(&key, nonce, b"xyz").expect("encrypt");
    assert!(decrypt_chunk(&key, nonce, &ciphertext[..10]).is_err());
    let mut tampered = ciphertext.clone();
    tampered[0] ^= 0xff;
    assert!(decrypt_chunk(&key, nonce, &tampered).is_err());
}
