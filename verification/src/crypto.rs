//! The crypto envelope: nonce derivation and AEAD-style encryption of a
//! chunk payload under a 32-byte key, a 12-byte nonce and optional AAD.
//!
//! The construction is encrypt-then-MAC over SHA-256: the payload is
//! XOR-ed with a keystream of SHA-256 blocks derived from key, nonce and a
//! block counter, and a 16-byte tag binds key, nonce, AAD and ciphertext.

use vstd::prelude::*;

use sha2::Digest;

use crate::wire::{bytes_eq, push_u64_be, spec_u64_to_be_bytes};

verus! {

/// What SHA-256 returns: a pure function of the input bytes alone.
pub uninterp spec fn sha256_of(input: Seq<u8>) -> Seq<u8>;

/// Relies on sha2::Sha256::digest: the 32-byte SHA-256 digest, a function
/// of the input bytes alone.
#[verifier::external_body]
pub(crate) fn sha256(input: &[u8]) -> (r: [u8; 32])
    ensures
        r@ == sha256_of(input@),
{
    let digest = sha2::Sha256::digest(input);
    let mut out = [0u8; 32];
    out.copy_from_slice(&digest);
    out
}

/// The direction a frame travels in, bound into its nonce.
#[derive(Debug, Clone, Copy, PartialEq, Eq, Structural)]
pub enum Direction {
    SenderToReceiver,
    ReceiverToSender,
}

impl Direction {
    /// The tag byte of the direction.
    pub open spec fn spec_byte(self) -> u8 {
        match self {
            Direction::SenderToReceiver => 0x01u8,
            Direction::ReceiverToSender => 0x02u8,
        }
    }
}

/// The derived nonce: the transfer id big-endian in bytes 0..8, the low
/// 3 bytes of the chunk index in 8..11, and the direction tag in byte 11.
pub open spec fn spec_derive_nonce(transfer_id: u64, chunk_index: u32, direction: Direction) -> Seq<
    u8,
> {
    spec_u64_to_be_bytes(transfer_id) + seq![
        ((chunk_index >> 16) & 0xff) as u8,
        ((chunk_index >> 8) & 0xff) as u8,
        (chunk_index & 0xff) as u8,
        direction.spec_byte(),
    ]
}

/// Derives the 12-byte nonce of a chunk.
pub fn derive_nonce(transfer_id: u64, chunk_index: u32, direction: Direction) -> (r: [u8; 12])
    ensures
        r@ == spec_derive_nonce(transfer_id, chunk_index, direction),
        r@.len() == 12,
{
    let dir_byte: u8 = match direction {
        Direction::SenderToReceiver => 0x01u8,
        Direction::ReceiverToSender => 0x02u8,
    };
    let r: [u8; 12] = [
        ((transfer_id >> 56) & 0xff) as u8,
        ((transfer_id >> 48) & 0xff) as u8,
        ((transfer_id >> 40) & 0xff) as u8,
        ((transfer_id >> 32) & 0xff) as u8,
        ((transfer_id >> 24) & 0xff) as u8,
        ((transfer_id >> 16) & 0xff) as u8,
        ((transfer_id >> 8) & 0xff) as u8,
        (transfer_id & 0xff) as u8,
        ((chunk_index >> 16) & 0xff) as u8,
        ((chunk_index >> 8) & 0xff) as u8,
        (chunk_index & 0xff) as u8,
        dir_byte,
    ];
    proof {
        assert(r@ =~= spec_derive_nonce(transfer_id, chunk_index, direction));
    }
    r
}

/// On chunk indices below 2^24, nonce derivation is injective: equal
/// nonces force equal transfer ids, chunk indices and directions.
pub proof fn lemma_derive_nonce_injective(
    t1: u64,
    i1: u32,
    d1: Direction,
    t2: u64,
    i2: u32,
    d2: Direction,
)
    requires
        i1 < 0x100_0000,
        i2 < 0x100_0000,
        spec_derive_nonce(t1, i1, d1) == spec_derive_nonce(t2, i2, d2),
    ensures
        t1 == t2,
        i1 == i2,
        d1 == d2,
{
    let n1 = spec_derive_nonce(t1, i1, d1);
    let n2 = spec_derive_nonce(t2, i2, d2);
    assert(n1.subrange(0, 8) =~= spec_u64_to_be_bytes(t1));
    assert(n2.subrange(0, 8) =~= spec_u64_to_be_bytes(t2));
    crate::wire::lemma_u64_be_bytes_injective(t1, t2);
    assert(n1[8] == ((i1 >> 16) & 0xff) as u8);
    assert(n1[9] == ((i1 >> 8) & 0xff) as u8);
    assert(n1[10] == (i1 & 0xff) as u8);
    assert(n1[11] == d1.spec_byte());
    assert(n2[8] == ((i2 >> 16) & 0xff) as u8);
    assert(n2[9] == ((i2 >> 8) & 0xff) as u8);
    assert(n2[10] == (i2 & 0xff) as u8);
    assert(n2[11] == d2.spec_byte());
    assert(i1 == i2) by (bit_vector)
        requires
            i1 < 0x100_0000,
            i2 < 0x100_0000,
            ((i1 >> 16) & 0xff) as u8 == ((i2 >> 16) & 0xff) as u8,
            ((i1 >> 8) & 0xff) as u8 == ((i2 >> 8) & 0xff) as u8,
            (i1 & 0xff) as u8 == (i2 & 0xff) as u8,
    ;
    assert(d1.spec_byte() == d2.spec_byte());
}

/// The AEAD failure: the ciphertext does not authenticate.
#[derive(Debug, Clone, Copy, PartialEq, Eq, Structural)]
pub enum CryptoEnvelopeError {
    DecryptionFailure,
}

impl CryptoEnvelopeError {
    /// Human-readable description of the error.
    pub fn message(&self) -> String {
        match self {
            CryptoEnvelopeError::DecryptionFailure => String::from_str("decryption failed"),
        }
    }
}

/// One 32-byte keystream block: the digest of key, nonce and the
/// big-endian block counter.
pub open spec fn spec_keystream_block(key: Seq<u8>, nonce: Seq<u8>, block: u64) -> Seq<u8> {
    sha256_of(key + nonce + spec_u64_to_be_bytes(block))
}

/// The keystream byte at position `i`.
pub open spec fn spec_keystream_byte(key: Seq<u8>, nonce: Seq<u8>, i: int) -> u8 {
    spec_keystream_block(key, nonce, (i / 32) as u64)[i % 32]
}

/// `data` XOR-ed byte-wise with the keystream.
pub open spec fn spec_xor_keystream(key: Seq<u8>, nonce: Seq<u8>, data: Seq<u8>) -> Seq<u8> {
    Seq::new(data.len(), |i: int| data[i] ^ spec_keystream_byte(key, nonce, i))
}

/// The 16-byte tag: the first 16 bytes of a digest over key, nonce, the
/// AAD length, the AAD and the ciphertext body.
pub open spec fn spec_tag(key: Seq<u8>, nonce: Seq<u8>, aad: Seq<u8>, body: Seq<u8>) -> Seq<u8> {
    Seq::new(
        16,
        |i: int| sha256_of(key + nonce + spec_u64_to_be_bytes(aad.len() as u64) + aad + body)[i],
    )
}

/// The ciphertext: the XOR-ed payload followed by the 16-byte tag, so the
/// ciphertext is always 16 bytes longer than the plaintext.
pub open spec fn spec_encrypt(key: Seq<u8>, nonce: Seq<u8>, aad: Seq<u8>, plaintext: Seq<u8>) -> Seq<
    u8,
> {
    spec_xor_keystream(key, nonce, plaintext) + spec_tag(
        key,
        nonce,
        aad,
        spec_xor_keystream(key, nonce, plaintext),
    )
}

/// What decryption accepts and returns: ciphertexts of at least tag
/// length whose tag matches, yielding the un-XOR-ed body.
pub open spec fn spec_decrypt(key: Seq<u8>, nonce: Seq<u8>, aad: Seq<u8>, ciphertext: Seq<u8>) -> Option<
    Seq<u8>,
> {
    if ciphertext.len() < 16 {
        None
    } else {
        let body = ciphertext.take(ciphertext.len() - 16);
        let tag = ciphertext.skip(ciphertext.len() - 16);
        if tag == spec_tag(key, nonce, aad, body) {
            Some(spec_xor_keystream(key, nonce, body))
        } else {
            None
        }
    }
}

/// Computes one keystream block.
fn keystream_block(key: &[u8; 32], nonce: &[u8; 12], block: u64) -> (r: [u8; 32])
    ensures
        r@ == spec_keystream_block(key@, nonce@, block),
{
    let mut msg: Vec<u8> = Vec::new();
    msg.extend_from_slice(key.as_slice());
    msg.extend_from_slice(nonce.as_slice());
    push_u64_be(&mut msg, block);
    proof {
        assert(msg@ =~= key@ + nonce@ + spec_u64_to_be_bytes(block));
    }
    sha256(msg.as_slice())
}

/// XOR-s `data` with the keystream of `(key, nonce)`.
fn xor_keystream(key: &[u8; 32], nonce: &[u8; 12], data: &[u8]) -> (r: Vec<u8>)
    ensures
        r@ == spec_xor_keystream(key@, nonce@, data@),
{
    let mut out: Vec<u8> = Vec::new();
    let mut block: [u8; 32] = [0u8; 32];
    let mut i: usize = 0;
    while i < data.len()
        invariant
            i <= data@.len(),
            out@.len() == i,
            forall|j: int| 0 <= j < i ==> out@[j] == data@[j] ^ spec_keystream_byte(
                key@,
                nonce@,
                j,
            ),
            i % 32 != 0 ==> block@ == spec_keystream_block(key@, nonce@, (i / 32) as u64),
        decreases data@.len() - i,
    {
        if i % 32 == 0 {
            block = keystream_block(key, nonce, (i / 32) as u64);
        }
        out.push(data[i] ^ block[i % 32]);
        i = i + 1;
    }
    proof {
        assert(out@ =~= spec_xor_keystream(key@, nonce@, data@));
    }
    out
}

/// Computes the 16-byte tag.
fn compute_tag(key: &[u8; 32], nonce: &[u8; 12], aad: &[u8], body: &[u8]) -> (r: Vec<u8>)
    ensures
        r@ == spec_tag(key@, nonce@, aad@, body@),
{
    let mut msg: Vec<u8> = Vec::new();
    msg.extend_from_slice(key.as_slice());
    msg.extend_from_slice(nonce.as_slice());
    push_u64_be(&mut msg, aad.len() as u64);
    msg.extend_from_slice(aad);
    msg.extend_from_slice(body);
    proof {
        assert(msg@ =~= key@ + nonce@ + spec_u64_to_be_bytes(aad@.len() as u64) + aad@ + body@);
    }
    let digest = sha256(msg.as_slice());
    let tag = vstd::slice::slice_to_vec(&digest.as_slice()[0..16]);
    proof {
        assert(tag@ =~= spec_tag(key@, nonce@, aad@, body@));
    }
    tag
}

/// Encrypts a payload under `(key, nonce, aad)`; the ciphertext is the
/// plaintext length plus the 16-byte tag.
pub fn encrypt_chunk_with_aad(
    session_tx_key: &[u8; 32],
    nonce: [u8; 12],
    plaintext: &[u8],
    aad: &[u8],
) -> (r: Result<Vec<u8>, CryptoEnvelopeError>)
    ensures
        r matches Ok(ct) && ct@ == spec_encrypt(session_tx_key@, nonce@, aad@, plaintext@),
{
    let body = xor_keystream(session_tx_key, &nonce, plaintext);
    let tag = compute_tag(session_tx_key, &nonce, aad, body.as_slice());
    let mut out = body;
    out.extend_from_slice(tag.as_slice());
    Ok(out)
}

/// Decrypts a ciphertext under `(key, nonce, aad)`: fails with
/// `DecryptionFailure` exactly when the ciphertext is shorter than the
/// tag or the tag does not match.
pub fn decrypt_chunk_with_aad(
    session_rx_key: &[u8; 32],
    nonce: [u8; 12],
    ciphertext: &[u8],
    aad: &[u8],
) -> (r: Result<Vec<u8>, CryptoEnvelopeError>)
    ensures
        match r {
            Ok(pt) => spec_decrypt(session_rx_key@, nonce@, aad@, ciphertext@) == Some(pt@),
            Err(e) => spec_decrypt(session_rx_key@, nonce@, aad@, ciphertext@) is None && e
                == CryptoEnvelopeError::DecryptionFailure,
        },
{
    if ciphertext.len() < 16 {
        return Err(CryptoEnvelopeError::DecryptionFailure);
    }
    let split = ciphertext.len() - 16;
    let body = &ciphertext[0..split];
    let tag = &ciphertext[split..ciphertext.len()];
    let expected = compute_tag(session_rx_key, &nonce, aad, body);
    proof {
        assert(body@ =~= ciphertext@.take(ciphertext@.len() - 16));
        assert(tag@ =~= ciphertext@.skip(ciphertext@.len() - 16));
    }
    if !bytes_eq(tag, expected.as_slice()) {
        return Err(CryptoEnvelopeError::DecryptionFailure);
    }
    Ok(xor_keystream(session_rx_key, &nonce, body))
}

/// Encrypts with empty AAD.
pub fn encrypt_chunk(session_tx_key: &[u8; 32], nonce: [u8; 12], plaintext: &[u8]) -> (r: Result<
    Vec<u8>,
    CryptoEnvelopeError,
>)
    ensures
        r matches Ok(ct) && ct@ == spec_encrypt(session_tx_key@, nonce@, Seq::empty(), plaintext@),
{
    let empty: Vec<u8> = Vec::new();
    let r = encrypt_chunk_with_aad(session_tx_key, nonce, plaintext, empty.as_slice());
    proof {
        assert(empty@ =~= Seq::<u8>::empty());
    }
    r
}

/// Decrypts with empty AAD.
pub fn decrypt_chunk(session_rx_key: &[u8; 32], nonce: [u8; 12], ciphertext: &[u8]) -> (r: Result<
    Vec<u8>,
    CryptoEnvelopeError,
>)
    ensures
        match r {
            Ok(pt) => spec_decrypt(session_rx_key@, nonce@, Seq::empty(), ciphertext@) == Some(
                pt@,
            ),
            Err(e) => spec_decrypt(session_rx_key@, nonce@, Seq::empty(), ciphertext@) is None
                && e == CryptoEnvelopeError::DecryptionFailure,
        },
{
    let empty: Vec<u8> = Vec::new();
    let r = decrypt_chunk_with_aad(session_rx_key, nonce, ciphertext, empty.as_slice());
    proof {
        assert(empty@ =~= Seq::<u8>::empty());
    }
    r
}

/// XOR with one byte is an involution.
proof fn lemma_xor_involute(a: u8, b: u8)
    ensures
        (a ^ b) ^ b == a,
{
    assert((a ^ b) ^ b == a) by (bit_vector);
}

/// XOR-ing with the keystream twice gives the data back.
pub proof fn lemma_xor_keystream_involute(key: Seq<u8>, nonce: Seq<u8>, data: Seq<u8>)
    ensures
        spec_xor_keystream(key, nonce, spec_xor_keystream(key, nonce, data)) == data,
{
    let once = spec_xor_keystream(key, nonce, data);
    let twice = spec_xor_keystream(key, nonce, once);
    assert forall|i: int| 0 <= i < data.len() implies twice[i] == data[i] by {
        lemma_xor_involute(data[i], spec_keystream_byte(key, nonce, i));
    }
    assert(twice =~= data);
}

/// A ciphertext whose tag bytes were altered never decrypts: the
/// recomputed tag cannot match. (That altering the key, nonce or AAD
/// also fails rests on the collision resistance of the hash and is
/// checked by test, not proved.)
pub proof fn lemma_tampered_tag_fails(
    key: Seq<u8>,
    nonce: Seq<u8>,
    aad: Seq<u8>,
    plaintext: Seq<u8>,
    tag: Seq<u8>,
)
    requires
        tag.len() == 16,
        tag != spec_tag(key, nonce, aad, spec_xor_keystream(key, nonce, plaintext)),
    ensures
        spec_decrypt(key, nonce, aad, spec_xor_keystream(key, nonce, plaintext) + tag) is None,
{
    let body = spec_xor_keystream(key, nonce, plaintext);
    let ct = body + tag;
    assert(ct.take(ct.len() - 16) =~= body);
    assert(ct.skip(ct.len() - 16) =~= tag);
}

/// Decrypting with the same key, nonce and AAD recovers the plaintext:
/// the AEAD round trip.
pub proof fn lemma_encrypt_decrypt_round_trip(
    key: Seq<u8>,
    nonce: Seq<u8>,
    aad: Seq<u8>,
    plaintext: Seq<u8>,
)
    ensures
        spec_decrypt(key, nonce, aad, spec_encrypt(key, nonce, aad, plaintext)) == Some(plaintext),
{
    let body = spec_xor_keystream(key, nonce, plaintext);
    let tag = spec_tag(key, nonce, aad, body);
    let ct = spec_encrypt(key, nonce, aad, plaintext);
    assert(ct.len() == plaintext.len() + 16);
    assert(ct.take(ct.len() - 16) =~= body);
    assert(ct.skip(ct.len() - 16) =~= tag);
    lemma_xor_keystream_involute(key, nonce, plaintext);
}

} // verus!
