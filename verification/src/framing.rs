//! Chunk framing: the plaintext v1 wire format, the authenticated v2 wire
//! format, and the version-tolerant decoder that dispatches on the magic.

use vstd::prelude::*;

use crate::wire::{
    push_u16_be, push_u32_be, push_u64_be, read_u16_be, read_u32_be, read_u64_be,
    spec_u16_from_be_bytes, spec_u16_to_be_bytes, spec_u32_from_be_bytes, spec_u32_to_be_bytes,
    spec_u64_from_be_bytes, spec_u64_to_be_bytes, lemma_u16_be_bytes_invert,
    lemma_u32_be_bytes_invert, lemma_u64_be_bytes_invert,
};

verus! {

/// Magic prefix of a v1 frame: the ASCII bytes of `P2PF`.
pub open spec fn magic_v1() -> Seq<u8> {
    seq![0x50u8, 0x32u8, 0x50u8, 0x46u8]
}

/// Magic prefix of a v2 frame: the ASCII bytes of `P2PE`.
pub open spec fn magic_v2() -> Seq<u8> {
    seq![0x50u8, 0x32u8, 0x50u8, 0x45u8]
}

/// Errors of the framing and transfer-session layer.
#[derive(Debug, Clone, PartialEq, Eq)]
pub enum TransferError {
    InvalidFrame(&'static str),
    InvalidConfig(&'static str),
    ChunkOutOfRange,
    WrongTransfer,
    UnknownReceiver,
    AckOutOfRange,
    Crypto(&'static str),
}

impl TransferError {
    /// Human-readable description of the error.
    pub fn message(&self) -> String {
        match self {
            TransferError::InvalidFrame(m) => String::from_str("invalid frame: ").concat(m),
            TransferError::InvalidConfig(m) => String::from_str("invalid config: ").concat(m),
            TransferError::ChunkOutOfRange => String::from_str("chunk index out of range"),
            TransferError::WrongTransfer => String::from_str("ack for wrong transfer"),
            TransferError::UnknownReceiver => String::from_str("unknown receiver"),
            TransferError::AckOutOfRange => String::from_str(
                "ack next_expected_chunk out of range",
            ),
            TransferError::Crypto(m) => String::from_str("crypto error: ").concat(m),
        }
    }
}

/// A logical (v1) transfer chunk.
#[derive(Debug, Clone, PartialEq, Eq)]
pub struct TransferChunk {
    pub transfer_id: u64,
    pub chunk_index: u32,
    pub total_chunks: u32,
    pub payload: Vec<u8>,
}

/// The payload length that a v1 frame records: the true length,
/// saturated at the largest `u32`.
pub open spec fn spec_v1_payload_len(payload: Seq<u8>) -> u32 {
    if payload.len() > 0xffff_ffff {
        0xffff_ffffu32
    } else {
        payload.len() as u32
    }
}

/// The v1 wire encoding: magic, transfer id, chunk index, total chunks and
/// payload length (all big-endian), then the payload.
pub open spec fn spec_encode_v1(c: TransferChunk) -> Seq<u8> {
    magic_v1() + spec_u64_to_be_bytes(c.transfer_id) + spec_u32_to_be_bytes(c.chunk_index)
        + spec_u32_to_be_bytes(c.total_chunks) + spec_u32_to_be_bytes(spec_v1_payload_len(
        c.payload@,
    )) + c.payload@.take(spec_v1_payload_len(c.payload@) as int)
}

/// What a v1 decoder accepts: header intact, length exact, bounds valid.
/// Yields `(transfer_id, chunk_index, total_chunks)`; the payload is
/// given by [`spec_decode_v1_payload`].
pub open spec fn spec_decode_v1(bytes: Seq<u8>) -> Option<(u64, u32, u32)> {
    if bytes.len() < 24 || bytes.take(4) != magic_v1() {
        None
    } else {
        let transfer_id = spec_u64_from_be_bytes(bytes.subrange(4, 12));
        let chunk_index = spec_u32_from_be_bytes(bytes.subrange(12, 16));
        let total_chunks = spec_u32_from_be_bytes(bytes.subrange(16, 20));
        let payload_len = spec_u32_from_be_bytes(bytes.subrange(20, 24));
        if bytes.len() != 24 + payload_len {
            None
        } else if total_chunks == 0 || chunk_index >= total_chunks {
            None
        } else {
            Some((transfer_id, chunk_index, total_chunks))
        }
    }
}

/// The payload bytes a v1 decoder yields (everything after the header).
pub open spec fn spec_decode_v1_payload(bytes: Seq<u8>) -> Seq<u8> {
    bytes.skip(24)
}

impl TransferChunk {
    /// A chunk whose encoding loses nothing: the payload length fits the
    /// wire field and the chunk bounds are valid.
    pub open spec fn wf(self) -> bool {
        &&& self.payload@.len() <= 0xffff_ffff
        &&& self.total_chunks >= 1
        &&& self.chunk_index < self.total_chunks
    }

    /// Encodes the chunk as a v1 frame.
    pub fn encode(&self) -> (r: Vec<u8>)
        ensures
            r@ == spec_encode_v1(*self),
    {
        let payload_len: u32 = if self.payload.len() > 0xffff_ffff {
            0xffff_ffffu32
        } else {
            self.payload.len() as u32
        };
        let mut out: Vec<u8> = Vec::new();
        out.push(0x50u8);
        out.push(0x32u8);
        out.push(0x50u8);
        out.push(0x46u8);
        proof {
            assert(out@ =~= magic_v1());
        }
        push_u64_be(&mut out, self.transfer_id);
        push_u32_be(&mut out, self.chunk_index);
        push_u32_be(&mut out, self.total_chunks);
        push_u32_be(&mut out, payload_len);
        out.extend_from_slice(&self.payload.as_slice()[0..payload_len as usize]);
        proof {
            assert(out@ =~= spec_encode_v1(*self));
        }
        out
    }

    /// Decodes a v1 frame, accepting exactly the byte strings that
    /// `spec_decode_v1` accepts.
    pub fn decode(bytes: &[u8]) -> (r: Result<Self, TransferError>)
        ensures
            match r {
                Ok(c) => {
                    &&& spec_decode_v1(bytes@) == Some(
                        (c.transfer_id, c.chunk_index, c.total_chunks),
                    )
                    &&& c.payload@ == spec_decode_v1_payload(bytes@)
                },
                Err(e) => {
                    &&& spec_decode_v1(bytes@) is None
                    &&& e matches TransferError::InvalidFrame(_)
                },
            },
    {
        if bytes.len() < 24 {
            return Err(TransferError::InvalidFrame("bad header"));
        }
        if !(bytes[0] == 0x50 && bytes[1] == 0x32 && bytes[2] == 0x50 && bytes[3] == 0x46) {
            proof {
                assert(bytes@.take(4) != magic_v1());
            }
            return Err(TransferError::InvalidFrame("bad header"));
        }
        proof {
            assert(bytes@.take(4) =~= magic_v1());
        }

        let transfer_id = read_u64_be(bytes, 4);
        let chunk_index = read_u32_be(bytes, 12);
        let total_chunks = read_u32_be(bytes, 16);
        let payload_len = read_u32_be(bytes, 20);

        if !(bytes.len() >= 24 && bytes.len() - 24 == payload_len as usize) {
            return Err(TransferError::InvalidFrame("invalid payload length"));
        }
        if total_chunks == 0 || chunk_index >= total_chunks {
            return Err(TransferError::InvalidFrame("invalid chunk bounds"));
        }

        let payload = vstd::slice::slice_to_vec(&bytes[24..bytes.len()]);
        proof {
            assert(payload@ =~= spec_decode_v1_payload(bytes@));
        }
        Ok(Self { transfer_id, chunk_index, total_chunks, payload })
    }
}

/// A v1 frame decodes back to the chunk it was encoded from.
pub proof fn lemma_v1_round_trip(c: TransferChunk)
    requires
        c.wf(),
    ensures
        spec_decode_v1(spec_encode_v1(c)) == Some((c.transfer_id, c.chunk_index, c.total_chunks)),
        spec_decode_v1_payload(spec_encode_v1(c)) == c.payload@,
{
    let e = spec_encode_v1(c);
    let plen = spec_v1_payload_len(c.payload@);
    assert(c.payload@.take(plen as int) =~= c.payload@);
    assert(e.len() == 24 + c.payload@.len());
    assert(e.take(4) =~= magic_v1());
    assert(e.subrange(4, 12) =~= spec_u64_to_be_bytes(c.transfer_id));
    assert(e.subrange(12, 16) =~= spec_u32_to_be_bytes(c.chunk_index));
    assert(e.subrange(16, 20) =~= spec_u32_to_be_bytes(c.total_chunks));
    assert(e.subrange(20, 24) =~= spec_u32_to_be_bytes(plen));
    lemma_u64_be_bytes_invert(c.transfer_id);
    lemma_u32_be_bytes_invert(c.chunk_index);
    lemma_u32_be_bytes_invert(c.total_chunks);
    lemma_u32_be_bytes_invert(plen);
    assert(e.skip(24) =~= c.payload@);
}

/// Whether a v2 payload is carried encrypted or in the clear.
#[derive(Debug, Clone, Copy, PartialEq, Eq, Structural)]
pub enum EncryptionFlag {
    Plaintext,
    Encrypted,
}

impl EncryptionFlag {
    /// The wire byte of the flag.
    pub open spec fn spec_byte(self) -> u8 {
        match self {
            EncryptionFlag::Plaintext => 0u8,
            EncryptionFlag::Encrypted => 1u8,
        }
    }

    /// Writes the flag as its wire byte.
    pub fn as_byte(self) -> (r: u8)
        ensures
            r == self.spec_byte(),
    {
        match self {
            EncryptionFlag::Plaintext => 0u8,
            EncryptionFlag::Encrypted => 1u8,
        }
    }

    /// The flag denoted by a wire byte, if any.
    pub open spec fn spec_from_byte(v: u8) -> Option<EncryptionFlag> {
        if v == 0 {
            Some(EncryptionFlag::Plaintext)
        } else if v == 1 {
            Some(EncryptionFlag::Encrypted)
        } else {
            None
        }
    }

    /// Parses a wire byte; any byte other than 0 or 1 is an invalid frame.
    pub fn from_byte(v: u8) -> (r: Result<EncryptionFlag, TransferError>)
        ensures
            match r {
                Ok(f) => Self::spec_from_byte(v) == Some(f),
                Err(e) => Self::spec_from_byte(v) is None && e matches
                    TransferError::InvalidFrame(_),
            },
    {
        if v == 0 {
            Ok(EncryptionFlag::Plaintext)
        } else if v == 1 {
            Ok(EncryptionFlag::Encrypted)
        } else {
            Err(TransferError::InvalidFrame("invalid encryption flag"))
        }
    }
}

/// A v2 transfer chunk: the v1 fields plus protocol version, encryption
/// flag, AEAD nonce and associated data.
#[derive(Debug, Clone, PartialEq, Eq)]
pub struct TransferChunkV2 {
    pub protocol_version: u8,
    pub encryption_flag: EncryptionFlag,
    pub transfer_id: u64,
    pub chunk_index: u32,
    pub total_chunks: u32,
    pub nonce: [u8; 12],
    pub aad: Vec<u8>,
    pub payload: Vec<u8>,
}

/// The AAD length that a v2 frame records: the true length, saturated at
/// the largest `u16`.
pub open spec fn spec_v2_aad_len(aad: Seq<u8>) -> u16 {
    if aad.len() > 0xffff {
        0xffffu16
    } else {
        aad.len() as u16
    }
}

/// The v2 wire encoding: magic, version byte, flag byte, transfer id,
/// chunk index, total chunks, nonce, AAD length, payload length, then the
/// AAD and the payload.
pub open spec fn spec_encode_v2(c: TransferChunkV2) -> Seq<u8> {
    magic_v2() + seq![c.protocol_version] + seq![c.encryption_flag.spec_byte()]
        + spec_u64_to_be_bytes(c.transfer_id) + spec_u32_to_be_bytes(c.chunk_index)
        + spec_u32_to_be_bytes(c.total_chunks) + c.nonce@ + spec_u16_to_be_bytes(spec_v2_aad_len(
        c.aad@,
    )) + spec_u32_to_be_bytes(spec_v1_payload_len(c.payload@)) + c.aad@.take(spec_v2_aad_len(c.aad@)
        as int) + c.payload@.take(spec_v1_payload_len(c.payload@) as int)
}

/// What a v2 decoder accepts: header intact, version 2, known flag, valid
/// bounds, exact length. Yields
/// `(protocol_version, encryption_flag, transfer_id, chunk_index, total_chunks)`;
/// nonce, AAD and payload are given by the spec functions below.
pub open spec fn spec_decode_v2(bytes: Seq<u8>) -> Option<(u8, EncryptionFlag, u64, u32, u32)> {
    if bytes.len() < 40 || bytes.take(4) != magic_v2() {
        None
    } else if EncryptionFlag::spec_from_byte(bytes[5]) is None {
        None
    } else if bytes[4] != 2 {
        None
    } else {
        let flag = EncryptionFlag::spec_from_byte(bytes[5])->Some_0;
        let transfer_id = spec_u64_from_be_bytes(bytes.subrange(6, 14));
        let chunk_index = spec_u32_from_be_bytes(bytes.subrange(14, 18));
        let total_chunks = spec_u32_from_be_bytes(bytes.subrange(18, 22));
        let aad_len = spec_u16_from_be_bytes(bytes.subrange(34, 36));
        let payload_len = spec_u32_from_be_bytes(bytes.subrange(36, 40));
        if total_chunks == 0 || chunk_index >= total_chunks {
            None
        } else if bytes.len() != 40 + aad_len + payload_len {
            None
        } else {
            Some((bytes[4], flag, transfer_id, chunk_index, total_chunks))
        }
    }
}

/// The nonce bytes of a v2 frame.
pub open spec fn spec_decode_v2_nonce(bytes: Seq<u8>) -> Seq<u8> {
    bytes.subrange(22, 34)
}

/// The AAD bytes of a v2 frame.
pub open spec fn spec_decode_v2_aad(bytes: Seq<u8>) -> Seq<u8> {
    bytes.subrange(40, 40 + spec_u16_from_be_bytes(bytes.subrange(34, 36)) as int)
}

/// The payload bytes of a v2 frame.
pub open spec fn spec_decode_v2_payload(bytes: Seq<u8>) -> Seq<u8> {
    bytes.skip(40 + spec_u16_from_be_bytes(bytes.subrange(34, 36)) as int)
}

impl TransferChunkV2 {
    /// A frame whose encoding loses nothing: version 2, lengths that fit
    /// their wire fields, valid chunk bounds.
    pub open spec fn wf(self) -> bool {
        &&& self.protocol_version == 2
        &&& self.aad@.len() <= 0xffff
        &&& self.payload@.len() <= 0xffff_ffff
        &&& self.total_chunks >= 1
        &&& self.chunk_index < self.total_chunks
    }

    /// Encodes the chunk as a v2 frame.
    pub fn encode(&self) -> (r: Vec<u8>)
        ensures
            r@ == spec_encode_v2(*self),
    {
        let aad_len: u16 = if self.aad.len() > 0xffff {
            0xffffu16
        } else {
            self.aad.len() as u16
        };
        let payload_len: u32 = if self.payload.len() > 0xffff_ffff {
            0xffff_ffffu32
        } else {
            self.payload.len() as u32
        };
        let mut out: Vec<u8> = Vec::new();
        out.push(0x50u8);
        out.push(0x32u8);
        out.push(0x50u8);
        out.push(0x45u8);
        proof {
            assert(out@ =~= magic_v2());
        }
        out.push(self.protocol_version);
        out.push(self.encryption_flag.as_byte());
        push_u64_be(&mut out, self.transfer_id);
        push_u32_be(&mut out, self.chunk_index);
        push_u32_be(&mut out, self.total_chunks);
        out.extend_from_slice(self.nonce.as_slice());
        push_u16_be(&mut out, aad_len);
        push_u32_be(&mut out, payload_len);
        out.extend_from_slice(&self.aad.as_slice()[0..aad_len as usize]);
        out.extend_from_slice(&self.payload.as_slice()[0..payload_len as usize]);
        proof {
            assert(out@ =~= spec_encode_v2(*self));
        }
        out
    }

    /// Decodes a v2 frame, accepting exactly the byte strings that
    /// `spec_decode_v2` accepts.
    pub fn decode(bytes: &[u8]) -> (r: Result<Self, TransferError>)
        ensures
            match r {
                Ok(c) => {
                    &&& spec_decode_v2(bytes@) == Some(
                        (
                            c.protocol_version,
                            c.encryption_flag,
                            c.transfer_id,
                            c.chunk_index,
                            c.total_chunks,
                        ),
                    )
                    &&& c.nonce@ == spec_decode_v2_nonce(bytes@)
                    &&& c.aad@ == spec_decode_v2_aad(bytes@)
                    &&& c.payload@ == spec_decode_v2_payload(bytes@)
                },
                Err(e) => {
                    &&& spec_decode_v2(bytes@) is None
                    &&& e matches TransferError::InvalidFrame(_)
                },
            },
    {
        if bytes.len() < 40 {
            return Err(TransferError::InvalidFrame("bad v2 header"));
        }
        if !(bytes[0] == 0x50 && bytes[1] == 0x32 && bytes[2] == 0x50 && bytes[3] == 0x45) {
            proof {
                assert(bytes@.take(4) != magic_v2());
            }
            return Err(TransferError::InvalidFrame("bad v2 header"));
        }
        proof {
            assert(bytes@.take(4) =~= magic_v2());
        }

        let protocol_version = bytes[4];
        let encryption_flag = match EncryptionFlag::from_byte(bytes[5]) {
            Ok(f) => f,
            Err(e) => {
                return Err(e);
            },
        };
        let transfer_id = read_u64_be(bytes, 6);
        let chunk_index = read_u32_be(bytes, 14);
        let total_chunks = read_u32_be(bytes, 18);

        if protocol_version != 2 {
            return Err(TransferError::InvalidFrame("unsupported protocol version"));
        }
        if total_chunks == 0 || chunk_index >= total_chunks {
            return Err(TransferError::InvalidFrame("invalid chunk bounds"));
        }

        let nonce: [u8; 12] = [
            bytes[22],
            bytes[23],
            bytes[24],
            bytes[25],
            bytes[26],
            bytes[27],
            bytes[28],
            bytes[29],
            bytes[30],
            bytes[31],
            bytes[32],
            bytes[33],
        ];
        proof {
            assert(nonce@ =~= spec_decode_v2_nonce(bytes@));
        }

        let aad_len = read_u16_be(bytes, 34);
        let payload_len = read_u32_be(bytes, 36);

        let after_aad: usize = 40 + aad_len as usize;
        if !(bytes.len() >= after_aad && bytes.len() - after_aad == payload_len as usize) {
            return Err(TransferError::InvalidFrame("invalid payload length"));
        }

        let aad = vstd::slice::slice_to_vec(&bytes[40..after_aad]);
        let payload = vstd::slice::slice_to_vec(&bytes[after_aad..bytes.len()]);
        proof {
            assert(aad@ =~= spec_decode_v2_aad(bytes@));
            assert(payload@ =~= spec_decode_v2_payload(bytes@));
        }
        Ok(
            Self {
                protocol_version,
                encryption_flag,
                transfer_id,
                chunk_index,
                total_chunks,
                nonce,
                aad,
                payload,
            },
        )
    }
}

/// A v2 frame decodes back to the chunk it was encoded from.
pub proof fn lemma_v2_round_trip(c: TransferChunkV2)
    requires
        c.wf(),
    ensures
        spec_decode_v2(spec_encode_v2(c)) == Some(
            (c.protocol_version, c.encryption_flag, c.transfer_id, c.chunk_index, c.total_chunks),
        ),
        spec_decode_v2_nonce(spec_encode_v2(c)) == c.nonce@,
        spec_decode_v2_aad(spec_encode_v2(c)) == c.aad@,
        spec_decode_v2_payload(spec_encode_v2(c)) == c.payload@,
{
    let e = spec_encode_v2(c);
    let alen = spec_v2_aad_len(c.aad@);
    let plen = spec_v1_payload_len(c.payload@);
    assert(c.aad@.take(alen as int) =~= c.aad@);
    assert(c.payload@.take(plen as int) =~= c.payload@);
    assert(e.len() == 40 + c.aad@.len() + c.payload@.len());
    assert(e.take(4) =~= magic_v2());
    assert(e[4] == c.protocol_version);
    assert(e[5] == c.encryption_flag.spec_byte());
    assert(e.subrange(6, 14) =~= spec_u64_to_be_bytes(c.transfer_id));
    assert(e.subrange(14, 18) =~= spec_u32_to_be_bytes(c.chunk_index));
    assert(e.subrange(18, 22) =~= spec_u32_to_be_bytes(c.total_chunks));
    assert(e.subrange(22, 34) =~= c.nonce@);
    assert(e.subrange(34, 36) =~= spec_u16_to_be_bytes(alen));
    assert(e.subrange(36, 40) =~= spec_u32_to_be_bytes(plen));
    lemma_u64_be_bytes_invert(c.transfer_id);
    lemma_u32_be_bytes_invert(c.chunk_index);
    lemma_u32_be_bytes_invert(c.total_chunks);
    lemma_u16_be_bytes_invert(alen);
    lemma_u32_be_bytes_invert(plen);
    assert(e.subrange(40, 40 + alen as int) =~= c.aad@);
    assert(e.skip(40 + alen as int) =~= c.payload@);
}

/// A decoded frame of either wire version.
#[derive(Debug, Clone, PartialEq, Eq)]
pub enum VersionedTransferChunk {
    V1(TransferChunk),
    V2(TransferChunkV2),
}

impl VersionedTransferChunk {
    /// Decodes a frame of either version, dispatching on the magic: bytes
    /// with the v1 magic go to the v1 decoder and only to it, bytes with
    /// the v2 magic to the v2 decoder and only to it; anything else is
    /// rejected.
    pub fn decode(bytes: &[u8]) -> (r: Result<Self, TransferError>)
        ensures
            bytes@.len() >= 4 && bytes@.take(4) == magic_v1() ==> match r {
                Ok(v) => {
                    &&& v matches VersionedTransferChunk::V1(c)
                    &&& spec_decode_v1(bytes@) == Some(
                        (c.transfer_id, c.chunk_index, c.total_chunks),
                    )
                    &&& c.payload@ == spec_decode_v1_payload(bytes@)
                },
                Err(_) => spec_decode_v1(bytes@) is None,
            },
            bytes@.len() >= 4 && bytes@.take(4) == magic_v2() ==> match r {
                Ok(v) => {
                    &&& v matches VersionedTransferChunk::V2(c)
                    &&& spec_decode_v2(bytes@) == Some(
                        (
                            c.protocol_version,
                            c.encryption_flag,
                            c.transfer_id,
                            c.chunk_index,
                            c.total_chunks,
                        ),
                    )
                    &&& c.nonce@ == spec_decode_v2_nonce(bytes@)
                    &&& c.aad@ == spec_decode_v2_aad(bytes@)
                    &&& c.payload@ == spec_decode_v2_payload(bytes@)
                },
                Err(_) => spec_decode_v2(bytes@) is None,
            },
            bytes@.len() < 4 || (bytes@.take(4) != magic_v1() && bytes@.take(4) != magic_v2())
                ==> r matches Err(TransferError::InvalidFrame(_)),
    {
        if bytes.len() < 4 {
            return Err(TransferError::InvalidFrame("bad header"));
        }
        if bytes[0] == 0x50 && bytes[1] == 0x32 && bytes[2] == 0x50 && bytes[3] == 0x46 {
            proof {
                assert(bytes@.take(4) =~= magic_v1());
            }
            match TransferChunk::decode(bytes) {
                Ok(c) => Ok(VersionedTransferChunk::V1(c)),
                Err(e) => Err(e),
            }
        } else if bytes[0] == 0x50 && bytes[1] == 0x32 && bytes[2] == 0x50 && bytes[3] == 0x45 {
            proof {
                assert(bytes@.take(4) =~= magic_v2());
                assert(bytes@.take(4) != magic_v1());
            }
            match TransferChunkV2::decode(bytes) {
                Ok(c) => Ok(VersionedTransferChunk::V2(c)),
                Err(e) => Err(e),
            }
        } else {
            proof {
                assert(bytes@.take(4) != magic_v1());
                assert(bytes@.take(4) != magic_v2());
            }
            Err(TransferError::InvalidFrame("bad header"))
        }
    }
}


/// The AAD that binds a chunk's identity into its v2 frame: transfer id,
/// chunk index and total chunks, big-endian (12 bytes).
pub open spec fn spec_chunk_aad(transfer_id: u64, chunk_index: u32, total_chunks: u32) -> Seq<u8> {
    spec_u64_to_be_bytes(transfer_id) + spec_u32_to_be_bytes(chunk_index) + spec_u32_to_be_bytes(
        total_chunks,
    )
}

/// Builds the AAD of a chunk.
pub fn transfer_chunk_aad(chunk: &TransferChunk) -> (r: Vec<u8>)
    ensures
        r@ == spec_chunk_aad(chunk.transfer_id, chunk.chunk_index, chunk.total_chunks),
{
    let mut aad: Vec<u8> = Vec::new();
    push_u64_be(&mut aad, chunk.transfer_id);
    push_u32_be(&mut aad, chunk.chunk_index);
    push_u32_be(&mut aad, chunk.total_chunks);
    proof {
        assert(aad@ =~= spec_chunk_aad(chunk.transfer_id, chunk.chunk_index, chunk.total_chunks));
    }
    aad
}

/// Wraps a logical chunk in an encrypted v2 frame: the nonce is derived
/// from the chunk identity, the AAD binds that identity, and the payload
/// is the AEAD ciphertext under the sender's transmit key.
pub fn encrypt_chunk_frame(chunk: &TransferChunk, session_tx_key: &[u8; 32]) -> (r: Result<
    TransferChunkV2,
    TransferError,
>)
    ensures
        r matches Ok(f) && {
            let nonce = crate::crypto::spec_derive_nonce(
                chunk.transfer_id,
                chunk.chunk_index,
                crate::crypto::Direction::SenderToReceiver,
            );
            let aad = spec_chunk_aad(chunk.transfer_id, chunk.chunk_index, chunk.total_chunks);
            &&& f.protocol_version == 2
            &&& f.encryption_flag == EncryptionFlag::Encrypted
            &&& f.transfer_id == chunk.transfer_id
            &&& f.chunk_index == chunk.chunk_index
            &&& f.total_chunks == chunk.total_chunks
            &&& f.nonce@ == nonce
            &&& f.aad@ == aad
            &&& f.payload@ == crate::crypto::spec_encrypt(
                session_tx_key@,
                nonce,
                aad,
                chunk.payload@,
            )
        },
{
    let nonce = crate::crypto::derive_nonce(
        chunk.transfer_id,
        chunk.chunk_index,
        crate::crypto::Direction::SenderToReceiver,
    );
    let aad = transfer_chunk_aad(chunk);
    let ciphertext = match crate::crypto::encrypt_chunk_with_aad(
        session_tx_key,
        nonce,
        chunk.payload.as_slice(),
        aad.as_slice(),
    ) {
        Ok(ct) => ct,
        Err(_) => {
            return Err(TransferError::Crypto("failed to encrypt chunk payload"));
        },
    };
    Ok(
        TransferChunkV2 {
            protocol_version: 2,
            encryption_flag: EncryptionFlag::Encrypted,
            transfer_id: chunk.transfer_id,
            chunk_index: chunk.chunk_index,
            total_chunks: chunk.total_chunks,
            nonce,
            aad,
            payload: ciphertext,
        },
    )
}

/// Unwraps an encrypted v2 frame back into the logical chunk: rejects
/// frames not flagged as encrypted, and fails with `Crypto` exactly when
/// the AEAD refuses the ciphertext under the receiver's key.
pub fn decrypt_chunk_frame(frame: &TransferChunkV2, session_rx_key: &[u8; 32]) -> (r: Result<
    TransferChunk,
    TransferError,
>)
    ensures
        frame.encryption_flag != EncryptionFlag::Encrypted ==> (r matches Err(
            TransferError::InvalidFrame(m),
        ) && m@ == "expected encrypted frame"@),
        frame.encryption_flag == EncryptionFlag::Encrypted ==> match crate::crypto::spec_decrypt(
            session_rx_key@,
            frame.nonce@,
            frame.aad@,
            frame.payload@,
        ) {
            Some(pt) => r matches Ok(c) && c.transfer_id == frame.transfer_id && c.chunk_index
                == frame.chunk_index && c.total_chunks == frame.total_chunks && c.payload@ == pt,
            None => r matches Err(TransferError::Crypto(_)),
        },
{
    if frame.encryption_flag != EncryptionFlag::Encrypted {
        return Err(TransferError::InvalidFrame("expected encrypted frame"));
    }

    let plaintext = match crate::crypto::decrypt_chunk_with_aad(
        session_rx_key,
        frame.nonce,
        frame.payload.as_slice(),
        frame.aad.as_slice(),
    ) {
        Ok(pt) => pt,
        Err(_) => {
            return Err(TransferError::Crypto("failed to decrypt chunk payload"));
        },
    };

    Ok(
        TransferChunk {
            transfer_id: frame.transfer_id,
            chunk_index: frame.chunk_index,
            total_chunks: frame.total_chunks,
            payload: plaintext,
        },
    )
}

/// A chunk wrapped by `encrypt_chunk_frame` and unwrapped with the same
/// key comes back unchanged.
pub proof fn lemma_frame_encrypt_decrypt_round_trip(
    key: Seq<u8>,
    transfer_id: u64,
    chunk_index: u32,
    total_chunks: u32,
    payload: Seq<u8>,
)
    ensures
        ({
            let nonce = crate::crypto::spec_derive_nonce(
                transfer_id,
                chunk_index,
                crate::crypto::Direction::SenderToReceiver,
            );
            let aad = spec_chunk_aad(transfer_id, chunk_index, total_chunks);
            crate::crypto::spec_decrypt(
                key,
                nonce,
                aad,
                crate::crypto::spec_encrypt(key, nonce, aad, payload),
            ) == Some(payload)
        }),
{
    let nonce = crate::crypto::spec_derive_nonce(
        transfer_id,
        chunk_index,
        crate::crypto::Direction::SenderToReceiver,
    );
    let aad = spec_chunk_aad(transfer_id, chunk_index, total_chunks);
    crate::crypto::lemma_encrypt_decrypt_round_trip(key, nonce, aad, payload);
}

} // verus!
