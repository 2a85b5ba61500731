//! The large-file manager: a chunk index over a file size, a
//! pause/resume/cancel state machine, a durable text checkpoint, file
//! assembly from collected chunks and a lightweight integrity tag.

use vstd::prelude::*;

use std::collections::BTreeMap;

use crate::session::spec_total_chunks;
use crate::wire::{
    bytes_eq, find_byte, parse_dec_u64, spec_dec_u64, spec_find_byte, spec_parse_dec_u64,
    u64_to_dec, lemma_dec_u64_digits, lemma_dec_u64_round_trip, lemma_find_byte_at,
};

verus! {

broadcast use {vstd::std_specs::btree::group_btree_axioms, vstd::laws_cmp::group_laws_cmp};

/// One entry of the chunk index: where chunk `chunk_index` lives in the
/// file and how long it is.
#[derive(Debug, Clone, Copy, PartialEq, Eq, Structural)]
pub struct ChunkIndexEntry {
    pub chunk_index: u32,
    pub offset: u64,
    pub length: u32,
}

/// The lifecycle of a transfer: Running and Paused alternate freely;
/// Cancelled is terminal.
#[derive(Debug, Clone, Copy, PartialEq, Eq, Structural)]
pub enum TransferState {
    Running,
    Paused,
    Cancelled,
}

/// The persisted per-transfer progress record.
#[derive(Debug, Clone, Copy, PartialEq, Eq, Structural)]
pub struct TransferCheckpoint {
    pub transfer_id: u64,
    pub next_chunk: u32,
    pub state: TransferState,
}

/// Errors of the large-file manager.
#[derive(Debug, Clone, PartialEq, Eq)]
pub enum ManagerError {
    InvalidConfig(&'static str),
    CheckpointFormat,
    ChunkOutOfRange,
    InvalidState(&'static str),
    MissingChunk(u32),
    Io(String),
}

impl ManagerError {
    /// Human-readable description of the error.
    pub fn message(&self) -> String {
        match self {
            ManagerError::InvalidConfig(m) => String::from_str("invalid config: ").concat(m),
            ManagerError::CheckpointFormat => String::from_str("invalid checkpoint format"),
            ManagerError::ChunkOutOfRange => String::from_str("chunk out of range"),
            ManagerError::InvalidState(m) => String::from_str("invalid state: ").concat(m),
            ManagerError::MissingChunk(i) => String::from_str("missing chunk ").concat(
                crate::wire::u64_to_string(*i as u64).as_str(),
            ),
            ManagerError::Io(m) => String::from_str("io error: ").concat(m.as_str()),
        }
    }
}

/// The file name of a transfer state in the checkpoint format.
pub open spec fn spec_state_name(state: TransferState) -> Seq<u8> {
    match state {
        TransferState::Running => seq![114u8, 117u8, 110u8, 110u8, 105u8, 110u8, 103u8],
        TransferState::Paused => seq![112u8, 97u8, 117u8, 115u8, 101u8, 100u8],
        TransferState::Cancelled => seq![
            99u8,
            97u8,
            110u8,
            99u8,
            101u8,
            108u8,
            108u8,
            101u8,
            100u8,
        ],
    }
}

/// The checkpoint file: three text lines, each ended by a newline —
/// the transfer id, the next chunk, and the state word.
pub open spec fn spec_render_checkpoint(cp: TransferCheckpoint) -> Seq<u8> {
    spec_dec_u64(cp.transfer_id) + seq![10u8] + spec_dec_u64(cp.next_chunk as u64) + seq![10u8]
        + spec_state_name(cp.state) + seq![10u8]
}

/// The state a state word denotes, if any.
pub open spec fn spec_parse_state(line: Seq<u8>) -> Option<TransferState> {
    if line == spec_state_name(TransferState::Running) {
        Some(TransferState::Running)
    } else if line == spec_state_name(TransferState::Paused) {
        Some(TransferState::Paused)
    } else if line == spec_state_name(TransferState::Cancelled) {
        Some(TransferState::Cancelled)
    } else {
        None
    }
}

/// What the checkpoint parser accepts: a first line holding a decimal
/// transfer id, a second holding a decimal chunk number that fits a
/// `u32`, and a third holding a state word; bytes past the third
/// newline are ignored. Anything else is a format error.
pub open spec fn spec_parse_checkpoint(bytes: Seq<u8>) -> Option<TransferCheckpoint> {
    let i1 = spec_find_byte(bytes, 10);
    if i1 == -1 {
        None
    } else {
        let line1 = bytes.take(i1);
        let rest1 = bytes.skip(i1 + 1);
        let i2 = spec_find_byte(rest1, 10);
        if spec_parse_dec_u64(line1) is None || i2 == -1 {
            None
        } else {
            let transfer_id = spec_parse_dec_u64(line1)->Some_0;
            let line2 = rest1.take(i2);
            let rest2 = rest1.skip(i2 + 1);
            if spec_parse_dec_u64(line2) is None || spec_parse_dec_u64(line2)->Some_0
                > 0xffff_ffff {
                None
            } else {
                let next_chunk = spec_parse_dec_u64(line2)->Some_0 as u32;
                let i3 = spec_find_byte(rest2, 10);
                let line3 = if i3 == -1 {
                    rest2
                } else {
                    rest2.take(i3)
                };
                match spec_parse_state(line3) {
                    None => None,
                    Some(state) => Some(TransferCheckpoint { transfer_id, next_chunk, state }),
                }
            }
        }
    }
}

/// Writes a checkpoint in the three-line text format.
pub fn render_checkpoint(cp: &TransferCheckpoint) -> (r: Vec<u8>)
    ensures
        r@ == spec_render_checkpoint(*cp),
{
    let mut out = u64_to_dec(cp.transfer_id);
    out.push(10u8);
    let mut next = u64_to_dec(cp.next_chunk as u64);
    out.append(&mut next);
    out.push(10u8);
    match cp.state {
        TransferState::Running => {
            out.push(114u8);
            out.push(117u8);
            out.push(110u8);
            out.push(110u8);
            out.push(105u8);
            out.push(110u8);
            out.push(103u8);
        },
        TransferState::Paused => {
            out.push(112u8);
            out.push(97u8);
            out.push(117u8);
            out.push(115u8);
            out.push(101u8);
            out.push(100u8);
        },
        TransferState::Cancelled => {
            out.push(99u8);
            out.push(97u8);
            out.push(110u8);
            out.push(99u8);
            out.push(101u8);
            out.push(108u8);
            out.push(108u8);
            out.push(101u8);
            out.push(100u8);
        },
    }
    out.push(10u8);
    proof {
        assert(out@ =~= spec_render_checkpoint(*cp));
    }
    out
}

/// Compares a byte slice against a state word.
fn match_state(line: &[u8]) -> (r: Option<TransferState>)
    ensures
        r == spec_parse_state(line@),
{
    let running: [u8; 7] = [114u8, 117u8, 110u8, 110u8, 105u8, 110u8, 103u8];
    let paused: [u8; 6] = [112u8, 97u8, 117u8, 115u8, 101u8, 100u8];
    let cancelled: [u8; 9] = [99u8, 97u8, 110u8, 99u8, 101u8, 108u8, 108u8, 101u8, 100u8];
    proof {
        assert(running@ =~= spec_state_name(TransferState::Running));
        assert(paused@ =~= spec_state_name(TransferState::Paused));
        assert(cancelled@ =~= spec_state_name(TransferState::Cancelled));
    }
    if bytes_eq(line, running.as_slice()) {
        Some(TransferState::Running)
    } else if bytes_eq(line, paused.as_slice()) {
        Some(TransferState::Paused)
    } else if bytes_eq(line, cancelled.as_slice()) {
        Some(TransferState::Cancelled)
    } else {
        proof {
            assert(line@ != spec_state_name(TransferState::Running));
            assert(line@ != spec_state_name(TransferState::Paused));
            assert(line@ != spec_state_name(TransferState::Cancelled));
        }
        None
    }
}

/// Parses the three-line checkpoint format; any missing line,
/// unparsable number or unknown state word is `CheckpointFormat`.
pub fn parse_checkpoint(bytes: &[u8]) -> (r: Result<TransferCheckpoint, ManagerError>)
    ensures
        match r {
            Ok(cp) => spec_parse_checkpoint(bytes@) == Some(cp),
            Err(e) => spec_parse_checkpoint(bytes@) is None && e == ManagerError::CheckpointFormat,
        },
{
    let i1 = match find_byte(bytes, 10u8) {
        Some(i) => i,
        None => {
            return Err(ManagerError::CheckpointFormat);
        },
    };
    let n = bytes.len();
    let line1 = &bytes[0..i1];
    let rest1 = &bytes[i1 + 1..n];
    proof {
        assert(line1@ =~= bytes@.take(i1 as int));
        assert(rest1@ =~= bytes@.skip(i1 + 1));
    }
    let transfer_id = match parse_dec_u64(line1) {
        Some(v) => v,
        None => {
            return Err(ManagerError::CheckpointFormat);
        },
    };
    let i2 = match find_byte(rest1, 10u8) {
        Some(i) => i,
        None => {
            return Err(ManagerError::CheckpointFormat);
        },
    };
    let n1 = rest1.len();
    let line2 = &rest1[0..i2];
    let rest2 = &rest1[i2 + 1..n1];
    proof {
        assert(line2@ =~= rest1@.take(i2 as int));
        assert(rest2@ =~= rest1@.skip(i2 + 1));
    }
    let next64 = match parse_dec_u64(line2) {
        Some(v) => v,
        None => {
            return Err(ManagerError::CheckpointFormat);
        },
    };
    if next64 > 0xffff_ffff {
        return Err(ManagerError::CheckpointFormat);
    }
    let next_chunk: u32 = next64 as u32;
    let line3: &[u8] = match find_byte(rest2, 10u8) {
        Some(i) => &rest2[0..i],
        None => rest2,
    };
    proof {
        let i3 = spec_find_byte(rest2@, 10);
        if i3 != -1 {
            assert(line3@ =~= rest2@.take(i3));
        }
    }
    let state = match match_state(line3) {
        Some(s) => s,
        None => {
            return Err(ManagerError::CheckpointFormat);
        },
    };
    Ok(TransferCheckpoint { transfer_id, next_chunk, state })
}

/// A rendered checkpoint parses back to itself: checkpoint durability.
pub proof fn lemma_checkpoint_round_trip(cp: TransferCheckpoint)
    ensures
        spec_parse_checkpoint(spec_render_checkpoint(cp)) == Some(cp),
{
    let d1 = spec_dec_u64(cp.transfer_id);
    let d2 = spec_dec_u64(cp.next_chunk as u64);
    let st = spec_state_name(cp.state);
    let bytes = spec_render_checkpoint(cp);
    lemma_dec_u64_digits(cp.transfer_id);
    lemma_dec_u64_digits(cp.next_chunk as u64);
    lemma_dec_u64_round_trip(cp.transfer_id);
    lemma_dec_u64_round_trip(cp.next_chunk as u64);

    assert(bytes[d1.len() as int] == 10u8);
    lemma_find_byte_at(bytes, 10u8, d1.len() as int);
    assert(bytes.take(d1.len() as int) =~= d1);
    let rest1 = bytes.skip(d1.len() as int + 1);
    assert(rest1 =~= d2 + seq![10u8] + st + seq![10u8]);

    assert(rest1[d2.len() as int] == 10u8);
    lemma_find_byte_at(rest1, 10u8, d2.len() as int);
    assert(rest1.take(d2.len() as int) =~= d2);
    let rest2 = rest1.skip(d2.len() as int + 1);
    assert(rest2 =~= st + seq![10u8]);

    assert(rest2[st.len() as int] == 10u8);
    lemma_find_byte_at(rest2, 10u8, st.len() as int);
    assert(rest2.take(st.len() as int) =~= st);

    assert(spec_parse_state(st) == Some(cp.state)) by {
        assert(spec_state_name(TransferState::Running) != spec_state_name(TransferState::Paused));
        assert(spec_state_name(TransferState::Running) != spec_state_name(
            TransferState::Cancelled,
        ));
        assert(spec_state_name(TransferState::Paused) != spec_state_name(
            TransferState::Cancelled,
        ));
    }
}


/// The manager of one large transfer: the chunk geometry and the
/// current checkpoint.
#[derive(Debug, Clone)]
pub struct LargeFileManager {
    pub transfer_id: u64,
    pub total_chunks: u32,
    pub chunk_size: usize,
    checkpoint: TransferCheckpoint,
}

/// The byte range of chunk `k` in a file of `file_size` bytes: offset
/// `k * chunk_size`, full-size except for what the file leaves.
pub open spec fn spec_chunk_length(file_size: nat, chunk_size: nat, k: nat) -> nat {
    let offset = k * chunk_size;
    let remaining = if offset >= file_size {
        0
    } else {
        file_size - offset
    };
    if remaining >= chunk_size {
        chunk_size as int as nat
    } else {
        remaining as nat
    }
}

impl LargeFileManager {
    /// The manager invariant: positive chunk size, a bounded chunk
    /// count, and a checkpoint that names this transfer and never runs
    /// past the chunk count.
    pub closed spec fn wf(self) -> bool {
        &&& self.chunk_size > 0
        &&& self.total_chunks <= 0x100_0000
        &&& self.checkpoint.transfer_id == self.transfer_id
        &&& self.checkpoint.next_chunk <= self.total_chunks
    }

    /// The current checkpoint.
    pub closed spec fn spec_checkpoint(self) -> TransferCheckpoint {
        self.checkpoint
    }

    /// The transfer id of the manager.
    pub closed spec fn spec_transfer_id(self) -> u64 {
        self.transfer_id
    }

    /// The chunk count of the manager.
    pub closed spec fn spec_total(self) -> u32 {
        self.total_chunks
    }

    /// The chunk size of the manager.
    pub closed spec fn spec_chunk_size(self) -> usize {
        self.chunk_size
    }

    /// Opens a manager over a file of `file_size` bytes: the chunk
    /// count is the ceiling of the quotient (1 for an empty file), the
    /// checkpoint starts at zero in the Running state. Rejects a zero
    /// chunk size and a chunk count beyond 2^24.
    pub fn new(transfer_id: u64, file_size: usize, chunk_size: usize) -> (r: Result<
        Self,
        ManagerError,
    >)
        ensures
            match r {
                Ok(m) => {
                    &&& chunk_size > 0
                    &&& spec_total_chunks(file_size as nat, chunk_size as nat) <= 0x100_0000
                    &&& m.wf()
                    &&& m.spec_transfer_id() == transfer_id
                    &&& m.spec_chunk_size() == chunk_size
                    &&& m.spec_total() == spec_total_chunks(file_size as nat, chunk_size as nat)
                    &&& m.spec_checkpoint() == (TransferCheckpoint {
                        transfer_id,
                        next_chunk: 0u32,
                        state: TransferState::Running,
                    })
                },
                Err(e) => {
                    &&& e matches ManagerError::InvalidConfig(_)
                    &&& (chunk_size == 0 || spec_total_chunks(file_size as nat, chunk_size as nat)
                        > 0x100_0000)
                },
            },
    {
        if chunk_size == 0 {
            return Err(ManagerError::InvalidConfig("chunk_size must be > 0"));
        }
        let quotient: usize = file_size / chunk_size;
        let remainder: usize = file_size % chunk_size;
        if file_size > 0 && (quotient > 0x100_0000 || (quotient == 0x100_0000 && remainder != 0)) {
            return Err(ManagerError::InvalidConfig("total chunks exceed the nonce space"));
        }
        let total_usize: usize = if file_size == 0 {
            1
        } else if remainder == 0 {
            quotient
        } else {
            quotient + 1
        };
        Ok(
            Self {
                transfer_id,
                total_chunks: total_usize as u32,
                chunk_size,
                checkpoint: TransferCheckpoint {
                    transfer_id,
                    next_chunk: 0,
                    state: TransferState::Running,
                },
            },
        )
    }

    /// Builds the ordered chunk index over a file size: entry `k` is
    /// chunk `k` at offset `k * chunk_size`, full-size except for the
    /// last chunk, which carries what the file leaves.
    pub fn build_chunk_index(&self, file_size: usize) -> (r: Vec<ChunkIndexEntry>)
        requires
            self.wf(),
            self.spec_chunk_size() <= 0xffff_ffff,
        ensures
            r@.len() == self.spec_total(),
            forall|k: int|
                0 <= k < r@.len() ==> {
                    &&& (#[trigger] r@[k]).chunk_index == k
                    &&& r@[k].offset == k * self.spec_chunk_size()
                    &&& r@[k].length == spec_chunk_length(
                        file_size as nat,
                        self.spec_chunk_size() as nat,
                        k as nat,
                    )
                },
    {
        let mut index: Vec<ChunkIndexEntry> = Vec::new();
        let mut k: u32 = 0;
        while k < self.total_chunks
            invariant
                k <= self.total_chunks,
                self.total_chunks <= 0x100_0000,
                self.chunk_size <= 0xffff_ffff,
                self.chunk_size > 0,
                index@.len() == k,
                forall|j: int|
                    0 <= j < index@.len() ==> {
                        &&& (#[trigger] index@[j]).chunk_index == j
                        &&& index@[j].offset == j * self.chunk_size
                        &&& index@[j].length == spec_chunk_length(
                            file_size as nat,
                            self.chunk_size as nat,
                            j as nat,
                        )
                    },
            decreases self.total_chunks - k,
        {
            proof {
                assert((k as int) * (self.chunk_size as int) <= 0x100_0000 * 0xffff_ffff)
                    by (nonlinear_arith)
                    requires
                        0 <= k <= 0x100_0000,
                        0 <= self.chunk_size <= 0xffff_ffff,
                ;
            }
            let offset: u64 = (k as u64) * (self.chunk_size as u64);
            let fs: u64 = file_size as u64;
            let remaining: u64 = if offset >= fs {
                0
            } else {
                fs - offset
            };
            let length: u32 = if remaining >= self.chunk_size as u64 {
                self.chunk_size as u32
            } else {
                remaining as u32
            };
            index.push(ChunkIndexEntry { chunk_index: k, offset, length });
            k = k + 1;
        }
        index
    }

    /// A reference to the current checkpoint.
    pub fn checkpoint(&self) -> (r: &TransferCheckpoint)
        ensures
            *r == self.spec_checkpoint(),
    {
        &self.checkpoint
    }

    /// The current checkpoint rendered in the three-line text format.
    pub fn render_checkpoint_bytes(&self) -> (r: Vec<u8>)
        ensures
            r@ == spec_render_checkpoint(self.spec_checkpoint()),
    {
        render_checkpoint(&self.checkpoint)
    }

    /// Moves the checkpoint forward with monotonic-max semantics: a
    /// stale value is ignored. Rejects a value beyond the chunk count
    /// and any update on a cancelled transfer, in that order.
    pub fn update_next_chunk(&mut self, next_chunk: u32) -> (r: Result<(), ManagerError>)
        requires
            old(self).wf(),
        ensures
            final(self).wf(),
            final(self).spec_transfer_id() == old(self).spec_transfer_id(),
            final(self).spec_total() == old(self).spec_total(),
            final(self).spec_chunk_size() == old(self).spec_chunk_size(),
            match r {
                Ok(_) => {
                    &&& next_chunk <= old(self).spec_total()
                    &&& old(self).spec_checkpoint().state != TransferState::Cancelled
                    &&& final(self).spec_checkpoint().state == old(self).spec_checkpoint().state
                    &&& final(self).spec_checkpoint().next_chunk == (
                        if next_chunk > old(self).spec_checkpoint().next_chunk {
                            next_chunk
                        } else {
                            old(self).spec_checkpoint().next_chunk
                        }
                    )
                },
                Err(e) => {
                    &&& *final(self) == *old(self)
                    &&& (e == ManagerError::ChunkOutOfRange
                        <==> next_chunk > old(self).spec_total())
                    &&& (e matches ManagerError::InvalidState(_)
                        <==> (next_chunk <= old(self).spec_total()
                        && old(self).spec_checkpoint().state == TransferState::Cancelled))
                },
            },
            r is Ok <==> (next_chunk <= old(self).spec_total() && old(self).spec_checkpoint().state
                != TransferState::Cancelled),
    {
        if next_chunk > self.total_chunks {
            return Err(ManagerError::ChunkOutOfRange);
        }
        if self.checkpoint.state == TransferState::Cancelled {
            return Err(ManagerError::InvalidState("cannot update cancelled transfer"));
        }
        if next_chunk > self.checkpoint.next_chunk {
            self.checkpoint.next_chunk = next_chunk;
        }
        Ok(())
    }

    /// Pauses a running transfer; pausing a paused one is a no-op
    /// success; a cancelled one cannot be paused.
    pub fn pause(&mut self) -> (r: Result<(), ManagerError>)
        requires
            old(self).wf(),
        ensures
            final(self).wf(),
            final(self).spec_transfer_id() == old(self).spec_transfer_id(),
            final(self).spec_total() == old(self).spec_total(),
            final(self).spec_chunk_size() == old(self).spec_chunk_size(),
            final(self).spec_checkpoint().next_chunk == old(self).spec_checkpoint().next_chunk,
            old(self).spec_checkpoint().state == TransferState::Cancelled ==> (r matches Err(
                ManagerError::InvalidState(_),
            ) && *final(self) == *old(self)),
            old(self).spec_checkpoint().state != TransferState::Cancelled
                ==> (r is Ok && final(self).spec_checkpoint().state == TransferState::Paused),
    {
        match self.checkpoint.state {
            TransferState::Running => {
                self.checkpoint.state = TransferState::Paused;
                Ok(())
            },
            TransferState::Paused => Ok(()),
            TransferState::Cancelled => Err(
                ManagerError::InvalidState("cannot pause cancelled transfer"),
            ),
        }
    }

    /// Resumes a paused transfer; resuming a running one is a no-op
    /// success; a cancelled one cannot be resumed.
    pub fn resume(&mut self) -> (r: Result<(), ManagerError>)
        requires
            old(self).wf(),
        ensures
            final(self).wf(),
            final(self).spec_transfer_id() == old(self).spec_transfer_id(),
            final(self).spec_total() == old(self).spec_total(),
            final(self).spec_chunk_size() == old(self).spec_chunk_size(),
            final(self).spec_checkpoint().next_chunk == old(self).spec_checkpoint().next_chunk,
            old(self).spec_checkpoint().state == TransferState::Cancelled ==> (r matches Err(
                ManagerError::InvalidState(_),
            ) && *final(self) == *old(self)),
            old(self).spec_checkpoint().state != TransferState::Cancelled
                ==> (r is Ok && final(self).spec_checkpoint().state == TransferState::Running),
    {
        match self.checkpoint.state {
            TransferState::Paused => {
                self.checkpoint.state = TransferState::Running;
                Ok(())
            },
            TransferState::Running => Ok(()),
            TransferState::Cancelled => Err(
                ManagerError::InvalidState("cannot resume cancelled transfer"),
            ),
        }
    }

    /// Cancels the transfer: a terminal state.
    pub fn cancel(&mut self)
        requires
            old(self).wf(),
        ensures
            final(self).wf(),
            final(self).spec_transfer_id() == old(self).spec_transfer_id(),
            final(self).spec_total() == old(self).spec_total(),
            final(self).spec_chunk_size() == old(self).spec_chunk_size(),
            final(self).spec_checkpoint().next_chunk == old(self).spec_checkpoint().next_chunk,
            final(self).spec_checkpoint().state == TransferState::Cancelled,
    {
        self.checkpoint.state = TransferState::Cancelled;
    }
}

/// The concatenation of chunks `0 .. n` of a chunk map.
pub open spec fn spec_assembled(chunks: Map<u32, Vec<u8>>, n: int) -> Seq<u8>
    decreases n,
{
    if n <= 0 {
        Seq::empty()
    } else {
        spec_assembled(chunks, n - 1) + chunks[(n - 1) as u32]@
    }
}

/// Concatenates chunks `0 .. total_chunks` in index order; fails with
/// `MissingChunk` at the first gap.
pub fn assemble_file(total_chunks: u32, chunks: &BTreeMap<u32, Vec<u8>>) -> (r: Result<
    Vec<u8>,
    ManagerError,
>)
    ensures
        match r {
            Ok(out) => {
                &&& forall|i: u32| i < total_chunks ==> chunks@.contains_key(i)
                &&& out@ == spec_assembled(chunks@, total_chunks as int)
            },
            Err(e) => {
                &&& e matches ManagerError::MissingChunk(i) && i < total_chunks
                    && !chunks@.contains_key(i) && forall|j: u32|
                    j < i ==> chunks@.contains_key(j)
            },
        },
{
    let mut out: Vec<u8> = Vec::new();
    let mut i: u32 = 0;
    while i < total_chunks
        invariant
            i <= total_chunks,
            forall|j: u32| j < i ==> chunks@.contains_key(j),
            out@ == spec_assembled(chunks@, i as int),
        decreases total_chunks - i,
    {
        let chunk = match chunks.get(&i) {
            Some(c) => c,
            None => {
                return Err(ManagerError::MissingChunk(i));
            },
        };
        out.extend_from_slice(chunk.as_slice());
        i = i + 1;
    }
    Ok(out)
}

/// The FNV-1a 64-bit hash of a byte string.
pub open spec fn spec_fnv1a(data: Seq<u8>) -> u64
    decreases data.len(),
{
    if data.len() == 0 {
        0xcbf29ce484222325u64
    } else {
        vstd::wrapping::u64_specs::wrapping_mul(spec_fnv1a(data.drop_last()) ^ (data.last() as u64), 0x100000001b3u64)
    }
}

/// The FNV-1a 64-bit integrity tag of assembled data: a lightweight
/// local check, not a security-grade one.
pub fn integrity_tag(data: &[u8]) -> (r: u64)
    ensures
        r == spec_fnv1a(data@),
{
    let mut hash: u64 = 0xcbf29ce484222325;
    let mut i: usize = 0;
    while i < data.len()
        invariant
            i <= data@.len(),
            hash == spec_fnv1a(data@.take(i as int)),
        decreases data@.len() - i,
    {
        hash = hash ^ (data[i] as u64);
        hash = hash.wrapping_mul(0x100000001b3);
        proof {
            assert(data@.take(i + 1).drop_last() =~= data@.take(i as int));
            assert(data@.take(i + 1).last() == data@[i as int]);
        }
        i = i + 1;
    }
    proof {
        assert(data@.take(data@.len() as int) =~= data@);
    }
    hash
}

/// True exactly when the data hashes to the expected tag.
pub fn verify_integrity(data: &[u8], expected_tag: u64) -> (r: bool)
    ensures
        r == (spec_fnv1a(data@) == expected_tag),
{
    integrity_tag(data) == expected_tag
}

} // verus!
