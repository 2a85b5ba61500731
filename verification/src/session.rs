//! The transfer session: per-receiver monotonic acknowledgement
//! checkpoints over one chunked payload, enabling fan-out and resume.

use vstd::prelude::*;

use crate::framing::{TransferChunk, TransferError};

verus! {

/// An acknowledgement: the receiver has durably received every chunk with
/// index below `next_expected_chunk`.
#[derive(Debug, Clone, PartialEq, Eq)]
pub struct Ack {
    pub transfer_id: u64,
    pub receiver_id: String,
    pub next_expected_chunk: u32,
}

/// One receiver's progress through a transfer.
#[derive(Debug, Clone, PartialEq, Eq)]
pub struct ReceiverProgress {
    pub receiver_id: String,
    pub acked_up_to_exclusive: u32,
    pub total_chunks: u32,
}

/// Progress as an integer percentage: `min(100, 100 * acked / total)`.
pub open spec fn spec_percent(acked: u32, total: u32) -> u8 {
    if total == 0 {
        0u8
    } else if 100 * (acked as int) / (total as int) > 100 {
        100u8
    } else {
        (100 * (acked as int) / (total as int)) as u8
    }
}

impl ReceiverProgress {
    /// Progress as a percentage, capped at 100.
    pub fn percent(&self) -> (r: u8)
        ensures
            r == spec_percent(self.acked_up_to_exclusive, self.total_chunks),
    {
        if self.total_chunks == 0 {
            return 0;
        }
        let scaled: u64 = (self.acked_up_to_exclusive as u64) * 100;
        let pct: u64 = scaled / (self.total_chunks as u64);
        if pct > 100 {
            100
        } else {
            pct as u8
        }
    }

    /// Complete when the checkpoint has reached the total.
    pub fn is_complete(&self) -> (r: bool)
        ensures
            r == (self.acked_up_to_exclusive >= self.total_chunks),
    {
        self.acked_up_to_exclusive >= self.total_chunks
    }
}

/// The number of chunks a payload of `len` bytes yields with chunks of
/// `chunk_size` bytes: the ceiling of the quotient, and 1 for an empty
/// payload (an empty transfer still has one empty chunk).
pub open spec fn spec_total_chunks(len: nat, chunk_size: nat) -> nat
    recommends
        chunk_size > 0,
{
    if len == 0 {
        1
    } else if len % chunk_size == 0 {
        len / chunk_size
    } else {
        len / chunk_size + 1
    }
}

/// A transfer session: one payload, one chunking, several receivers each
/// with an independent monotonic checkpoint.
#[derive(Debug, Clone)]
pub struct TransferSession {
    transfer_id: u64,
    total_chunks: u32,
    chunk_size: usize,
    data: Vec<u8>,
    receivers: Vec<ReceiverProgress>,
}

impl TransferSession {
    /// The session invariant: a positive chunk size, a chunk count that
    /// matches the data, and one well-formed entry per receiver id.
    pub closed spec fn wf(self) -> bool {
        &&& self.chunk_size > 0
        &&& self.total_chunks == spec_total_chunks(self.data@.len(), self.chunk_size as nat)
        &&& self.total_chunks <= 0x100_0000
        &&& forall|i: int, j: int|
            0 <= i < j < self.receivers@.len() ==> self.receivers@[i].receiver_id@
                != self.receivers@[j].receiver_id@
        &&& forall|i: int|
            0 <= i < self.receivers@.len() ==> (#[trigger] self.receivers@[i]).total_chunks
                == self.total_chunks && self.receivers@[i].acked_up_to_exclusive
                <= self.total_chunks
    }

    /// Whether the session tracks a receiver with this id.
    pub closed spec fn spec_has_receiver(self, id: Seq<char>) -> bool {
        exists|i: int| 0 <= i < self.receivers@.len() && (#[trigger] self.receivers@[i]).receiver_id@
            == id
    }

    /// The index of the receiver with this id.
    pub closed spec fn spec_receiver_index(self, id: Seq<char>) -> int {
        choose|i: int| 0 <= i < self.receivers@.len() && (#[trigger] self.receivers@[i]).receiver_id@
            == id
    }

    /// The checkpoint of the receiver with this id.
    pub closed spec fn spec_acked(self, id: Seq<char>) -> u32 {
        self.receivers@[self.spec_receiver_index(id)].acked_up_to_exclusive
    }

    /// The transfer id of the session.
    pub closed spec fn spec_transfer_id(self) -> u64 {
        self.transfer_id
    }

    /// The chunk count of the session.
    pub closed spec fn spec_total(self) -> u32 {
        self.total_chunks
    }

    /// The chunk size of the session.
    pub closed spec fn spec_chunk_size(self) -> usize {
        self.chunk_size
    }

    /// The payload of the session.
    pub closed spec fn spec_data(self) -> Seq<u8> {
        self.data@
    }

    /// The receiver entries of the session.
    pub closed spec fn spec_receivers(self) -> Seq<ReceiverProgress> {
        self.receivers@
    }

    /// Finds the index of a receiver entry by id.
    fn find_receiver(&self, id: &str) -> (r: Option<usize>)
        ensures
            match r {
                Some(i) => i < self.receivers@.len() && self.receivers@[i as int].receiver_id@
                    == id@,
                None => !self.spec_has_receiver(id@),
            },
    {
        let mut i: usize = 0;
        while i < self.receivers.len()
            invariant
                i <= self.receivers@.len(),
                forall|j: int| 0 <= j < i ==> (#[trigger] self.receivers@[j]).receiver_id@ != id@,
            decreases self.receivers@.len() - i,
        {
            if crate::wire::str_eq(self.receivers[i].receiver_id.as_str(), id) {
                return Some(i);
            }
            i = i + 1;
        }
        None
    }

    /// Opens a session over `data` chunked into `chunk_size`-byte pieces
    /// for the listed receivers, every checkpoint starting at zero.
    /// Rejects a zero chunk size, and a chunk count beyond 2^24, which
    /// the nonce derivation could not keep collision-free.
    pub fn new(transfer_id: u64, data: Vec<u8>, chunk_size: usize, receiver_ids: Vec<String>) -> (r:
        Result<Self, TransferError>)
        ensures
            match r {
                Ok(s) => {
                    &&& chunk_size > 0
                    &&& spec_total_chunks(data@.len(), chunk_size as nat) <= 0x100_0000
                    &&& s.wf()
                    &&& s.spec_transfer_id() == transfer_id
                    &&& s.spec_chunk_size() == chunk_size
                    &&& s.spec_data() == data@
                    &&& s.spec_total() == spec_total_chunks(data@.len(), chunk_size as nat)
                    &&& forall|id: Seq<char>|
                        s.spec_has_receiver(id) <==> exists|i: int|
                            0 <= i < receiver_ids@.len() && (#[trigger] receiver_ids@[i])@ == id
                    &&& forall|id: Seq<char>| s.spec_has_receiver(id) ==> s.spec_acked(id) == 0
                },
                Err(e) => {
                    &&& e matches TransferError::InvalidConfig(_)
                    &&& (chunk_size == 0 || spec_total_chunks(data@.len(), chunk_size as nat)
                        > 0x100_0000)
                },
            },
    {
        if chunk_size == 0 {
            return Err(TransferError::InvalidConfig("chunk_size must be > 0"));
        }

        let quotient: usize = data.len() / chunk_size;
        let remainder: usize = data.len() % chunk_size;
        if data.len() > 0 && (quotient > 0x100_0000 || (quotient == 0x100_0000 && remainder != 0)) {
            return Err(TransferError::InvalidConfig("total chunks exceed the nonce space"));
        }
        let total_usize: usize = if data.len() == 0 {
            1
        } else if remainder == 0 {
            quotient
        } else {
            quotient + 1
        };
        let total_chunks: u32 = total_usize as u32;

        let mut receivers: Vec<ReceiverProgress> = Vec::new();
        let mut k: usize = 0;
        while k < receiver_ids.len()
            invariant
                k <= receiver_ids@.len(),
                forall|i: int, j: int|
                    0 <= i < j < receivers@.len() ==> receivers@[i].receiver_id@
                        != receivers@[j].receiver_id@,
                forall|i: int|
                    0 <= i < receivers@.len() ==> (#[trigger] receivers@[i]).total_chunks
                        == total_chunks && receivers@[i].acked_up_to_exclusive == 0,
                forall|i: int|
                    0 <= i < receivers@.len() ==> exists|j: int|
                        0 <= j < k && (#[trigger] receiver_ids@[j])@ == (
                        #[trigger] receivers@[i]).receiver_id@,
                forall|j: int|
                    0 <= j < k ==> exists|i: int|
                        0 <= i < receivers@.len() && (#[trigger] receivers@[i]).receiver_id@ == (
                        #[trigger] receiver_ids@[j])@,
            decreases receiver_ids@.len() - k,
        {
            let id = &receiver_ids[k];
            let mut found: bool = false;
            let mut m: usize = 0;
            while m < receivers.len()
                invariant
                    m <= receivers@.len(),
                    found <==> exists|i: int|
                        0 <= i < m && (#[trigger] receivers@[i]).receiver_id@ == id@,
                decreases receivers@.len() - m,
            {
                if receivers[m].receiver_id.eq(id) {
                    found = true;
                }
                m = m + 1;
            }
            let ghost pre = receivers@;
            if !found {
                receivers.push(
                    ReceiverProgress {
                        receiver_id: id.clone(),
                        acked_up_to_exclusive: 0,
                        total_chunks,
                    },
                );
            }
            proof {
                assert forall|j: int| 0 <= j < k + 1 implies exists|i: int|
                    0 <= i < receivers@.len() && (#[trigger] receivers@[i]).receiver_id@ == (
                    #[trigger] receiver_ids@[j])@ by {
                    if j < k {
                        let i0 = choose|i: int|
                            0 <= i < pre.len() && (#[trigger] pre[i]).receiver_id@ == (
                            #[trigger] receiver_ids@[j])@;
                        assert(receivers@[i0].receiver_id@ == receiver_ids@[j]@);
                    } else if found {
                        let i0 = choose|i: int|
                            0 <= i < pre.len() && (#[trigger] pre[i]).receiver_id@ == id@;
                        assert(receivers@[i0].receiver_id@ == receiver_ids@[j]@);
                    } else {
                        assert(receivers@[pre.len() as int].receiver_id@ == receiver_ids@[j]@);
                    }
                }
            }
            k = k + 1;
        }

        Ok(Self { transfer_id, total_chunks, chunk_size, data, receivers })
    }

    /// The chunk count of the transfer.
    pub fn total_chunks(&self) -> (r: u32)
        ensures
            r == self.spec_total(),
    {
        self.total_chunks
    }
}


/// The payload of chunk `i`: the i-th `chunk_size`-byte slice of the
/// data, shorter at the end; an empty payload for the empty transfer.
pub open spec fn spec_chunk_payload(data: Seq<u8>, chunk_size: nat, i: nat) -> Seq<u8> {
    if data.len() == 0 {
        Seq::empty()
    } else {
        let start = (i * chunk_size) as int;
        let end = if start + chunk_size > data.len() {
            data.len() as int
        } else {
            start + (chunk_size as int)
        };
        data.subrange(start, end)
    }
}

/// A valid chunk index starts strictly inside the data.
proof fn lemma_chunk_start_bound(len: nat, chunk_size: nat, i: nat)
    requires
        chunk_size > 0,
        len > 0,
        i < spec_total_chunks(len, chunk_size),
    ensures
        i * chunk_size < len,
{
    let q = len / chunk_size;
    let r = len % chunk_size;
    vstd::arithmetic::div_mod::lemma_fundamental_div_mod(len as int, chunk_size as int);
    assert(i * chunk_size < len) by (nonlinear_arith)
        requires
            len == chunk_size * q + r,
            0 <= r < chunk_size,
            chunk_size > 0,
            r == 0 ==> i < q,
            r != 0 ==> i <= q,
            i >= 0,
    ;
}

/// The next checkpoint after one acknowledgement: the monotonic maximum.
pub open spec fn spec_ack_step(acked: u32, next: u32) -> u32 {
    if next > acked {
        next
    } else {
        acked
    }
}

/// The checkpoint after a sequence of acknowledged `next` values,
/// starting from zero.
pub open spec fn spec_fold_acks(nexts: Seq<u32>) -> u32
    decreases nexts.len(),
{
    if nexts.len() == 0 {
        0u32
    } else {
        spec_ack_step(spec_fold_acks(nexts.drop_last()), nexts.last())
    }
}

/// Folding acknowledgements computes the maximum: the checkpoint is at
/// least every acknowledged value, and is zero or one of them. Applied
/// in order or out of order, stale values never regress it.
pub proof fn lemma_fold_acks_is_max(nexts: Seq<u32>)
    ensures
        forall|i: int| 0 <= i < nexts.len() ==> spec_fold_acks(nexts) >= #[trigger] nexts[i],
        spec_fold_acks(nexts) == 0 || exists|i: int|
            0 <= i < nexts.len() && #[trigger] nexts[i] == spec_fold_acks(nexts),
    decreases nexts.len(),
{
    if nexts.len() > 0 {
        lemma_fold_acks_is_max(nexts.drop_last());
        let prefix = nexts.drop_last();
        assert(forall|i: int| 0 <= i < prefix.len() ==> #[trigger] nexts[i] == prefix[i]);
        let v = spec_fold_acks(nexts);
        if v != 0 {
            if nexts.last() > spec_fold_acks(prefix) {
                assert(nexts[nexts.len() - 1] == v);
            } else {
                let j = choose|i: int|
                    0 <= i < prefix.len() && #[trigger] prefix[i] == spec_fold_acks(prefix);
                assert(nexts[j] == v);
            }
        }
    }
}

impl TransferSession {
    /// Every receiver entry is the one its id names: its id is tracked
    /// and its checkpoint is the id's checkpoint.
    pub proof fn lemma_receiver_entry(self, i: int)
        requires
            self.wf(),
            0 <= i < self.spec_receivers().len(),
        ensures
            self.spec_has_receiver(self.spec_receivers()[i].receiver_id@),
            self.spec_acked(self.spec_receivers()[i].receiver_id@) == self.spec_receivers()[
                i
            ].acked_up_to_exclusive,
    {
        self.lemma_receiver_index_is(i);
    }

    /// The receiver's id at a given index names that index.
    proof fn lemma_receiver_index_is(self, i: int)
        requires
            self.wf(),
            0 <= i < self.spec_receivers().len(),
        ensures
            self.spec_has_receiver(self.spec_receivers()[i].receiver_id@),
            self.spec_receiver_index(self.spec_receivers()[i].receiver_id@) == i,
    {
        let id = self.spec_receivers()[i].receiver_id@;
        assert(self.spec_has_receiver(id));
        let j = self.spec_receiver_index(id);
        assert(0 <= j < self.receivers@.len() && self.receivers@[j].receiver_id@ == id);
        if i < j {
            assert(self.receivers@[i].receiver_id@ != self.receivers@[j].receiver_id@);
        } else if j < i {
            assert(self.receivers@[j].receiver_id@ != self.receivers@[i].receiver_id@);
        }
    }

    /// The `i`-th slice of the data, wrapped as a chunk; rejects an index
    /// at or beyond the chunk count.
    pub fn chunk_for(&self, chunk_index: u32) -> (r: Result<TransferChunk, TransferError>)
        requires
            self.wf(),
        ensures
            match r {
                Ok(c) => {
                    &&& chunk_index < self.spec_total()
                    &&& c.transfer_id == self.spec_transfer_id()
                    &&& c.chunk_index == chunk_index
                    &&& c.total_chunks == self.spec_total()
                    &&& c.payload@ == spec_chunk_payload(
                        self.spec_data(),
                        self.spec_chunk_size() as nat,
                        chunk_index as nat,
                    )
                },
                Err(e) => chunk_index >= self.spec_total() && e
                    == TransferError::ChunkOutOfRange,
            },
    {
        if chunk_index >= self.total_chunks {
            return Err(TransferError::ChunkOutOfRange);
        }

        if self.data.len() == 0 {
            return Ok(
                TransferChunk {
                    transfer_id: self.transfer_id,
                    chunk_index,
                    total_chunks: self.total_chunks,
                    payload: Vec::new(),
                },
            );
        }

        proof {
            lemma_chunk_start_bound(
                self.data@.len(),
                self.chunk_size as nat,
                chunk_index as nat,
            );
        }
        let start: usize = (chunk_index as usize) * self.chunk_size;
        let end: usize = if self.chunk_size > self.data.len() - start {
            self.data.len()
        } else {
            start + self.chunk_size
        };
        let payload = vstd::slice::slice_to_vec(&self.data.as_slice()[start..end]);
        proof {
            assert(payload@ =~= spec_chunk_payload(
                self.spec_data(),
                self.spec_chunk_size() as nat,
                chunk_index as nat,
            ));
        }
        Ok(
            TransferChunk {
                transfer_id: self.transfer_id,
                chunk_index,
                total_chunks: self.total_chunks,
                payload,
            },
        )
    }

    /// Applies an acknowledgement with monotonic-max semantics: a stale
    /// (lower) value is silently ignored and the checkpoint never
    /// regresses. Rejects the wrong transfer id, an unknown receiver and
    /// a value beyond the chunk count, in that order.
    pub fn apply_ack(&mut self, ack: &Ack) -> (r: Result<(), TransferError>)
        requires
            old(self).wf(),
        ensures
            final(self).wf(),
            match r {
                Ok(_) => {
                    &&& ack.transfer_id == old(self).spec_transfer_id()
                    &&& old(self).spec_has_receiver(ack.receiver_id@)
                    &&& ack.next_expected_chunk <= old(self).spec_total()
                    &&& final(self).spec_transfer_id() == old(self).spec_transfer_id()
                    &&& final(self).spec_total() == old(self).spec_total()
                    &&& final(self).spec_chunk_size() == old(self).spec_chunk_size()
                    &&& final(self).spec_data() == old(self).spec_data()
                    &&& forall|id: Seq<char>|
                        final(self).spec_has_receiver(id) == old(self).spec_has_receiver(id)
                    &&& final(self).spec_acked(ack.receiver_id@) == spec_ack_step(
                        old(self).spec_acked(ack.receiver_id@),
                        ack.next_expected_chunk,
                    )
                    &&& forall|id: Seq<char>|
                        id != ack.receiver_id@ && old(self).spec_has_receiver(id)
                            ==> final(self).spec_acked(id) == old(self).spec_acked(id)
                },
                Err(e) => {
                    &&& *final(self) == *old(self)
                    &&& (e == TransferError::WrongTransfer
                        <==> ack.transfer_id != old(self).spec_transfer_id())
                    &&& (e == TransferError::UnknownReceiver
                        <==> (ack.transfer_id == old(self).spec_transfer_id()
                        && !old(self).spec_has_receiver(ack.receiver_id@)))
                    &&& (e == TransferError::AckOutOfRange
                        <==> (ack.transfer_id == old(self).spec_transfer_id()
                        && old(self).spec_has_receiver(ack.receiver_id@)
                        && ack.next_expected_chunk > old(self).spec_total()))
                },
            },
            r is Ok <==> (ack.transfer_id == old(self).spec_transfer_id()
                && old(self).spec_has_receiver(ack.receiver_id@)
                && ack.next_expected_chunk <= old(self).spec_total()),
    {
        if ack.transfer_id != self.transfer_id {
            return Err(TransferError::WrongTransfer);
        }

        let idx = match self.find_receiver(ack.receiver_id.as_str()) {
            Some(i) => i,
            None => {
                return Err(TransferError::UnknownReceiver);
            },
        };
        proof {
            self.lemma_receiver_index_is(idx as int);
        }

        if ack.next_expected_chunk > self.total_chunks {
            return Err(TransferError::AckOutOfRange);
        }

        let cur = &self.receivers[idx];
        let updated = ReceiverProgress {
            receiver_id: cur.receiver_id.clone(),
            acked_up_to_exclusive: if ack.next_expected_chunk > cur.acked_up_to_exclusive {
                ack.next_expected_chunk
            } else {
                cur.acked_up_to_exclusive
            },
            total_chunks: cur.total_chunks,
        };
        self.receivers[idx] = updated;

        proof {
            let post = *self;
            let pre = *old(self);
            let id = ack.receiver_id@;
            assert(post.receivers@ =~= pre.receivers@.update(
                idx as int,
                post.receivers@[idx as int],
            ));
            assert forall|other: Seq<char>|
                post.spec_has_receiver(other) == pre.spec_has_receiver(other) by {
                if pre.spec_has_receiver(other) {
                    let i0 = pre.spec_receiver_index(other);
                    assert(post.receivers@[i0].receiver_id@ == other);
                }
                if post.spec_has_receiver(other) {
                    let i0 = post.spec_receiver_index(other);
                    assert(pre.receivers@[i0].receiver_id@ == other);
                }
            }
            post.lemma_receiver_index_is(idx as int);
            pre.lemma_receiver_index_is(idx as int);
            assert forall|other: Seq<char>|
                other != id && pre.spec_has_receiver(other) implies post.spec_acked(other)
                == pre.spec_acked(other) by {
                let i0 = pre.spec_receiver_index(other);
                pre.lemma_receiver_index_is(i0);
                post.lemma_receiver_index_is(i0);
            }
        }
        Ok(())
    }

    /// The checkpoint to resume from for one receiver.
    pub fn resume_from_for_receiver(&self, receiver_id: &str) -> (r: Result<u32, TransferError>)
        requires
            self.wf(),
        ensures
            match r {
                Ok(v) => self.spec_has_receiver(receiver_id@) && v == self.spec_acked(
                    receiver_id@,
                ),
                Err(e) => !self.spec_has_receiver(receiver_id@) && e
                    == TransferError::UnknownReceiver,
            },
    {
        match self.find_receiver(receiver_id) {
            Some(i) => {
                proof {
                    self.lemma_receiver_index_is(i as int);
                }
                Ok(self.receivers[i].acked_up_to_exclusive)
            },
            None => Err(TransferError::UnknownReceiver),
        }
    }

    /// A copy of one receiver's progress record.
    pub fn progress_for(&self, receiver_id: &str) -> (r: Result<ReceiverProgress, TransferError>)
        requires
            self.wf(),
        ensures
            match r {
                Ok(p) => {
                    &&& self.spec_has_receiver(receiver_id@)
                    &&& p.receiver_id@ == receiver_id@
                    &&& p.acked_up_to_exclusive == self.spec_acked(receiver_id@)
                    &&& p.total_chunks == self.spec_total()
                },
                Err(e) => !self.spec_has_receiver(receiver_id@) && e
                    == TransferError::UnknownReceiver,
            },
    {
        match self.find_receiver(receiver_id) {
            Some(i) => {
                proof {
                    self.lemma_receiver_index_is(i as int);
                }
                let cur = &self.receivers[i];
                Ok(
                    ReceiverProgress {
                        receiver_id: cur.receiver_id.clone(),
                        acked_up_to_exclusive: cur.acked_up_to_exclusive,
                        total_chunks: cur.total_chunks,
                    },
                )
            },
            None => Err(TransferError::UnknownReceiver),
        }
    }

    /// True exactly when every receiver's checkpoint has reached the
    /// chunk count.
    pub fn all_complete(&self) -> (r: bool)
        requires
            self.wf(),
        ensures
            r <==> forall|i: int|
                0 <= i < self.spec_receivers().len() ==> (#[trigger] self.spec_receivers()[
                    i
                ]).acked_up_to_exclusive >= self.spec_total(),
    {
        let mut i: usize = 0;
        while i < self.receivers.len()
            invariant
                i <= self.receivers@.len(),
                forall|j: int|
                    0 <= j < i ==> (#[trigger] self.receivers@[j]).acked_up_to_exclusive
                        >= self.total_chunks,
            decreases self.receivers@.len() - i,
        {
            if self.receivers[i].acked_up_to_exclusive < self.total_chunks {
                proof {
                    assert((#[trigger] self.spec_receivers()[i as int]).acked_up_to_exclusive
                        < self.spec_total());
                }
                return false;
            }
            i = i + 1;
        }
        true
    }
}

} // verus!
