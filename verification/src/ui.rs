//! The desktop UI state model: the device grid, the incoming-request
//! modal and the transfer dashboard.

use vstd::prelude::*;

use vstd::string::StringSliceAdditionalSpecFns;

use crate::wire::str_eq;

verus! {

/// A device's presence on the grid.
#[derive(Debug, Clone, Copy, PartialEq, Eq, Structural)]
pub enum DeviceStatus {
    Online,
    Busy,
    Offline,
}

/// One card of the device grid.
#[derive(Debug, Clone, PartialEq, Eq)]
pub struct DeviceCard {
    pub device_id: String,
    pub display_name: String,
    pub status: DeviceStatus,
}

/// The user's answer to an incoming request.
#[derive(Debug, Clone, Copy, PartialEq, Eq, Structural)]
pub enum IncomingDecision {
    Pending,
    Accepted,
    Declined,
}

/// The modal shown for an incoming transfer request.
#[derive(Debug, Clone, PartialEq, Eq)]
pub struct IncomingRequestModal {
    pub from_device_id: String,
    pub file_name: String,
    pub size_bytes: u64,
    pub decision: IncomingDecision,
}

/// The dashboard state of one transfer.
#[derive(Debug, Clone, Copy, PartialEq, Eq, Structural)]
pub enum TransferState {
    Queued,
    InProgress,
    Completed,
    Failed,
}

/// One row of the transfer dashboard.
#[derive(Debug, Clone, PartialEq, Eq)]
pub struct TransferItem {
    pub transfer_id: u64,
    pub target_device_id: String,
    pub file_name: String,
    pub progress_percent: u8,
    pub state: TransferState,
}

/// Errors of the UI state model.
#[derive(Debug, Clone, PartialEq, Eq, Structural)]
pub enum UiError {
    NoIncomingRequest,
    TransferNotFound,
}

impl UiError {
    /// Human-readable description of the error.
    pub fn message(&self) -> String {
        match self {
            UiError::NoIncomingRequest => String::from_str("no incoming request modal is open"),
            UiError::TransferNotFound => String::from_str("transfer not found"),
        }
    }
}

/// Byte-wise lexicographic order on strings, the order display names
/// are sorted in.
pub open spec fn spec_bytes_le(a: Seq<u8>, b: Seq<u8>) -> bool
    decreases a.len(),
{
    if a.len() == 0 {
        true
    } else if b.len() == 0 {
        false
    } else if a[0] < b[0] {
        true
    } else if a[0] > b[0] {
        false
    } else {
        spec_bytes_le(a.drop_first(), b.drop_first())
    }
}

/// The order is total.
proof fn lemma_bytes_le_total(a: Seq<u8>, b: Seq<u8>)
    ensures
        spec_bytes_le(a, b) || spec_bytes_le(b, a),
    decreases a.len(),
{
    if a.len() > 0 && b.len() > 0 && a[0] == b[0] {
        lemma_bytes_le_total(a.drop_first(), b.drop_first());
    }
}

/// The order is transitive.
proof fn lemma_bytes_le_trans(a: Seq<u8>, b: Seq<u8>, c: Seq<u8>)
    requires
        spec_bytes_le(a, b),
        spec_bytes_le(b, c),
    ensures
        spec_bytes_le(a, c),
    decreases a.len(),
{
    if a.len() > 0 && b.len() > 0 && c.len() > 0 && a[0] == b[0] && b[0] == c[0] {
        lemma_bytes_le_trans(a.drop_first(), b.drop_first(), c.drop_first());
    }
}

/// Compares two byte strings lexicographically.
fn bytes_le(a: &[u8], b: &[u8]) -> (r: bool)
    ensures
        r == spec_bytes_le(a@, b@),
{
    let mut i: usize = 0;
    proof {
        assert(a@.skip(0) =~= a@);
        assert(b@.skip(0) =~= b@);
    }
    while i < a.len() && i < b.len()
        invariant
            i <= a@.len(),
            i <= b@.len(),
            forall|j: int| 0 <= j < i ==> a@[j] == b@[j],
            spec_bytes_le(a@, b@) == spec_bytes_le(a@.skip(i as int), b@.skip(i as int)),
        decreases a@.len() - i,
    {
        if a[i] < b[i] {
            proof {
                assert(spec_bytes_le(a@.skip(i as int), b@.skip(i as int)));
            }
            return true;
        }
        if a[i] > b[i] {
            proof {
                assert(!spec_bytes_le(a@.skip(i as int), b@.skip(i as int)));
            }
            return false;
        }
        proof {
            assert(a@.skip(i as int).drop_first() =~= a@.skip(i + 1));
            assert(b@.skip(i as int).drop_first() =~= b@.skip(i + 1));
        }
        i = i + 1;
    }
    proof {
        if i >= a@.len() {
            assert(a@.skip(i as int).len() == 0);
        } else {
            assert(b@.skip(i as int).len() == 0);
            assert(a@.skip(i as int).len() > 0);
        }
    }
    a.len() <= b.len()
}

/// The UI state: device cards sorted by display name, the optional
/// modal, and transfer rows sorted by transfer id.
#[derive(Debug)]
pub struct DesktopUiState {
    devices: Vec<DeviceCard>,
    incoming_modal: Option<IncomingRequestModal>,
    transfers: Vec<TransferItem>,
}

impl DesktopUiState {
    /// The state invariant: devices sorted by display name and unique
    /// by id; transfers sorted by and unique in transfer id.
    pub closed spec fn wf(self) -> bool {
        &&& forall|i: int, j: int|
            0 <= i < j < self.devices@.len() ==> spec_bytes_le(
                vstd::utf8::encode_utf8((#[trigger] self.devices@[i]).display_name@),
                vstd::utf8::encode_utf8((#[trigger] self.devices@[j]).display_name@),
            )
        &&& forall|i: int, j: int|
            0 <= i < j < self.devices@.len() ==> (#[trigger] self.devices@[i]).device_id@ != (
            #[trigger] self.devices@[j]).device_id@
        &&& forall|i: int, j: int|
            0 <= i < j < self.transfers@.len() ==> (#[trigger] self.transfers@[i]).transfer_id < (
            #[trigger] self.transfers@[j]).transfer_id
    }

    /// The device cards, sorted by display name.
    pub closed spec fn spec_devices(self) -> Seq<DeviceCard> {
        self.devices@
    }

    /// The open modal, if any.
    pub closed spec fn spec_modal(self) -> Option<IncomingRequestModal> {
        self.incoming_modal
    }

    /// The transfer rows, sorted by transfer id.
    pub closed spec fn spec_transfers(self) -> Seq<TransferItem> {
        self.transfers@
    }

    /// Whether a transfer id is on the dashboard.
    pub closed spec fn spec_has_transfer(self, transfer_id: u64) -> bool {
        exists|i: int|
            0 <= i < self.transfers@.len() && (#[trigger] self.transfers@[i]).transfer_id
                == transfer_id
    }

    /// An empty UI state.
    pub fn new() -> (r: Self)
        ensures
            r.wf(),
            r.spec_devices().len() == 0,
            r.spec_modal() is None,
            r.spec_transfers().len() == 0,
    {
        Self { devices: Vec::new(), incoming_modal: None, transfers: Vec::new() }
    }

    /// Inserts or replaces the card with this id, keeping the grid
    /// sorted by display name.
    pub fn upsert_device_card(&mut self, card: DeviceCard)
        requires
            old(self).wf(),
        ensures
            final(self).wf(),
            final(self).spec_modal() == old(self).spec_modal(),
            final(self).spec_transfers() == old(self).spec_transfers(),
            exists|i: int|
                0 <= i < final(self).spec_devices().len() && #[trigger] final(self).spec_devices()[
                    i
                ] == card,
    {
        let ghost pre = self.devices@;
        let mut found: Option<usize> = None;
        let mut k: usize = 0;
        while k < self.devices.len()
            invariant
                k <= self.devices@.len(),
                *self == *old(self),
                old(self).wf(),
                self.devices@ == pre,
                match found {
                    None => forall|j: int|
                        0 <= j < k ==> (#[trigger] pre[j]).device_id@ != card.device_id@,
                    Some(f) => f < pre.len() && pre[f as int].device_id@ == card.device_id@,
                },
            decreases pre.len() - k,
        {
            if found.is_none() && str_eq(self.devices[k].device_id.as_str(), card.device_id.as_str()) {
                found = Some(k);
            }
            k = k + 1;
        }

        if let Some(f) = found {
            self.devices.remove(f);
            proof {
                let mid = self.devices@;
                assert forall|i: int|
                    0 <= i < mid.len() implies (#[trigger] mid[i]).device_id@
                    != card.device_id@ by {
                    if i < f {
                        assert(mid[i] == pre[i]);
                        if (f as int) < pre.len() {
                            assert(pre[i].device_id@ != pre[f as int].device_id@);
                        }
                    } else {
                        assert(mid[i] == pre[i + 1]);
                        assert(pre[f as int].device_id@ != pre[i + 1].device_id@);
                    }
                }
                assert forall|i: int, j: int|
                    0 <= i < j < mid.len() implies spec_bytes_le(
                    vstd::utf8::encode_utf8((#[trigger] mid[i]).display_name@),
                    vstd::utf8::encode_utf8((#[trigger] mid[j]).display_name@),
                ) && mid[i].device_id@ != mid[j].device_id@ by {
                    let a: int = if i < f {
                        i
                    } else {
                        i + 1
                    };
                    let b: int = if j < f {
                        j
                    } else {
                        j + 1
                    };
                    assert(mid[i] == pre[a] && mid[j] == pre[b]);
                }
            }
        }
        let ghost mid = self.devices@;
        proof {
            assert(forall|i: int|
                0 <= i < mid.len() ==> (#[trigger] mid[i]).device_id@ != card.device_id@);
        }

        let mut p: usize = 0;
        while p < self.devices.len() && !bytes_le(
            card.display_name.as_str().as_bytes(),
            self.devices[p].display_name.as_str().as_bytes(),
        )
            invariant
                p <= self.devices@.len(),
                self.devices@ == mid,
                self.incoming_modal == old(self).incoming_modal,
                self.transfers@ == old(self).transfers@,
                forall|j: int|
                    0 <= j < p ==> !spec_bytes_le(
                        vstd::utf8::encode_utf8(card.display_name@),
                        vstd::utf8::encode_utf8((#[trigger] mid[j]).display_name@),
                    ),
            decreases mid.len() - p,
        {
            p = p + 1;
        }
        proof {
            assert forall|j: int|
                0 <= j < p implies spec_bytes_le(
                vstd::utf8::encode_utf8((#[trigger] mid[j]).display_name@),
                vstd::utf8::encode_utf8(card.display_name@),
            ) by {
                lemma_bytes_le_total(
                    vstd::utf8::encode_utf8(card.display_name@),
                    vstd::utf8::encode_utf8(mid[j].display_name@),
                );
            }
        }
        let ghost pos = p as int;
        self.devices.insert(p, card);
        proof {
            let post = self.devices@;
            assert(post == mid.insert(pos, card));
            assert(post[pos] == card);
            assert(self.spec_devices()[pos] == card);
            assert forall|i: int, j: int|
                0 <= i < j < post.len() implies spec_bytes_le(
                vstd::utf8::encode_utf8((#[trigger] post[i]).display_name@),
                vstd::utf8::encode_utf8((#[trigger] post[j]).display_name@),
            ) && post[i].device_id@ != post[j].device_id@ by {
                if i < pos && j < pos {
                    assert(post[i] == mid[i] && post[j] == mid[j]);
                } else if i < pos && j == pos {
                    assert(post[i] == mid[i]);
                } else if i < pos && j > pos {
                    assert(post[i] == mid[i] && post[j] == mid[j - 1]);
                } else if i == pos && j > pos {
                    assert(post[j] == mid[j - 1]);
                    assert(pos < mid.len());
                    assert(spec_bytes_le(
                        vstd::utf8::encode_utf8(card.display_name@),
                        vstd::utf8::encode_utf8(mid[pos].display_name@),
                    ));
                    if j - 1 == pos {
                    } else {
                        assert(spec_bytes_le(
                            vstd::utf8::encode_utf8(mid[pos].display_name@),
                            vstd::utf8::encode_utf8(mid[j - 1].display_name@),
                        ));
                        lemma_bytes_le_trans(
                            vstd::utf8::encode_utf8(card.display_name@),
                            vstd::utf8::encode_utf8(mid[pos].display_name@),
                            vstd::utf8::encode_utf8(mid[j - 1].display_name@),
                        );
                    }
                } else {
                    assert(post[i] == mid[i - 1] && post[j] == mid[j - 1]);
                }
            }
        }
    }

    /// Removes the card with this id, if present.
    pub fn remove_device_card(&mut self, device_id: &str)
        requires
            old(self).wf(),
        ensures
            final(self).wf(),
            final(self).spec_modal() == old(self).spec_modal(),
            final(self).spec_transfers() == old(self).spec_transfers(),
            forall|i: int|
                0 <= i < final(self).spec_devices().len()
                    ==> (#[trigger] final(self).spec_devices()[i]).device_id@ != device_id@,
    {
        let ghost pre = self.devices@;
        let mut k: usize = 0;
        while k < self.devices.len()
            invariant
                k <= self.devices@.len(),
                *self == *old(self),
                self.devices@ == pre,
                old(self).wf(),
                forall|j: int| 0 <= j < k ==> (#[trigger] pre[j]).device_id@ != device_id@,
            decreases self.devices@.len() - k,
        {
            if crate::wire::str_eq(self.devices[k].device_id.as_str(), device_id) {
                self.devices.remove(k);
                proof {
                    assert forall|i: int|
                        0 <= i < self.devices@.len() implies (#[trigger] self.devices@[
                        i
                    ]).device_id@ != device_id@ by {
                        if i < k {
                            assert(self.devices@[i] == pre[i]);
                        } else {
                            assert(self.devices@[i] == pre[i + 1]);
                        }
                    }
                    assert forall|i: int, j: int|
                        0 <= i < j < self.devices@.len() implies spec_bytes_le(
                        vstd::utf8::encode_utf8((#[trigger] self.devices@[i]).display_name@),
                        vstd::utf8::encode_utf8((#[trigger] self.devices@[j]).display_name@),
                    ) && (self.devices@[i]).device_id@ != (self.devices@[j]).device_id@ by {
                        let a: int = if i < k {
                            i
                        } else {
                            i + 1
                        };
                        let b: int = if j < k {
                            j
                        } else {
                            j + 1
                        };
                        assert(self.devices@[i] == pre[a] && self.devices@[j] == pre[b]);
                    }
                }
                return ;
            }
            k = k + 1;
        }
    }

    /// The device cards, sorted by display name for the grid.
    pub fn device_cards(&self) -> (r: &Vec<DeviceCard>)
        requires
            self.wf(),
        ensures
            r@ == self.spec_devices(),
            forall|i: int, j: int|
                0 <= i < j < r@.len() ==> spec_bytes_le(
                    vstd::utf8::encode_utf8((#[trigger] r@[i]).display_name@),
                    vstd::utf8::encode_utf8((#[trigger] r@[j]).display_name@),
                ),
    {
        &self.devices
    }

    /// Opens the incoming-request modal.
    pub fn show_incoming_request(&mut self, request: IncomingRequestModal)
        requires
            old(self).wf(),
        ensures
            final(self).wf(),
            final(self).spec_devices() == old(self).spec_devices(),
            final(self).spec_transfers() == old(self).spec_transfers(),
            final(self).spec_modal() == Some(request),
    {
        self.incoming_modal = Some(request);
    }

    /// Records the user's decision on the open modal; fails when none
    /// is open.
    pub fn decide_incoming_request(&mut self, decision: IncomingDecision) -> (r: Result<
        (),
        UiError,
    >)
        requires
            old(self).wf(),
        ensures
            final(self).wf(),
            final(self).spec_devices() == old(self).spec_devices(),
            final(self).spec_transfers() == old(self).spec_transfers(),
            match r {
                Ok(_) => {
                    &&& old(self).spec_modal() matches Some(m)
                    &&& final(self).spec_modal() matches Some(m2)
                    &&& m2.from_device_id@ == m.from_device_id@
                    &&& m2.file_name@ == m.file_name@
                    &&& m2.size_bytes == m.size_bytes
                    &&& m2.decision == decision
                },
                Err(e) => old(self).spec_modal() is None && e == UiError::NoIncomingRequest
                    && final(self).spec_modal() is None,
            },
    {
        match &mut self.incoming_modal {
            Some(modal) => {
                modal.decision = decision;
                Ok(())
            },
            None => Err(UiError::NoIncomingRequest),
        }
    }

    /// Closes the incoming-request modal.
    pub fn clear_incoming_request(&mut self)
        requires
            old(self).wf(),
        ensures
            final(self).wf(),
            final(self).spec_devices() == old(self).spec_devices(),
            final(self).spec_transfers() == old(self).spec_transfers(),
            final(self).spec_modal() is None,
    {
        self.incoming_modal = None;
    }

    /// The open modal, if any.
    pub fn incoming_request(&self) -> (r: Option<&IncomingRequestModal>)
        ensures
            match r {
                Some(m) => self.spec_modal() == Some(*m),
                None => self.spec_modal() is None,
            },
    {
        self.incoming_modal.as_ref()
    }

    /// The row holding a transfer id.
    pub closed spec fn spec_transfer_index(self, transfer_id: u64) -> int {
        choose|i: int|
            0 <= i < self.transfers@.len() && (#[trigger] self.transfers@[i]).transfer_id
                == transfer_id
    }

    /// Every dashboard row's id is a transfer the state knows.
    pub proof fn lemma_transfer_row(self, i: int)
        requires
            self.wf(),
            0 <= i < self.spec_transfers().len(),
        ensures
            self.spec_has_transfer(self.spec_transfers()[i].transfer_id),
    {
        self.lemma_transfer_index_is(i);
    }

    /// The row at a transfer's index is the one its id names.
    proof fn lemma_transfer_index_is(self, i: int)
        requires
            self.wf(),
            0 <= i < self.transfers@.len(),
        ensures
            self.spec_has_transfer(self.transfers@[i].transfer_id),
            self.spec_transfer_index(self.transfers@[i].transfer_id) == i,
    {
        let t = self.transfers@[i].transfer_id;
        assert(self.spec_has_transfer(t));
        let j = self.spec_transfer_index(t);
        if i < j {
            assert(self.transfers@[i].transfer_id < self.transfers@[j].transfer_id);
        } else if j < i {
            assert(self.transfers@[j].transfer_id < self.transfers@[i].transfer_id);
        }
    }

    /// Adds a row, or replaces the row with the same transfer id,
    /// keeping the dashboard sorted by id.
    pub fn add_transfer(&mut self, item: TransferItem)
        requires
            old(self).wf(),
        ensures
            final(self).wf(),
            final(self).spec_modal() == old(self).spec_modal(),
            final(self).spec_devices() == old(self).spec_devices(),
            exists|i: int|
                0 <= i < final(self).spec_transfers().len()
                    && #[trigger] final(self).spec_transfers()[i] == item,
    {
        let ghost pre = self.transfers@;
        let mut found: Option<usize> = None;
        let mut k: usize = 0;
        while k < self.transfers.len()
            invariant
                k <= self.transfers@.len(),
                *self == *old(self),
                old(self).wf(),
                self.transfers@ == pre,
                match found {
                    None => forall|j: int|
                        0 <= j < k ==> (#[trigger] pre[j]).transfer_id != item.transfer_id,
                    Some(f) => f < pre.len() && pre[f as int].transfer_id == item.transfer_id,
                },
            decreases pre.len() - k,
        {
            if found.is_none() && self.transfers[k].transfer_id == item.transfer_id {
                found = Some(k);
            }
            k = k + 1;
        }

        if let Some(f) = found {
            self.transfers.remove(f);
            proof {
                let mid = self.transfers@;
                assert forall|i: int|
                    0 <= i < mid.len() implies (#[trigger] mid[i]).transfer_id
                    != item.transfer_id by {
                    if i < f {
                        assert(mid[i] == pre[i]);
                        assert(pre[i].transfer_id < pre[f as int].transfer_id);
                    } else {
                        assert(mid[i] == pre[i + 1]);
                        assert(pre[f as int].transfer_id < pre[i + 1].transfer_id);
                    }
                }
                assert forall|i: int, j: int|
                    0 <= i < j < mid.len() implies (#[trigger] mid[i]).transfer_id < (
                    #[trigger] mid[j]).transfer_id by {
                    let a: int = if i < f {
                        i
                    } else {
                        i + 1
                    };
                    let b: int = if j < f {
                        j
                    } else {
                        j + 1
                    };
                    assert(mid[i] == pre[a] && mid[j] == pre[b]);
                }
            }
        }
        let ghost mid = self.transfers@;
        proof {
            assert(forall|i: int|
                0 <= i < mid.len() ==> (#[trigger] mid[i]).transfer_id != item.transfer_id);
        }

        let mut p: usize = 0;
        while p < self.transfers.len() && self.transfers[p].transfer_id < item.transfer_id
            invariant
                p <= self.transfers@.len(),
                self.transfers@ == mid,
                self.incoming_modal == old(self).incoming_modal,
                self.devices@ == old(self).devices@,
                forall|j: int|
                    0 <= j < p ==> (#[trigger] mid[j]).transfer_id < item.transfer_id,
            decreases mid.len() - p,
        {
            p = p + 1;
        }
        let ghost pos = p as int;
        self.transfers.insert(p, item);
        proof {
            let post = self.transfers@;
            assert(post == mid.insert(pos, item));
            assert(post[pos] == item);
            assert(self.spec_transfers()[pos] == item);
            assert forall|i: int, j: int|
                0 <= i < j < post.len() implies (#[trigger] post[i]).transfer_id < (
                #[trigger] post[j]).transfer_id by {
                if i < pos && j < pos {
                    assert(post[i] == mid[i] && post[j] == mid[j]);
                } else if i < pos && j == pos {
                    assert(post[i] == mid[i]);
                } else if i < pos && j > pos {
                    assert(post[i] == mid[i] && post[j] == mid[j - 1]);
                } else if i == pos && j > pos {
                    assert(post[j] == mid[j - 1]);
                    assert(mid[j - 1].transfer_id != item.transfer_id);
                    assert(!(mid[j - 1].transfer_id < item.transfer_id));
                } else {
                    assert(post[i] == mid[i - 1] && post[j] == mid[j - 1]);
                }
            }
        }
    }

    /// Sets a transfer's progress, capped at 100; a row in progress
    /// that reaches 100 flips to Completed. Fails on an unknown id.
    pub fn update_transfer_progress(&mut self, transfer_id: u64, progress_percent: u8) -> (r:
        Result<(), UiError>)
        requires
            old(self).wf(),
        ensures
            final(self).wf(),
            final(self).spec_modal() == old(self).spec_modal(),
            final(self).spec_devices() == old(self).spec_devices(),
            match r {
                Ok(_) => {
                    &&& old(self).spec_has_transfer(transfer_id)
                    &&& ({
                        let i = old(self).spec_transfer_index(transfer_id);
                        let item = old(self).spec_transfers()[i];
                        let capped: u8 = if progress_percent > 100 {
                            100u8
                        } else {
                            progress_percent
                        };
                        let new_state = if capped == 100 && item.state
                            == TransferState::InProgress {
                            TransferState::Completed
                        } else {
                            item.state
                        };
                        &&& final(self).spec_transfers().len()
                            == old(self).spec_transfers().len()
                        &&& final(self).spec_transfers()[i].transfer_id == item.transfer_id
                        &&& final(self).spec_transfers()[i].target_device_id@
                            == item.target_device_id@
                        &&& final(self).spec_transfers()[i].file_name@ == item.file_name@
                        &&& final(self).spec_transfers()[i].progress_percent == capped
                        &&& final(self).spec_transfers()[i].state == new_state
                        &&& forall|j: int|
                            0 <= j < old(self).spec_transfers().len() && j != i
                                ==> final(self).spec_transfers()[j] == #[trigger] old(
                                self,
                            ).spec_transfers()[j]
                    })
                },
                Err(e) => {
                    &&& !old(self).spec_has_transfer(transfer_id)
                    &&& e == UiError::TransferNotFound
                    &&& *final(self) == *old(self)
                },
            },
    {
        let ghost pre = self.transfers@;
        let mut k: usize = 0;
        while k < self.transfers.len()
            invariant
                k <= self.transfers@.len(),
                *self == *old(self),
                old(self).wf(),
                self.transfers@ == pre,
                forall|j: int| 0 <= j < k ==> (#[trigger] pre[j]).transfer_id != transfer_id,
            decreases pre.len() - k,
        {
            if self.transfers[k].transfer_id == transfer_id {
                proof {
                    self.lemma_transfer_index_is(k as int);
                }
                let cur = &self.transfers[k];
                let capped: u8 = if progress_percent > 100 {
                    100
                } else {
                    progress_percent
                };
                let new_state = if capped == 100 && cur.state == TransferState::InProgress {
                    TransferState::Completed
                } else {
                    cur.state
                };
                let updated = TransferItem {
                    transfer_id: cur.transfer_id,
                    target_device_id: cur.target_device_id.clone(),
                    file_name: cur.file_name.clone(),
                    progress_percent: capped,
                    state: new_state,
                };
                self.transfers[k] = updated;
                proof {
                    assert(self.transfers@ =~= pre.update(
                        k as int,
                        self.transfers@[k as int],
                    ));
                }
                return Ok(());
            }
            k = k + 1;
        }
        Err(UiError::TransferNotFound)
    }

    /// Sets a transfer's state directly. Fails on an unknown id.
    pub fn set_transfer_state(&mut self, transfer_id: u64, state: TransferState) -> (r: Result<
        (),
        UiError,
    >)
        requires
            old(self).wf(),
        ensures
            final(self).wf(),
            final(self).spec_modal() == old(self).spec_modal(),
            final(self).spec_devices() == old(self).spec_devices(),
            match r {
                Ok(_) => {
                    &&& old(self).spec_has_transfer(transfer_id)
                    &&& ({
                        let i = old(self).spec_transfer_index(transfer_id);
                        let item = old(self).spec_transfers()[i];
                        &&& final(self).spec_transfers().len()
                            == old(self).spec_transfers().len()
                        &&& final(self).spec_transfers()[i].transfer_id == item.transfer_id
                        &&& final(self).spec_transfers()[i].target_device_id@
                            == item.target_device_id@
                        &&& final(self).spec_transfers()[i].file_name@ == item.file_name@
                        &&& final(self).spec_transfers()[i].progress_percent
                            == item.progress_percent
                        &&& final(self).spec_transfers()[i].state == state
                        &&& forall|j: int|
                            0 <= j < old(self).spec_transfers().len() && j != i
                                ==> final(self).spec_transfers()[j] == #[trigger] old(
                                self,
                            ).spec_transfers()[j]
                    })
                },
                Err(e) => {
                    &&& !old(self).spec_has_transfer(transfer_id)
                    &&& e == UiError::TransferNotFound
                    &&& *final(self) == *old(self)
                },
            },
    {
        let ghost pre = self.transfers@;
        let mut k: usize = 0;
        while k < self.transfers.len()
            invariant
                k <= self.transfers@.len(),
                *self == *old(self),
                old(self).wf(),
                self.transfers@ == pre,
                forall|j: int| 0 <= j < k ==> (#[trigger] pre[j]).transfer_id != transfer_id,
            decreases pre.len() - k,
        {
            if self.transfers[k].transfer_id == transfer_id {
                proof {
                    self.lemma_transfer_index_is(k as int);
                }
                let cur = &self.transfers[k];
                let updated = TransferItem {
                    transfer_id: cur.transfer_id,
                    target_device_id: cur.target_device_id.clone(),
                    file_name: cur.file_name.clone(),
                    progress_percent: cur.progress_percent,
                    state,
                };
                self.transfers[k] = updated;
                proof {
                    assert(self.transfers@ =~= pre.update(
                        k as int,
                        self.transfers@[k as int],
                    ));
                }
                return Ok(());
            }
            k = k + 1;
        }
        Err(UiError::TransferNotFound)
    }

    /// The transfer rows, sorted by transfer id for the dashboard.
    pub fn transfers(&self) -> (r: &Vec<TransferItem>)
        requires
            self.wf(),
        ensures
            r@ == self.spec_transfers(),
            forall|i: int, j: int|
                0 <= i < j < r@.len() ==> (#[trigger] r@[i]).transfer_id < (
                #[trigger] r@[j]).transfer_id,
    {
        &self.transfers
    }
}

} // verus!
