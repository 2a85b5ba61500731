//! End-to-end scenarios wiring the subsystems together: discovery into
//! the UI and a transfer, route planning over LAN and relay paths, the
//! telemetry lifecycle, and the coexistence of plaintext and encrypted
//! framing.

use vstd::prelude::*;

use vstd::string::StringExecFns;

use crate::framing::{
    decrypt_chunk_frame, encrypt_chunk_frame, lemma_v1_round_trip, EncryptionFlag, TransferChunk,
    TransferChunkV2,
};
use crate::lan::{LanOfflineGuard, LanPolicy};
use crate::net::{IpAddress, SocketAddress};
use crate::routing::{decide_route, gather_candidates, NatType, Route};
use crate::session::{Ack, TransferSession};
use crate::telemetry::{AuditEvent, AuditTelemetry, RetentionPolicy};
use crate::ui::{DesktopUiState, DeviceCard, DeviceStatus, TransferItem, TransferState};
use crate::wire::{bytes_eq, str_eq};

verus! {

/// A v4 socket address.
fn v4(a: u8, b: u8, c: u8, d: u8, port: u16) -> (r: SocketAddress)
    ensures
        r == (SocketAddress { ip: IpAddress::V4([a, b, c, d]), port }),
{
    SocketAddress { ip: IpAddress::V4([a, b, c, d]), port }
}

/// Plans routes for the two stock situations: a LAN pair with
/// reflexive candidates goes direct; a symmetric pair with a relay
/// candidate falls back to the relay.
pub fn e2e_route_for_lan_and_relay() -> (r: (Route, Route))
    ensures
        r.0 == Route::Direct,
        r.1 == Route::Relay,
{
    let lan_a = gather_candidates(
        v4(192, 168, 1, 10, 5000),
        Some(v4(203, 0, 113, 10, 5000)),
        Some(v4(198, 51, 100, 1, 7000)),
    );
    let lan_b = gather_candidates(
        v4(10, 0, 0, 2, 5001),
        Some(v4(203, 0, 113, 20, 5001)),
        Some(v4(198, 51, 100, 2, 7000)),
    );
    let lan_plan = decide_route(NatType::RestrictedCone, NatType::FullCone, &lan_a, &lan_b);

    let relay_a = gather_candidates(v4(10, 1, 1, 2, 5000), None, Some(v4(198, 51, 100, 9, 7000)));
    let relay_b = gather_candidates(v4(10, 2, 2, 2, 5001), None, None);
    let relay_plan = decide_route(NatType::Symmetric, NatType::Symmetric, &relay_a, &relay_b);

    (lan_plan.route, relay_plan.route)
}

/// Runs the security telemetry lifecycle: three events, one with a
/// sensitive file name, and two counters. Yields the event count,
/// whether the file name was redacted, and whether the negotiation
/// event is present — always `(3, true, true)`.
pub fn lifecycle_security_and_telemetry_validation() -> (r: Result<(usize, bool, bool), &'static str>)
    ensures
        r == Ok::<(usize, bool, bool), &'static str>((3, true, true)),
{
    let mut telemetry = AuditTelemetry::new(RetentionPolicy { max_events: 20 });
    let ghost e0 = telemetry.spec_events();

    let mut md: Vec<(String, String)> = Vec::new();
    md.push((String::from_str("file_name"), String::from_str("secret-plan.pdf")));
    md.push((String::from_str("transfer_id"), String::from_str("101")));
    let ghost md0 = md@;
    telemetry.record_event(
        AuditEvent {
            timestamp_ms: 1,
            category: String::from_str("security"),
            action: String::from_str("peer_trusted"),
            metadata: md,
        },
    );
    let ghost e1 = telemetry.spec_events();

    telemetry.record_event(
        AuditEvent {
            timestamp_ms: 2,
            category: String::from_str("security"),
            action: String::from_str("encryption.negotiated"),
            metadata: Vec::new(),
        },
    );
    let ghost e2 = telemetry.spec_events();

    telemetry.record_event(
        AuditEvent {
            timestamp_ms: 3,
            category: String::from_str("security"),
            action: String::from_str("encryption.required_rejected_peer"),
            metadata: Vec::new(),
        },
    );

    telemetry.increment_counter("security.peer_trusted");
    telemetry.increment_counter("transfer.completed");

    proof {
        assert(forall|s: Seq<AuditEvent>| #[trigger] s.skip(0) =~= s);
        reveal_strlit("file_name");
        reveal_strlit("transfer_id");
        reveal_strlit("[REDACTED]");
        reveal_strlit("encryption.negotiated");
    }

    let events = telemetry.events();
    proof {
        assert(e0.len() == 0);
        assert(e1.len() == 1 && e2.len() == 2 && events@.len() == 3);
        assert(events@[0] == e1[0] && events@[1] == e2[1]);
        let first = events@[0];
        assert(crate::telemetry::spec_redacted(md0, first.metadata@));
        assert(md0[0].0@ == "file_name"@ && crate::telemetry::spec_is_sensitive(md0[0].0@));
        assert(first.metadata@[0].0@ == "file_name"@ && first.metadata@[0].1@ == "[REDACTED]"@);
        assert(md0[1].0@ == "transfer_id"@);
        assert(first.metadata@[1].0@ == "transfer_id"@);
        assert("transfer_id"@ != "file_name"@);
        assert(events@[1].action@ == "encryption.negotiated"@);
    }
    if events.len() != 3 {
        return Err("unexpected event count");
    }

    let redacted: bool = match events[0].metadata_value("file_name") {
        Some(v) => str_eq(v.as_str(), "[REDACTED]"),
        None => false,
    };
    proof {
        assert(redacted);
    }

    let mut has_negotiated_event: bool = false;
    let mut i: usize = 0;
    while i < events.len()
        invariant
            i <= events@.len(),
            events@.len() == 3,
            events@[1].action@ == "encryption.negotiated"@,
            i > 1 ==> has_negotiated_event,
            has_negotiated_event ==> exists|j: int|
                0 <= j < events@.len() && (#[trigger] events@[j]).action@
                    == "encryption.negotiated"@,
        decreases events@.len() - i,
    {
        if str_eq(events[i].action.as_str(), "encryption.negotiated") {
            has_negotiated_event = true;
        }
        i = i + 1;
    }

    if !redacted {
        return Err("file name was not redacted");
    }
    if !has_negotiated_event {
        return Err("negotiation event missing");
    }
    Ok((events.len(), redacted, has_negotiated_event))
}

/// Encodes and decodes a plaintext v1 chunk, and wraps and unwraps the
/// same chunk through the encrypted v2 path under one session key; both
/// paths return the chunk unchanged, so the result is `(true, true)`.
pub fn plaintext_and_encrypted_paths_coexist() -> (r: Result<(bool, bool), &'static str>)
    ensures
        r == Ok::<(bool, bool), &'static str>((true, true)),
{
    let payload: Vec<u8> = vec![
        112u8, 108u8, 97u8, 105u8, 110u8, 116u8, 101u8, 120u8, 116u8, 45u8, 111u8, 107u8,
    ];
    let plaintext_chunk = TransferChunk {
        transfer_id: 501,
        chunk_index: 0,
        total_chunks: 1,
        payload,
    };

    let encoded = plaintext_chunk.encode();
    proof {
        lemma_v1_round_trip(plaintext_chunk);
    }
    let decoded_plain = match TransferChunk::decode(encoded.as_slice()) {
        Ok(c) => c,
        Err(_) => {
            return Err("plaintext frame did not decode");
        },
    };
    let plaintext_ok = decoded_plain.transfer_id == plaintext_chunk.transfer_id
        && decoded_plain.chunk_index == plaintext_chunk.chunk_index && decoded_plain.total_chunks
        == plaintext_chunk.total_chunks && bytes_eq(
        decoded_plain.payload.as_slice(),
        plaintext_chunk.payload.as_slice(),
    );

    let session_key: [u8; 32] = [21u8; 32];
    let encrypted_frame = match encrypt_chunk_frame(&plaintext_chunk, &session_key) {
        Ok(f) => f,
        Err(_) => {
            return Err("chunk did not encrypt");
        },
    };
    proof {
        crate::crypto::lemma_encrypt_decrypt_round_trip(
            session_key@,
            encrypted_frame.nonce@,
            encrypted_frame.aad@,
            plaintext_chunk.payload@,
        );
    }
    let decrypted = match decrypt_chunk_frame(&encrypted_frame, &session_key) {
        Ok(c) => c,
        Err(_) => {
            return Err("frame did not decrypt");
        },
    };
    let encrypted_ok = decrypted.transfer_id == plaintext_chunk.transfer_id
        && decrypted.chunk_index == plaintext_chunk.chunk_index && decrypted.total_chunks
        == plaintext_chunk.total_chunks && bytes_eq(
        decrypted.payload.as_slice(),
        plaintext_chunk.payload.as_slice(),
    );

    if !(plaintext_ok && encrypted_ok) {
        return Err("round trip disturbed the chunk");
    }
    Ok((plaintext_ok, encrypted_ok))
}

/// Hands a v2 frame flagged as plaintext to the decrypting path, which
/// must refuse it whatever the key: the result is always `rejected`.
pub fn required_mode_rejects_plaintext_frame() -> (r: Result<&'static str, &'static str>)
    ensures
        r matches Ok(s) && s@ == "rejected"@,
{
    let payload: Vec<u8> = vec![108u8, 101u8, 103u8, 97u8, 99u8, 121u8];
    let plaintext_frame = TransferChunkV2 {
        protocol_version: 2,
        encryption_flag: EncryptionFlag::Plaintext,
        transfer_id: 900,
        chunk_index: 0,
        total_chunks: 1,
        nonce: [0u8; 12],
        aad: Vec::new(),
        payload,
    };

    let key: [u8; 32] = [31u8; 32];
    match decrypt_chunk_frame(&plaintext_frame, &key) {
        Ok(_) => Err("plaintext frame was accepted"),
        Err(e) => match e {
            crate::framing::TransferError::InvalidFrame(m) => if str_eq(
                m,
                "expected encrypted frame",
            ) {
                Ok("rejected")
            } else {
                Err("unexpected error")
            },
            _ => Err("unexpected error"),
        },
    }
}

/// Wires a decoded announcement through the LAN guard, the UI grid and a
/// one-chunk-acknowledged transfer: every step accepts and the session
/// reports completion.
pub fn wire_discovery_to_ui_and_transfer() -> (r: Result<bool, &'static str>)
    ensures
        r == Ok::<bool, &'static str>(true),
{
    let ann = crate::discovery::Announcement {
        device_id: String::from_str("peer-a"),
        public_key_b64: String::from_str("PUBKEYBASE64"),
        display_name: String::from_str("Aarav iPhone"),
        port: 7777,
    };

    let encoded = ann.encode();
    proof {
        reveal_strlit("peer-a");
        reveal_strlit("PUBKEYBASE64");
        reveal_strlit("Aarav iPhone");
        assert(vstd::utf8::is_ascii_chars(ann.device_id@));
        assert(vstd::utf8::is_ascii_chars(ann.public_key_b64@));
        assert(vstd::utf8::is_ascii_chars(ann.display_name@));
        vstd::utf8::is_ascii_chars_encode_utf8(ann.device_id@);
        vstd::utf8::is_ascii_chars_encode_utf8(ann.public_key_b64@);
        vstd::utf8::is_ascii_chars_encode_utf8(ann.display_name@);
        crate::discovery::lemma_announcement_round_trip(ann);
    }
    let decoded = match crate::discovery::Announcement::decode(encoded.as_slice()) {
        Ok(a) => a,
        Err(_) => {
            return Err("announcement did not decode");
        },
    };

    let guard = LanOfflineGuard::new(LanPolicy::default());
    let mut peers: Vec<SocketAddress> = Vec::new();
    peers.push(v4(192, 168, 1, 12, 7777));
    match guard.validate_peer_set(&peers) {
        Ok(_) => (),
        Err(_) => {
            return Err("LAN policy denied the peer");
        },
    }

    let mut ui = DesktopUiState::new();
    ui.upsert_device_card(
        DeviceCard {
            device_id: decoded.device_id.clone(),
            display_name: decoded.display_name,
            status: DeviceStatus::Online,
        },
    );

    let data: Vec<u8> = vec![
        104u8, 101u8, 108u8, 108u8, 111u8, 45u8, 119u8, 111u8, 114u8, 108u8, 100u8,
    ];
    let mut receiver_ids: Vec<String> = Vec::new();
    receiver_ids.push(String::from_str("peer-a"));
    let ghost rids = receiver_ids@;
    let mut session = match TransferSession::new(101, data, 4, receiver_ids) {
        Ok(s) => s,
        Err(_) => {
            return Err("session rejected its configuration");
        },
    };
    proof {
        assert(rids[0]@ == "peer-a"@);
        assert(exists|i: int| 0 <= i < rids.len() && (#[trigger] rids[i])@ == "peer-a"@);
        assert(session.spec_has_receiver("peer-a"@));
    }

    let item = TransferItem {
        transfer_id: 101,
        target_device_id: String::from_str("peer-a"),
        file_name: String::from_str("hello.txt"),
        progress_percent: 0,
        state: TransferState::InProgress,
    };
    let ghost row = item;
    ui.add_transfer(item);
    proof {
        let i = choose|i: int|
            0 <= i < ui.spec_transfers().len() && #[trigger] ui.spec_transfers()[i] == row;
        assert(ui.spec_transfers()[i].transfer_id == 101);
        ui.lemma_transfer_row(i);
        assert(ui.spec_has_transfer(101));
    }

    let total = session.total_chunks();
    match session.apply_ack(
        &Ack {
            transfer_id: 101,
            receiver_id: String::from_str("peer-a"),
            next_expected_chunk: total,
        },
    ) {
        Ok(_) => (),
        Err(_) => {
            return Err("the acknowledgement was rejected");
        },
    }

    match ui.update_transfer_progress(101, 100) {
        Ok(_) => (),
        Err(_) => {
            return Err("the transfer is unknown to the UI");
        },
    }

    proof {
        assert forall|i: int|
            0 <= i < session.spec_receivers().len() implies (
        #[trigger] session.spec_receivers()[i]).acked_up_to_exclusive >= session.spec_total() by {
            session.lemma_receiver_entry(i);
            let id = session.spec_receivers()[i].receiver_id@;
            assert(session.spec_has_receiver(id));
            assert(id == "peer-a"@);
            assert(session.spec_acked(id) == session.spec_total());
        }
    }
    Ok(session.all_complete())
}

} // verus!
