use p2p_core::large_file::{
    assemble_file, integrity_tag, parse_checkpoint, render_checkpoint, verify_integrity,
    LargeFileManager, TransferCheckpoint, TransferState,
};
use std::collections::BTreeMap;

#[test]
fn chunk_index_is_built_correctly() {
    let mgr = LargeFileManager::new(1, 10, 4).expect("manager");
    let index = mgr.build_chunk_index(10);

    assert_eq!(index.len(), 3);
    assert_eq!(index[0].offset, 0);
    assert_eq!(index[0].length, 4);
    assert_eq!(index[2].offset, 8);
    assert_eq!(index[2].length, 2);
}

#[test]
fn pause_resume_cancel_state_machine() {
    let mut mgr = LargeFileManager::new(8, 20, 4).expect("manager");
    assert_eq!(mgr.checkpoint().state, TransferState::Running);

    mgr.pause().expect("pause");
    assert_eq!(mgr.checkpoint().state, TransferState::Paused);

    mgr.resume().expect("resume");
    assert_eq!(mgr.checkpoint().state, TransferState::Running);

    mgr.cancel();
    assert_eq!(mgr.checkpoint().state, TransferState::Cancelled);
    assert!(mgr.resume().is_err());
}

#[test]
fn assemble_and_verify_integrity() {
    let mut chunks = BTreeMap::new();
    chunks.insert(0, b"hello ".to_vec());
    chunks.insert(1, b"world".to_vec());

    let file = assemble_file(2, &chunks).expect("assemble");
    let tag = integrity_tag(&file);

    assert_eq!(file, b"hello world".to_vec());
    assert!(verify_integrity(&file, tag));
    assert!(!verify_integrity(&file, tag.wrapping_add(1)));
}

#[test]
fn missing_chunk_fails_assembly() {
    let mut chunks = BTreeMap::new();
    chunks.insert(0, b"only first".to_vec());

    let err = assemble_file(2, &chunks).expect_err("should fail");
    assert_eq!(err.message(), "missing chunk 1");
}

#[test]
fn checkpoint_round_trips_through_the_text_format() {
    let mut mgr = LargeFileManager::new(7, 100, 16).expect("manager");
    mgr.update_next_chunk(3).expect("update");
    mgr.pause().expect("pause");

    let bytes = mgr.render_checkpoint_bytes();
    assert_eq!(bytes, b"7\n3\npaused\n".to_vec());

    let loaded = parse_checkpoint(&bytes).expect("parse");
    assert_eq!(loaded.transfer_id, 7);
    assert_eq!(loaded.next_chunk, 3);
    assert_eq!(loaded.state, TransferState::Paused);
}

#[test]
fn checkpoint_parser_rejects_malformed_files() {
    assert!(parse_checkpoint(b"").is_err());
    assert!(parse_checkpoint(b"7\n").is_err());
    assert!(parse_checkpoint(b"7\n3\n").is_err());
    assert!(parse_checkpoint(b"seven\n3\nrunning\n").is_err());
    assert!(parse_checkpoint(b"7\n3\nsleeping\n").is_err());

    let cp = parse_checkpoint(b"9\n0\nrunning\n").expect("parse minimal");
    assert_eq!(
        cp,
        TransferCheckpoint {
            transfer_id: 9,
            next_chunk: 0,
            state: TransferState::Running
        }
    );

    let rendered = render_checkpoint(&cp);
    assert_eq!(parse_checkpoint(&rendered).expect("round trip"), cp);
}

#[test]
fn update_next_chunk_is_monotonic_and_guarded() {
    let mut mgr = LargeFileManager::new(2, 100, 10).expect("manager");
    assert_eq!(mgr.checkpoint().next_chunk, 0);

    mgr.update_next_chunk(4).expect("forward");
    mgr.update_next_chunk(2).expect("stale is ignored");
    assert_eq!(mgr.checkpoint().next_chunk, 4);

    assert!(mgr.update_next_chunk(11).is_err());

    mgr.cancel();
    let err = mgr.update_next_chunk(5).expect_err("cancelled");
    assert_eq!(err.message(), "invalid state: cannot update cancelled transfer");
}
