//! The OTA engine: preamble detection across read boundaries, block
//! flushing, the partial final block, and commit atomicity.

use sensor_node::ota::{OtaError, OtaPhase, OtaSession, OTA_BLOCK_SIZE};

fn started_session() -> OtaSession {
    let mut s = OtaSession::begin(0);
    s.start_stream();
    s
}

fn preamble() -> Vec<u8> {
    b"POST-ish header noise\r\n\r\n".to_vec()
}

#[test]
fn exact_blocks_flush_in_order_with_nothing_dropped() {
    let mut s = started_session();
    s.feed(&preamble());
    let n = 3;
    let mut payload: Vec<u8> = Vec::new();
    for i in 0..n * OTA_BLOCK_SIZE {
        payload.push((i % 251) as u8);
    }
    let blocks = s.feed(&payload);
    assert_eq!(blocks.len(), n);
    for (k, blk) in blocks.iter().enumerate() {
        assert_eq!(blk.len(), OTA_BLOCK_SIZE);
        assert_eq!(blk[..], payload[k * OTA_BLOCK_SIZE..(k + 1) * OTA_BLOCK_SIZE]);
    }
    let rem = s.finish();
    assert!(rem.is_none());
    assert_eq!(s.blocks_flushed, n as u64);
    assert_eq!(s.phase, OtaPhase::Finalizing);
}

#[test]
fn partial_final_block_is_flushed_not_dropped() {
    let mut s = started_session();
    s.feed(&preamble());
    let k = 5;
    let mut payload: Vec<u8> = vec![7; OTA_BLOCK_SIZE + k];
    payload[OTA_BLOCK_SIZE + k - 1] = 9;
    let blocks = s.feed(&payload);
    assert_eq!(blocks.len(), 1);
    let rem = s.finish().expect("the final partial block must be flushed");
    assert_eq!(rem.len(), k);
    assert_eq!(rem[k - 1], 9);
    assert_eq!(s.blocks_flushed, 2);
}

#[test]
fn preamble_detection_counts_cr_lf_across_chunks() {
    // The separator's four CR/LF bytes arrive two per read.
    let mut s = started_session();
    s.feed(&b"name=firmware\r\n".to_vec());
    assert_eq!(s.phase, OtaPhase::StreamingPreamble);
    s.feed(&b"\r\n".to_vec());
    assert_eq!(s.phase, OtaPhase::StreamingBody);
    let blocks = s.feed(&b"payload".to_vec());
    assert!(blocks.is_empty());
    let rem = s.finish().unwrap();
    assert_eq!(rem, b"payload".to_vec());
}

#[test]
fn chunking_never_changes_what_is_streamed() {
    let whole: Vec<u8> = {
        let mut w = preamble();
        w.extend_from_slice(&vec![42; OTA_BLOCK_SIZE + 3]);
        w
    };
    // One session sees one read; the other sees byte-sized reads.
    let mut a = started_session();
    let blocks_a = a.feed(&whole);
    let mut b = started_session();
    let mut blocks_b = Vec::new();
    for byte in &whole {
        blocks_b.append(&mut b.feed(&vec![*byte]));
    }
    assert_eq!(a.phase, b.phase);
    assert_eq!(blocks_a.len(), blocks_b.len());
    assert_eq!(blocks_a, blocks_b);
    let ra = a.finish();
    let rb = b.finish();
    assert_eq!(ra, rb);
}

#[test]
fn four_crlf_bytes_in_a_row_are_required() {
    // Interrupted runs never reach four: no payload begins.
    let mut s = started_session();
    s.feed(&b"\r\nx\r\nx\r\nx\r\n".to_vec());
    assert_eq!(s.phase, OtaPhase::StreamingPreamble);
    assert!(s.finish().is_none());
}

#[test]
fn finalize_failure_never_switches_boot_target() {
    let mut s = started_session();
    s.feed(&preamble());
    s.feed(&vec![1; 100]);
    s.finish();
    s.on_finalize_outcome(false);
    assert_eq!(s.phase, OtaPhase::Failed);
    assert_eq!(s.error, Some(OtaError::FinalizeFailed));
    assert!(!s.boot_switched);
    assert_eq!(s.response_status(), 500);
    assert_eq!(s.response_body(), b"Error finalizing OTA".to_vec());
}

#[test]
fn boot_switch_failure_leaves_previous_target() {
    let mut s = started_session();
    s.feed(&preamble());
    s.finish();
    s.on_finalize_outcome(true);
    s.on_boot_switch_outcome(false);
    assert_eq!(s.phase, OtaPhase::Failed);
    assert_eq!(s.error, Some(OtaError::BootSwitchFailed));
    assert!(!s.boot_switched);
    assert_eq!(s.response_status(), 500);
    assert_eq!(s.response_body(), b"Error setting OTA as boot partition".to_vec());
}

#[test]
fn committed_session_switched_boot_and_answers_200() {
    let mut s = started_session();
    s.feed(&preamble());
    s.feed(&vec![1; OTA_BLOCK_SIZE]);
    s.finish();
    s.on_finalize_outcome(true);
    s.on_boot_switch_outcome(true);
    assert_eq!(s.phase, OtaPhase::Committed);
    assert!(s.boot_switched);
    assert_eq!(s.response_status(), 200);
    assert!(s.response_body().is_empty());
}

#[test]
fn write_error_aborts_the_session() {
    let mut s = started_session();
    s.feed(&preamble());
    s.feed(&vec![1; OTA_BLOCK_SIZE]);
    s.on_write_error();
    assert_eq!(s.phase, OtaPhase::Failed);
    assert_eq!(s.error, Some(OtaError::WriteFailed));
    assert!(!s.boot_switched);
}
