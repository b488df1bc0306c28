use canon_agent::capability::observation::record::{
    observation_bytes_hash, ObservationCursor, ObservationDecision, ObservationFrame,
    ObservationFrameKind, ObservationRecord,
};
use canon_agent::capability::observation::source::{
    decode_observation_cursor_ndjson, encode_observation_cursor_ndjson, ingest_source_bytes,
    line_frames, observation_cursor_from_text, observation_records_hash, ObservationCursorError,
    ObservationIngressBatch, ObservationIngressConfig, ObservationIngressDecision,
};

fn accepted_batch() -> ObservationIngressBatch {
    let records = vec![
        ObservationRecord::new(9, 1, 101, 5),
        ObservationRecord::new(9, 2, 202, 6),
    ];
    ObservationIngressBatch::accepted(
        9,
        303,
        ObservationCursor { source_id: 9, last_sequence: 2, last_observed_hash: 202 },
        1,
        records,
    )
}

#[test]
fn observation_ingress_receipt_binds_accepted_batch() {
    let batch = accepted_batch();
    let receipt = batch.receipt();

    assert!(receipt.is_self_consistent());
    assert!(receipt.is_valid_for(&batch));
    assert_eq!(receipt.decision, ObservationIngressDecision::Accepted);
    assert_eq!(receipt.record_count, 2);
    assert_eq!(receipt.first_sequence, 1);
    assert_eq!(receipt.last_sequence, 2);
    assert_eq!(receipt.contract_hash, batch.contract_hash());
    assert_eq!(receipt.records_hash, observation_records_hash(&batch.records));
    assert!(receipt.submission().passed);
}

#[test]
fn observation_ingress_receipt_binds_backpressure_without_gate_pass() {
    let batch = ObservationIngressBatch::backpressure(
        9,
        303,
        ObservationCursor { source_id: 9, last_sequence: 0, last_observed_hash: 0 },
        7,
    );
    let receipt = batch.receipt();

    assert!(receipt.is_self_consistent());
    assert!(receipt.is_valid_for(&batch));
    assert_eq!(receipt.decision, ObservationIngressDecision::Backpressure);
    assert_eq!(receipt.record_count, 0);
    assert_eq!(receipt.backlog_len, 7);
    assert!(!receipt.contract_valid);
    assert!(!receipt.submission().passed);
}

#[test]
fn observation_ingress_receipt_rejects_tampered_contract_hash() {
    let batch = accepted_batch();
    let mut receipt = batch.receipt();
    receipt.contract_hash ^= 1;

    assert!(!receipt.is_self_consistent());
    assert!(!receipt.is_valid_for(&batch));
    assert!(!receipt.submission().passed);
}

#[test]
fn line_frames_skip_empty_lines_and_trim_carriage_returns() {
    let config = ObservationIngressConfig::new(9, 8, 64, 100);
    let frames = line_frames(b"alpha\r\n\nbeta", config);
    assert_eq!(frames.len(), 2);
    assert_eq!(
        frames[0],
        ObservationFrame::from_payload(ObservationFrameKind::ExternalSignal, 9, 1, 101, b"alpha")
    );
    assert_eq!(
        frames[1],
        ObservationFrame::from_payload(ObservationFrameKind::ExternalSignal, 9, 2, 102, b"beta")
    );
    assert_eq!(frames[0].payload_len, 5);
    assert_eq!(frames[0].payload_hash, observation_bytes_hash(b"alpha"));
}

#[test]
fn ingest_accepts_a_batch_and_advances_the_cursor() {
    let config = ObservationIngressConfig::new(9, 2, 8, 100);
    let batch = ingest_source_bytes(config, b"one\ntwo\nthree\n", None);
    assert_eq!(batch.decision, ObservationIngressDecision::Accepted);
    assert_eq!(batch.records.len(), 2);
    assert_eq!(batch.records[0].sequence, 1);
    assert_eq!(batch.records[1].sequence, 2);
    assert_eq!(batch.cursor.last_sequence, 2);
    assert_eq!(batch.cursor.last_observed_hash, batch.records[1].observed_hash);
    assert_eq!(batch.backlog_len, 1);
    assert!(batch.is_contract_valid());
    assert!(batch.submission().passed);
    let receipt = batch.receipt();
    assert!(receipt.is_self_consistent());

    let next = ingest_source_bytes(config, b"one\ntwo\nthree\n", Some(batch.cursor));
    assert_eq!(next.decision, ObservationIngressDecision::Accepted);
    assert_eq!(next.records.len(), 1);
    assert_eq!(next.records[0].sequence, 3);
    assert_eq!(next.backlog_len, 0);

    let done = ingest_source_bytes(config, b"one\ntwo\nthree\n", Some(next.cursor));
    assert_eq!(done.decision, ObservationIngressDecision::Empty);
    assert_eq!(done.cursor, next.cursor);
}

#[test]
fn ingest_reports_backpressure_without_moving_the_cursor() {
    let config = ObservationIngressConfig::new(9, 1, 2, 100);
    let batch = ingest_source_bytes(config, b"a\nb\nc\n", None);
    assert_eq!(batch.decision, ObservationIngressDecision::Backpressure);
    assert!(batch.records.is_empty());
    assert_eq!(batch.cursor, ObservationCursor::new(9));
    assert_eq!(batch.backlog_len, 3);
    assert!(!batch.submission().passed);
}

#[test]
fn ingest_rejects_invalid_config_and_foreign_cursor() {
    let invalid = ObservationIngressConfig::new(9, 4, 2, 100);
    assert!(!invalid.is_valid());
    let batch = ingest_source_bytes(invalid, b"a\n", None);
    assert_eq!(batch.decision, ObservationIngressDecision::Rejected);

    let config = ObservationIngressConfig::default_for_source(9, 100);
    let foreign = ObservationCursor::new(10);
    let batch = ingest_source_bytes(config, b"a\n", Some(foreign));
    assert_eq!(batch.decision, ObservationIngressDecision::Rejected);
    assert_eq!(batch.cursor, foreign);
    assert_eq!(batch.source_hash, 0);
}

#[test]
fn ingest_rejects_lines_that_are_only_carriage_returns() {
    let config = ObservationIngressConfig::new(9, 4, 8, 100);
    let batch = ingest_source_bytes(config, b"\r\n\r\n", None);
    assert_eq!(batch.decision, ObservationIngressDecision::Rejected);
    assert!(batch.records.is_empty());
}

#[test]
fn observation_cursor_round_trips_through_ndjson() {
    let cursor = ObservationCursor { source_id: 9, last_sequence: 4, last_observed_hash: 77 };
    let line = encode_observation_cursor_ndjson(cursor);
    assert_eq!(line, format!("[1,{},9,4,77]\n", 0x0b5e_0001u64));
    assert_eq!(decode_observation_cursor_ndjson(&line), Some(cursor));
    let broken = ObservationCursor { source_id: 9, last_sequence: 4, last_observed_hash: 0 };
    assert_eq!(decode_observation_cursor_ndjson(&encode_observation_cursor_ndjson(broken)), None);
    assert_eq!(decode_observation_cursor_ndjson("[1,2,3]"), None);
}

#[test]
fn observation_cursor_text_reads_the_last_nonblank_line() {
    let first = ObservationCursor { source_id: 9, last_sequence: 1, last_observed_hash: 11 };
    let second = ObservationCursor { source_id: 9, last_sequence: 2, last_observed_hash: 22 };
    let text = format!(
        "{}{}\n  \n",
        encode_observation_cursor_ndjson(first),
        encode_observation_cursor_ndjson(second)
    );
    assert_eq!(observation_cursor_from_text(&text), Ok(Some(second)));
    assert_eq!(observation_cursor_from_text(" \n\n"), Ok(None));
    assert_eq!(
        observation_cursor_from_text("[1,2]\n"),
        Err(ObservationCursorError::InvalidCursor)
    );
}

#[test]
fn observation_record_decision_follows_validity() {
    let frame =
        ObservationFrame::from_payload(ObservationFrameKind::Heartbeat, 3, 1, 5, b"ping");
    let record = frame.record();
    assert_eq!(record.observed_hash, frame.observed_hash());
    assert_eq!(record.decision(), ObservationDecision::Accepted);
    assert!(record.submission().passed);
    let missing = ObservationRecord::new(3, 1, 0, 5);
    assert_eq!(missing.decision(), ObservationDecision::Rejected);
    assert!(!missing.submission().passed);

    let mut cursor = ObservationCursor::new(3);
    let ingested = cursor.ingest(&frame);
    assert_eq!(ingested, record);
    assert_eq!(cursor.last_sequence, 1);
    let again = cursor.ingest(&frame);
    assert_eq!(again.observed_hash, 0);
    assert_eq!(cursor.last_sequence, 1);
}
