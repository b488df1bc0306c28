use canon_agent::capability::eval::record::{
    decode_eval_scorecard_receipt_ndjson, dimension_order_hash, dimension_score_hash,
    encode_eval_scorecard_receipt_ndjson, eval_payload_hash, EvalDecision, EvalDimension,
    EvalRecord,
};
use canon_agent::kernel::GateId;

fn passing_record() -> EvalRecord {
    EvalRecord {
        score: 91,
        threshold_used: 80,
        dimensions: vec![
            EvalDimension { id: "correctness", score: 90, threshold: 80 },
            EvalDimension { id: "transparency", score: 92, threshold: 80 },
        ],
    }
}

#[test]
fn scorecard_receipt_binds_eval_payload_and_verdict() {
    let record = passing_record();
    let receipt = record.scorecard_receipt();

    assert!(receipt.is_self_consistent());
    assert!(receipt.is_valid_for(&record));
    assert_eq!(receipt.verdict, EvalDecision::Pass);
    assert_eq!(receipt.dimension_count, 2);
    assert_eq!(receipt.min_dimension_score, 90);
    assert_eq!(receipt.max_dimension_score, 92);
    assert_eq!(receipt.dimension_threshold_floor, 80);
    assert_eq!(receipt.payload_hash, eval_payload_hash(&record));
    assert_eq!(receipt.submission().gate, GateId::Eval);
    assert!(receipt.submission().passed);
}

#[test]
fn scorecard_receipt_rejects_tampered_dimension_order() {
    let record = passing_record();
    let receipt = record.scorecard_receipt();
    let reordered = EvalRecord {
        dimensions: vec![record.dimensions[1], record.dimensions[0]],
        ..record
    };

    assert_ne!(
        receipt.dimension_order_hash,
        reordered.scorecard_receipt().dimension_order_hash
    );
    assert!(!receipt.is_valid_for(&reordered));
}

#[test]
fn eval_dimension_hash_domains_remain_distinct() {
    let record = passing_record();
    let reordered_dimensions = vec![record.dimensions[1], record.dimensions[0]];
    let score_changed_dimensions = vec![
        EvalDimension { score: record.dimensions[0].score + 1, ..record.dimensions[0] },
        record.dimensions[1],
    ];
    let threshold_changed_dimensions = vec![
        record.dimensions[0],
        EvalDimension { threshold: record.dimensions[1].threshold + 1, ..record.dimensions[1] },
    ];

    assert_ne!(
        dimension_order_hash(&record.dimensions),
        dimension_order_hash(&reordered_dimensions)
    );
    assert_eq!(
        dimension_order_hash(&record.dimensions),
        dimension_order_hash(&score_changed_dimensions)
    );
    assert_eq!(
        dimension_order_hash(&record.dimensions),
        dimension_order_hash(&threshold_changed_dimensions)
    );
    assert_ne!(
        dimension_score_hash(&record.dimensions),
        dimension_score_hash(&score_changed_dimensions)
    );
    assert_ne!(
        dimension_score_hash(&record.dimensions),
        dimension_score_hash(&threshold_changed_dimensions)
    );

    let score_changed_record = EvalRecord { score: record.score + 1, ..record.clone() };
    let threshold_changed_record =
        EvalRecord { threshold_used: record.threshold_used + 1, ..record.clone() };

    assert_ne!(eval_payload_hash(&record), eval_payload_hash(&score_changed_record));
    assert_ne!(eval_payload_hash(&record), eval_payload_hash(&threshold_changed_record));
}

#[test]
fn scorecard_receipt_rejects_tampered_hash() {
    let record = passing_record();
    let mut receipt = record.scorecard_receipt();
    receipt.score = receipt.score.saturating_add(1);

    assert!(!receipt.is_self_consistent());
    assert!(!receipt.is_valid_for(&record));
}

#[test]
fn scorecard_receipt_fails_empty_dimension_record() {
    let record = EvalRecord { score: 100, threshold_used: 80, dimensions: Vec::new() };
    let receipt = record.scorecard_receipt();

    assert_eq!(receipt.verdict, EvalDecision::Fail);
    assert_eq!(receipt.dimension_count, 0);
    assert!(!receipt.is_self_consistent());
    assert!(!receipt.submission().passed);
}

#[test]
fn scorecard_receipt_line_reads_back_as_the_same_receipt() {
    let receipt = passing_record().scorecard_receipt();
    let line = encode_eval_scorecard_receipt_ndjson(receipt);
    assert_eq!(decode_eval_scorecard_receipt_ndjson(&line), Ok(receipt));
    assert!(decode_eval_scorecard_receipt_ndjson("[1,2]").is_err());
}
