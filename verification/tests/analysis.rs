use canon_agent::capability::analysis::{
    compute_receipt_hash, join_path, parse_artifact_receipt, semantic_counts,
};

fn semantic_lines(nodes: u64, edges: u64, fns: usize) -> Vec<String> {
    let mut lines = vec!["{\"kind\":\"semantic_sentinel\",\"schema_version\":17}".to_string()];
    for i in 0..nodes {
        let node_kind = if (i as usize) < fns { "fn" } else { "struct" };
        lines.push(format!(
            "{{\"kind\":\"symbol_def\",\"def_path\":\"crate::item_{i}\",\"node_kind\":\"{node_kind}\"}}"
        ));
    }
    for i in 0..edges {
        lines.push(format!(
            "{{\"kind\":\"semantic_edge\",\"relation\":\"call\",\"from\":\"crate::item_0\",\"to\":\"crate::item_{i}\"}}"
        ));
    }
    lines
}

#[test]
fn compute_receipt_hash_is_deterministic() {
    let h1 = compute_receipt_hash("ai", 1000, 5000, 700, 1_700_000_000_000);
    let h2 = compute_receipt_hash("ai", 1000, 5000, 700, 1_700_000_000_000);
    assert_eq!(h1, h2);
    let h3 = compute_receipt_hash("ai", 1000, 5000, 701, 1_700_000_000_000);
    assert_ne!(h1, h3);
}

#[test]
fn receipt_hash_is_never_zero() {
    let h = compute_receipt_hash("", 0, 0, 0, 0);
    assert!(h > 0);
}

#[test]
fn artifact_receipt_counts_nodes_edges_and_functions() {
    let lines = semantic_lines(100, 500, 80);
    let receipt =
        parse_artifact_receipt(
            "my_crate",
            "state/rustc/my_crate",
            &[("graph.json", true), ("semantic_index.jsonl", true)],
            &lines,
            42,
        )
        .expect("receipt");
    assert_eq!(receipt.crate_name, "my_crate");
    assert_eq!(receipt.node_count, 100);
    assert_eq!(receipt.edge_count, 500);
    assert_eq!(receipt.intent_count, 80);
    assert_eq!(receipt.receipt_hash, compute_receipt_hash("my_crate", 100, 500, 80, 42));
    assert!(receipt.is_contract_valid(true));
    assert!(!receipt.is_contract_valid(false));
}

#[test]
fn semantic_counts_skip_empty_and_unreadable_lines() {
    let lines = vec![
        String::new(),
        "not json".to_string(),
        "{\"kind\":\"symbol_def\"}".to_string(),
        "{\"kind\":7}".to_string(),
        "{\"kind\":\"semantic_edge\"}".to_string(),
    ];
    assert_eq!(semantic_counts(&lines), (1, 1, 0));
}

#[test]
fn missing_semantic_index_is_named_with_its_path() {
    assert_eq!(
        parse_artifact_receipt(
            "c",
            "dir/",
            &[("graph.json", true), ("semantic_index.jsonl", false), ("other", false)],
            &[],
            0
        ),
        Err("semantic_index.jsonl not found at dir/semantic_index.jsonl".to_string())
    );
    assert_eq!(join_path("a", "b"), "a/b");
    assert_eq!(join_path("", "b"), "b");
}

#[test]
fn receipt_hash_matches_fnv_definition() {
    let mut h: u64 = 0xcbf2_9ce4_8422_2325;
    for b in b"ai" {
        h ^= *b as u64;
        h = h.wrapping_mul(0x0000_0100_0000_01b3);
    }
    h = h.wrapping_add(1).wrapping_mul(0x0000_0100_0000_01b3);
    h = h.wrapping_add(2).wrapping_mul(0x0000_0100_0000_01b3);
    h = h.wrapping_add(3);
    h ^= 4;
    assert_eq!(compute_receipt_hash("ai", 1, 2, 3, 4), h.max(1));
}

#[test]
fn receipt_from_artifacts_fails_on_missing_file() {
    let result = parse_artifact_receipt(
        "missing",
        "/nonexistent/artifacts",
        &[("index.json", false), ("semantic_index.jsonl", false)],
        &[],
        0,
    );
    assert!(result.is_err());
    assert!(result.unwrap_err().contains("index.json not found"));
}
