use canon_agent::capability::policy::store::{
    decode_policy_entry_ndjson, encode_policy_entry_ndjson, PolicyEntry, PolicyStore,
    PolicyStoreError, POLICY_FEEDBACK_HASH, POLICY_PROMOTION_SOURCE_SEQ,
};

fn store_with_feedback() -> PolicyStore {
    let mut store = PolicyStore::default();
    store
        .try_append(PolicyEntry {
            version: 1,
            key: POLICY_FEEDBACK_HASH,
            value: 0xfeed,
        })
        .expect("test setup should succeed");
    store
}

#[test]
fn policy_lookup_receipt_binds_feedback_hit() {
    let store = store_with_feedback();
    let (entry, receipt) = store.feedback_lookup_with_receipt();

    assert_eq!(entry.expect("test value should be present").value, 0xfeed);
    assert_eq!(receipt.found_version, 1);
    assert_eq!(receipt.found_value, 0xfeed);
    assert_eq!(receipt.policy_store_hash, store.fingerprint());
    assert!(receipt.is_hit());
    assert!(receipt.is_valid_for(&store, POLICY_FEEDBACK_HASH));
}

#[test]
fn policy_lookup_receipt_records_deterministic_miss() {
    let store = PolicyStore::default();
    let (entry, receipt) = store.feedback_lookup_with_receipt();

    assert!(entry.is_none());
    assert_eq!(receipt.found_version, 0);
    assert_eq!(receipt.found_value, 0);
    assert!(receipt.is_valid());
    assert!(!receipt.is_hit());
    assert!(receipt.is_valid_for(&store, POLICY_FEEDBACK_HASH));
}

#[test]
fn policy_lookup_receipt_rejects_tampered_store_or_value() {
    let store = store_with_feedback();
    let (_, mut receipt) = store.feedback_lookup_with_receipt();
    receipt.found_value ^= 1;

    assert!(!receipt.is_valid());
    assert!(!receipt.is_valid_for(&store, POLICY_FEEDBACK_HASH));

    let mut changed_store = store.clone();
    changed_store
        .try_append(PolicyEntry {
            version: 2,
            key: POLICY_PROMOTION_SOURCE_SEQ,
            value: 7,
        })
        .expect("test setup should succeed");
    let (_, original_receipt) = store.feedback_lookup_with_receipt();
    assert!(!original_receipt.is_valid_for(&changed_store, POLICY_FEEDBACK_HASH));
}

#[test]
fn policy_entry_line_round_trips() {
    let entry = PolicyEntry {
        version: 3,
        key: POLICY_FEEDBACK_HASH,
        value: 0xfeed,
    };
    let line = encode_policy_entry_ndjson(&entry).expect("known key encodes");
    let decoded = decode_policy_entry_ndjson(&line).expect("line decodes");
    assert_eq!(decoded, entry);
    let unknown = PolicyEntry {
        version: 1,
        key: "not.a.key",
        value: 1,
    };
    assert_eq!(
        encode_policy_entry_ndjson(&unknown),
        Err(PolicyStoreError::UnknownPolicyKey)
    );
    assert_eq!(
        decode_policy_entry_ndjson("[1,2]"),
        Err(PolicyStoreError::InvalidPolicyRecord)
    );
}
