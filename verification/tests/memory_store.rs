use canon_agent::capability::memory::store::{
    aggregate_index_hash, aggregate_memory_hash, MemoryFact, MemoryIndex,
};

#[test]
fn memory_lookup_receipt_binds_limit_index_and_result() {
    let mut index = MemoryIndex::default();
    assert!(index.insert(MemoryFact::new(7, 70, 2, 2)));
    assert!(index.insert(MemoryFact::new(7, 90, 5, 1)));
    assert!(index.insert(MemoryFact::new(8, 80, 9, 3)));

    let (lookup, receipt) = index.lookup_with_receipt(7, 1);

    assert_eq!(lookup.matches, vec![MemoryFact::new(7, 90, 5, 1)]);
    assert_eq!(receipt.requested_limit, 1);
    assert_eq!(receipt.returned_count, 1);
    assert_eq!(receipt.index_fingerprint, index.fingerprint());
    assert!(receipt.is_valid_for(&lookup));
}

#[test]
fn memory_lookup_receipt_rejects_tampered_result() {
    let mut index = MemoryIndex::default();
    assert!(index.insert(MemoryFact::new(11, 110, 4, 1)));
    assert!(index.insert(MemoryFact::new(11, 111, 3, 2)));

    let (mut lookup, receipt) = index.lookup_with_receipt(11, 2);
    lookup.matches.pop();

    assert!(!receipt.is_valid_for(&lookup));
}

#[test]
fn memory_fingerprint_changes_when_index_changes() {
    let mut index = MemoryIndex::default();
    assert!(index.insert(MemoryFact::new(5, 50, 1, 1)));
    let before = index.fingerprint();
    assert!(index.insert(MemoryFact::new(5, 51, 1, 2)));

    assert_ne!(before, index.fingerprint());
}

#[test]
fn memory_hash_fold_helper_preserves_lookup_and_index_boundaries() {
    let facts = vec![MemoryFact::new(7, 70, 2, 2), MemoryFact::new(7, 90, 5, 1)];
    let lookup_aggregate = aggregate_memory_hash(7, &facts);
    let index_fingerprint = aggregate_index_hash(&facts);

    assert_ne!(lookup_aggregate, 0);
    assert_ne!(index_fingerprint, 0);
    assert_ne!(lookup_aggregate, index_fingerprint);

    assert_ne!(aggregate_memory_hash(8, &facts), lookup_aggregate);
    assert_eq!(aggregate_index_hash(&facts), index_fingerprint);

    for changed in [
        vec![MemoryFact::new(8, 70, 2, 2), facts[1]],
        vec![MemoryFact::new(7, 71, 2, 2), facts[1]],
        vec![MemoryFact::new(7, 70, 3, 2), facts[1]],
        vec![MemoryFact::new(7, 70, 2, 3), facts[1]],
    ] {
        assert_ne!(aggregate_memory_hash(7, &changed), lookup_aggregate);
        assert_ne!(aggregate_index_hash(&changed), index_fingerprint);
    }

    let reversed = vec![facts[1], facts[0]];
    assert_ne!(aggregate_memory_hash(7, &reversed), lookup_aggregate);
    assert_ne!(aggregate_index_hash(&reversed), index_fingerprint);

    let mut inserted_forward = MemoryIndex::default();
    assert!(inserted_forward.insert(facts[0]));
    assert!(inserted_forward.insert(facts[1]));

    let mut inserted_reverse = MemoryIndex::default();
    assert!(inserted_reverse.insert(facts[1]));
    assert!(inserted_reverse.insert(facts[0]));

    assert_eq!(inserted_forward.facts(), inserted_reverse.facts());
    assert_eq!(inserted_forward.fingerprint(), inserted_reverse.fingerprint());

    let (lookup, receipt) = inserted_forward.lookup_with_receipt(7, 2);
    assert_eq!(lookup.aggregate_hash, aggregate_memory_hash(7, &lookup.matches));
    assert_eq!(receipt.aggregate_hash, lookup.aggregate_hash);
    assert_eq!(receipt.index_fingerprint, inserted_forward.fingerprint());
    assert_eq!(receipt.index_fingerprint, aggregate_index_hash(inserted_forward.facts()));
    assert!(receipt.is_valid_for(&lookup));
}

#[test]
fn insertion_order_does_not_change_the_index() {
    let facts = [
        MemoryFact::new(7, 70, 2, 2),
        MemoryFact::new(7, 90, 5, 1),
        MemoryFact::new(8, 80, 9, 3),
        MemoryFact::new(7, 71, 2, 4),
    ];
    let mut forward = MemoryIndex::new();
    for fact in facts {
        assert!(forward.insert(fact));
    }
    let mut backward = MemoryIndex::new();
    for fact in facts.iter().rev() {
        assert!(backward.insert(*fact));
    }
    assert_eq!(forward.facts(), backward.facts());
    assert_eq!(forward.fingerprint(), backward.fingerprint());
}
