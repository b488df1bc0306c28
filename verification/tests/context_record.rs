use canon_agent::capability::context::record::{context_hash, ContextDecision, ContextRecord};
use canon_agent::capability::memory::store::{MemoryFact, MemoryIndex};
use canon_agent::kernel::{GateId, Packet};

fn packet() -> Packet {
    Packet {
        objective_id: 42,
        objective_required_tasks: 3,
        revision: 7,
        ..Packet::empty()
    }
}

#[test]
fn context_record_binds_valid_memory_lookup_receipt() {
    let mut index = MemoryIndex::default();
    assert!(index.insert(MemoryFact::new(42, 700, 9, 1)));
    let (memory, receipt) = index.lookup_with_receipt(42, 4);

    let context = ContextRecord::from_packet_memory_receipt(packet(), 900, &memory, Some(&receipt));

    assert_eq!(context.memory_receipt_hash, receipt.receipt_hash);
    assert_eq!(context.decision(), ContextDecision::Assembled);
    assert!(context.submission().passed);
}

#[test]
fn legacy_context_constructor_remains_deterministic_without_lookup_receipt() {
    let mut index = MemoryIndex::default();
    assert!(index.insert(MemoryFact::new(42, 700, 9, 1)));
    let (memory, receipt) = index.lookup_with_receipt(42, 4);

    let legacy = ContextRecord::from_packet_memory(packet(), 900, &memory);
    let receipt_bound =
        ContextRecord::from_packet_memory_receipt(packet(), 900, &memory, Some(&receipt));

    assert_ne!(legacy.memory_receipt_hash, 0);
    assert_ne!(legacy.memory_receipt_hash, receipt_bound.memory_receipt_hash);
    assert_eq!(legacy.decision(), ContextDecision::Assembled);
    assert!(legacy.submission().passed);
}

#[test]
fn context_record_rejects_tampered_memory_receipt() {
    let mut index = MemoryIndex::default();
    assert!(index.insert(MemoryFact::new(42, 700, 9, 1)));
    let (mut memory, receipt) = index.lookup_with_receipt(42, 4);
    memory.matches.clear();

    let context = ContextRecord::from_packet_memory_receipt(packet(), 900, &memory, Some(&receipt));

    assert_eq!(context.memory_receipt_hash, 0);
    assert_eq!(context.decision(), ContextDecision::Insufficient);
}

#[test]
fn context_record_rejects_hash_tampering() {
    let mut index = MemoryIndex::default();
    assert!(index.insert(MemoryFact::new(42, 700, 9, 1)));
    let (memory, receipt) = index.lookup_with_receipt(42, 4);
    let mut context =
        ContextRecord::from_packet_memory_receipt(packet(), 900, &memory, Some(&receipt));
    context.memory_receipt_hash ^= 1;

    assert!(!context.is_valid());
}

#[test]
fn context_assembly_receipt_binds_analysis_inputs() {
    let mut index = MemoryIndex::default();
    assert!(index.insert(MemoryFact::new(42, 700, 9, 1)));
    let (memory, lookup_receipt) = index.lookup_with_receipt(42, 4);
    let context =
        ContextRecord::from_packet_memory_receipt(packet(), 900, &memory, Some(&lookup_receipt));
    let receipt = context.receipt();

    assert!(receipt.is_self_consistent());
    assert!(receipt.is_valid_for(&context));
    assert_eq!(receipt.verdict, ContextDecision::Assembled);
    assert_eq!(receipt.memory_receipt_hash, lookup_receipt.receipt_hash);
    assert_eq!(receipt.context_hash, context.context_hash);
    assert_eq!(receipt.submission().gate, GateId::Analysis);
    assert!(receipt.submission().passed);
}

#[test]
fn context_assembly_receipt_rejects_tampered_context_hash() {
    let mut index = MemoryIndex::default();
    assert!(index.insert(MemoryFact::new(42, 700, 9, 1)));
    let (memory, lookup_receipt) = index.lookup_with_receipt(42, 4);
    let context =
        ContextRecord::from_packet_memory_receipt(packet(), 900, &memory, Some(&lookup_receipt));
    let mut receipt = context.receipt();
    receipt.context_hash ^= 1;

    assert!(!receipt.is_self_consistent());
    assert!(!receipt.is_valid_for(&context));
    assert!(!receipt.submission().passed);
}

#[test]
fn context_assembly_receipt_records_insufficient_context_without_gate_pass() {
    let context = ContextRecord {
        objective_id: 42,
        objective_required_tasks: 3,
        revision: 7,
        observation_hash: 900,
        memory_aggregate_hash: 700,
        memory_receipt_hash: 0,
        prior_count: 1,
        context_hash: context_hash(packet(), 900, 700, 0, 1),
    };
    let receipt = context.receipt();

    assert_eq!(receipt.verdict, ContextDecision::Insufficient);
    assert!(receipt.is_self_consistent());
    assert!(receipt.is_valid_for(&context));
    assert!(!receipt.submission().passed);
}
