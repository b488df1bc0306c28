use canon_agent::capability::context::record::ContextRecord;
use canon_agent::capability::memory::store::{MemoryFact, MemoryIndex};
use canon_agent::capability::EvidenceProducer;
use canon_agent::kernel::{Evidence, GateId, Packet};

fn submit<P: EvidenceProducer>(producer: &P) -> canon_agent::kernel::EvidenceSubmission {
    producer.submission()
}

#[test]
fn context_record_produces_its_own_submission() {
    let mut index = MemoryIndex::default();
    assert!(index.insert(MemoryFact::new(42, 700, 9, 1)));
    let (memory, receipt) = index.lookup_with_receipt(42, 4);
    let packet = Packet {
        objective_id: 42,
        objective_required_tasks: 3,
        revision: 7,
        ..Packet::empty()
    };
    let context = ContextRecord::from_packet_memory_receipt(packet, 900, &memory, Some(&receipt));
    let via_trait = submit(&context);
    assert_eq!(via_trait, context.submission());
    assert_eq!(via_trait.gate, GateId::Analysis);
    assert_eq!(via_trait.evidence, Evidence::AnalysisReport);
    assert_eq!(via_trait.payload_hash, context.context_hash);
    assert!(std::ptr::eq(EvidenceProducer::record(&context), &context));
}
