//! Training artifact row schemas for the learning layer.
//!
//! Three append-only record families, all hash-linked:
//!
//! * `SymbolMutationRecord`       — which symbols were touched by a tool edit
//! * `ArchDecisionProposedRecord` / `ArchDecisionOutcomeRecord` — paired arch
//!   decision records joined by `decision_id = hash(def_path + ts + candidate_id)`
//! * `TaskSymbolIndexRecord`      — all symbols touched during one completed task
//!
//! A record's `record_hash` folds its fields with the kernel's mixing step;
//! strings enter the fold through their UTF-8 bytes. A confidence or a cost
//! that is a 32-bit float is carried here by its IEEE-754 bit pattern, which
//! is exactly what the hash reads of it.
use vstd::prelude::*;
use vstd::utf8::encode_utf8;
use crate::capability::observation::record::{mix_bytes, spec_byte_fold};
use crate::kernel::{mix, nonzero, nz, spec_mix};
use crate::text::owned;

verus! {

pub const SYMBOL_MUTATION_SCHEMA: &'static str = "canon.learning.symbol_mutation.v1";

pub const ARCH_DECISION_PROPOSED_SCHEMA: &'static str = "canon.learning.arch_decision_proposed.v1";

pub const ARCH_DECISION_OUTCOME_SCHEMA: &'static str = "canon.learning.arch_decision_outcome.v1";

pub const TASK_SYMBOL_INDEX_SCHEMA: &'static str = "canon.learning.task_symbol_index.v1";

#[derive(Clone, Copy, Debug, PartialEq, Eq, Structural)]
pub enum LearningArtifactKind {
    SymbolMutation,
    ArchDecisionProposed,
    ArchDecisionOutcome,
    TaskSymbolIndex,
}

impl LearningArtifactKind {
    pub open spec fn spec_code(self) -> u8 {
        match self {
            LearningArtifactKind::SymbolMutation => 1,
            LearningArtifactKind::ArchDecisionProposed => 2,
            LearningArtifactKind::ArchDecisionOutcome => 3,
            LearningArtifactKind::TaskSymbolIndex => 4,
        }
    }

    /// The byte that tags the family on disk.
    pub fn code(self) -> (r: u8)
        ensures
            r == self.spec_code(),
    {
        match self {
            LearningArtifactKind::SymbolMutation => 1,
            LearningArtifactKind::ArchDecisionProposed => 2,
            LearningArtifactKind::ArchDecisionOutcome => 3,
            LearningArtifactKind::TaskSymbolIndex => 4,
        }
    }
}

// ── String hashing ───────────────────────────────────────────────────────────

pub const ARTIFACT_STRING_SEED: u64 = 0x4c52_4e48_4153_4801u64;

/// The hash of a string given by its UTF-8 bytes: the length, then every
/// byte, folded into the seed; never zero.
pub open spec fn spec_artifact_bytes_hash(bytes: Seq<u8>) -> u64 {
    nz(spec_byte_fold(spec_mix(ARTIFACT_STRING_SEED, bytes.len() as u64), bytes))
}

/// The hash of a string's text.
pub open spec fn spec_artifact_string_hash(s: Seq<char>) -> u64 {
    spec_artifact_bytes_hash(encode_utf8(s))
}

pub fn artifact_string_hash(value: &str) -> (r: u64)
    ensures
        r == spec_artifact_string_hash(value@),
        r != 0,
{
    let bytes = value.as_bytes();
    let h = mix(ARTIFACT_STRING_SEED, bytes.len() as u64);
    assert(bytes@.subrange(0, bytes@.len() as int) =~= bytes@);
    nonzero(mix_bytes(h, bytes, 0, bytes.len()))
}

/// Folds the hash of each string, in order, into `h`.
pub open spec fn fold_string_hashes(h: u64, items: Seq<String>) -> u64
    decreases items.len(),
{
    if items.len() == 0 {
        h
    } else {
        spec_mix(fold_string_hashes(h, items.drop_last()), spec_artifact_string_hash(items.last()@))
    }
}

fn mix_strings(h: u64, items: &Vec<String>) -> (r: u64)
    ensures
        r == fold_string_hashes(h, items@),
{
    let mut acc = h;
    let mut i: usize = 0;
    while i < items.len()
        invariant
            i <= items@.len(),
            acc == fold_string_hashes(h, items@.take(i as int)),
        decreases items@.len() - i,
    {
        assert(items@.take(i as int + 1).drop_last() =~= items@.take(i as int));
        acc = mix(acc, artifact_string_hash(items[i].as_str()));
        i = i + 1;
    }
    assert(items@.take(i as int) =~= items@);
    acc
}

pub open spec fn bool_word(b: bool) -> u64 {
    if b {
        1
    } else {
        0
    }
}

// ── Symbol mutation ──────────────────────────────────────────────────────────

#[derive(Clone, Debug)]
pub struct SymbolMutationRecord {
    pub schema: &'static str,
    pub ts: u64,
    pub cycle: u64,
    pub task_node_hash: u64,
    pub task_title_hash: u64,
    pub file: String,
    pub def_paths: Vec<String>,
    pub edit_succeeded: bool,
    pub exit_status: u64,
    pub receipt_hash: u64,
    pub record_hash: u64,
}

pub const SYMBOL_MUTATION_SEED: u64 = 0x534d_5554_4154_4e01u64;

impl SymbolMutationRecord {
    /// The hash the record's fields determine.
    pub open spec fn spec_hash(self) -> u64 {
        let h = spec_mix(
            spec_mix(
                spec_mix(spec_mix(SYMBOL_MUTATION_SEED, self.ts), self.cycle),
                self.task_node_hash,
            ),
            self.task_title_hash,
        );
        let h = spec_mix(h, spec_artifact_string_hash(self.file@));
        let h = fold_string_hashes(h, self.def_paths@);
        nz(
            spec_mix(
                spec_mix(spec_mix(h, bool_word(self.edit_succeeded)), self.exit_status),
                self.receipt_hash,
            ),
        )
    }

    pub open spec fn spec_is_valid(self) -> bool {
        self.file@.len() > 0 && self.record_hash != 0 && self.record_hash == self.spec_hash()
    }

    /// A record with the given fields, sealed with its hash.
    pub fn new(
        ts: u64,
        cycle: u64,
        task_node_hash: u64,
        task_title_hash: u64,
        file: String,
        def_paths: Vec<String>,
        edit_succeeded: bool,
        exit_status: u64,
        receipt_hash: u64,
    ) -> (r: Self)
        ensures
            r.schema@ == SYMBOL_MUTATION_SCHEMA@,
            r.ts == ts,
            r.cycle == cycle,
            r.task_node_hash == task_node_hash,
            r.task_title_hash == task_title_hash,
            r.file@ == file@,
            r.def_paths@ == def_paths@,
            r.edit_succeeded == edit_succeeded,
            r.exit_status == exit_status,
            r.receipt_hash == receipt_hash,
            r.record_hash == r.spec_hash(),
            r.spec_is_valid() <==> file@.len() > 0,
    {
        let mut r = SymbolMutationRecord {
            schema: SYMBOL_MUTATION_SCHEMA,
            ts,
            cycle,
            task_node_hash,
            task_title_hash,
            file,
            def_paths,
            edit_succeeded,
            exit_status,
            receipt_hash,
            record_hash: 0,
        };
        r.record_hash = r.compute_hash();
        r
    }

    pub fn compute_hash(&self) -> (r: u64)
        ensures
            r == self.spec_hash(),
            r != 0,
    {
        let mut h = SYMBOL_MUTATION_SEED;
        h = mix(h, self.ts);
        h = mix(h, self.cycle);
        h = mix(h, self.task_node_hash);
        h = mix(h, self.task_title_hash);
        h = mix(h, artifact_string_hash(self.file.as_str()));
        h = mix_strings(h, &self.def_paths);
        h = mix(h, if self.edit_succeeded { 1u64 } else { 0u64 });
        h = mix(h, self.exit_status);
        h = mix(h, self.receipt_hash);
        nonzero(h)
    }

    pub fn is_valid(&self) -> (r: bool)
        ensures
            r == self.spec_is_valid(),
    {
        self.file.as_str().unicode_len() > 0 && self.record_hash != 0 && self.record_hash
            == self.compute_hash()
    }
}

// ── Refactor cost (embedded in arch decision proposed) ────────────────────────

/// The cost estimate of a proposed move. `api_churn_risk_bits` and
/// `score_bits` are the bit patterns of 32-bit floats.
#[derive(Clone, Copy, Debug, PartialEq, Eq, Structural)]
pub struct RefactorCost {
    pub fan_in: u32,
    pub fan_out: u32,
    pub dependence_penalty: u32,
    pub api_churn_risk_bits: u32,
    pub score_bits: u32,
}

// ── Architectural decision: proposed ─────────────────────────────────────────

/// A proposed architectural move. `confidence_bits` is the bit pattern of
/// the 32-bit float confidence.
#[derive(Clone, Debug)]
pub struct ArchDecisionProposedRecord {
    pub schema: &'static str,
    pub ts: u64,
    pub decision_id: u64,
    pub candidate_id: u64,
    pub def_path: String,
    pub symbol: String,
    pub from_layer: String,
    pub to_layer: String,
    pub confidence_bits: u32,
    pub forbidden_words: Vec<String>,
    pub refactor_cost: RefactorCost,
    pub record_hash: u64,
}

pub const ARCH_PROPOSED_SEED: u64 = 0x4152_4348_5052_4f01u64;

pub const DECISION_ID_SEED: u64 = 0x4445_4349_4449_4401u64;

/// `decision_id = hash(def_path + ts + candidate_id)`; never zero.
pub open spec fn spec_decision_id(def_path: Seq<char>, ts: u64, candidate_id: u64) -> u64 {
    nz(
        spec_mix(
            spec_mix(spec_mix(DECISION_ID_SEED, spec_artifact_string_hash(def_path)), ts),
            candidate_id,
        ),
    )
}

/// `decision_id = hash(def_path + ts + candidate_id)` — joins proposed and outcome.
pub fn decision_id(def_path: &str, ts: u64, candidate_id: u64) -> (r: u64)
    ensures
        r == spec_decision_id(def_path@, ts, candidate_id),
        r != 0,
{
    let mut h = DECISION_ID_SEED;
    h = mix(h, artifact_string_hash(def_path));
    h = mix(h, ts);
    h = mix(h, candidate_id);
    nonzero(h)
}

impl ArchDecisionProposedRecord {
    pub open spec fn spec_hash(self) -> u64 {
        let h = spec_mix(
            spec_mix(spec_mix(ARCH_PROPOSED_SEED, self.ts), self.decision_id),
            self.candidate_id,
        );
        let h = spec_mix(h, spec_artifact_string_hash(self.def_path@));
        let h = spec_mix(h, spec_artifact_string_hash(self.from_layer@));
        let h = spec_mix(h, spec_artifact_string_hash(self.to_layer@));
        nz(spec_mix(h, self.confidence_bits as u64))
    }

    pub open spec fn spec_is_valid(self) -> bool {
        &&& self.decision_id != 0
        &&& self.def_path@.len() > 0
        &&& self.from_layer@.len() > 0
        &&& self.to_layer@.len() > 0
        &&& self.record_hash != 0
        &&& self.record_hash == self.spec_hash()
    }

    /// A proposal with its decision id and hash.
    pub fn new(
        ts: u64,
        candidate_id: u64,
        def_path: String,
        symbol: String,
        from_layer: String,
        to_layer: String,
        confidence_bits: u32,
        forbidden_words: Vec<String>,
        refactor_cost: RefactorCost,
    ) -> (r: Self)
        ensures
            r.schema@ == ARCH_DECISION_PROPOSED_SCHEMA@,
            r.ts == ts,
            r.decision_id == spec_decision_id(def_path@, ts, candidate_id),
            r.candidate_id == candidate_id,
            r.def_path@ == def_path@,
            r.symbol@ == symbol@,
            r.from_layer@ == from_layer@,
            r.to_layer@ == to_layer@,
            r.confidence_bits == confidence_bits,
            r.forbidden_words@ == forbidden_words@,
            r.refactor_cost == refactor_cost,
            r.record_hash == r.spec_hash(),
            r.spec_is_valid() <==> (def_path@.len() > 0 && from_layer@.len() > 0
                && to_layer@.len() > 0),
    {
        let did = decision_id(def_path.as_str(), ts, candidate_id);
        let mut r = ArchDecisionProposedRecord {
            schema: ARCH_DECISION_PROPOSED_SCHEMA,
            ts,
            decision_id: did,
            candidate_id,
            def_path,
            symbol,
            from_layer,
            to_layer,
            confidence_bits,
            forbidden_words,
            refactor_cost,
            record_hash: 0,
        };
        r.record_hash = r.compute_hash();
        r
    }

    pub fn compute_hash(&self) -> (r: u64)
        ensures
            r == self.spec_hash(),
            r != 0,
    {
        let mut h = ARCH_PROPOSED_SEED;
        h = mix(h, self.ts);
        h = mix(h, self.decision_id);
        h = mix(h, self.candidate_id);
        h = mix(h, artifact_string_hash(self.def_path.as_str()));
        h = mix(h, artifact_string_hash(self.from_layer.as_str()));
        h = mix(h, artifact_string_hash(self.to_layer.as_str()));
        h = mix(h, self.confidence_bits as u64);
        nonzero(h)
    }

    pub fn is_valid(&self) -> (r: bool)
        ensures
            r == self.spec_is_valid(),
    {
        self.decision_id != 0 && self.def_path.as_str().unicode_len() > 0
            && self.from_layer.as_str().unicode_len() > 0 && self.to_layer.as_str().unicode_len()
            > 0 && self.record_hash != 0 && self.record_hash == self.compute_hash()
    }
}

// ── Architectural decision: outcome ──────────────────────────────────────────

#[derive(Clone, Copy, Debug, PartialEq, Eq, Structural)]
pub enum ArchDecisionOutcome {
    Succeeded,
    Reverted,
    Failed,
}

impl ArchDecisionOutcome {
    pub open spec fn spec_as_str(self) -> Seq<char> {
        match self {
            ArchDecisionOutcome::Succeeded => "succeeded"@,
            ArchDecisionOutcome::Reverted => "reverted"@,
            ArchDecisionOutcome::Failed => "failed"@,
        }
    }

    pub fn as_str(&self) -> (r: &'static str)
        ensures
            r@ == self.spec_as_str(),
    {
        match self {
            ArchDecisionOutcome::Succeeded => "succeeded",
            ArchDecisionOutcome::Reverted => "reverted",
            ArchDecisionOutcome::Failed => "failed",
        }
    }
}

#[derive(Clone, Debug)]
pub struct ArchDecisionOutcomeRecord {
    pub schema: &'static str,
    pub ts: u64,
    pub decision_id: u64,
    pub outcome: String,
    pub outcome_receipt_hash: u64,
    pub record_hash: u64,
}

pub const ARCH_OUTCOME_SEED: u64 = 0x4152_4348_4f55_5401u64;

impl ArchDecisionOutcomeRecord {
    pub open spec fn spec_hash(self) -> u64 {
        nz(
            spec_mix(
                spec_mix(
                    spec_mix(spec_mix(ARCH_OUTCOME_SEED, self.ts), self.decision_id),
                    spec_artifact_string_hash(self.outcome@),
                ),
                self.outcome_receipt_hash,
            ),
        )
    }

    pub open spec fn spec_is_valid(self) -> bool {
        &&& self.decision_id != 0
        &&& self.outcome@.len() > 0
        &&& self.record_hash != 0
        &&& self.record_hash == self.spec_hash()
    }

    /// The outcome of a decision, sealed with its hash.
    pub fn new(ts: u64, decision_id: u64, outcome: ArchDecisionOutcome, outcome_receipt_hash: u64) -> (r: Self)
        ensures
            r.schema@ == ARCH_DECISION_OUTCOME_SCHEMA@,
            r.ts == ts,
            r.decision_id == decision_id,
            r.outcome@ == outcome.spec_as_str(),
            r.outcome_receipt_hash == outcome_receipt_hash,
            r.record_hash == r.spec_hash(),
            r.spec_is_valid() <==> decision_id != 0,
    {
        proof {
            reveal_strlit("succeeded");
            reveal_strlit("reverted");
            reveal_strlit("failed");
        }
        let mut r = ArchDecisionOutcomeRecord {
            schema: ARCH_DECISION_OUTCOME_SCHEMA,
            ts,
            decision_id,
            outcome: owned(outcome.as_str()),
            outcome_receipt_hash,
            record_hash: 0,
        };
        r.record_hash = r.compute_hash();
        r
    }

    pub fn compute_hash(&self) -> (r: u64)
        ensures
            r == self.spec_hash(),
            r != 0,
    {
        let mut h = ARCH_OUTCOME_SEED;
        h = mix(h, self.ts);
        h = mix(h, self.decision_id);
        h = mix(h, artifact_string_hash(self.outcome.as_str()));
        h = mix(h, self.outcome_receipt_hash);
        nonzero(h)
    }

    pub fn is_valid(&self) -> (r: bool)
        ensures
            r == self.spec_is_valid(),
    {
        self.decision_id != 0 && self.outcome.as_str().unicode_len() > 0 && self.record_hash != 0
            && self.record_hash == self.compute_hash()
    }
}

// ── Task symbol index ─────────────────────────────────────────────────────────

#[derive(Clone, Debug)]
pub struct TouchedSymbol {
    pub def_path: String,
    pub layer: String,
    pub mutation_count: u32,
}

#[derive(Clone, Debug)]
pub struct TaskSymbolIndexRecord {
    pub schema: &'static str,
    pub ts: u64,
    pub cycle: u64,
    pub task_node_hash: u64,
    pub task_title: String,
    pub task_status: String,
    pub symbols_touched: Vec<TouchedSymbol>,
    pub files_touched: Vec<String>,
    pub tool_sequence: Vec<String>,
    pub record_hash: u64,
}

pub const TASK_SYMBOL_INDEX_SEED: u64 = 0x5441_534b_5359_4d01u64;

/// Folds each symbol's path hash and mutation count, in order, into `h`.
pub open spec fn fold_symbols(h: u64, symbols: Seq<TouchedSymbol>) -> u64
    decreases symbols.len(),
{
    if symbols.len() == 0 {
        h
    } else {
        spec_mix(
            spec_mix(
                fold_symbols(h, symbols.drop_last()),
                spec_artifact_string_hash(symbols.last().def_path@),
            ),
            symbols.last().mutation_count as u64,
        )
    }
}

fn mix_symbols(h: u64, symbols: &Vec<TouchedSymbol>) -> (r: u64)
    ensures
        r == fold_symbols(h, symbols@),
{
    let mut acc = h;
    let mut i: usize = 0;
    while i < symbols.len()
        invariant
            i <= symbols@.len(),
            acc == fold_symbols(h, symbols@.take(i as int)),
        decreases symbols@.len() - i,
    {
        assert(symbols@.take(i as int + 1).drop_last() =~= symbols@.take(i as int));
        acc = mix(acc, artifact_string_hash(symbols[i].def_path.as_str()));
        acc = mix(acc, symbols[i].mutation_count as u64);
        i = i + 1;
    }
    assert(symbols@.take(i as int) =~= symbols@);
    acc
}

impl TaskSymbolIndexRecord {
    pub open spec fn spec_hash(self) -> u64 {
        let h = spec_mix(
            spec_mix(spec_mix(TASK_SYMBOL_INDEX_SEED, self.ts), self.cycle),
            self.task_node_hash,
        );
        let h = spec_mix(h, spec_artifact_string_hash(self.task_title@));
        let h = spec_mix(h, spec_artifact_string_hash(self.task_status@));
        nz(fold_string_hashes(fold_symbols(h, self.symbols_touched@), self.files_touched@))
    }

    pub open spec fn spec_is_valid(self) -> bool {
        &&& self.task_node_hash != 0
        &&& self.task_title@.len() > 0
        &&& self.record_hash != 0
        &&& self.record_hash == self.spec_hash()
    }

    /// The index of one completed task, sealed with its hash.
    pub fn new(
        ts: u64,
        cycle: u64,
        task_node_hash: u64,
        task_title: String,
        task_status: String,
        symbols_touched: Vec<TouchedSymbol>,
        files_touched: Vec<String>,
        tool_sequence: Vec<String>,
    ) -> (r: Self)
        ensures
            r.schema@ == TASK_SYMBOL_INDEX_SCHEMA@,
            r.ts == ts,
            r.cycle == cycle,
            r.task_node_hash == task_node_hash,
            r.task_title@ == task_title@,
            r.task_status@ == task_status@,
            r.symbols_touched@ == symbols_touched@,
            r.files_touched@ == files_touched@,
            r.tool_sequence@ == tool_sequence@,
            r.record_hash == r.spec_hash(),
            r.spec_is_valid() <==> (task_node_hash != 0 && task_title@.len() > 0),
    {
        let mut r = TaskSymbolIndexRecord {
            schema: TASK_SYMBOL_INDEX_SCHEMA,
            ts,
            cycle,
            task_node_hash,
            task_title,
            task_status,
            symbols_touched,
            files_touched,
            tool_sequence,
            record_hash: 0,
        };
        r.record_hash = r.compute_hash();
        r
    }

    pub fn compute_hash(&self) -> (r: u64)
        ensures
            r == self.spec_hash(),
            r != 0,
    {
        let mut h = TASK_SYMBOL_INDEX_SEED;
        h = mix(h, self.ts);
        h = mix(h, self.cycle);
        h = mix(h, self.task_node_hash);
        h = mix(h, artifact_string_hash(self.task_title.as_str()));
        h = mix(h, artifact_string_hash(self.task_status.as_str()));
        h = mix_symbols(h, &self.symbols_touched);
        h = mix_strings(h, &self.files_touched);
        nonzero(h)
    }

    pub fn is_valid(&self) -> (r: bool)
        ensures
            r == self.spec_is_valid(),
    {
        self.task_node_hash != 0 && self.task_title.as_str().unicode_len() > 0 && self.record_hash
            != 0 && self.record_hash == self.compute_hash()
    }
}

} // verus!
