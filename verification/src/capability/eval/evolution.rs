//! Verified evolution candidate ledger: only externally evaluated
//! candidates (sandbox, evaluator verdict, replay validity and proof binding
//! present) can be selected.
use vstd::prelude::*;
use crate::codec::{encode_u64_list, encode_u64_list_exec};
use crate::kernel::{mix, nonzero, nz, spec_mix};

verus! {

pub const EVOLUTION_LEDGER_SCHEMA_VERSION: u64 = 1;

pub const EVOLUTION_LEDGER_RECORD: u64 = 0x4556_4f4c_5645_3031;

#[derive(Clone, Copy, Debug, PartialEq, Eq, Structural)]
pub enum CandidateVerdict {
    Pass,
    Fail,
}

impl CandidateVerdict {
    pub open spec fn spec_as_u64(self) -> u64 {
        match self {
            CandidateVerdict::Pass => 1,
            CandidateVerdict::Fail => 2,
        }
    }

    pub fn as_u64(self) -> (r: u64)
        ensures
            r == self.spec_as_u64(),
    {
        match self {
            CandidateVerdict::Pass => 1,
            CandidateVerdict::Fail => 2,
        }
    }
}

#[derive(Clone, Copy, Debug, PartialEq, Eq, Structural)]
pub struct CandidateReceipt {
    pub schema_version: u64,
    pub generation: u64,
    pub candidate_id: u64,
    pub parent_id: u64,
    pub seed_hash: u64,
    pub patch_hash: u64,
    pub sandbox_hash: u64,
    pub evaluator_hash: u64,
    pub score: u64,
    pub threshold: u64,
    pub verdict: CandidateVerdict,
    pub replay_valid: bool,
    pub proof_hash: u64,
    pub lineage_hash: u64,
}

#[derive(Clone, Copy, Debug, PartialEq, Eq, Structural)]
pub struct CandidateReceiptInput {
    pub generation: u64,
    pub candidate_id: u64,
    pub parent_id: u64,
    pub seed_hash: u64,
    pub patch_hash: u64,
    pub sandbox_hash: u64,
    pub evaluator_hash: u64,
    pub score: u64,
    pub threshold: u64,
    pub verdict: CandidateVerdict,
    pub replay_valid: bool,
    pub proof_hash: u64,
}

#[derive(Clone, Copy, Debug, PartialEq, Eq, Structural)]
pub struct SelectionRecord {
    pub schema_version: u64,
    pub generation: u64,
    pub selected_candidate_id: u64,
    pub selected_score: u64,
    pub selected_proof_hash: u64,
    pub candidate_count: u64,
    pub pass_count: u64,
    pub selection_hash: u64,
}

impl CandidateReceipt {
    pub open spec fn spec_expected_lineage_hash(&self) -> Option<u64> {
        if self.schema_version != EVOLUTION_LEDGER_SCHEMA_VERSION || self.generation == 0
            || self.candidate_id == 0 || self.seed_hash == 0 || self.patch_hash == 0
            || self.sandbox_hash == 0 || self.evaluator_hash == 0 || self.threshold == 0
            || self.proof_hash == 0 {
            None
        } else {
            let h = spec_mix(0x4341_4e44_4c45_4431u64, self.schema_version);
            let h = spec_mix(h, self.generation);
            let h = spec_mix(h, self.candidate_id);
            let h = spec_mix(h, self.parent_id);
            let h = spec_mix(h, self.seed_hash);
            let h = spec_mix(h, self.patch_hash);
            let h = spec_mix(h, self.sandbox_hash);
            let h = spec_mix(h, self.evaluator_hash);
            let h = spec_mix(h, self.score);
            let h = spec_mix(h, self.threshold);
            let h = spec_mix(h, self.verdict.spec_as_u64());
            let h = spec_mix(h, if self.replay_valid {
                1u64
            } else {
                0u64
            });
            let h = spec_mix(h, self.proof_hash);
            Some(nz(h))
        }
    }

    pub fn expected_lineage_hash(&self) -> (r: Option<u64>)
        ensures
            r == self.spec_expected_lineage_hash(),
    {
        if self.schema_version != EVOLUTION_LEDGER_SCHEMA_VERSION || self.generation == 0
            || self.candidate_id == 0 || self.seed_hash == 0 || self.patch_hash == 0
            || self.sandbox_hash == 0 || self.evaluator_hash == 0 || self.threshold == 0
            || self.proof_hash == 0 {
            return None;
        }
        let mut h = mix(0x4341_4e44_4c45_4431u64, self.schema_version);
        h = mix(h, self.generation);
        h = mix(h, self.candidate_id);
        h = mix(h, self.parent_id);
        h = mix(h, self.seed_hash);
        h = mix(h, self.patch_hash);
        h = mix(h, self.sandbox_hash);
        h = mix(h, self.evaluator_hash);
        h = mix(h, self.score);
        h = mix(h, self.threshold);
        h = mix(h, self.verdict.as_u64());
        h = mix(h, if self.replay_valid {
            1u64
        } else {
            0u64
        });
        h = mix(h, self.proof_hash);
        Some(nonzero(h))
    }

    pub open spec fn spec_lineage_or_zero(&self) -> u64 {
        match self.spec_expected_lineage_hash() {
            Some(h) => h,
            None => 0,
        }
    }

    pub open spec fn spec_passed(&self) -> bool {
        &&& self.verdict == CandidateVerdict::Pass
        &&& self.replay_valid
        &&& self.score >= self.threshold
        &&& self.proof_hash != 0
        &&& self.lineage_hash == self.spec_lineage_or_zero()
    }

    pub fn passed(&self) -> (r: bool)
        ensures
            r == self.spec_passed(),
    {
        let expected = match self.expected_lineage_hash() {
            Some(h) => h,
            None => 0,
        };
        self.verdict == CandidateVerdict::Pass && self.replay_valid && self.score >= self.threshold
            && self.proof_hash != 0 && self.lineage_hash == expected
    }

    pub open spec fn spec_is_structurally_valid(&self) -> bool {
        &&& self.schema_version == EVOLUTION_LEDGER_SCHEMA_VERSION
        &&& self.generation != 0
        &&& self.candidate_id != 0
        &&& self.seed_hash != 0
        &&& self.patch_hash != 0
        &&& self.sandbox_hash != 0
        &&& self.evaluator_hash != 0
        &&& self.threshold != 0
        &&& self.proof_hash != 0
        &&& self.lineage_hash != 0
        &&& self.lineage_hash == self.spec_lineage_or_zero()
    }

    pub fn is_structurally_valid(&self) -> (r: bool)
        ensures
            r == self.spec_is_structurally_valid(),
    {
        let expected = match self.expected_lineage_hash() {
            Some(h) => h,
            None => 0,
        };
        self.schema_version == EVOLUTION_LEDGER_SCHEMA_VERSION && self.generation != 0
            && self.candidate_id != 0 && self.seed_hash != 0 && self.patch_hash != 0
            && self.sandbox_hash != 0 && self.evaluator_hash != 0 && self.threshold != 0
            && self.proof_hash != 0 && self.lineage_hash != 0 && self.lineage_hash == expected
    }

    pub open spec fn spec_from_input(input: CandidateReceiptInput) -> CandidateReceipt {
        CandidateReceipt {
            schema_version: EVOLUTION_LEDGER_SCHEMA_VERSION,
            generation: input.generation,
            candidate_id: input.candidate_id,
            parent_id: input.parent_id,
            seed_hash: input.seed_hash,
            patch_hash: input.patch_hash,
            sandbox_hash: input.sandbox_hash,
            evaluator_hash: input.evaluator_hash,
            score: input.score,
            threshold: input.threshold,
            verdict: input.verdict,
            replay_valid: input.replay_valid,
            proof_hash: input.proof_hash,
            lineage_hash: 0,
        }
    }

    /// A receipt with its lineage bound, or `None` when a required field is
    /// zero.
    pub fn new(input: CandidateReceiptInput) -> (r: Option<Self>)
        ensures
            match Self::spec_from_input(input).spec_expected_lineage_hash() {
                Some(h) => r == Some(CandidateReceipt { lineage_hash: h, ..Self::spec_from_input(input) }),
                None => r is None,
            },
            r is Some <==> (input.generation != 0 && input.candidate_id != 0 && input.seed_hash != 0
                && input.patch_hash != 0 && input.sandbox_hash != 0 && input.evaluator_hash != 0
                && input.threshold != 0 && input.proof_hash != 0),
            r matches Some(c) ==> c.spec_is_structurally_valid(),
    {
        let mut receipt = CandidateReceipt {
            schema_version: EVOLUTION_LEDGER_SCHEMA_VERSION,
            generation: input.generation,
            candidate_id: input.candidate_id,
            parent_id: input.parent_id,
            seed_hash: input.seed_hash,
            patch_hash: input.patch_hash,
            sandbox_hash: input.sandbox_hash,
            evaluator_hash: input.evaluator_hash,
            score: input.score,
            threshold: input.threshold,
            verdict: input.verdict,
            replay_valid: input.replay_valid,
            proof_hash: input.proof_hash,
            lineage_hash: 0,
        };
        receipt.lineage_hash = match receipt.expected_lineage_hash() {
            Some(h) => h,
            None => {
                return None;
            },
        };
        if receipt.is_structurally_valid() {
            Some(receipt)
        } else {
            None
        }
    }
}

/// `a` ranks above `b`: higher score, then lower lineage hash, then lower id.
pub open spec fn ranks_above(a: CandidateReceipt, b: CandidateReceipt) -> bool {
    ||| a.score > b.score
    ||| (a.score == b.score && a.lineage_hash < b.lineage_hash)
    ||| (a.score == b.score && a.lineage_hash == b.lineage_hash && a.candidate_id < b.candidate_id)
}

/// Index of the best passing candidate, scanning in order and keeping the
/// current best unless a later one ranks above it.
pub open spec fn spec_best_index(s: Seq<CandidateReceipt>) -> Option<int>
    decreases s.len(),
{
    if s.len() == 0 {
        None
    } else {
        let prev = spec_best_index(s.drop_last());
        if !s.last().spec_passed() {
            prev
        } else {
            match prev {
                None => Some(s.len() - 1),
                Some(i) => if ranks_above(s.last(), s[i]) {
                    Some(s.len() - 1)
                } else {
                    Some(i)
                },
            }
        }
    }
}

pub open spec fn uniform_and_valid(s: Seq<CandidateReceipt>, generation: u64) -> bool {
    forall|i: int|
        0 <= i < s.len() ==> (#[trigger] s[i]).generation == generation
            && s[i].spec_is_structurally_valid()
}

pub open spec fn spec_best_candidate(s: Seq<CandidateReceipt>, generation: u64) -> Option<int> {
    if uniform_and_valid(s, generation) {
        spec_best_index(s)
    } else {
        None
    }
}

/// The best index is a passing candidate that no passing candidate ranks
/// above.
pub proof fn lemma_best_is_maximal(s: Seq<CandidateReceipt>)
    ensures
        match spec_best_index(s) {
            Some(b) => 0 <= b < s.len() && s[b].spec_passed() && forall|k: int|
                0 <= k < s.len() && (#[trigger] s[k]).spec_passed() ==> !ranks_above(s[k], s[b]),
            None => forall|k: int| 0 <= k < s.len() ==> !(#[trigger] s[k]).spec_passed(),
        },
    decreases s.len(),
{
    if s.len() > 0 {
        let t = s.drop_last();
        let n = s.len() - 1;
        lemma_best_is_maximal(t);
        assert forall|k: int| 0 <= k < t.len() implies #[trigger] t[k] == s[k] by {}
        if s.last().spec_passed() {
            match spec_best_index(t) {
                None => {
                    assert forall|k: int| 0 <= k < s.len() && (#[trigger] s[k]).spec_passed() implies !ranks_above(s[k], s[n]) by {
                        if k < n {
                            assert(t[k] == s[k]);
                        }
                    }
                },
                Some(i) => {
                    if ranks_above(s[n], s[i]) {
                        assert forall|k: int| 0 <= k < s.len() && (#[trigger] s[k]).spec_passed() implies !ranks_above(s[k], s[n]) by {
                            if k < n {
                                assert(t[k] == s[k]);
                                assert(!ranks_above(t[k], t[i]));
                            }
                        }
                    } else {
                        assert forall|k: int| 0 <= k < s.len() && (#[trigger] s[k]).spec_passed() implies !ranks_above(s[k], s[i]) by {
                            if k < n {
                                assert(t[k] == s[k]);
                            }
                        }
                    }
                },
            }
        } else {
            match spec_best_index(t) {
                None => {
                    assert forall|k: int| 0 <= k < s.len() implies !(#[trigger] s[k]).spec_passed() by {
                        if k < n {
                            assert(t[k] == s[k]);
                        }
                    }
                },
                Some(i) => {
                    assert forall|k: int| 0 <= k < s.len() && (#[trigger] s[k]).spec_passed() implies !ranks_above(s[k], s[i]) by {
                        if k < n {
                            assert(t[k] == s[k]);
                        }
                    }
                },
            }
        }
    }
}

fn best_candidate(candidates: &[CandidateReceipt], generation: u64) -> (r: Option<usize>)
    ensures
        match spec_best_candidate(candidates@, generation) {
            Some(b) => r == Some(b as usize),
            None => r is None,
        },
{
    let mut i: usize = 0;
    while i < candidates.len()
        invariant
            i <= candidates@.len(),
            forall|k: int|
                0 <= k < i ==> (#[trigger] candidates@[k]).generation == generation
                    && candidates@[k].spec_is_structurally_valid(),
        decreases candidates@.len() - i,
    {
        if candidates[i].generation != generation || !candidates[i].is_structurally_valid() {
            return None;
        }
        i = i + 1;
    }
    let mut best: Option<usize> = None;
    let mut j: usize = 0;
    while j < candidates.len()
        invariant
            j <= candidates@.len(),
            match spec_best_index(candidates@.take(j as int)) {
                Some(b) => best == Some(b as usize),
                None => best is None,
            },
        decreases candidates@.len() - j,
    {
        let ghost t = candidates@.take(j as int + 1);
        assert(t.drop_last() =~= candidates@.take(j as int));
        assert(t.last() == candidates@[j as int]);
        proof {
            if let Some(b) = spec_best_index(candidates@.take(j as int)) {
                lemma_best_is_maximal(candidates@.take(j as int));
                assert(t[b] == candidates@[b]);
            }
        }
        let c = &candidates[j];
        if c.passed() {
            match best {
                None => {
                    best = Some(j);
                },
                Some(b) => {
                    let cur = &candidates[b];
                    if c.score > cur.score || (c.score == cur.score && c.lineage_hash
                        < cur.lineage_hash) || (c.score == cur.score && c.lineage_hash
                        == cur.lineage_hash && c.candidate_id < cur.candidate_id) {
                        best = Some(j);
                    }
                },
            }
        }
        j = j + 1;
    }
    assert(candidates@.take(j as int) =~= candidates@);
    best
}

pub open spec fn spec_pass_count(s: Seq<CandidateReceipt>) -> nat
    decreases s.len(),
{
    if s.len() == 0 {
        0
    } else {
        spec_pass_count(s.drop_last()) + if s.last().spec_passed() {
            1nat
        } else {
            0nat
        }
    }
}

proof fn lemma_pass_count_le(s: Seq<CandidateReceipt>)
    ensures
        spec_pass_count(s) <= s.len(),
    decreases s.len(),
{
    if s.len() > 0 {
        lemma_pass_count_le(s.drop_last());
    }
}

fn pass_count(candidates: &[CandidateReceipt]) -> (r: u64)
    ensures
        r as nat == spec_pass_count(candidates@),
{
    let mut n: u64 = 0;
    let mut i: usize = 0;
    while i < candidates.len()
        invariant
            i <= candidates@.len(),
            n as nat == spec_pass_count(candidates@.take(i as int)),
        decreases candidates@.len() - i,
    {
        assert(candidates@.take(i as int + 1).drop_last() =~= candidates@.take(i as int));
        proof {
            lemma_pass_count_le(candidates@.take(i as int));
        }
        if candidates[i].passed() {
            n = n + 1;
        }
        i = i + 1;
    }
    assert(candidates@.take(i as int) =~= candidates@);
    n
}

pub open spec fn fold_lineage(h: u64, s: Seq<CandidateReceipt>) -> u64
    decreases s.len(),
{
    if s.len() == 0 {
        h
    } else {
        spec_mix(fold_lineage(h, s.drop_last()), s.last().lineage_hash)
    }
}

impl SelectionRecord {
    pub open spec fn spec_expected_selection_hash(&self, candidates: Seq<CandidateReceipt>) -> Option<u64> {
        if candidates.len() == 0 || self.schema_version != EVOLUTION_LEDGER_SCHEMA_VERSION {
            None
        } else {
            let h = spec_mix(0x5345_4c45_4354_3031u64, self.schema_version);
            let h = spec_mix(h, self.generation);
            let h = spec_mix(h, self.selected_candidate_id);
            let h = spec_mix(h, self.selected_score);
            let h = spec_mix(h, self.selected_proof_hash);
            let h = spec_mix(h, self.candidate_count);
            let h = spec_mix(h, self.pass_count);
            Some(nz(fold_lineage(h, candidates)))
        }
    }

    pub fn expected_selection_hash(&self, candidates: &[CandidateReceipt]) -> (r: Option<u64>)
        ensures
            r == self.spec_expected_selection_hash(candidates@),
    {
        if candidates.len() == 0 || self.schema_version != EVOLUTION_LEDGER_SCHEMA_VERSION {
            return None;
        }
        let mut h = mix(0x5345_4c45_4354_3031u64, self.schema_version);
        h = mix(h, self.generation);
        h = mix(h, self.selected_candidate_id);
        h = mix(h, self.selected_score);
        h = mix(h, self.selected_proof_hash);
        h = mix(h, self.candidate_count);
        h = mix(h, self.pass_count);
        let ghost h0 = h;
        let mut i: usize = 0;
        while i < candidates.len()
            invariant
                i <= candidates@.len(),
                h == fold_lineage(h0, candidates@.take(i as int)),
            decreases candidates@.len() - i,
        {
            assert(candidates@.take(i as int + 1).drop_last() =~= candidates@.take(i as int));
            h = mix(h, candidates[i].lineage_hash);
            i = i + 1;
        }
        assert(candidates@.take(i as int) =~= candidates@);
        Some(nonzero(h))
    }

    pub open spec fn spec_is_valid_for(&self, candidates: Seq<CandidateReceipt>) -> bool {
        &&& self.schema_version == EVOLUTION_LEDGER_SCHEMA_VERSION
        &&& self.generation != 0
        &&& self.selected_candidate_id != 0
        &&& self.selected_score != 0
        &&& self.selected_proof_hash != 0
        &&& self.candidate_count == candidates.len()
        &&& self.pass_count != 0
        &&& self.selection_hash != 0
        &&& match spec_best_candidate(candidates, self.generation) {
            Some(b) => {
                &&& self.selected_candidate_id == candidates[b].candidate_id
                &&& self.selected_score == candidates[b].score
                &&& self.selected_proof_hash == candidates[b].proof_hash
                &&& self.pass_count == spec_pass_count(candidates)
                &&& self.selection_hash == match self.spec_expected_selection_hash(candidates) {
                    Some(h) => h,
                    None => 0,
                }
            },
            None => false,
        }
    }

    pub fn is_valid_for(&self, candidates: &[CandidateReceipt]) -> (r: bool)
        ensures
            r == self.spec_is_valid_for(candidates@),
    {
        if self.schema_version != EVOLUTION_LEDGER_SCHEMA_VERSION || self.generation == 0
            || self.selected_candidate_id == 0 || self.selected_score == 0
            || self.selected_proof_hash == 0 || self.candidate_count != candidates.len() as u64
            || self.pass_count == 0 || self.selection_hash == 0 {
            return false;
        }
        let b = match best_candidate(candidates, self.generation) {
            Some(b) => b,
            None => {
                return false;
            },
        };
        proof {
            lemma_best_is_maximal(candidates@);
        }
        let pc = pass_count(candidates);
        let expected = match self.expected_selection_hash(candidates) {
            Some(h) => h,
            None => 0,
        };
        self.selected_candidate_id == candidates[b].candidate_id && self.selected_score
            == candidates[b].score && self.selected_proof_hash == candidates[b].proof_hash
            && self.pass_count == pc && self.selection_hash == expected
    }

    /// The record selecting the best passing candidate of one generation, or
    /// `None` when the candidates are empty, mixed, invalid, or none passes
    /// with a non-zero score.
    pub fn select_winner(candidates: &[CandidateReceipt]) -> (r: Option<Self>)
        ensures
            r matches Some(rec) ==> rec.spec_is_valid_for(candidates@) && rec.generation
                == candidates@[0].generation,
            r is None ==> (candidates@.len() == 0 || spec_best_candidate(
                candidates@,
                candidates@[0].generation,
            ) is None || candidates@[spec_best_candidate(
                candidates@,
                candidates@[0].generation,
            ).unwrap()].score == 0),
    {
        if candidates.len() == 0 {
            return None;
        }
        let generation = candidates[0].generation;
        let b = match best_candidate(candidates, generation) {
            Some(b) => b,
            None => {
                return None;
            },
        };
        proof {
            lemma_best_is_maximal(candidates@);
            lemma_pass_count_le(candidates@);
            lemma_pass_count_positive(candidates@, b as int);
        }
        let winner = &candidates[b];
        let pc = pass_count(candidates);
        let mut record = SelectionRecord {
            schema_version: EVOLUTION_LEDGER_SCHEMA_VERSION,
            generation,
            selected_candidate_id: winner.candidate_id,
            selected_score: winner.score,
            selected_proof_hash: winner.proof_hash,
            candidate_count: candidates.len() as u64,
            pass_count: pc,
            selection_hash: 0,
        };
        record.selection_hash = match record.expected_selection_hash(candidates) {
            Some(h) => h,
            None => {
                return None;
            },
        };
        if record.is_valid_for(candidates) {
            Some(record)
        } else {
            None
        }
    }
}

proof fn lemma_pass_count_positive(s: Seq<CandidateReceipt>, b: int)
    requires
        0 <= b < s.len(),
        s[b].spec_passed(),
    ensures
        spec_pass_count(s) > 0,
    decreases s.len(),
{
    if b < s.len() - 1 {
        lemma_pass_count_positive(s.drop_last(), b);
    }
}

/// The stored fields of a candidate receipt, in line order.
pub open spec fn spec_candidate_fields(r: CandidateReceipt) -> Seq<u64> {
    seq![
        r.schema_version,
        EVOLUTION_LEDGER_RECORD,
        r.generation,
        r.candidate_id,
        r.parent_id,
        r.seed_hash,
        r.patch_hash,
        r.sandbox_hash,
        r.evaluator_hash,
        r.score,
        r.threshold,
        r.verdict.spec_as_u64(),
        if r.replay_valid {
            1u64
        } else {
            0u64
        },
        r.proof_hash,
        r.lineage_hash,
    ]
}

/// The line of a structurally valid receipt, ending in a line break.
pub fn encode_candidate_receipt_ndjson(receipt: &CandidateReceipt) -> (r: Option<String>)
    ensures
        r is Some <==> receipt.spec_is_structurally_valid(),
        r matches Some(s) ==> s@ == encode_u64_list(spec_candidate_fields(*receipt)).push('\n'),
{
    if !receipt.is_structurally_valid() {
        return None;
    }
    let fields = [
        receipt.schema_version,
        EVOLUTION_LEDGER_RECORD,
        receipt.generation,
        receipt.candidate_id,
        receipt.parent_id,
        receipt.seed_hash,
        receipt.patch_hash,
        receipt.sandbox_hash,
        receipt.evaluator_hash,
        receipt.score,
        receipt.threshold,
        receipt.verdict.as_u64(),
        if receipt.replay_valid {
            1u64
        } else {
            0u64
        },
        receipt.proof_hash,
        receipt.lineage_hash,
    ];
    assert(fields@ =~= spec_candidate_fields(*receipt));
    let mut s = encode_u64_list_exec(&fields);
    crate::text::push_char(&mut s, '\n');
    Some(s)
}

} // verus!
