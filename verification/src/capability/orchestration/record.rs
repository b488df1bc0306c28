//! Deterministic routing records owned by the orchestration capability.
//!
//! A routing record lists, for one objective, the capability routes still to
//! run; a batch record selects, across many routing records, the ready
//! routes that fit one budget of parallel runs, submissions and resource
//! units, highest priority first.
use vstd::prelude::*;
use crate::kernel::{
    mix, nonzero, nz, spec_mix, Evidence, EvidenceSubmission, GateId, PacketEffect,
};

verus! {

pub const ORCHESTRATION_ROUTE_VERSION: u64 = 1;

#[derive(Clone, Copy, Debug, PartialEq, Eq, Structural)]
pub enum OrchestrationDecision {
    Routed,
    Empty,
}

#[derive(Clone, Copy, Debug, PartialEq, Eq, Structural)]
pub enum OrchestrationBatchDecision {
    Selected,
    Empty,
}

#[derive(Clone, Copy, Debug, PartialEq, Eq, Structural)]
pub struct OrchestrationBudget {
    pub max_parallel_runs: u8,
    pub max_submissions: u8,
    pub resource_units: u16,
}

impl OrchestrationBudget {
    pub fn new(max_parallel_runs: u8, max_submissions: u8, resource_units: u16) -> (r: Self)
        ensures
            r == (OrchestrationBudget { max_parallel_runs, max_submissions, resource_units }),
    {
        OrchestrationBudget { max_parallel_runs, max_submissions, resource_units }
    }

    pub open spec fn spec_is_valid(self) -> bool {
        self.max_parallel_runs != 0 && self.max_submissions != 0 && self.resource_units != 0
    }

    pub fn is_valid(self) -> (r: bool)
        ensures
            r == self.spec_is_valid(),
    {
        self.max_parallel_runs != 0 && self.max_submissions != 0 && self.resource_units != 0
    }
}

/// The evidence each gate's route carries.
pub open spec fn spec_expected_evidence(gate: GateId) -> Evidence {
    match gate {
        GateId::Invariant => Evidence::InvariantProof,
        GateId::Analysis => Evidence::AnalysisReport,
        GateId::Judgment => Evidence::JudgmentRecord,
        GateId::Plan => Evidence::TaskReady,
        GateId::Execution => Evidence::ArtifactReceipt,
        GateId::Verification => Evidence::LineageProof,
        GateId::Eval => Evidence::EvalScore,
        GateId::Learning => Evidence::PolicyPromotion,
    }
}

pub fn expected_evidence(gate: GateId) -> (r: Evidence)
    ensures
        r == spec_expected_evidence(gate),
{
    match gate {
        GateId::Invariant => Evidence::InvariantProof,
        GateId::Analysis => Evidence::AnalysisReport,
        GateId::Judgment => Evidence::JudgmentRecord,
        GateId::Plan => Evidence::TaskReady,
        GateId::Execution => Evidence::ArtifactReceipt,
        GateId::Verification => Evidence::LineageProof,
        GateId::Eval => Evidence::EvalScore,
        GateId::Learning => Evidence::PolicyPromotion,
    }
}

/// The packet effect each gate's route carries.
pub open spec fn spec_expected_effect(gate: GateId) -> PacketEffect {
    match gate {
        GateId::Plan => PacketEffect::BindReadyTask,
        GateId::Execution => PacketEffect::MaterializeArtifact,
        GateId::Verification => PacketEffect::RepairLineage,
        GateId::Eval => PacketEffect::CompleteObjective,
        _ => PacketEffect::Noop,
    }
}

pub fn expected_effect(gate: GateId) -> (r: PacketEffect)
    ensures
        r == spec_expected_effect(gate),
{
    match gate {
        GateId::Plan => PacketEffect::BindReadyTask,
        GateId::Execution => PacketEffect::MaterializeArtifact,
        GateId::Verification => PacketEffect::RepairLineage,
        GateId::Eval => PacketEffect::CompleteObjective,
        _ => PacketEffect::Noop,
    }
}

#[derive(Clone, Copy, Debug, PartialEq, Eq, Structural)]
pub struct CapabilityRoute {
    pub ordinal: u8,
    pub priority: u8,
    pub gate: GateId,
    pub evidence: Evidence,
    pub ready: bool,
    pub effect: PacketEffect,
}

pub open spec fn bool_word(b: bool) -> u64 {
    if b {
        1
    } else {
        0
    }
}

fn bool_to_word(b: bool) -> (r: u64)
    ensures
        r == bool_word(b),
{
    if b {
        1
    } else {
        0
    }
}

/// The route's own fields folded into `h`, in record order.
pub open spec fn mix_route_fields(h: u64, route: CapabilityRoute) -> u64 {
    spec_mix(
        spec_mix(
            spec_mix(
                spec_mix(
                    spec_mix(spec_mix(h, route.ordinal as u64), route.priority as u64),
                    route.gate.spec_as_u64(),
                ),
                route.evidence.spec_as_u64(),
            ),
            bool_word(route.ready),
        ),
        route.effect.spec_id(),
    )
}

fn mix_route(h: u64, route: CapabilityRoute) -> (r: u64)
    ensures
        r == mix_route_fields(h, route),
{
    let mut h = mix(h, route.ordinal as u64);
    h = mix(h, route.priority as u64);
    h = mix(h, route.gate.as_u64());
    h = mix(h, route.evidence.as_u64());
    h = mix(h, bool_to_word(route.ready));
    mix(h, route.effect.id())
}

/// The payload a route's submission carries, bound to its record's hash.
pub open spec fn spec_route_payload_hash(route_hash: u64, route: CapabilityRoute) -> u64 {
    nz(mix_route_fields(spec_mix(0x243f_6a88_85a3_08d3u64, route_hash), route))
}

pub fn route_payload_hash(route_hash: u64, route: CapabilityRoute) -> (r: u64)
    ensures
        r == spec_route_payload_hash(route_hash, route),
{
    let h = mix(0x243f_6a88_85a3_08d3u64, route_hash);
    nonzero(mix_route(h, route))
}

/// The resource units running a route costs.
pub open spec fn spec_route_resource_units(route: CapabilityRoute) -> u16 {
    match route.gate {
        GateId::Invariant | GateId::Analysis | GateId::Judgment => 1,
        GateId::Plan => 2,
        GateId::Execution => 5,
        GateId::Verification => 3,
        GateId::Eval => 2,
        GateId::Learning => 4,
    }
}

pub fn route_resource_units(route: CapabilityRoute) -> (r: u16)
    ensures
        r == spec_route_resource_units(route),
        1 <= r <= 5,
{
    match route.gate {
        GateId::Invariant | GateId::Analysis | GateId::Judgment => 1,
        GateId::Plan => 2,
        GateId::Execution => 5,
        GateId::Verification => 3,
        GateId::Eval => 2,
        GateId::Learning => 4,
    }
}

impl CapabilityRoute {
    pub open spec fn spec_submission(self, route_hash: u64) -> EvidenceSubmission {
        EvidenceSubmission {
            gate: self.gate,
            evidence: self.evidence,
            passed: self.ready,
            payload_hash: spec_route_payload_hash(route_hash, self),
            effect: self.effect,
        }
    }

    pub fn submission(self, route_hash: u64) -> (r: EvidenceSubmission)
        ensures
            r == self.spec_submission(route_hash),
    {
        EvidenceSubmission::with_effect_payload(
            self.gate,
            self.evidence,
            self.ready,
            self.effect,
            route_payload_hash(route_hash, self),
        )
    }

    pub open spec fn spec_is_valid(self) -> bool {
        &&& self.ordinal != 0
        &&& self.priority != 0
        &&& spec_expected_evidence(self.gate) == self.evidence
        &&& spec_expected_effect(self.gate) == self.effect
    }

    pub fn is_valid(self) -> (r: bool)
        ensures
            r == self.spec_is_valid(),
    {
        self.ordinal != 0 && self.priority != 0 && expected_evidence(self.gate) == self.evidence
            && expected_effect(self.gate) == self.effect
    }
}

#[derive(Clone, Copy, Debug, PartialEq, Eq, Structural)]
pub struct SelectedCapabilityRoute {
    pub run_ordinal: u8,
    pub objective_id: u64,
    pub route_hash: u64,
    pub route: CapabilityRoute,
    pub resource_units: u16,
}

impl SelectedCapabilityRoute {
    pub open spec fn spec_submission(self) -> EvidenceSubmission {
        self.route.spec_submission(self.route_hash)
    }

    pub fn submission(self) -> (r: EvidenceSubmission)
        ensures
            r == self.spec_submission(),
    {
        self.route.submission(self.route_hash)
    }

    pub open spec fn spec_is_valid(self) -> bool {
        &&& self.run_ordinal != 0
        &&& self.objective_id != 0
        &&& self.route_hash != 0
        &&& self.route.ready
        &&& self.route.spec_is_valid()
        &&& self.resource_units == spec_route_resource_units(self.route)
    }

    pub fn is_valid(self) -> (r: bool)
        ensures
            r == self.spec_is_valid(),
    {
        self.run_ordinal != 0 && self.objective_id != 0 && self.route_hash != 0
            && self.route.ready && self.route.is_valid() && self.resource_units
            == route_resource_units(self.route)
    }
}

/// The route fields, in order, folded into `h`.
pub open spec fn fold_routes(h: u64, routes: Seq<CapabilityRoute>) -> u64
    decreases routes.len(),
{
    if routes.len() == 0 {
        h
    } else {
        mix_route_fields(fold_routes(h, routes.drop_last()), routes.last())
    }
}

/// The hash that binds a routing record's header and routes.
pub open spec fn spec_route_hash(
    objective_id: u64,
    route_version: u64,
    priority: u8,
    routes: Seq<CapabilityRoute>,
) -> u64 {
    nz(
        fold_routes(
            spec_mix(
                spec_mix(spec_mix(0xbf58476d1ce4e5b9u64, objective_id), route_version),
                priority as u64,
            ),
            routes,
        ),
    )
}

pub fn route_hash(objective_id: u64, route_version: u64, priority: u8, routes: &Vec<CapabilityRoute>) -> (r: u64)
    ensures
        r == spec_route_hash(objective_id, route_version, priority, routes@),
{
    let mut h = mix(0xbf58476d1ce4e5b9u64, objective_id);
    h = mix(h, route_version);
    h = mix(h, priority as u64);
    let ghost seed = h;
    let mut i: usize = 0;
    while i < routes.len()
        invariant
            i <= routes@.len(),
            h == fold_routes(seed, routes@.take(i as int)),
        decreases routes@.len() - i,
    {
        assert(routes@.take(i as int + 1).drop_last() =~= routes@.take(i as int));
        h = mix_route(h, routes[i]);
        i = i + 1;
    }
    assert(routes@.take(i as int) =~= routes@);
    nonzero(h)
}

#[derive(Clone, Debug, PartialEq, Eq)]
pub struct OrchestrationRecord {
    pub objective_id: u64,
    pub route_version: u64,
    pub priority: u8,
    pub route_hash: u64,
    pub routes: Vec<CapabilityRoute>,
}

/// Every route of `routes` is valid.
pub open spec fn all_routes_valid(routes: Seq<CapabilityRoute>) -> bool {
    forall|i: int| 0 <= i < routes.len() ==> #[trigger] routes[i].spec_is_valid()
}

/// The ordinals of `routes` strictly increase.
pub open spec fn ordinals_increase(routes: Seq<CapabilityRoute>) -> bool {
    forall|i: int, j: int| 0 <= i < j < routes.len() ==> routes[i].ordinal < routes[j].ordinal
}

/// Some route of `routes` is ready.
pub open spec fn some_route_ready(routes: Seq<CapabilityRoute>) -> bool {
    exists|i: int| 0 <= i < routes.len() && #[trigger] routes[i].ready
}

/// The ready routes of `routes` with priority `p`, in their order.
pub open spec fn priority_band(routes: Seq<CapabilityRoute>, p: int) -> Seq<CapabilityRoute>
    decreases routes.len(),
{
    if routes.len() == 0 {
        Seq::empty()
    } else {
        let rest = priority_band(routes.drop_last(), p);
        if routes.last().ready && routes.last().priority == p {
            rest.push(routes.last())
        } else {
            rest
        }
    }
}

/// The ready routes, priority `p` first, then each lower priority down to 0.
pub open spec fn bands_from(routes: Seq<CapabilityRoute>, p: int) -> Seq<CapabilityRoute>
    decreases p + 1,
{
    if p < 0 {
        Seq::empty()
    } else {
        priority_band(routes, p) + bands_from(routes, p - 1)
    }
}

/// The ready routes in submission order: highest priority first and, within
/// one priority, in record order.
pub open spec fn submission_order(routes: Seq<CapabilityRoute>) -> Seq<CapabilityRoute> {
    bands_from(routes, 255)
}

fn push_band(out: &mut Vec<CapabilityRoute>, routes: &Vec<CapabilityRoute>, p: u8)
    ensures
        final(out)@ == old(out)@ + priority_band(routes@, p as int),
{
    let ghost base = out@;
    let mut i: usize = 0;
    while i < routes.len()
        invariant
            i <= routes@.len(),
            out@ == base + priority_band(routes@.take(i as int), p as int),
        decreases routes@.len() - i,
    {
        assert(routes@.take(i as int + 1).drop_last() =~= routes@.take(i as int));
        let r = routes[i];
        if r.ready && r.priority == p {
            out.push(r);
        }
        i = i + 1;
        assert(out@ =~= base + priority_band(routes@.take(i as int), p as int));
    }
    assert(routes@.take(i as int) =~= routes@);
}

/// The ready routes of `routes` in submission order.
pub fn ordered_ready_routes(routes: &Vec<CapabilityRoute>) -> (r: Vec<CapabilityRoute>)
    ensures
        r@ == submission_order(routes@),
{
    let mut out: Vec<CapabilityRoute> = Vec::new();
    let mut p: u16 = 256;
    while p > 0
        invariant
            p <= 256,
            out@ + bands_from(routes@, p as int - 1) == submission_order(routes@),
        decreases p,
    {
        p = p - 1;
        let ghost before = out@;
        push_band(&mut out, routes, p as u8);
        assert(bands_from(routes@, p as int) == priority_band(routes@, p as int) + bands_from(
            routes@,
            p as int - 1,
        ));
        assert(out@ + bands_from(routes@, p as int - 1) =~= before + bands_from(
            routes@,
            p as int,
        ));
    }
    assert(bands_from(routes@, -1) =~= Seq::<CapabilityRoute>::empty());
    assert(out@ + Seq::<CapabilityRoute>::empty() =~= out@);
    out
}

fn any_route_ready(routes: &Vec<CapabilityRoute>) -> (r: bool)
    ensures
        r == some_route_ready(routes@),
{
    let mut i: usize = 0;
    while i < routes.len()
        invariant
            i <= routes@.len(),
            forall|k: int| 0 <= k < i ==> !#[trigger] routes@[k].ready,
        decreases routes@.len() - i,
    {
        if routes[i].ready {
            assert(routes@[i as int].ready);
            return true;
        }
        i = i + 1;
    }
    false
}

impl OrchestrationRecord {
    pub open spec fn spec_is_valid(self) -> bool {
        &&& self.objective_id != 0
        &&& self.route_version == ORCHESTRATION_ROUTE_VERSION
        &&& self.priority != 0
        &&& self.routes@.len() > 0
        &&& all_routes_valid(self.routes@)
        &&& ordinals_increase(self.routes@)
        &&& self.route_hash == spec_route_hash(
            self.objective_id,
            self.route_version,
            self.priority,
            self.routes@,
        )
    }

    pub open spec fn spec_decision(self) -> OrchestrationDecision {
        if self.spec_is_valid() && some_route_ready(self.routes@) {
            OrchestrationDecision::Routed
        } else {
            OrchestrationDecision::Empty
        }
    }

    pub fn is_valid(&self) -> (r: bool)
        ensures
            r == self.spec_is_valid(),
    {
        if self.objective_id == 0 || self.route_version != ORCHESTRATION_ROUTE_VERSION
            || self.priority == 0 || self.routes.len() == 0 {
            return false;
        }
        let n = self.routes.len();
        let mut i: usize = 0;
        while i < n
            invariant
                n == self.routes@.len(),
                i <= n,
                forall|k: int| 0 <= k < i ==> #[trigger] self.routes@[k].spec_is_valid(),
                forall|a: int, b: int|
                    0 <= a < b < i ==> self.routes@[a].ordinal < self.routes@[b].ordinal,
            decreases n - i,
        {
            if !self.routes[i].is_valid() {
                return false;
            }
            if i > 0 && self.routes[i - 1].ordinal >= self.routes[i].ordinal {
                return false;
            }
            proof {
                assert forall|a: int, b: int|
                    0 <= a < b < i + 1 implies self.routes@[a].ordinal
                    < self.routes@[b].ordinal by {
                    if b == i && a < i - 1 {
                        assert(self.routes@[a].ordinal < self.routes@[i - 1].ordinal);
                    }
                }
            }
            i = i + 1;
        }
        self.route_hash == route_hash(
            self.objective_id,
            self.route_version,
            self.priority,
            &self.routes,
        )
    }

    pub fn decision(&self) -> (r: OrchestrationDecision)
        ensures
            r == self.spec_decision(),
    {
        if self.is_valid() && any_route_ready(&self.routes) {
            OrchestrationDecision::Routed
        } else {
            OrchestrationDecision::Empty
        }
    }

    /// The submissions of the ready routes, highest priority first; none
    /// unless the record routes something.
    pub open spec fn spec_ordered_submissions(self) -> Seq<EvidenceSubmission> {
        if self.spec_decision() == OrchestrationDecision::Routed {
            submission_order(self.routes@).map_values(
                |route: CapabilityRoute| route.spec_submission(self.route_hash),
            )
        } else {
            Seq::empty()
        }
    }

    pub fn ordered_submissions(&self) -> (r: Vec<EvidenceSubmission>)
        ensures
            r@ == self.spec_ordered_submissions(),
    {
        let mut out: Vec<EvidenceSubmission> = Vec::new();
        if self.decision() != OrchestrationDecision::Routed {
            assert(out@ =~= self.spec_ordered_submissions());
            return out;
        }
        let ordered = ordered_ready_routes(&self.routes);
        let mut i: usize = 0;
        while i < ordered.len()
            invariant
                i <= ordered@.len(),
                out@ =~= ordered@.take(i as int).map_values(
                    |route: CapabilityRoute| route.spec_submission(self.route_hash),
                ),
            decreases ordered@.len() - i,
        {
            out.push(ordered[i].submission(self.route_hash));
            i = i + 1;
            assert(out@ =~= ordered@.take(i as int).map_values(
                |route: CapabilityRoute| route.spec_submission(self.route_hash),
            ));
        }
        assert(ordered@.take(i as int) =~= ordered@);
        out
    }
}

// ── Batch selection ─────────────────────────────────────────────────────────

#[derive(Clone, Debug, PartialEq, Eq)]
pub struct OrchestrationBatchRecord {
    pub batch_version: u64,
    pub budget: OrchestrationBudget,
    pub candidate_count: u8,
    pub selected: Vec<SelectedCapabilityRoute>,
    pub consumed_resource_units: u16,
    pub merge_hash: u64,
}

/// The run ordinal of the record at `idx`: its 1-based position, saturated
/// at 255.
pub open spec fn spec_run_ordinal(idx: int) -> u8 {
    if idx + 1 >= 255 {
        255
    } else {
        (idx + 1) as u8
    }
}

/// The ready routes of one record, as candidates of run `run_ordinal`.
pub open spec fn ready_candidates(
    routes: Seq<CapabilityRoute>,
    run_ordinal: u8,
    objective_id: u64,
    route_hash: u64,
) -> Seq<SelectedCapabilityRoute>
    decreases routes.len(),
{
    if routes.len() == 0 {
        Seq::empty()
    } else {
        let rest = ready_candidates(routes.drop_last(), run_ordinal, objective_id, route_hash);
        if routes.last().ready {
            rest.push(
                SelectedCapabilityRoute {
                    run_ordinal,
                    objective_id,
                    route_hash,
                    route: routes.last(),
                    resource_units: spec_route_resource_units(routes.last()),
                },
            )
        } else {
            rest
        }
    }
}

/// The candidates of the records that route something, record by record.
pub open spec fn gather_candidates(records: Seq<OrchestrationRecord>) -> Seq<SelectedCapabilityRoute>
    decreases records.len(),
{
    if records.len() == 0 {
        Seq::empty()
    } else {
        let last = records.last();
        gather_candidates(records.drop_last()) + if last.spec_decision()
            == OrchestrationDecision::Routed {
            ready_candidates(
                last.routes@,
                spec_run_ordinal(records.len() - 1),
                last.objective_id,
                last.route_hash,
            )
        } else {
            Seq::empty()
        }
    }
}

/// `a` comes strictly before `b`: higher priority first, then lower run
/// ordinal, route ordinal, objective id and route hash.
pub open spec fn candidate_before(a: SelectedCapabilityRoute, b: SelectedCapabilityRoute) -> bool {
    if a.route.priority != b.route.priority {
        a.route.priority > b.route.priority
    } else if a.run_ordinal != b.run_ordinal {
        a.run_ordinal < b.run_ordinal
    } else if a.route.ordinal != b.route.ordinal {
        a.route.ordinal < b.route.ordinal
    } else if a.objective_id != b.objective_id {
        a.objective_id < b.objective_id
    } else {
        a.route_hash < b.route_hash
    }
}

fn is_candidate_before(a: &SelectedCapabilityRoute, b: &SelectedCapabilityRoute) -> (r: bool)
    ensures
        r == candidate_before(*a, *b),
{
    if a.route.priority != b.route.priority {
        a.route.priority > b.route.priority
    } else if a.run_ordinal != b.run_ordinal {
        a.run_ordinal < b.run_ordinal
    } else if a.route.ordinal != b.route.ordinal {
        a.route.ordinal < b.route.ordinal
    } else if a.objective_id != b.objective_id {
        a.objective_id < b.objective_id
    } else {
        a.route_hash < b.route_hash
    }
}

/// `x` placed into `sorted` after every element it does not come before.
pub open spec fn insert_candidate(sorted: Seq<SelectedCapabilityRoute>, x: SelectedCapabilityRoute) -> Seq<SelectedCapabilityRoute>
    decreases sorted.len(),
{
    if sorted.len() == 0 {
        seq![x]
    } else if candidate_before(x, sorted.last()) {
        insert_candidate(sorted.drop_last(), x).push(sorted.last())
    } else {
        sorted.push(x)
    }
}

/// The candidates in selection order: a stable sort by `candidate_before`.
pub open spec fn sort_candidates(s: Seq<SelectedCapabilityRoute>) -> Seq<SelectedCapabilityRoute>
    decreases s.len(),
{
    if s.len() == 0 {
        Seq::empty()
    } else {
        insert_candidate(sort_candidates(s.drop_last()), s.last())
    }
}

proof fn lemma_insert_candidate_at(s: Seq<SelectedCapabilityRoute>, x: SelectedCapabilityRoute, k: int)
    requires
        0 <= k <= s.len(),
        forall|j: int| k <= j < s.len() ==> candidate_before(x, #[trigger] s[j]),
        k == 0 || !candidate_before(x, s[k - 1]),
    ensures
        insert_candidate(s, x) == s.insert(k, x),
    decreases s.len(),
{
    if s.len() == 0 {
        assert(s.insert(k, x) =~= seq![x]);
    } else if k == s.len() {
        assert(s.insert(k, x) =~= s.push(x));
    } else {
        lemma_insert_candidate_at(s.drop_last(), x, k);
        assert(s.insert(k, x) =~= s.drop_last().insert(k, x).push(s.last()));
    }
}

fn insert_sorted_candidate(sorted: &mut Vec<SelectedCapabilityRoute>, x: SelectedCapabilityRoute)
    ensures
        final(sorted)@ == insert_candidate(old(sorted)@, x),
{
    let mut k = sorted.len();
    while k > 0 && is_candidate_before(&x, &sorted[k - 1])
        invariant
            k <= sorted@.len(),
            sorted@ == old(sorted)@,
            forall|j: int| k <= j < sorted@.len() ==> candidate_before(x, #[trigger] sorted@[j]),
        decreases k,
    {
        k = k - 1;
    }
    proof {
        lemma_insert_candidate_at(sorted@, x, k as int);
    }
    sorted.insert(k, x);
}

/// The state of the greedy selection: the routes taken, the runs they
/// belong to (each once, in first-taken order), and the units consumed.
pub struct SelectionState {
    pub selected: Seq<SelectedCapabilityRoute>,
    pub runs: Seq<u8>,
    pub consumed: int,
}

/// One greedy step: take `c` unless the submissions are used up, it would
/// open a run beyond the parallel limit, or its units overflow the counter
/// or the budget.
pub open spec fn select_step(b: OrchestrationBudget, st: SelectionState, c: SelectedCapabilityRoute) -> SelectionState {
    let active = st.runs.contains(c.run_ordinal);
    let next = st.consumed + c.resource_units;
    if st.selected.len() >= b.max_submissions {
        st
    } else if !active && st.runs.len() >= b.max_parallel_runs {
        st
    } else if next > u16::MAX || next > b.resource_units {
        st
    } else {
        SelectionState {
            selected: st.selected.push(c),
            runs: if active {
                st.runs
            } else {
                st.runs.push(c.run_ordinal)
            },
            consumed: next,
        }
    }
}

/// The greedy selection over candidates in order.
pub open spec fn select_all(b: OrchestrationBudget, cands: Seq<SelectedCapabilityRoute>) -> SelectionState
    decreases cands.len(),
{
    if cands.len() == 0 {
        SelectionState { selected: Seq::empty(), runs: Seq::empty(), consumed: 0 }
    } else {
        select_step(b, select_all(b, cands.drop_last()), cands.last())
    }
}

/// The candidates a batch considers: none under an invalid budget.
pub open spec fn batch_candidates(records: Seq<OrchestrationRecord>, budget: OrchestrationBudget) -> Seq<SelectedCapabilityRoute> {
    if budget.spec_is_valid() {
        sort_candidates(gather_candidates(records))
    } else {
        Seq::empty()
    }
}

/// The distinct run ordinals of `selected`, in first-seen order.
pub open spec fn distinct_runs(selected: Seq<SelectedCapabilityRoute>) -> Seq<u8>
    decreases selected.len(),
{
    if selected.len() == 0 {
        Seq::empty()
    } else {
        let rest = distinct_runs(selected.drop_last());
        if rest.contains(selected.last().run_ordinal) {
            rest
        } else {
            rest.push(selected.last().run_ordinal)
        }
    }
}

/// The sum of the selected units, or `None` where a 16-bit counter overflows.
pub open spec fn units_sum(selected: Seq<SelectedCapabilityRoute>) -> Option<u16>
    decreases selected.len(),
{
    if selected.len() == 0 {
        Some(0)
    } else {
        match units_sum(selected.drop_last()) {
            Some(a) => if a + selected.last().resource_units <= u16::MAX {
                Some((a + selected.last().resource_units) as u16)
            } else {
                None
            },
            None => None,
        }
    }
}

/// The selected routes folded into `h`.
pub open spec fn fold_selected(h: u64, selected: Seq<SelectedCapabilityRoute>) -> u64
    decreases selected.len(),
{
    if selected.len() == 0 {
        h
    } else {
        let c = selected.last();
        spec_mix(
            spec_mix(
                spec_mix(
                    spec_mix(
                        spec_mix(fold_selected(h, selected.drop_last()), c.run_ordinal as u64),
                        c.objective_id,
                    ),
                    c.route_hash,
                ),
                c.resource_units as u64,
            ),
            spec_route_payload_hash(c.route_hash, c.route),
        )
    }
}

pub open spec fn spec_candidate_count(n: int) -> u8 {
    if n >= 255 {
        255
    } else {
        n as u8
    }
}

pub const MERGE_HASH_SEED: u64 = 0x94d0_49bb_1331_11ebu64;

fn runs_contain(runs: &Vec<u8>, run: u8) -> (r: bool)
    ensures
        r == runs@.contains(run),
{
    let mut i: usize = 0;
    while i < runs.len()
        invariant
            i <= runs@.len(),
            forall|k: int| 0 <= k < i ==> #[trigger] runs@[k] != run,
        decreases runs@.len() - i,
    {
        if runs[i] == run {
            assert(runs@[i as int] == run);
            return true;
        }
        i = i + 1;
    }
    false
}

fn push_ready_candidates(
    out: &mut Vec<SelectedCapabilityRoute>,
    routes: &Vec<CapabilityRoute>,
    run_ordinal: u8,
    objective_id: u64,
    route_hash: u64,
)
    ensures
        final(out)@ == old(out)@ + ready_candidates(routes@, run_ordinal, objective_id, route_hash),
{
    let ghost base = out@;
    let mut j: usize = 0;
    while j < routes.len()
        invariant
            j <= routes@.len(),
            out@ == base + ready_candidates(routes@.take(j as int), run_ordinal, objective_id, route_hash),
        decreases routes@.len() - j,
    {
        assert(routes@.take(j as int + 1).drop_last() =~= routes@.take(j as int));
        let route = routes[j];
        if route.ready {
            out.push(
                SelectedCapabilityRoute {
                    run_ordinal,
                    objective_id,
                    route_hash,
                    route,
                    resource_units: route_resource_units(route),
                },
            );
        }
        j = j + 1;
        assert(out@ =~= base + ready_candidates(routes@.take(j as int), run_ordinal, objective_id, route_hash));
    }
    assert(routes@.take(j as int) =~= routes@);
}

fn gather(records: &[OrchestrationRecord]) -> (r: Vec<SelectedCapabilityRoute>)
    ensures
        r@ == gather_candidates(records@),
{
    let mut out: Vec<SelectedCapabilityRoute> = Vec::new();
    let mut idx: usize = 0;
    while idx < records.len()
        invariant
            idx <= records@.len(),
            out@ == gather_candidates(records@.take(idx as int)),
        decreases records@.len() - idx,
    {
        assert(records@.take(idx as int + 1).drop_last() =~= records@.take(idx as int));
        let record = &records[idx];
        let ghost before = out@;
        if record.decision() == OrchestrationDecision::Routed {
            let run_ordinal: u8 = if idx + 1 >= 255 {
                255
            } else {
                (idx + 1) as u8
            };
            push_ready_candidates(
                &mut out,
                &record.routes,
                run_ordinal,
                record.objective_id,
                record.route_hash,
            );
        }
        idx = idx + 1;
        assert(out@ =~= gather_candidates(records@.take(idx as int)));
    }
    assert(records@.take(idx as int) =~= records@);
    out
}

fn sort_by_selection_order(cands: &Vec<SelectedCapabilityRoute>) -> (r: Vec<SelectedCapabilityRoute>)
    ensures
        r@ == sort_candidates(cands@),
{
    let mut sorted: Vec<SelectedCapabilityRoute> = Vec::new();
    let mut i: usize = 0;
    while i < cands.len()
        invariant
            i <= cands@.len(),
            sorted@ == sort_candidates(cands@.take(i as int)),
        decreases cands@.len() - i,
    {
        assert(cands@.take(i as int + 1).drop_last() =~= cands@.take(i as int));
        insert_sorted_candidate(&mut sorted, cands[i]);
        i = i + 1;
    }
    assert(cands@.take(i as int) =~= cands@);
    sorted
}

fn mix_selected(h: u64, selected: &Vec<SelectedCapabilityRoute>) -> (r: u64)
    ensures
        r == fold_selected(h, selected@),
{
    let mut acc = h;
    let mut i: usize = 0;
    while i < selected.len()
        invariant
            i <= selected@.len(),
            acc == fold_selected(h, selected@.take(i as int)),
        decreases selected@.len() - i,
    {
        assert(selected@.take(i as int + 1).drop_last() =~= selected@.take(i as int));
        let c = selected[i];
        acc = mix(acc, c.run_ordinal as u64);
        acc = mix(acc, c.objective_id);
        acc = mix(acc, c.route_hash);
        acc = mix(acc, c.resource_units as u64);
        acc = mix(acc, route_payload_hash(c.route_hash, c.route));
        i = i + 1;
    }
    assert(selected@.take(i as int) =~= selected@);
    acc
}

impl OrchestrationBatchRecord {
    pub open spec fn spec_merge_hash(self) -> u64 {
        let h = spec_mix(
            spec_mix(
                spec_mix(
                    spec_mix(
                        spec_mix(spec_mix(MERGE_HASH_SEED, self.batch_version), self.budget.max_parallel_runs as u64),
                        self.budget.max_submissions as u64,
                    ),
                    self.budget.resource_units as u64,
                ),
                self.candidate_count as u64,
            ),
            self.consumed_resource_units as u64,
        );
        nz(fold_selected(h, self.selected@))
    }

    pub fn expected_merge_hash(&self) -> (r: u64)
        ensures
            r == self.spec_merge_hash(),
    {
        let mut h = mix(MERGE_HASH_SEED, self.batch_version);
        h = mix(h, self.budget.max_parallel_runs as u64);
        h = mix(h, self.budget.max_submissions as u64);
        h = mix(h, self.budget.resource_units as u64);
        h = mix(h, self.candidate_count as u64);
        h = mix(h, self.consumed_resource_units as u64);
        nonzero(mix_selected(h, &self.selected))
    }

    pub open spec fn spec_is_valid(self) -> bool {
        &&& self.batch_version == ORCHESTRATION_ROUTE_VERSION
        &&& self.budget.spec_is_valid()
        &&& self.candidate_count != 0
        &&& self.selected@.len() <= self.budget.max_submissions
        &&& forall|i: int| 0 <= i < self.selected@.len() ==> #[trigger] self.selected@[i].spec_is_valid()
        &&& distinct_runs(self.selected@).len() <= self.budget.max_parallel_runs
        &&& self.consumed_resource_units == match units_sum(self.selected@) {
            Some(v) => v,
            None => 0u16,
        }
        &&& self.consumed_resource_units <= self.budget.resource_units
        &&& self.merge_hash == self.spec_merge_hash()
    }

    /// Selects, across `records`, the ready routes that fit `budget`:
    /// candidates go highest priority first (then by run, route ordinal,
    /// objective and route hash), and each is taken unless the submissions
    /// are used up, it would open a run beyond the parallel limit, or its
    /// units do not fit.
    pub fn from_records(records: &[OrchestrationRecord], budget: OrchestrationBudget) -> (r: Self)
        ensures
            r.batch_version == ORCHESTRATION_ROUTE_VERSION,
            r.budget == budget,
            r.candidate_count == spec_candidate_count(records@.len() as int),
            r.selected@ == select_all(budget, batch_candidates(records@, budget)).selected,
            r.consumed_resource_units == select_all(budget, batch_candidates(records@, budget)).consumed,
            r.merge_hash == r.spec_merge_hash(),
            r.selected@.len() <= budget.max_submissions,
            distinct_runs(r.selected@).len() <= budget.max_parallel_runs,
            r.consumed_resource_units <= budget.resource_units,
            in_selection_order(r.selected@),
            r.spec_is_valid() <==> (budget.spec_is_valid() && records@.len() > 0),
    {
        let candidate_count: u8 = if records.len() >= 255 {
            255
        } else {
            records.len() as u8
        };
        let sorted = if budget.is_valid() {
            let cands = gather(records);
            sort_by_selection_order(&cands)
        } else {
            Vec::new()
        };
        let ghost cands = batch_candidates(records@, budget);
        assert(sorted@ == cands);
        let mut selected: Vec<SelectedCapabilityRoute> = Vec::new();
        let mut active_runs: Vec<u8> = Vec::new();
        let mut consumed: u16 = 0;
        let mut i: usize = 0;
        while i < sorted.len()
            invariant
                i <= sorted@.len(),
                sorted@ == cands,
                selected@ == select_all(budget, cands.take(i as int)).selected,
                active_runs@ == select_all(budget, cands.take(i as int)).runs,
                consumed == select_all(budget, cands.take(i as int)).consumed,
            decreases sorted@.len() - i,
        {
            assert(cands.take(i as int + 1).drop_last() =~= cands.take(i as int));
            let c = sorted[i];
            i = i + 1;
            if selected.len() >= budget.max_submissions as usize {
                continue;
            }
            let is_active_run = runs_contain(&active_runs, c.run_ordinal);
            if !is_active_run && active_runs.len() >= budget.max_parallel_runs as usize {
                continue;
            }
            let next_units = match consumed.checked_add(c.resource_units) {
                Some(v) => v,
                None => {
                    continue;
                },
            };
            if next_units > budget.resource_units {
                continue;
            }
            if !is_active_run {
                active_runs.push(c.run_ordinal);
            }
            consumed = next_units;
            selected.push(c);
        }
        assert(cands.take(i as int) =~= cands);
        let mut record = OrchestrationBatchRecord {
            batch_version: ORCHESTRATION_ROUTE_VERSION,
            budget,
            candidate_count,
            selected,
            consumed_resource_units: consumed,
            merge_hash: 0,
        };
        record.merge_hash = record.expected_merge_hash();
        proof {
            lemma_batch_laws(records@, budget);
        }
        record
    }

    pub open spec fn spec_decision(self) -> OrchestrationBatchDecision {
        if self.spec_is_valid() && self.selected@.len() > 0 {
            OrchestrationBatchDecision::Selected
        } else {
            OrchestrationBatchDecision::Empty
        }
    }

    pub fn is_valid(&self) -> (r: bool)
        ensures
            r == self.spec_is_valid(),
    {
        if self.batch_version != ORCHESTRATION_ROUTE_VERSION || !self.budget.is_valid()
            || self.candidate_count == 0 || self.selected.len()
            > self.budget.max_submissions as usize {
            return false;
        }
        let mut i: usize = 0;
        while i < self.selected.len()
            invariant
                i <= self.selected@.len(),
                forall|k: int| 0 <= k < i ==> #[trigger] self.selected@[k].spec_is_valid(),
            decreases self.selected@.len() - i,
        {
            if !self.selected[i].is_valid() {
                return false;
            }
            i = i + 1;
        }
        if selected_parallel_run_count(&self.selected) > self.budget.max_parallel_runs as usize {
            return false;
        }
        let total: u16 = match selected_units_sum(&self.selected) {
            Some(v) => v,
            None => 0,
        };
        self.consumed_resource_units == total && self.consumed_resource_units
            <= self.budget.resource_units && self.merge_hash == self.expected_merge_hash()
    }

    pub fn decision(&self) -> (r: OrchestrationBatchDecision)
        ensures
            r == self.spec_decision(),
    {
        if self.is_valid() && self.selected.len() > 0 {
            OrchestrationBatchDecision::Selected
        } else {
            OrchestrationBatchDecision::Empty
        }
    }

    /// The submissions of the selected routes, in selection order; none
    /// unless the batch selects something.
    pub open spec fn spec_ordered_submissions(self) -> Seq<EvidenceSubmission> {
        if self.spec_decision() == OrchestrationBatchDecision::Selected {
            self.selected@.map_values(|c: SelectedCapabilityRoute| c.spec_submission())
        } else {
            Seq::empty()
        }
    }

    pub fn ordered_submissions(&self) -> (r: Vec<EvidenceSubmission>)
        ensures
            r@ == self.spec_ordered_submissions(),
    {
        let mut out: Vec<EvidenceSubmission> = Vec::new();
        if self.decision() != OrchestrationBatchDecision::Selected {
            assert(out@ =~= self.spec_ordered_submissions());
            return out;
        }
        let mut i: usize = 0;
        while i < self.selected.len()
            invariant
                i <= self.selected@.len(),
                out@ =~= self.selected@.take(i as int).map_values(
                    |c: SelectedCapabilityRoute| c.spec_submission(),
                ),
            decreases self.selected@.len() - i,
        {
            out.push(self.selected[i].submission());
            i = i + 1;
            assert(out@ =~= self.selected@.take(i as int).map_values(
                |c: SelectedCapabilityRoute| c.spec_submission(),
            ));
        }
        assert(self.selected@.take(i as int) =~= self.selected@);
        out
    }
}

/// The number of distinct runs among the selected routes.
pub fn selected_parallel_run_count(selected: &Vec<SelectedCapabilityRoute>) -> (r: usize)
    ensures
        r == distinct_runs(selected@).len(),
{
    let mut runs: Vec<u8> = Vec::new();
    let mut i: usize = 0;
    while i < selected.len()
        invariant
            i <= selected@.len(),
            runs@ == distinct_runs(selected@.take(i as int)),
            runs@.len() <= i,
        decreases selected@.len() - i,
    {
        assert(selected@.take(i as int + 1).drop_last() =~= selected@.take(i as int));
        let run = selected[i].run_ordinal;
        if !runs_contain(&runs, run) {
            runs.push(run);
        }
        i = i + 1;
    }
    assert(selected@.take(i as int) =~= selected@);
    runs.len()
}

fn selected_units_sum(selected: &Vec<SelectedCapabilityRoute>) -> (r: Option<u16>)
    ensures
        r == units_sum(selected@),
{
    let mut acc: u16 = 0;
    let mut i: usize = 0;
    while i < selected.len()
        invariant
            i <= selected@.len(),
            units_sum(selected@.take(i as int)) == Some(acc),
        decreases selected@.len() - i,
    {
        assert(selected@.take(i as int + 1).drop_last() =~= selected@.take(i as int));
        match acc.checked_add(selected[i].resource_units) {
            Some(v) => {
                acc = v;
            },
            None => {
                proof {
                    lemma_units_sum_stays_none(selected@, i as int + 1);
                }
                return None;
            },
        }
        i = i + 1;
    }
    assert(selected@.take(i as int) =~= selected@);
    Some(acc)
}

proof fn lemma_units_sum_stays_none(s: Seq<SelectedCapabilityRoute>, k: int)
    requires
        0 <= k <= s.len(),
        units_sum(s.take(k)) is None,
    ensures
        units_sum(s) is None,
    decreases s.len() - k,
{
    if k < s.len() {
        assert(s.take(k + 1).drop_last() =~= s.take(k));
        lemma_units_sum_stays_none(s, k + 1);
    } else {
        assert(s.take(k) =~= s);
    }
}

/// `s` is in selection order: no element comes before an earlier one.
pub open spec fn in_selection_order(s: Seq<SelectedCapabilityRoute>) -> bool {
    forall|i: int, j: int| 0 <= i < j < s.len() ==> !candidate_before(#[trigger] s[j], #[trigger] s[i])
}

proof fn lemma_insert_candidate_members(s: Seq<SelectedCapabilityRoute>, x: SelectedCapabilityRoute)
    ensures
        insert_candidate(s, x).len() == s.len() + 1,
        forall|y: SelectedCapabilityRoute| #[trigger]
            insert_candidate(s, x).contains(y) <==> (s.contains(y) || y == x),
    decreases s.len(),
{
    if s.len() == 0 {
        assert(insert_candidate(s, x) =~= seq![x]);
        assert forall|y: SelectedCapabilityRoute| #[trigger]
            insert_candidate(s, x).contains(y) <==> (s.contains(y) || y == x) by {
            if y == x {
                assert(insert_candidate(s, x)[0] == x);
            }
        }
    } else if candidate_before(x, s.last()) {
        lemma_insert_candidate_members(s.drop_last(), x);
        let r = insert_candidate(s, x);
        let inner = insert_candidate(s.drop_last(), x);
        assert(r == inner.push(s.last()));
        assert forall|y: SelectedCapabilityRoute| #[trigger] r.contains(y) <==> (s.contains(y) || y == x) by {
            if r.contains(y) {
                let k = choose|k: int| 0 <= k < r.len() && r[k] == y;
                if k == r.len() - 1 {
                    assert(s[s.len() - 1] == y);
                } else {
                    assert(inner[k] == y);
                    assert(inner.contains(y));
                    if s.drop_last().contains(y) {
                        let m = choose|m: int| 0 <= m < s.drop_last().len() && s.drop_last()[m] == y;
                        assert(s[m] == y);
                    }
                }
            }
            if s.contains(y) {
                let k = choose|k: int| 0 <= k < s.len() && s[k] == y;
                if k == s.len() - 1 {
                    assert(r[r.len() - 1] == y);
                } else {
                    assert(s.drop_last()[k] == y);
                    assert(inner.contains(y));
                    let m = choose|m: int| 0 <= m < inner.len() && inner[m] == y;
                    assert(r[m] == y);
                }
            }
            if y == x {
                assert(inner.contains(x));
                let m = choose|m: int| 0 <= m < inner.len() && inner[m] == x;
                assert(r[m] == x);
            }
        }
    } else {
        let r = insert_candidate(s, x);
        assert(r == s.push(x));
        assert forall|y: SelectedCapabilityRoute| #[trigger] r.contains(y) <==> (s.contains(y) || y == x) by {
            if r.contains(y) {
                let k = choose|k: int| 0 <= k < r.len() && r[k] == y;
                if k < s.len() {
                    assert(s[k] == y);
                }
            }
            if s.contains(y) {
                let k = choose|k: int| 0 <= k < s.len() && s[k] == y;
                assert(r[k] == y);
            }
            if y == x {
                assert(r[s.len() as int] == x);
            }
        }
    }
}

proof fn lemma_insert_candidate_ordered(s: Seq<SelectedCapabilityRoute>, x: SelectedCapabilityRoute)
    requires
        in_selection_order(s),
    ensures
        in_selection_order(insert_candidate(s, x)),
    decreases s.len(),
{
    if s.len() == 0 {
        assert(insert_candidate(s, x) =~= seq![x]);
    } else if candidate_before(x, s.last()) {
        let inner = insert_candidate(s.drop_last(), x);
        assert(in_selection_order(s.drop_last()));
        lemma_insert_candidate_ordered(s.drop_last(), x);
        lemma_insert_candidate_members(s.drop_last(), x);
        let r = inner.push(s.last());
        assert forall|i: int, j: int| 0 <= i < j < r.len() implies !candidate_before(
            #[trigger] r[j],
            #[trigger] r[i],
        ) by {
            if j == r.len() - 1 {
                assert(inner.contains(r[i]));
                if r[i] != x {
                    assert(s.drop_last().contains(r[i]));
                    let m = choose|m: int| 0 <= m < s.drop_last().len() && s.drop_last()[m] == r[i];
                    assert(s[m] == r[i]);
                    assert(!candidate_before(s[s.len() - 1], s[m]));
                }
            } else {
                assert(r[i] == inner[i] && r[j] == inner[j]);
            }
        }
    } else {
        let r = s.push(x);
        assert forall|i: int, j: int| 0 <= i < j < r.len() implies !candidate_before(
            #[trigger] r[j],
            #[trigger] r[i],
        ) by {
            if j == r.len() - 1 {
                if i < s.len() - 1 {
                    assert(!candidate_before(s[s.len() - 1], s[i]));
                }
            } else {
                assert(r[i] == s[i] && r[j] == s[j]);
            }
        }
    }
}

proof fn lemma_sort_candidates(s: Seq<SelectedCapabilityRoute>)
    ensures
        in_selection_order(sort_candidates(s)),
        forall|y: SelectedCapabilityRoute| #[trigger] sort_candidates(s).contains(y) ==> s.contains(y),
    decreases s.len(),
{
    if s.len() > 0 {
        lemma_sort_candidates(s.drop_last());
        lemma_insert_candidate_ordered(sort_candidates(s.drop_last()), s.last());
        lemma_insert_candidate_members(sort_candidates(s.drop_last()), s.last());
        assert forall|y: SelectedCapabilityRoute| #[trigger] sort_candidates(s).contains(y) implies s.contains(y) by {
            if y == s.last() {
                assert(s[s.len() - 1] == y);
            } else {
                assert(sort_candidates(s.drop_last()).contains(y));
                let m = choose|m: int| 0 <= m < s.drop_last().len() && s.drop_last()[m] == y;
                assert(s[m] == y);
            }
        }
    }
}

proof fn lemma_select_all(b: OrchestrationBudget, cands: Seq<SelectedCapabilityRoute>)
    ensures
        select_all(b, cands).selected.len() <= b.max_submissions,
        select_all(b, cands).runs == distinct_runs(select_all(b, cands).selected),
        select_all(b, cands).runs.len() <= b.max_parallel_runs,
        0 <= select_all(b, cands).consumed <= b.resource_units,
        units_sum(select_all(b, cands).selected) == Some(select_all(b, cands).consumed as u16),
        forall|y: SelectedCapabilityRoute| #[trigger]
            select_all(b, cands).selected.contains(y) ==> cands.contains(y),
        in_selection_order(cands) ==> in_selection_order(select_all(b, cands).selected),
    decreases cands.len(),
{
    if cands.len() > 0 {
        let prev = cands.drop_last();
        let c = cands.last();
        lemma_select_all(b, prev);
        let st = select_all(b, prev);
        let nx = select_all(b, cands);
        assert(nx == select_step(b, st, c));
        assert forall|y: SelectedCapabilityRoute| #[trigger] st.selected.contains(y) implies cands.contains(
            y,
        ) by {
            let m = choose|m: int| 0 <= m < prev.len() && prev[m] == y;
            assert(cands[m] == y);
        }
        if in_selection_order(cands) {
            assert(in_selection_order(prev)) by {
                assert forall|i: int, j: int| 0 <= i < j < prev.len() implies !candidate_before(
                    #[trigger] prev[j],
                    #[trigger] prev[i],
                ) by {
                    assert(prev[i] == cands[i] && prev[j] == cands[j]);
                }
            }
        }
        if nx != st {
            let sel = st.selected.push(c);
            assert(nx.selected == sel);
            assert(sel.drop_last() =~= st.selected);
            assert(distinct_runs(sel) == nx.runs);
            assert(units_sum(sel) == Some(nx.consumed as u16));
            assert forall|y: SelectedCapabilityRoute| #[trigger] sel.contains(y) implies cands.contains(
                y,
            ) by {
                let k = choose|k: int| 0 <= k < sel.len() && sel[k] == y;
                if k == sel.len() - 1 {
                    assert(cands[cands.len() - 1] == y);
                } else {
                    assert(st.selected[k] == y);
                    assert(st.selected.contains(y));
                }
            }
            if in_selection_order(cands) {
                assert forall|i: int, j: int| 0 <= i < j < sel.len() implies !candidate_before(
                    #[trigger] sel[j],
                    #[trigger] sel[i],
                ) by {
                    if j == sel.len() - 1 {
                        assert(st.selected[i] == sel[i]);
                        assert(st.selected.contains(sel[i]));
                        let m = choose|m: int| 0 <= m < prev.len() && prev[m] == sel[i];
                        assert(cands[m] == sel[i]);
                        assert(!candidate_before(cands[cands.len() - 1], cands[m]));
                    } else {
                        assert(sel[i] == st.selected[i] && sel[j] == st.selected[j]);
                    }
                }
            }
        }
    }
}

proof fn lemma_ready_candidates(routes: Seq<CapabilityRoute>, run_ordinal: u8, objective_id: u64, route_hash: u64)
    ensures
        forall|y: SelectedCapabilityRoute| #[trigger]
            ready_candidates(routes, run_ordinal, objective_id, route_hash).contains(y) ==> {
                &&& y.run_ordinal == run_ordinal
                &&& y.objective_id == objective_id
                &&& y.route_hash == route_hash
                &&& y.route.ready
                &&& routes.contains(y.route)
                &&& y.resource_units == spec_route_resource_units(y.route)
            },
    decreases routes.len(),
{
    if routes.len() > 0 {
        lemma_ready_candidates(routes.drop_last(), run_ordinal, objective_id, route_hash);
        let rest = ready_candidates(routes.drop_last(), run_ordinal, objective_id, route_hash);
        let all = ready_candidates(routes, run_ordinal, objective_id, route_hash);
        assert forall|y: SelectedCapabilityRoute| #[trigger] all.contains(y) implies {
            &&& y.run_ordinal == run_ordinal
            &&& y.objective_id == objective_id
            &&& y.route_hash == route_hash
            &&& y.route.ready
            &&& routes.contains(y.route)
            &&& y.resource_units == spec_route_resource_units(y.route)
        } by {
            let k = choose|k: int| 0 <= k < all.len() && all[k] == y;
            if k < rest.len() {
                assert(rest[k] == y);
                assert(rest.contains(y));
                let m = choose|m: int|
                    0 <= m < routes.drop_last().len() && routes.drop_last()[m] == y.route;
                assert(routes[m] == y.route);
            } else {
                assert(routes[routes.len() - 1] == y.route);
            }
        }
    }
}

proof fn lemma_gather_valid(records: Seq<OrchestrationRecord>)
    ensures
        forall|y: SelectedCapabilityRoute| #[trigger]
            gather_candidates(records).contains(y) ==> y.spec_is_valid(),
    decreases records.len(),
{
    if records.len() > 0 {
        let prev = records.drop_last();
        let last = records.last();
        lemma_gather_valid(prev);
        let run = spec_run_ordinal(records.len() - 1);
        lemma_ready_candidates(last.routes@, run, last.objective_id, last.route_hash);
        let tail = if last.spec_decision() == OrchestrationDecision::Routed {
            ready_candidates(last.routes@, run, last.objective_id, last.route_hash)
        } else {
            Seq::empty()
        };
        let all = gather_candidates(records);
        assert(all == gather_candidates(prev) + tail);
        assert forall|y: SelectedCapabilityRoute| #[trigger] all.contains(y) implies y.spec_is_valid() by {
            let k = choose|k: int| 0 <= k < all.len() && all[k] == y;
            if k < gather_candidates(prev).len() {
                assert(gather_candidates(prev)[k] == y);
                assert(gather_candidates(prev).contains(y));
            } else {
                assert(tail[k - gather_candidates(prev).len()] == y);
                assert(tail.contains(y));
                let m = choose|m: int| 0 <= m < last.routes@.len() && last.routes@[m] == y.route;
                assert(last.routes@[m].spec_is_valid());
            }
        }
    }
}

proof fn lemma_batch_laws(records: Seq<OrchestrationRecord>, budget: OrchestrationBudget)
    ensures
        ({
            let st = select_all(budget, batch_candidates(records, budget));
            &&& st.selected.len() <= budget.max_submissions
            &&& distinct_runs(st.selected).len() <= budget.max_parallel_runs
            &&& 0 <= st.consumed <= budget.resource_units
            &&& units_sum(st.selected) == Some(st.consumed as u16)
            &&& in_selection_order(st.selected)
            &&& forall|i: int| 0 <= i < st.selected.len() ==> #[trigger] st.selected[i].spec_is_valid()
        }),
{
    let cands = batch_candidates(records, budget);
    if budget.spec_is_valid() {
        lemma_sort_candidates(gather_candidates(records));
        lemma_gather_valid(records);
    }
    lemma_select_all(budget, cands);
    let st = select_all(budget, cands);
    assert forall|i: int| 0 <= i < st.selected.len() implies #[trigger] st.selected[i].spec_is_valid() by {
        assert(st.selected.contains(st.selected[i]));
        assert(cands.contains(st.selected[i]));
        if budget.spec_is_valid() {
            assert(gather_candidates(records).contains(st.selected[i]));
        }
    }
}

proof fn lemma_priority_band(routes: Seq<CapabilityRoute>, p: int)
    ensures
        forall|k: int| 0 <= k < priority_band(routes, p).len() ==> {
            &&& (#[trigger] priority_band(routes, p)[k]).priority == p
            &&& priority_band(routes, p)[k].ready
            &&& routes.contains(priority_band(routes, p)[k])
        },
    decreases routes.len(),
{
    if routes.len() > 0 {
        lemma_priority_band(routes.drop_last(), p);
        let rest = priority_band(routes.drop_last(), p);
        let band = priority_band(routes, p);
        assert forall|k: int| 0 <= k < band.len() implies {
            &&& (#[trigger] band[k]).priority == p
            &&& band[k].ready
            &&& routes.contains(band[k])
        } by {
            if k < rest.len() {
                assert(band[k] == rest[k]);
                let m = choose|m: int| 0 <= m < routes.drop_last().len() && routes.drop_last()[m] == rest[k];
                assert(routes[m] == band[k]);
            } else {
                assert(routes[routes.len() - 1] == band[k]);
            }
        }
    }
}

proof fn lemma_bands_from(routes: Seq<CapabilityRoute>, p: int)
    ensures
        forall|k: int| 0 <= k < bands_from(routes, p).len() ==> {
            &&& (#[trigger] bands_from(routes, p)[k]).priority <= p
            &&& bands_from(routes, p)[k].ready
            &&& routes.contains(bands_from(routes, p)[k])
        },
        forall|i: int, j: int|
            0 <= i < j < bands_from(routes, p).len() ==> (#[trigger] bands_from(routes, p)[i]).priority
                >= (#[trigger] bands_from(routes, p)[j]).priority,
    decreases p + 1,
{
    if p >= 0 {
        lemma_bands_from(routes, p - 1);
        lemma_priority_band(routes, p);
        let band = priority_band(routes, p);
        let rest = bands_from(routes, p - 1);
        let all = bands_from(routes, p);
        assert(all == band + rest);
        assert forall|k: int| 0 <= k < all.len() implies {
            &&& (#[trigger] all[k]).priority <= p
            &&& all[k].ready
            &&& routes.contains(all[k])
        } by {
            if k < band.len() {
                assert(all[k] == band[k]);
            } else {
                assert(all[k] == rest[k - band.len()]);
            }
        }
        assert forall|i: int, j: int| 0 <= i < j < all.len() implies (#[trigger] all[i]).priority
            >= (#[trigger] all[j]).priority by {
            if j < band.len() {
                assert(all[i] == band[i] && all[j] == band[j]);
            } else if i < band.len() {
                assert(all[i] == band[i] && all[j] == rest[j - band.len()]);
            } else {
                assert(all[i] == rest[i - band.len()] && all[j] == rest[j - band.len()]);
            }
        }
    }
}

proof fn lemma_priority_band_ordinals(routes: Seq<CapabilityRoute>, p: int)
    requires
        ordinals_increase(routes),
    ensures
        ordinals_increase(priority_band(routes, p)),
    decreases routes.len(),
{
    if routes.len() > 0 {
        let prev = routes.drop_last();
        assert(ordinals_increase(prev)) by {
            assert forall|i: int, j: int| 0 <= i < j < prev.len() implies prev[i].ordinal
                < prev[j].ordinal by {
                assert(prev[i] == routes[i] && prev[j] == routes[j]);
            }
        }
        lemma_priority_band_ordinals(prev, p);
        lemma_priority_band(prev, p);
        let rest = priority_band(prev, p);
        let band = priority_band(routes, p);
        if routes.last().ready && routes.last().priority == p {
            assert forall|i: int, j: int| 0 <= i < j < band.len() implies band[i].ordinal
                < band[j].ordinal by {
                if j == band.len() - 1 {
                    assert(band[i] == rest[i]);
                    assert(prev.contains(rest[i]));
                    let m = choose|m: int| 0 <= m < prev.len() && prev[m] == rest[i];
                    assert(routes[m] == rest[i]);
                } else {
                    assert(band[i] == rest[i] && band[j] == rest[j]);
                }
            }
        }
    }
}

proof fn lemma_priority_band_complete(routes: Seq<CapabilityRoute>, k: int)
    requires
        0 <= k < routes.len(),
        routes[k].ready,
    ensures
        priority_band(routes, routes[k].priority as int).contains(routes[k]),
    decreases routes.len(),
{
    let p = routes[k].priority as int;
    let band = priority_band(routes, p);
    if k == routes.len() - 1 {
        assert(band[band.len() - 1] == routes[k]);
    } else {
        let prev = routes.drop_last();
        assert(prev[k] == routes[k]);
        lemma_priority_band_complete(prev, k);
        let rest = priority_band(prev, p);
        let m = choose|m: int| 0 <= m < rest.len() && rest[m] == routes[k];
        assert(band[m] == routes[k]);
    }
}

proof fn lemma_bands_from_complete(routes: Seq<CapabilityRoute>, p: int, k: int)
    requires
        0 <= k < routes.len(),
        routes[k].ready,
        routes[k].priority <= p,
    ensures
        bands_from(routes, p).contains(routes[k]),
    decreases p + 1,
{
    let band = priority_band(routes, p);
    let rest = bands_from(routes, p - 1);
    assert(bands_from(routes, p) == band + rest);
    if routes[k].priority == p {
        lemma_priority_band_complete(routes, k);
        let m = choose|m: int| 0 <= m < band.len() && band[m] == routes[k];
        assert((band + rest)[m] == routes[k]);
    } else {
        lemma_bands_from_complete(routes, p - 1, k);
        let m = choose|m: int| 0 <= m < rest.len() && rest[m] == routes[k];
        assert((band + rest)[band.len() + m] == routes[k]);
    }
}

proof fn lemma_bands_from_ordered(routes: Seq<CapabilityRoute>, p: int)
    requires
        ordinals_increase(routes),
    ensures
        forall|i: int, j: int|
            0 <= i < j < bands_from(routes, p).len() ==> {
                ||| (#[trigger] bands_from(routes, p)[i]).priority > (#[trigger] bands_from(
                    routes,
                    p,
                )[j]).priority
                ||| bands_from(routes, p)[i].priority == bands_from(routes, p)[j].priority
                    && bands_from(routes, p)[i].ordinal < bands_from(routes, p)[j].ordinal
            },
    decreases p + 1,
{
    if p >= 0 {
        lemma_bands_from_ordered(routes, p - 1);
        lemma_bands_from(routes, p - 1);
        lemma_priority_band(routes, p);
        lemma_priority_band_ordinals(routes, p);
        let band = priority_band(routes, p);
        let rest = bands_from(routes, p - 1);
        let all = bands_from(routes, p);
        assert(all == band + rest);
        assert forall|i: int, j: int| 0 <= i < j < all.len() implies {
            ||| (#[trigger] all[i]).priority > (#[trigger] all[j]).priority
            ||| all[i].priority == all[j].priority && all[i].ordinal < all[j].ordinal
        } by {
            if j < band.len() {
                assert(all[i] == band[i] && all[j] == band[j]);
            } else if i < band.len() {
                assert(all[i] == band[i] && all[j] == rest[j - band.len()]);
            } else {
                assert(all[i] == rest[i - band.len()] && all[j] == rest[j - band.len()]);
            }
        }
    }
}

/// The submission order of a routing record whose ordinals increase is its
/// ready routes, each once, highest priority first and, within a priority,
/// by ordinal: the ready routes sorted by (priority descending, ordinal).
pub proof fn lemma_submission_order(routes: Seq<CapabilityRoute>)
    requires
        ordinals_increase(routes),
    ensures
        forall|k: int| 0 <= k < submission_order(routes).len() ==> {
            &&& (#[trigger] submission_order(routes)[k]).ready
            &&& routes.contains(submission_order(routes)[k])
        },
        forall|k: int| 0 <= k < routes.len() && (#[trigger] routes[k]).ready ==> submission_order(
            routes,
        ).contains(routes[k]),
        forall|i: int, j: int|
            0 <= i < j < submission_order(routes).len() ==> {
                ||| (#[trigger] submission_order(routes)[i]).priority > (
                #[trigger] submission_order(routes)[j]).priority
                ||| submission_order(routes)[i].priority == submission_order(routes)[j].priority
                    && submission_order(routes)[i].ordinal < submission_order(routes)[j].ordinal
            },
{
    lemma_bands_from(routes, 255);
    lemma_bands_from_ordered(routes, 255);
    assert forall|k: int| 0 <= k < routes.len() && (#[trigger] routes[k]).ready implies submission_order(
        routes,
    ).contains(routes[k]) by {
        lemma_bands_from_complete(routes, 255, k);
    }
}

} // verus!
