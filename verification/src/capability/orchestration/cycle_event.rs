//! Agent cycle events: scheduling journal entries whose contract hash binds
//! kind, agent, cycle, label and content.
use vstd::prelude::*;
use crate::kernel::{mix, nonzero, nz, spec_mix};

verus! {

pub const AGENT_CYCLE_EVENT_SCHEMA_VERSION: u64 = 1;

#[derive(Clone, Copy, Debug, PartialEq, Eq, Structural)]
pub enum AgentCycleEventKind {
    CycleStart,
    TurnComplete,
    TurnFailed,
    CycleEnd,
}

impl AgentCycleEventKind {
    pub open spec fn spec_as_u64(self) -> u64 {
        match self {
            AgentCycleEventKind::CycleStart => 1,
            AgentCycleEventKind::TurnComplete => 2,
            AgentCycleEventKind::TurnFailed => 3,
            AgentCycleEventKind::CycleEnd => 4,
        }
    }

    pub fn as_u64(self) -> (r: u64)
        ensures
            r == self.spec_as_u64(),
    {
        match self {
            AgentCycleEventKind::CycleStart => 1,
            AgentCycleEventKind::TurnComplete => 2,
            AgentCycleEventKind::TurnFailed => 3,
            AgentCycleEventKind::CycleEnd => 4,
        }
    }
}

/// A scheduling journal entry; string fields are pre-hashed.
#[derive(Clone, Copy, Debug, PartialEq, Eq, Structural)]
pub struct AgentCycleEvent {
    pub kind: AgentCycleEventKind,
    pub agent_hash: u64,
    pub cycle: u64,
    pub label_hash: u64,
    pub content_hash: u64,
    pub contract_hash: u64,
}

pub open spec fn spec_cycle_contract_hash(
    kind: AgentCycleEventKind,
    agent_hash: u64,
    cycle: u64,
    label_hash: u64,
    content_hash: u64,
) -> u64 {
    let h = spec_mix(0x9e37_79b9_7f4a_7c15u64, AGENT_CYCLE_EVENT_SCHEMA_VERSION);
    let h = spec_mix(h, kind.spec_as_u64());
    let h = spec_mix(h, agent_hash);
    let h = spec_mix(h, cycle);
    let h = spec_mix(h, label_hash);
    let h = spec_mix(h, content_hash);
    nz(h)
}

fn expected_contract_hash(
    kind: AgentCycleEventKind,
    agent_hash: u64,
    cycle: u64,
    label_hash: u64,
    content_hash: u64,
) -> (r: u64)
    ensures
        r == spec_cycle_contract_hash(kind, agent_hash, cycle, label_hash, content_hash),
{
    let mut h = mix(0x9e37_79b9_7f4a_7c15u64, AGENT_CYCLE_EVENT_SCHEMA_VERSION);
    h = mix(h, kind.as_u64());
    h = mix(h, agent_hash);
    h = mix(h, cycle);
    h = mix(h, label_hash);
    h = mix(h, content_hash);
    nonzero(h)
}

impl AgentCycleEvent {
    pub open spec fn spec_is_contract_valid(self) -> bool {
        &&& self.contract_hash != 0
        &&& self.agent_hash != 0
        &&& self.cycle != 0
        &&& self.contract_hash == spec_cycle_contract_hash(
            self.kind,
            self.agent_hash,
            self.cycle,
            self.label_hash,
            self.content_hash,
        )
    }

    pub fn new(
        kind: AgentCycleEventKind,
        agent_hash: u64,
        cycle: u64,
        label_hash: u64,
        content_hash: u64,
    ) -> (r: Self)
        ensures
            r == (AgentCycleEvent {
                kind,
                agent_hash,
                cycle,
                label_hash,
                content_hash,
                contract_hash: spec_cycle_contract_hash(
                    kind,
                    agent_hash,
                    cycle,
                    label_hash,
                    content_hash,
                ),
            }),
            r.spec_is_contract_valid() <==> (agent_hash != 0 && cycle != 0),
    {
        let contract_hash = expected_contract_hash(
            kind,
            agent_hash,
            cycle,
            label_hash,
            content_hash,
        );
        AgentCycleEvent { kind, agent_hash, cycle, label_hash, content_hash, contract_hash }
    }

    pub fn is_contract_valid(self) -> (r: bool)
        ensures
            r == self.spec_is_contract_valid(),
    {
        self.contract_hash != 0 && self.agent_hash != 0 && self.cycle != 0 && self.contract_hash
            == expected_contract_hash(
            self.kind,
            self.agent_hash,
            self.cycle,
            self.label_hash,
            self.content_hash,
        )
    }

    pub fn contract_hash(self) -> (r: u64)
        ensures
            r == self.contract_hash,
    {
        self.contract_hash
    }
}

} // verus!
