//! Wave scheduling records: one `WaveRecord` before a wave is spawned and
//! one `ChildCompleteRecord` per child after it joins.
use vstd::prelude::*;
use crate::kernel::{mix, nonzero, nz, spec_mix};

verus! {

pub const WAVE_RECORD_SCHEMA_VERSION: u64 = 1;

pub const CHILD_COMPLETE_SCHEMA_VERSION: u64 = 1;

#[derive(Clone, Copy, Debug, PartialEq, Eq, Structural)]
pub struct WaveRecord {
    pub wave_id: u64,
    pub parent_hash: u64,
    pub cycle: u64,
    pub node_count: u16,
    pub node_ids_hash: u64,
    pub contract_hash: u64,
}

pub open spec fn spec_wave_contract_hash(
    wave_id: u64,
    parent_hash: u64,
    cycle: u64,
    node_count: u16,
    node_ids_hash: u64,
) -> u64 {
    let h = spec_mix(0xda3e_39cb_97f2_9809u64, WAVE_RECORD_SCHEMA_VERSION);
    let h = spec_mix(h, wave_id);
    let h = spec_mix(h, parent_hash);
    let h = spec_mix(h, cycle);
    let h = spec_mix(h, node_count as u64);
    let h = spec_mix(h, node_ids_hash);
    nz(h)
}

fn expected_wave_contract_hash(
    wave_id: u64,
    parent_hash: u64,
    cycle: u64,
    node_count: u16,
    node_ids_hash: u64,
) -> (r: u64)
    ensures
        r == spec_wave_contract_hash(wave_id, parent_hash, cycle, node_count, node_ids_hash),
{
    let mut h = mix(0xda3e_39cb_97f2_9809u64, WAVE_RECORD_SCHEMA_VERSION);
    h = mix(h, wave_id);
    h = mix(h, parent_hash);
    h = mix(h, cycle);
    h = mix(h, node_count as u64);
    h = mix(h, node_ids_hash);
    nonzero(h)
}

impl WaveRecord {
    pub open spec fn spec_is_contract_valid(self) -> bool {
        &&& self.wave_id != 0
        &&& self.parent_hash != 0
        &&& self.cycle != 0
        &&& self.node_count > 0
        &&& self.contract_hash != 0
        &&& self.contract_hash == spec_wave_contract_hash(
            self.wave_id,
            self.parent_hash,
            self.cycle,
            self.node_count,
            self.node_ids_hash,
        )
    }

    pub fn new(wave_id: u64, parent_hash: u64, cycle: u64, node_count: u16, node_ids_hash: u64) -> (r:
        Self)
        ensures
            r == (WaveRecord {
                wave_id,
                parent_hash,
                cycle,
                node_count,
                node_ids_hash,
                contract_hash: spec_wave_contract_hash(
                    wave_id,
                    parent_hash,
                    cycle,
                    node_count,
                    node_ids_hash,
                ),
            }),
            r.spec_is_contract_valid() <==> (wave_id != 0 && parent_hash != 0 && cycle != 0
                && node_count > 0),
    {
        let contract_hash = expected_wave_contract_hash(
            wave_id,
            parent_hash,
            cycle,
            node_count,
            node_ids_hash,
        );
        WaveRecord { wave_id, parent_hash, cycle, node_count, node_ids_hash, contract_hash }
    }

    pub fn is_contract_valid(self) -> (r: bool)
        ensures
            r == self.spec_is_contract_valid(),
    {
        self.wave_id != 0 && self.parent_hash != 0 && self.cycle != 0 && self.node_count > 0
            && self.contract_hash != 0 && self.contract_hash == expected_wave_contract_hash(
            self.wave_id,
            self.parent_hash,
            self.cycle,
            self.node_count,
            self.node_ids_hash,
        )
    }

    pub fn contract_hash(self) -> (r: u64)
        ensures
            r == self.contract_hash,
    {
        self.contract_hash
    }
}

#[derive(Clone, Copy, Debug, PartialEq, Eq, Structural)]
pub struct ChildCompleteRecord {
    pub wave_id: u64,
    pub node_id_hash: u64,
    /// 0 = completed normally, 1 = thread panicked.
    pub exit_status: u8,
    pub contract_hash: u64,
}

pub open spec fn spec_child_contract_hash(wave_id: u64, node_id_hash: u64, exit_status: u8) -> u64 {
    let h = spec_mix(0x8b3f_2711_cef4_0001u64, CHILD_COMPLETE_SCHEMA_VERSION);
    let h = spec_mix(h, wave_id);
    let h = spec_mix(h, node_id_hash);
    let h = spec_mix(h, exit_status as u64);
    nz(h)
}

fn expected_child_contract_hash(wave_id: u64, node_id_hash: u64, exit_status: u8) -> (r: u64)
    ensures
        r == spec_child_contract_hash(wave_id, node_id_hash, exit_status),
{
    let mut h = mix(0x8b3f_2711_cef4_0001u64, CHILD_COMPLETE_SCHEMA_VERSION);
    h = mix(h, wave_id);
    h = mix(h, node_id_hash);
    h = mix(h, exit_status as u64);
    nonzero(h)
}

impl ChildCompleteRecord {
    pub open spec fn spec_is_contract_valid(self) -> bool {
        &&& self.wave_id != 0
        &&& self.node_id_hash != 0
        &&& self.contract_hash != 0
        &&& self.contract_hash == spec_child_contract_hash(
            self.wave_id,
            self.node_id_hash,
            self.exit_status,
        )
    }

    pub fn new(wave_id: u64, node_id_hash: u64, panicked: bool) -> (r: Self)
        ensures
            r == (ChildCompleteRecord {
                wave_id,
                node_id_hash,
                exit_status: if panicked {
                    1u8
                } else {
                    0u8
                },
                contract_hash: spec_child_contract_hash(
                    wave_id,
                    node_id_hash,
                    if panicked {
                        1u8
                    } else {
                        0u8
                    },
                ),
            }),
            r.spec_is_contract_valid() <==> (wave_id != 0 && node_id_hash != 0),
    {
        let exit_status: u8 = if panicked {
            1
        } else {
            0
        };
        let contract_hash = expected_child_contract_hash(wave_id, node_id_hash, exit_status);
        ChildCompleteRecord { wave_id, node_id_hash, exit_status, contract_hash }
    }

    pub fn is_contract_valid(self) -> (r: bool)
        ensures
            r == self.spec_is_contract_valid(),
    {
        self.wave_id != 0 && self.node_id_hash != 0 && self.contract_hash != 0
            && self.contract_hash == expected_child_contract_hash(
            self.wave_id,
            self.node_id_hash,
            self.exit_status,
        )
    }

    pub fn contract_hash(self) -> (r: u64)
        ensures
            r == self.contract_hash,
    {
        self.contract_hash
    }
}

} // verus!
