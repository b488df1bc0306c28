//! Shared pieces of execution receipts: the effect a tool call had, the
//! sandbox's errors, and the byte hash that receipts carry.
use vstd::prelude::*;
use vstd::string::StringSliceAdditionalSpecFns;
use crate::capability::llm::transport::fold_bytes_mix;
use crate::kernel::{fold_mix, mix, nonzero, nz, spec_fold_mix, spec_mix};

verus! {

/// Failures of the tool sandbox.
#[derive(Clone, Copy, Debug, PartialEq, Eq, Structural)]
pub enum ToolSandboxError {
    InvalidCommand,
    CommandDenied,
    ArtifactTooLarge,
    OutputTooLarge,
    SandboxIo,
    InvalidToolReceipt,
    InvalidToolReceiptRecord,
    InvalidReplay,
}

/// What a tool call produced.
#[derive(Clone, Copy, Debug, PartialEq, Eq, Structural)]
pub enum ToolEffectKind {
    Absent,
    Artifact,
    Process,
}

impl ToolEffectKind {
    /// The number that stands for the kind in a record line.
    pub open spec fn spec_id(self) -> u64 {
        match self {
            ToolEffectKind::Absent => 0,
            ToolEffectKind::Artifact => 1,
            ToolEffectKind::Process => 2,
        }
    }

    pub fn id(self) -> (r: u64)
        ensures
            r == self.spec_id(),
    {
        match self {
            ToolEffectKind::Absent => 0,
            ToolEffectKind::Artifact => 1,
            ToolEffectKind::Process => 2,
        }
    }
}

/// The kind a record line's number stands for.
pub open spec fn spec_tool_effect_kind_from_u64(value: u64) -> Option<ToolEffectKind> {
    if value == 0 {
        Some(ToolEffectKind::Absent)
    } else if value == 1 {
        Some(ToolEffectKind::Artifact)
    } else if value == 2 {
        Some(ToolEffectKind::Process)
    } else {
        None
    }
}

pub fn tool_effect_kind_from_u64(value: u64) -> (r: Result<ToolEffectKind, ToolSandboxError>)
    ensures
        r == (match spec_tool_effect_kind_from_u64(value) {
            Some(k) => Ok(k),
            None => Err(ToolSandboxError::InvalidToolReceiptRecord),
        }),
{
    match value {
        0 => Ok(ToolEffectKind::Absent),
        1 => Ok(ToolEffectKind::Artifact),
        2 => Ok(ToolEffectKind::Process),
        _ => Err(ToolSandboxError::InvalidToolReceiptRecord),
    }
}

/// `true` as 1 and `false` as 0, as record lines write a flag.
pub open spec fn flag(b: bool) -> u64 {
    if b {
        1
    } else {
        0
    }
}

pub fn flag_u64(b: bool) -> (r: u64)
    ensures
        r == flag(b),
{
    if b {
        1
    } else {
        0
    }
}

/// The effect of a tool call: its kind, a digest of what it produced, and
/// a digest of how it ran.
#[derive(Clone, Copy, Debug, PartialEq, Eq, Structural)]
pub struct Effect {
    pub kind: ToolEffectKind,
    pub digest: u64,
    pub metadata: u64,
}

/// Seed of a process effect's output digest.
pub const PROCESS_DIGEST_SEED: u64 = 0x7072_6f63_6f75_7431;

/// Seed of a process effect's run metadata.
pub const PROCESS_METADATA_SEED: u64 = 0x7072_6f63_6d65_7461;

/// Seed of an effect's contract hash.
pub const EFFECT_CONTRACT_SEED: u64 = 0x6566_6665_6374_6331;

impl Effect {
    /// The effect of a process run: the digest covers both output hashes,
    /// the metadata the output sizes, the exit status and the timeout flag.
    pub open spec fn spec_process(
        stdout_hash: u64,
        stderr_hash: u64,
        stdout_bytes: u64,
        stderr_bytes: u64,
        exit_status: u64,
        timed_out: bool,
    ) -> Effect {
        Effect {
            kind: ToolEffectKind::Process,
            digest: nz(spec_fold_mix(PROCESS_DIGEST_SEED, seq![stdout_hash, stderr_hash])),
            metadata: nz(
                spec_fold_mix(
                    PROCESS_METADATA_SEED,
                    seq![stdout_bytes, stderr_bytes, exit_status, flag(timed_out)],
                ),
            ),
        }
    }

    pub fn process(
        stdout_hash: u64,
        stderr_hash: u64,
        stdout_bytes: u64,
        stderr_bytes: u64,
        exit_status: u64,
        timed_out: bool,
    ) -> (r: Effect)
        ensures
            r == Effect::spec_process(
                stdout_hash,
                stderr_hash,
                stdout_bytes,
                stderr_bytes,
                exit_status,
                timed_out,
            ),
    {
        let digest = nonzero(fold_mix(PROCESS_DIGEST_SEED, &[stdout_hash, stderr_hash]));
        let metadata = nonzero(
            fold_mix(
                PROCESS_METADATA_SEED,
                &[stdout_bytes, stderr_bytes, exit_status, flag_u64(timed_out)],
            ),
        );
        Effect { kind: ToolEffectKind::Process, digest, metadata }
    }

    /// An absent effect carries no digests; a present one has a digest.
    pub open spec fn spec_is_valid(self) -> bool {
        match self.kind {
            ToolEffectKind::Absent => self.digest == 0 && self.metadata == 0,
            _ => self.digest != 0,
        }
    }

    pub fn is_valid(&self) -> (r: bool)
        ensures
            r == self.spec_is_valid(),
    {
        match self.kind {
            ToolEffectKind::Absent => self.digest == 0 && self.metadata == 0,
            _ => self.digest != 0,
        }
    }

    pub open spec fn spec_contract_hash(self) -> u64 {
        nz(spec_fold_mix(EFFECT_CONTRACT_SEED, seq![self.kind.spec_id(), self.digest, self.metadata]))
    }

    pub fn contract_hash(&self) -> (r: u64)
        ensures
            r == self.spec_contract_hash(),
    {
        nonzero(fold_mix(EFFECT_CONTRACT_SEED, &[self.kind.id(), self.digest, self.metadata]))
    }
}

/// Seed of the byte hash.
pub const BYTES_HASH_SEED: u64 = 0x6a09_e667_f3bc_c909;

/// Hash of bytes: their length, then each byte, folded into the seed;
/// never zero.
pub open spec fn spec_bytes_hash(bytes: Seq<u8>) -> u64 {
    nz(fold_bytes_mix(spec_mix(BYTES_HASH_SEED, bytes.len() as u64), bytes))
}

pub fn bytes_hash(bytes: &[u8]) -> (r: u64)
    ensures
        r == spec_bytes_hash(bytes@),
        r != 0,
{
    let seed = mix(BYTES_HASH_SEED, bytes.len() as u64);
    let mut h = seed;
    let mut i: usize = 0;
    while i < bytes.len()
        invariant
            i <= bytes@.len(),
            h == fold_bytes_mix(seed, bytes@.take(i as int)),
        decreases bytes@.len() - i,
    {
        assert(bytes@.take(i as int + 1).drop_last() =~= bytes@.take(i as int));
        h = mix(h, bytes[i] as u64);
        i = i + 1;
    }
    assert(bytes@.take(i as int) =~= bytes@);
    nonzero(h)
}

/// Hash of a text's UTF-8 bytes.
pub fn string_hash(value: &str) -> (r: u64)
    ensures
        r == spec_bytes_hash(value.spec_bytes()),
        r != 0,
{
    bytes_hash(value.as_bytes())
}

} // verus!
