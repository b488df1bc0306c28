//! Graph artifact metadata and freshness: the sidecar that pins a graph
//! artifact to the transition-log position it was captured at, so that a
//! caller can skip a re-capture while the log has not moved past it.
use vstd::prelude::*;
use crate::kernel::ControlEvent;

verus! {

/// Sidecar metadata pinning a graph artifact to its source log position.
#[derive(Clone, Copy, Debug, PartialEq, Eq, Structural)]
pub struct GraphArtifactMeta {
    /// seq of the log event that triggered the last graph capture.
    pub tlog_seq: u64,
    /// Hash of the graph artifact content at capture time.
    pub graph_hash: u64,
    /// Node count at capture time.
    pub node_count: usize,
    /// Edge count at capture time.
    pub edge_count: usize,
    /// Unix timestamp ms when the artifact was written.
    pub created_at: u64,
}

/// The sequence number of the last event of the log, 0 for an empty log.
pub open spec fn last_event_seq(tlog: Seq<ControlEvent>) -> u64 {
    if tlog.len() == 0 {
        0
    } else {
        tlog.last().seq
    }
}

/// `true` while the artifact still covers the log: the log has not advanced
/// past the position the artifact was captured at.
pub fn is_graph_artifact_fresh(meta: &GraphArtifactMeta, tlog: &[ControlEvent]) -> (r: bool)
    ensures
        r == (meta.tlog_seq >= last_event_seq(tlog@)),
{
    let last_seq = if tlog.len() == 0 {
        0
    } else {
        tlog[tlog.len() - 1].seq
    };
    meta.tlog_seq >= last_seq
}

/// `true` when the recorded graph hash is the expected one.
pub fn graph_artifact_hash_matches(meta: &GraphArtifactMeta, expected_hash: u64) -> (r: bool)
    ensures
        r == (meta.graph_hash == expected_hash),
{
    meta.graph_hash == expected_hash
}

/// Appending events at or below the artifact's position keeps a fresh
/// artifact fresh; one event above it makes the artifact stale.
pub proof fn lemma_freshness_follows_log(
    meta: GraphArtifactMeta,
    tlog: Seq<ControlEvent>,
    event: ControlEvent,
)
    ensures
        event.seq <= meta.tlog_seq ==> meta.tlog_seq >= last_event_seq(tlog.push(event)),
        event.seq > meta.tlog_seq ==> !(meta.tlog_seq >= last_event_seq(tlog.push(event))),
{
}

} // verus!
