//! Static analysis capability: the counts a rustc analysis run leaves in its
//! semantic index, and the typed receipt that binds them to the crate and the
//! capture time.
use vstd::prelude::*;
use vstd::string::StringSliceAdditionalSpecFns;
use crate::kernel::{fnv_bytes, nz, spec_fnv_fold, FNV_OFFSET_BASIS, FNV_PRIME};
use crate::text::{owned, push_str, str_eq};

verus! {

/// Typed receipt for a completed rustc analysis run.
#[derive(Clone, Debug, PartialEq, Eq)]
pub struct AnalysisReceipt {
    pub crate_name: String,
    pub node_count: usize,
    pub edge_count: usize,
    /// Number of functions with a non-empty intent classification.
    pub intent_count: usize,
    /// Stable hash over crate_name, counts, and capture timestamp.
    pub receipt_hash: u64,
    pub artifact_dir: String,
    pub captured_at_ms: u64,
}

impl AnalysisReceipt {
    /// A receipt names its crate, has a hash, and its artifact directory still
    /// holds its required files (whose presence the caller looked up).
    pub fn is_contract_valid(&self, required_files_present: bool) -> (r: bool)
        ensures
            r == (self.crate_name@.len() > 0 && self.receipt_hash > 0 && required_files_present),
    {
        self.crate_name.unicode_len() != 0 && self.receipt_hash > 0 && required_files_present
    }
}

pub open spec fn spec_compute_receipt_hash(
    crate_name: Seq<u8>,
    node_count: usize,
    edge_count: usize,
    intent_count: usize,
    captured_at_ms: u64,
) -> u64 {
    let h = spec_fnv_fold(FNV_OFFSET_BASIS, crate_name);
    let h = vstd::wrapping::u64_specs::wrapping_mul(
        vstd::wrapping::u64_specs::wrapping_add(h, node_count as u64),
        FNV_PRIME,
    );
    let h = vstd::wrapping::u64_specs::wrapping_mul(
        vstd::wrapping::u64_specs::wrapping_add(h, edge_count as u64),
        FNV_PRIME,
    );
    let h = vstd::wrapping::u64_specs::wrapping_add(h, intent_count as u64);
    nz(h ^ captured_at_ms)
}

/// FNV-1a over the crate name, then the three counts, then the capture time;
/// never zero.
pub fn compute_receipt_hash(
    crate_name: &str,
    node_count: usize,
    edge_count: usize,
    intent_count: usize,
    captured_at_ms: u64,
) -> (r: u64)
    ensures
        r == spec_compute_receipt_hash(
            crate_name.spec_bytes(),
            node_count,
            edge_count,
            intent_count,
            captured_at_ms,
        ),
        r != 0,
{
    let mut h = fnv_bytes(FNV_OFFSET_BASIS, crate_name.as_bytes());
    h = h.wrapping_add(node_count as u64);
    h = h.wrapping_mul(FNV_PRIME);
    h = h.wrapping_add(edge_count as u64);
    h = h.wrapping_mul(FNV_PRIME);
    h = h.wrapping_add(intent_count as u64);
    h = h ^ captured_at_ms;
    if h == 0 {
        1
    } else {
        h
    }
}

/// What `serde_json` reads from one line of the semantic index: `None` when
/// the line is not JSON, else the string values of its `kind` and
/// `node_kind` fields (`None` where a field is absent or not a string).
/// A function of the line alone.
pub uninterp spec fn semantic_line_fields(line: Seq<char>) -> Option<
    (Option<Seq<char>>, Option<Seq<char>>),
>;

pub open spec fn opt_string_view(s: Option<String>) -> Option<Seq<char>> {
    match s {
        Some(t) => Some(t@),
        None => None,
    }
}

/// Parses a line with `serde_json::from_str::<serde_json::Value>` and reads
/// its `kind` and `node_kind` string fields.
#[verifier::external_body]
fn read_semantic_line(line: &str) -> (r: Option<(Option<String>, Option<String>)>)
    ensures
        semantic_line_fields(line@) == match r {
            Some((kind, node_kind)) => Some((opt_string_view(kind), opt_string_view(node_kind))),
            None => None,
        },
{
    let value: serde_json::Value = serde_json::from_str(line).ok()?;
    let kind = value.get("kind").and_then(serde_json::Value::as_str).map(str::to_owned);
    let node_kind = value.get("node_kind").and_then(serde_json::Value::as_str).map(str::to_owned);
    Some((kind, node_kind))
}

/// What one line adds to the node, edge and function counts: a
/// `symbol_def` is a node, and a function when its `node_kind` is `fn`; a
/// `semantic_edge` is an edge; empty, unreadable and other lines add nothing.
pub open spec fn semantic_line_counts(line: Seq<char>) -> (nat, nat, nat) {
    if line.len() == 0 {
        (0, 0, 0)
    } else {
        match semantic_line_fields(line) {
            Some((kind, node_kind)) => if kind == Some("symbol_def"@) {
                (1, 0, if node_kind == Some("fn"@) {
                    1
                } else {
                    0
                })
            } else if kind == Some("semantic_edge"@) {
                (0, 1, 0)
            } else {
                (0, 0, 0)
            },
            None => (0, 0, 0),
        }
    }
}

pub open spec fn spec_semantic_counts(lines: Seq<Seq<char>>) -> (nat, nat, nat)
    decreases lines.len(),
{
    if lines.len() == 0 {
        (0, 0, 0)
    } else {
        let p = spec_semantic_counts(lines.drop_last());
        let d = semantic_line_counts(lines.last());
        ((p.0 + d.0) as nat, (p.1 + d.1) as nat, (p.2 + d.2) as nat)
    }
}

proof fn lemma_semantic_counts_bound(lines: Seq<Seq<char>>)
    ensures
        spec_semantic_counts(lines).0 <= lines.len(),
        spec_semantic_counts(lines).1 <= lines.len(),
        spec_semantic_counts(lines).2 <= spec_semantic_counts(lines).0,
    decreases lines.len(),
{
    if lines.len() > 0 {
        lemma_semantic_counts_bound(lines.drop_last());
    }
}

pub open spec fn line_views(lines: Seq<String>) -> Seq<Seq<char>> {
    Seq::new(lines.len(), |i: int| lines[i]@)
}

/// The node, edge and function counts of the semantic index's lines.
pub fn semantic_counts(lines: &[String]) -> (r: (usize, usize, usize))
    ensures
        (r.0 as nat, r.1 as nat, r.2 as nat) == spec_semantic_counts(line_views(lines@)),
{
    let ghost views = line_views(lines@);
    let mut nodes: usize = 0;
    let mut edges: usize = 0;
    let mut fns: usize = 0;
    let mut i: usize = 0;
    while i < lines.len()
        invariant
            i <= lines@.len(),
            views == line_views(lines@),
            (nodes as nat, edges as nat, fns as nat) == spec_semantic_counts(views.take(i as int)),
        decreases lines@.len() - i,
    {
        assert(views.take(i + 1).drop_last() =~= views.take(i as int));
        assert(views.take(i + 1).last() == lines@[i as int]@);
        proof {
            lemma_semantic_counts_bound(views.take(i as int));
        }
        let line = lines[i].as_str();
        if line.unicode_len() != 0 {
            match read_semantic_line(line) {
                Some((kind, node_kind)) => {
                    let is_def = match &kind {
                        Some(k) => str_eq(k.as_str(), "symbol_def"),
                        None => false,
                    };
                    let is_edge = match &kind {
                        Some(k) => str_eq(k.as_str(), "semantic_edge"),
                        None => false,
                    };
                    if is_def {
                        nodes = nodes + 1;
                        let is_fn = match &node_kind {
                            Some(n) => str_eq(n.as_str(), "fn"),
                            None => false,
                        };
                        if is_fn {
                            fns = fns + 1;
                        }
                    } else if is_edge {
                        edges = edges + 1;
                    }
                },
                None => {},
            }
        }
        i = i + 1;
    }
    assert(views.take(i as int) =~= views);
    (nodes, edges, fns)
}

/// `Path::join` of a relative name, as displayed: a separator is put
/// between a non-empty directory and the name unless the directory already
/// ends with one.
pub open spec fn spec_join_path(dir: Seq<char>, name: Seq<char>) -> Seq<char> {
    if dir.len() == 0 || dir.last() == '/' {
        dir + name
    } else {
        dir + seq!['/'] + name
    }
}

pub fn join_path(dir: &str, name: &str) -> (r: String)
    ensures
        r@ == spec_join_path(dir@, name@),
{
    let n = dir.unicode_len();
    let mut s = owned(dir);
    if n != 0 && dir.get_char(n - 1) != '/' {
        crate::text::push_char(&mut s, '/');
    }
    push_str(&mut s, name);
    s
}

/// The receipt of an artifact directory, given its required files in the
/// order they are checked, each with whether it exists, and the lines of the
/// semantic index: an error naming the first missing file and its path,
/// else the counts of the index and their hash.
pub fn parse_artifact_receipt(
    crate_name: &str,
    artifact_dir: &str,
    required_files: &[(&str, bool)],
    semantic_lines: &[String],
    captured_at_ms: u64,
) -> (r: Result<AnalysisReceipt, String>)
    ensures
        match r {
            Err(e) => exists|i: int|
                0 <= i < required_files@.len() && !(#[trigger] required_files@[i]).1 && (forall|
                    j: int,
                | 0 <= j < i ==> (#[trigger] required_files@[j]).1) && e@ == required_files@[i].0@
                    + " not found at "@ + spec_join_path(artifact_dir@, required_files@[i].0@),
            Ok(receipt) => {
                let counts = spec_semantic_counts(line_views(semantic_lines@));
                &&& forall|i: int| 0 <= i < required_files@.len() ==> (#[trigger] required_files@[i]).1
                &&& receipt.crate_name@ == crate_name@
                &&& receipt.artifact_dir@ == artifact_dir@
                &&& receipt.node_count == counts.0
                &&& receipt.edge_count == counts.1
                &&& receipt.intent_count == counts.2
                &&& receipt.captured_at_ms == captured_at_ms
                &&& receipt.receipt_hash == spec_compute_receipt_hash(
                    crate_name.spec_bytes(),
                    receipt.node_count,
                    receipt.edge_count,
                    receipt.intent_count,
                    captured_at_ms,
                )
            },
        },
{
    let mut i: usize = 0;
    while i < required_files.len()
        invariant
            i <= required_files@.len(),
            forall|j: int| 0 <= j < i ==> (#[trigger] required_files@[j]).1,
        decreases required_files@.len() - i,
    {
        let (name, exists) = required_files[i];
        if !exists {
            let mut msg = owned(name);
            push_str(&mut msg, " not found at ");
            let path = join_path(artifact_dir, name);
            push_str(&mut msg, path.as_str());
            assert(!required_files@[i as int].1);
            return Err(msg);
        }
        i = i + 1;
    }
    let (node_count, edge_count, intent_count) = semantic_counts(semantic_lines);
    let receipt_hash = compute_receipt_hash(
        crate_name,
        node_count,
        edge_count,
        intent_count,
        captured_at_ms,
    );
    Ok(
        AnalysisReceipt {
            crate_name: owned(crate_name),
            node_count,
            edge_count,
            intent_count,
            receipt_hash,
            artifact_dir: owned(artifact_dir),
            captured_at_ms,
        },
    )
}

} // verus!
