//! Deterministic in-memory index for prior run facts.
use vstd::prelude::*;
use crate::kernel::{mix, nonzero, nz, spec_mix};

verus! {

#[derive(Clone, Copy, Debug, PartialEq, Eq, Structural)]
pub struct MemoryFact {
    pub key: u64,
    pub value_hash: u64,
    pub weight: u8,
    pub source_seq: u64,
}

impl MemoryFact {
    pub fn new(key: u64, value_hash: u64, weight: u8, source_seq: u64) -> (r: Self)
        ensures
            r == (MemoryFact { key, value_hash, weight, source_seq }),
    {
        MemoryFact { key, value_hash, weight, source_seq }
    }

    pub open spec fn spec_is_valid(self) -> bool {
        self.key != 0 && self.value_hash != 0 && self.weight != 0 && self.source_seq != 0
    }

    pub fn is_valid(self) -> (r: bool)
        ensures
            r == self.spec_is_valid(),
    {
        self.key != 0 && self.value_hash != 0 && self.weight != 0 && self.source_seq != 0
    }
}

/// Index order: key ascending, then weight descending, then source
/// sequence ascending, then value hash ascending.
pub open spec fn index_before(a: MemoryFact, b: MemoryFact) -> bool {
    ||| a.key < b.key
    ||| (a.key == b.key && a.weight > b.weight)
    ||| (a.key == b.key && a.weight == b.weight && a.source_seq < b.source_seq)
    ||| (a.key == b.key && a.weight == b.weight && a.source_seq == b.source_seq && a.value_hash
        < b.value_hash)
}

fn before(a: MemoryFact, b: MemoryFact) -> (r: bool)
    ensures
        r == index_before(a, b),
{
    a.key < b.key || (a.key == b.key && a.weight > b.weight) || (a.key == b.key && a.weight
        == b.weight && a.source_seq < b.source_seq) || (a.key == b.key && a.weight == b.weight
        && a.source_seq == b.source_seq && a.value_hash < b.value_hash)
}

/// Strictly increasing in index order.
pub open spec fn strictly_sorted(s: Seq<MemoryFact>) -> bool {
    forall|i: int, j: int| 0 <= i < j < s.len() ==> index_before(#[trigger] s[i], #[trigger] s[j])
}

/// No two facts share both key and source sequence.
pub open spec fn unique_slots(s: Seq<MemoryFact>) -> bool {
    forall|i: int, j: int|
        0 <= i < s.len() && 0 <= j < s.len() && i != j ==> !(#[trigger] s[i].key == #[trigger] s[j].key
            && s[i].source_seq == s[j].source_seq)
}

pub open spec fn all_valid(s: Seq<MemoryFact>) -> bool {
    forall|i: int| 0 <= i < s.len() ==> #[trigger] s[i].spec_is_valid()
}

pub open spec fn fold_facts(h: u64, facts: Seq<MemoryFact>) -> u64
    decreases facts.len(),
{
    if facts.len() == 0 {
        h
    } else {
        let f = facts.last();
        let h0 = fold_facts(h, facts.drop_last());
        spec_mix(spec_mix(spec_mix(spec_mix(h0, f.key), f.value_hash), f.weight as u64), f.source_seq)
    }
}

pub open spec fn spec_aggregate_memory_hash(query_hash: u64, matches: Seq<MemoryFact>) -> u64 {
    nz(fold_facts(0x510e527fade682d1u64 ^ query_hash, matches))
}

pub open spec fn spec_aggregate_index_hash(facts: Seq<MemoryFact>) -> u64 {
    nz(fold_facts(0x4d45_4d49_4e44_4558u64, facts))
}

fn fold_memory_facts_hash(seed: u64, facts: &[MemoryFact]) -> (r: u64)
    ensures
        r == nz(fold_facts(seed, facts@)),
{
    let mut h = seed;
    let mut i: usize = 0;
    while i < facts.len()
        invariant
            i <= facts@.len(),
            h == fold_facts(seed, facts@.take(i as int)),
        decreases facts@.len() - i,
    {
        assert(facts@.take(i as int + 1).drop_last() =~= facts@.take(i as int));
        let f = facts[i];
        h = mix(h, f.key);
        h = mix(h, f.value_hash);
        h = mix(h, f.weight as u64);
        h = mix(h, f.source_seq);
        i = i + 1;
    }
    assert(facts@.take(i as int) =~= facts@);
    nonzero(h)
}

pub fn aggregate_memory_hash(query_hash: u64, matches: &[MemoryFact]) -> (r: u64)
    ensures
        r == spec_aggregate_memory_hash(query_hash, matches@),
{
    fold_memory_facts_hash(0x510e527fade682d1u64 ^ query_hash, matches)
}

pub fn aggregate_index_hash(facts: &[MemoryFact]) -> (r: u64)
    ensures
        r == spec_aggregate_index_hash(facts@),
{
    fold_memory_facts_hash(0x4d45_4d49_4e44_4558u64, facts)
}

pub open spec fn count_u8(n: nat) -> u8 {
    if n > 255 {
        255u8
    } else {
        n as u8
    }
}

pub open spec fn count_u16(n: nat) -> u16 {
    if n > 65535 {
        65535u16
    } else {
        n as u16
    }
}

#[derive(Clone, Debug, PartialEq, Eq)]
pub struct MemoryLookupRecord {
    pub query_hash: u64,
    pub matches: Vec<MemoryFact>,
    pub aggregate_hash: u64,
}

impl MemoryLookupRecord {
    pub open spec fn spec_is_valid(&self) -> bool {
        &&& self.query_hash != 0
        &&& self.aggregate_hash == spec_aggregate_memory_hash(self.query_hash, self.matches@)
        &&& all_valid(self.matches@)
    }

    pub fn is_valid(&self) -> (r: bool)
        ensures
            r == self.spec_is_valid(),
    {
        if self.query_hash == 0 {
            return false;
        }
        if self.aggregate_hash != aggregate_memory_hash(self.query_hash, self.matches.as_slice()) {
            return false;
        }
        let mut i: usize = 0;
        while i < self.matches.len()
            invariant
                i <= self.matches@.len(),
                forall|k: int| 0 <= k < i ==> #[trigger] self.matches@[k].spec_is_valid(),
            decreases self.matches@.len() - i,
        {
            if !self.matches[i].is_valid() {
                return false;
            }
            i = i + 1;
        }
        true
    }

    pub open spec fn spec_match_count(&self) -> u8 {
        count_u8(self.matches@.len())
    }

    pub fn match_count(&self) -> (r: u8)
        ensures
            r == self.spec_match_count(),
    {
        if self.matches.len() > 255 {
            255
        } else {
            self.matches.len() as u8
        }
    }
}

#[derive(Clone, Copy, Debug, PartialEq, Eq, Structural)]
pub struct MemoryLookupReceipt {
    pub query_hash: u64,
    pub requested_limit: u16,
    pub returned_count: u16,
    pub index_fingerprint: u64,
    pub aggregate_hash: u64,
    pub receipt_hash: u64,
}

impl MemoryLookupReceipt {
    pub open spec fn spec_expected_receipt_hash(&self) -> u64 {
        let h = spec_mix(0x4d45_4d4f_5259_5255u64, self.query_hash);
        let h = spec_mix(h, self.requested_limit as u64);
        let h = spec_mix(h, self.returned_count as u64);
        let h = spec_mix(h, self.index_fingerprint);
        let h = spec_mix(h, self.aggregate_hash);
        nz(h)
    }

    pub fn expected_receipt_hash(&self) -> (r: u64)
        ensures
            r == self.spec_expected_receipt_hash(),
    {
        let mut h = mix(0x4d45_4d4f_5259_5255u64, self.query_hash);
        h = mix(h, self.requested_limit as u64);
        h = mix(h, self.returned_count as u64);
        h = mix(h, self.index_fingerprint);
        h = mix(h, self.aggregate_hash);
        nonzero(h)
    }

    pub open spec fn spec_from_lookup(
        query_hash: u64,
        requested_limit: nat,
        index_fingerprint: u64,
        lookup: &MemoryLookupRecord,
    ) -> MemoryLookupReceipt {
        let base = MemoryLookupReceipt {
            query_hash,
            requested_limit: count_u16(requested_limit),
            returned_count: count_u16(lookup.matches@.len()),
            index_fingerprint,
            aggregate_hash: lookup.aggregate_hash,
            receipt_hash: 0,
        };
        MemoryLookupReceipt { receipt_hash: base.spec_expected_receipt_hash(), ..base }
    }

    pub fn from_lookup(
        query_hash: u64,
        requested_limit: usize,
        index_fingerprint: u64,
        lookup: &MemoryLookupRecord,
    ) -> (r: Self)
        ensures
            r == Self::spec_from_lookup(
                query_hash,
                requested_limit as nat,
                index_fingerprint,
                lookup,
            ),
    {
        let requested_limit: u16 = if requested_limit > 65535 {
            65535
        } else {
            requested_limit as u16
        };
        let returned_count: u16 = if lookup.matches.len() > 65535 {
            65535
        } else {
            lookup.matches.len() as u16
        };
        let mut receipt = MemoryLookupReceipt {
            query_hash,
            requested_limit,
            returned_count,
            index_fingerprint,
            aggregate_hash: lookup.aggregate_hash,
            receipt_hash: 0,
        };
        receipt.receipt_hash = receipt.expected_receipt_hash();
        receipt
    }

    pub open spec fn spec_is_valid_for(&self, lookup: &MemoryLookupRecord) -> bool {
        &&& self.query_hash != 0
        &&& self.index_fingerprint != 0
        &&& lookup.spec_is_valid()
        &&& self.query_hash == lookup.query_hash
        &&& self.returned_count == count_u16(lookup.matches@.len())
        &&& self.aggregate_hash == lookup.aggregate_hash
        &&& self.receipt_hash == self.spec_expected_receipt_hash()
    }

    pub fn is_valid_for(&self, lookup: &MemoryLookupRecord) -> (r: bool)
        ensures
            r == self.spec_is_valid_for(lookup),
    {
        let returned: u16 = if lookup.matches.len() > 65535 {
            65535
        } else {
            lookup.matches.len() as u16
        };
        self.query_hash != 0 && self.index_fingerprint != 0 && lookup.is_valid()
            && self.query_hash == lookup.query_hash && self.returned_count == returned
            && self.aggregate_hash == lookup.aggregate_hash && self.receipt_hash
            == self.expected_receipt_hash()
    }
}

/// The facts of `s` whose key is `q`, in order.
pub open spec fn facts_with_key(s: Seq<MemoryFact>, q: u64) -> Seq<MemoryFact>
    decreases s.len(),
{
    if s.len() == 0 {
        Seq::<MemoryFact>::empty()
    } else if s.last().key == q {
        facts_with_key(s.drop_last(), q).push(s.last())
    } else {
        facts_with_key(s.drop_last(), q)
    }
}

pub open spec fn take_at_most<A>(s: Seq<A>, limit: nat) -> Seq<A> {
    if limit < s.len() {
        s.take(limit as int)
    } else {
        s
    }
}

/// The index: strictly sorted, valid facts, at most one per (key, source
/// sequence).
#[derive(Debug, PartialEq, Eq)]
pub struct MemoryIndex {
    facts: Vec<MemoryFact>,
}

impl View for MemoryIndex {
    type V = Seq<MemoryFact>;

    closed spec fn view(&self) -> Seq<MemoryFact> {
        self.facts@
    }
}

pub open spec fn same_slot(a: MemoryFact, b: MemoryFact) -> bool {
    a.key == b.key && a.source_seq == b.source_seq
}

/// `s` without the fact that holds the slot of `f`.
pub open spec fn remove_slot(s: Seq<MemoryFact>, f: MemoryFact) -> Seq<MemoryFact>
    decreases s.len(),
{
    if s.len() == 0 {
        Seq::<MemoryFact>::empty()
    } else if same_slot(s.last(), f) {
        remove_slot(s.drop_last(), f)
    } else {
        remove_slot(s.drop_last(), f).push(s.last())
    }
}

/// Number of leading facts of `s` that come before `f`.
pub open spec fn insert_pos(s: Seq<MemoryFact>, f: MemoryFact) -> int
    decreases s.len(),
{
    if s.len() == 0 {
        0
    } else if index_before(s[0], f) {
        1 + insert_pos(s.drop_first(), f)
    } else {
        0
    }
}

/// `f` placed at its position in a sorted sequence.
pub open spec fn sorted_insert(s: Seq<MemoryFact>, f: MemoryFact) -> Seq<MemoryFact> {
    let p = insert_pos(s, f);
    s.take(p) + seq![f] + s.skip(p)
}

/// The facts of an index after inserting a valid fact: the fact holding the
/// same key and source sequence, if any, is replaced, and order is kept.
pub open spec fn spec_insert(s: Seq<MemoryFact>, f: MemoryFact) -> Seq<MemoryFact> {
    sorted_insert(remove_slot(s, f), f)
}

pub open spec fn index_wf(s: Seq<MemoryFact>) -> bool {
    strictly_sorted(s) && unique_slots(s) && all_valid(s)
}

impl MemoryIndex {
    #[verifier::type_invariant]
    spec fn inv(self) -> bool {
        index_wf(self.facts@)
    }

    pub fn new() -> (r: Self)
        ensures
            r@ == Seq::<MemoryFact>::empty(),
    {
        MemoryIndex { facts: Vec::new() }
    }

    pub fn facts(&self) -> (r: &[MemoryFact])
        ensures
            r@ == self@,
            index_wf(r@),
    {
        proof {
            use_type_invariant(self);
        }
        self.facts.as_slice()
    }

    pub fn fingerprint(&self) -> (r: u64)
        ensures
            r == spec_aggregate_index_hash(self@),
    {
        aggregate_index_hash(self.facts.as_slice())
    }
}

proof fn lemma_insert_pos_bounds(s: Seq<MemoryFact>, f: MemoryFact)
    ensures
        0 <= insert_pos(s, f) <= s.len(),
        forall|k: int| 0 <= k < insert_pos(s, f) ==> index_before(#[trigger] s[k], f),
        insert_pos(s, f) < s.len() ==> !index_before(s[insert_pos(s, f)], f),
    decreases s.len(),
{
    if s.len() > 0 && index_before(s[0], f) {
        lemma_insert_pos_bounds(s.drop_first(), f);
        assert forall|k: int| 0 <= k < insert_pos(s, f) implies index_before(#[trigger] s[k], f) by {
            if k > 0 {
                assert(s[k] == s.drop_first()[k - 1]);
            }
        }
    }
}

proof fn lemma_index_before_total(a: MemoryFact, b: MemoryFact)
    ensures
        a != b ==> (index_before(a, b) || index_before(b, a)),
        !(index_before(a, b) && index_before(b, a)),
        !index_before(a, a),
{
}

proof fn lemma_index_before_trans(a: MemoryFact, b: MemoryFact, c: MemoryFact)
    requires
        index_before(a, b),
        index_before(b, c),
    ensures
        index_before(a, c),
{
}

proof fn lemma_sorted_insert_wf(s: Seq<MemoryFact>, f: MemoryFact)
    requires
        index_wf(s),
        f.spec_is_valid(),
        forall|k: int| 0 <= k < s.len() ==> !same_slot(#[trigger] s[k], f),
    ensures
        index_wf(sorted_insert(s, f)),
{
    lemma_insert_pos_bounds(s, f);
    let p = insert_pos(s, f);
    let r = sorted_insert(s, f);
    assert(r.len() == s.len() + 1);
    assert forall|k: int| 0 <= k < r.len() implies #[trigger] r[k] == (if k < p {
        s[k]
    } else if k == p {
        f
    } else {
        s[k - 1]
    }) by {}
    if p < s.len() {
        lemma_index_before_total(s[p], f);
        assert(index_before(f, s[p]));
    }
    assert forall|i: int, j: int| 0 <= i < j < r.len() implies index_before(#[trigger] r[i], #[trigger] r[j]) by {
        if j < p {
        } else if i < p && j == p {
        } else if i < p && j > p {
            assert(index_before(s[i], f));
            if j - 1 > p {
                lemma_index_before_trans(f, s[p], s[j - 1]);
            }
            lemma_index_before_trans(s[i], f, s[j - 1]);
        } else if i == p {
            if j - 1 > p {
                lemma_index_before_trans(f, s[p], s[j - 1]);
            }
        } else {
        }
    }
    assert forall|i: int, j: int| 0 <= i < r.len() && 0 <= j < r.len() && i != j implies !(#[trigger] r[i].key == #[trigger] r[j].key
        && r[i].source_seq == r[j].source_seq) by {
        if i != p && j != p {
            let si = if i < p { i } else { i - 1 };
            let sj = if j < p { j } else { j - 1 };
            assert(s[si] == r[i]);
            assert(s[sj] == r[j]);
        } else if i == p {
            let sj = if j < p { j } else { j - 1 };
            assert(!same_slot(s[sj], f));
        } else {
            let si = if i < p { i } else { i - 1 };
            assert(!same_slot(s[si], f));
        }
    }
    assert forall|k: int| 0 <= k < r.len() implies #[trigger] r[k].spec_is_valid() by {
        if k < p {
        } else if k > p {
            assert(r[k] == s[k - 1]);
        }
    }
}

impl MemoryIndex {
    /// Copies the facts without the one holding the slot of `f`.
    fn without_slot(&self, f: MemoryFact) -> (out: Vec<MemoryFact>)
        ensures
            out@ == remove_slot(self@, f),
            index_wf(out@),
            forall|k: int| 0 <= k < out@.len() ==> !same_slot(#[trigger] out@[k], f),
    {
        proof {
            use_type_invariant(self);
        }
        let ghost s = self.facts@;
        let mut out: Vec<MemoryFact> = Vec::new();
        let mut i: usize = 0;
        while i < self.facts.len()
            invariant
                s == self.facts@,
                index_wf(s),
                i <= s.len(),
                out@ == remove_slot(s.take(i as int), f),
                index_wf(out@),
                forall|k: int| 0 <= k < out@.len() ==> !same_slot(#[trigger] out@[k], f),
                forall|m: int, j: int|
                    0 <= m < out@.len() && i <= j < s.len() ==> index_before(
                        #[trigger] out@[m],
                        #[trigger] s[j],
                    ),
                forall|m: int, j: int|
                    0 <= m < out@.len() && i <= j < s.len() ==> !same_slot(
                        #[trigger] out@[m],
                        #[trigger] s[j],
                    ),
            decreases s.len() - i,
        {
            let x = self.facts[i];
            assert(s.take(i as int + 1).drop_last() =~= s.take(i as int));
            assert(s.take(i as int + 1).last() == x);
            if !(x.key == f.key && x.source_seq == f.source_seq) {
                let ghost prev = out@;
                out.push(x);
                assert forall|m: int, j: int|
                    0 <= m < out@.len() && i + 1 <= j < s.len() implies index_before(
                        #[trigger] out@[m],
                        #[trigger] s[j],
                    ) by {
                    if m < prev.len() {
                        lemma_index_before_trans(out@[m], s[i as int], s[j]);
                    } else {
                        assert(index_before(s[i as int], s[j]));
                    }
                }
                assert forall|m: int, j: int|
                    0 <= m < out@.len() && i + 1 <= j < s.len() implies !same_slot(
                        #[trigger] out@[m],
                        #[trigger] s[j],
                    ) by {
                    if m == prev.len() {
                        assert(!(s[i as int].key == s[j].key && s[i as int].source_seq == s[j].source_seq));
                    }
                }
                assert forall|a: int, b: int| 0 <= a < b < out@.len() implies index_before(#[trigger] out@[a], #[trigger] out@[b]) by {
                    if b == prev.len() {
                        assert(index_before(prev[a], s[i as int]));
                    }
                }
                assert forall|a: int, b: int|
                    0 <= a < out@.len() && 0 <= b < out@.len() && a != b implies !(#[trigger] out@[a].key == #[trigger] out@[b].key
                        && out@[a].source_seq == out@[b].source_seq) by {
                    if a == prev.len() {
                        assert(!same_slot(prev[b], s[i as int]));
                    } else if b == prev.len() {
                        assert(!same_slot(prev[a], s[i as int]));
                    }
                }
                assert(all_valid(out@));
            }
            i = i + 1;
        }
        assert(s.take(i as int) =~= s);
        out
    }

    /// Inserts a valid fact, replacing the fact that holds the same key and
    /// source sequence; an invalid fact is refused and nothing changes.
    pub fn insert(&mut self, fact: MemoryFact) -> (r: bool)
        ensures
            r == fact.spec_is_valid(),
            r ==> final(self)@ == spec_insert(old(self)@, fact),
            !r ==> final(self)@ == old(self)@,
    {
        if !fact.is_valid() {
            return false;
        }
        let rest = self.without_slot(fact);
        let ghost rs = rest@;
        let mut out: Vec<MemoryFact> = Vec::new();
        let mut i: usize = 0;
        assert(rs.skip(0) =~= rs);
        while i < rest.len() && before(rest[i], fact)
            invariant
                rs == rest@,
                i <= rs.len(),
                out@ == rs.take(i as int),
                insert_pos(rs, fact) == i + insert_pos(rs.skip(i as int), fact),
            decreases rs.len() - i,
        {
            assert(rs.skip(i as int).drop_first() =~= rs.skip(i as int + 1));
            assert(rs.skip(i as int)[0] == rs[i as int]);
            out.push(rest[i]);
            assert(out@ =~= rs.take(i as int + 1));
            i = i + 1;
        }
        proof {
            if i < rs.len() {
                assert(rs.skip(i as int)[0] == rs[i as int]);
            }
        }
        assert(insert_pos(rs, fact) == i);
        out.push(fact);
        let mut j = i;
        while j < rest.len()
            invariant
                rs == rest@,
                i <= j <= rs.len(),
                out@ == rs.take(i as int) + seq![fact] + rs.subrange(i as int, j as int),
            decreases rs.len() - j,
        {
            out.push(rest[j]);
            assert(out@ =~= rs.take(i as int) + seq![fact] + rs.subrange(i as int, j as int + 1));
            j = j + 1;
        }
        assert(out@ =~= sorted_insert(rs, fact));
        proof {
            lemma_sorted_insert_wf(rs, fact);
        }
        assert(index_wf(out@));
        self.facts = out;
        true
    }

    /// The first `limit` facts with key `query_hash`, in index order
    /// (weight descending, then source sequence, then value hash).
    pub fn lookup(&self, query_hash: u64, limit: usize) -> (r: MemoryLookupRecord)
        ensures
            r.query_hash == query_hash,
            r.matches@ == take_at_most(facts_with_key(self@, query_hash), limit as nat),
            r.aggregate_hash == spec_aggregate_memory_hash(query_hash, r.matches@),
            forall|i: int, j: int|
                0 <= i < j < r.matches@.len() ==> (#[trigger] r.matches@[i]).weight > (#[trigger] r.matches@[j]).weight || (
                r.matches@[i].weight == r.matches@[j].weight && r.matches@[i].source_seq < r.matches@[j].source_seq),
            r.matches@.len() > 0 ==> forall|x: MemoryFact|
                self@.contains(x) && x.key == query_hash ==> r.matches@[0].weight >= #[trigger] x.weight,
    {
        proof {
            use_type_invariant(self);
            lemma_lookup_by_weight(self@, query_hash, limit as nat);
        }
        let mut matches: Vec<MemoryFact> = Vec::new();
        let mut i: usize = 0;
        while i < self.facts.len()
            invariant
                i <= self.facts@.len(),
                matches@ == facts_with_key(self.facts@.take(i as int), query_hash),
            decreases self.facts@.len() - i,
        {
            assert(self.facts@.take(i as int + 1).drop_last() =~= self.facts@.take(i as int));
            if self.facts[i].key == query_hash {
                matches.push(self.facts[i]);
            }
            i = i + 1;
        }
        assert(self.facts@.take(i as int) =~= self.facts@);
        if limit < matches.len() {
            matches.truncate(limit);
        }
        let aggregate_hash = aggregate_memory_hash(query_hash, matches.as_slice());
        MemoryLookupRecord { query_hash, aggregate_hash, matches }
    }

    pub fn lookup_with_receipt(&self, query_hash: u64, limit: usize) -> (r: (
        MemoryLookupRecord,
        MemoryLookupReceipt,
    ))
        ensures
            r.0.query_hash == query_hash,
            r.0.matches@ == take_at_most(facts_with_key(self@, query_hash), limit as nat),
            r.0.aggregate_hash == spec_aggregate_memory_hash(query_hash, r.0.matches@),
            r.1 == MemoryLookupReceipt::spec_from_lookup(
                query_hash,
                limit as nat,
                spec_aggregate_index_hash(self@),
                &r.0,
            ),
    {
        let lookup = self.lookup(query_hash, limit);
        let receipt = MemoryLookupReceipt::from_lookup(
            query_hash,
            limit,
            self.fingerprint(),
            &lookup,
        );
        (lookup, receipt)
    }
}

impl Clone for MemoryIndex {
    fn clone(&self) -> (r: Self)
        ensures
            r@ == self@,
    {
        proof {
            use_type_invariant(self);
        }
        let mut facts: Vec<MemoryFact> = Vec::new();
        let mut i: usize = 0;
        while i < self.facts.len()
            invariant
                i <= self.facts@.len(),
                facts@ == self.facts@.take(i as int),
            decreases self.facts@.len() - i,
        {
            facts.push(self.facts[i]);
            assert(facts@ =~= self.facts@.take(i as int + 1));
            i = i + 1;
        }
        assert(facts@ =~= self.facts@);
        MemoryIndex { facts }
    }
}

impl Default for MemoryIndex {
    fn default() -> (r: Self)
        ensures
            r@ == Seq::<MemoryFact>::empty(),
    {
        MemoryIndex::new()
    }
}

proof fn lemma_remove_slot(s: Seq<MemoryFact>, f: MemoryFact)
    requires
        index_wf(s),
    ensures
        index_wf(remove_slot(s, f)),
        forall|x: MemoryFact| #[trigger]
            remove_slot(s, f).contains(x) <==> (s.contains(x) && !same_slot(x, f)),
    decreases s.len(),
{
    if s.len() > 0 {
        let prev = s.drop_last();
        assert(index_wf(prev)) by {
            assert forall|i: int, j: int| 0 <= i < j < prev.len() implies index_before(
                #[trigger] prev[i],
                #[trigger] prev[j],
            ) by {
                assert(prev[i] == s[i] && prev[j] == s[j]);
            }
            assert forall|i: int, j: int|
                0 <= i < prev.len() && 0 <= j < prev.len() && i != j implies !(
                #[trigger] prev[i].key == #[trigger] prev[j].key && prev[i].source_seq
                    == prev[j].source_seq) by {
                assert(prev[i] == s[i] && prev[j] == s[j]);
            }
            assert forall|i: int| 0 <= i < prev.len() implies #[trigger] prev[i].spec_is_valid() by {
                assert(prev[i] == s[i]);
            }
        }
        lemma_remove_slot(prev, f);
        let rest = remove_slot(prev, f);
        let r = remove_slot(s, f);
        let last = s.last();
        assert forall|x: MemoryFact| #[trigger] prev.contains(x) implies index_before(x, last)
            && !same_slot(x, last) by {
            let m = choose|m: int| 0 <= m < prev.len() && prev[m] == x;
            assert(s[m] == x);
            assert(index_before(s[m], s[s.len() - 1]));
        }
        if !same_slot(last, f) {
            assert(r == rest.push(last));
            assert forall|i: int, j: int| 0 <= i < j < r.len() implies index_before(
                #[trigger] r[i],
                #[trigger] r[j],
            ) by {
                if j == r.len() - 1 {
                    assert(r[i] == rest[i]);
                    assert(rest.contains(rest[i]));
                } else {
                    assert(r[i] == rest[i] && r[j] == rest[j]);
                }
            }
            assert forall|i: int, j: int|
                0 <= i < r.len() && 0 <= j < r.len() && i != j implies !(#[trigger] r[i].key
                == #[trigger] r[j].key && r[i].source_seq == r[j].source_seq) by {
                if i == r.len() - 1 {
                    assert(r[j] == rest[j]);
                    assert(rest.contains(rest[j]));
                } else if j == r.len() - 1 {
                    assert(r[i] == rest[i]);
                    assert(rest.contains(rest[i]));
                } else {
                    assert(r[i] == rest[i] && r[j] == rest[j]);
                }
            }
            assert forall|i: int| 0 <= i < r.len() implies #[trigger] r[i].spec_is_valid() by {
                if i < rest.len() {
                    assert(r[i] == rest[i]);
                } else {
                    assert(s[s.len() - 1].spec_is_valid());
                }
            }
        }
        assert forall|x: MemoryFact| #[trigger] r.contains(x) <==> (s.contains(x) && !same_slot(x, f)) by {
            if r.contains(x) {
                let k = choose|k: int| 0 <= k < r.len() && r[k] == x;
                if !same_slot(last, f) && k == r.len() - 1 {
                    assert(s[s.len() - 1] == x);
                } else {
                    assert(rest[k] == x);
                    assert(rest.contains(x));
                    let m = choose|m: int| 0 <= m < prev.len() && prev[m] == x;
                    assert(s[m] == x);
                }
            }
            if s.contains(x) && !same_slot(x, f) {
                let k = choose|k: int| 0 <= k < s.len() && s[k] == x;
                if k == s.len() - 1 {
                    assert(r[r.len() - 1] == x);
                } else {
                    assert(prev[k] == x);
                    assert(prev.contains(x));
                    assert(rest.contains(x));
                    let m = choose|m: int| 0 <= m < rest.len() && rest[m] == x;
                    assert(r[m] == x);
                }
            }
        }
    }
}

proof fn lemma_sorted_insert_members(s: Seq<MemoryFact>, f: MemoryFact)
    ensures
        forall|x: MemoryFact| #[trigger] sorted_insert(s, f).contains(x) <==> (s.contains(x) || x == f),
{
    lemma_insert_pos_bounds(s, f);
    let p = insert_pos(s, f);
    let r = sorted_insert(s, f);
    assert forall|x: MemoryFact| #[trigger] r.contains(x) <==> (s.contains(x) || x == f) by {
        if r.contains(x) {
            let k = choose|k: int| 0 <= k < r.len() && r[k] == x;
            if k < p {
                assert(s[k] == x);
            } else if k > p {
                assert(s[k - 1] == x);
            }
        }
        if s.contains(x) {
            let k = choose|k: int| 0 <= k < s.len() && s[k] == x;
            if k < p {
                assert(r[k] == x);
            } else {
                assert(r[k + 1] == x);
            }
        }
        if x == f {
            assert(r[p] == f);
        }
    }
}

proof fn lemma_spec_insert(s: Seq<MemoryFact>, f: MemoryFact)
    requires
        index_wf(s),
        f.spec_is_valid(),
    ensures
        index_wf(spec_insert(s, f)),
        forall|x: MemoryFact| #[trigger]
            spec_insert(s, f).contains(x) <==> ((s.contains(x) && !same_slot(x, f)) || x == f),
{
    lemma_remove_slot(s, f);
    let rest = remove_slot(s, f);
    assert forall|k: int| 0 <= k < rest.len() implies !same_slot(#[trigger] rest[k], f) by {
        assert(rest.contains(rest[k]));
    }
    lemma_sorted_insert_wf(rest, f);
    lemma_sorted_insert_members(rest, f);
}

proof fn lemma_sorted_equal(a: Seq<MemoryFact>, b: Seq<MemoryFact>)
    requires
        strictly_sorted(a),
        strictly_sorted(b),
        forall|x: MemoryFact|
            #![trigger a.contains(x)]
            #![trigger b.contains(x)]
            a.contains(x) <==> b.contains(x),
    ensures
        a == b,
    decreases a.len(),
{
    if a.len() == 0 {
        if b.len() > 0 {
            assert(b.contains(b[0]));
            assert(false);
        }
        assert(a =~= b);
    } else {
        assert(a.contains(a[0]));
        assert(b.len() > 0);
        assert(b.contains(b[0]));
        let ka = choose|k: int| 0 <= k < b.len() && b[k] == a[0];
        let kb = choose|k: int| 0 <= k < a.len() && a[k] == b[0];
        if kb > 0 {
            assert(index_before(a[0], a[kb]));
            if ka > 0 {
                assert(index_before(b[0], b[ka]));
                lemma_index_before_total(a[0], b[0]);
            }
        }
        assert(a[0] == b[0]);
        let a1 = a.drop_first();
        let b1 = b.drop_first();
        assert(strictly_sorted(a1)) by {
            assert forall|i: int, j: int| 0 <= i < j < a1.len() implies index_before(
                #[trigger] a1[i],
                #[trigger] a1[j],
            ) by {
                assert(a1[i] == a[i + 1] && a1[j] == a[j + 1]);
            }
        }
        assert(strictly_sorted(b1)) by {
            assert forall|i: int, j: int| 0 <= i < j < b1.len() implies index_before(
                #[trigger] b1[i],
                #[trigger] b1[j],
            ) by {
                assert(b1[i] == b[i + 1] && b1[j] == b[j + 1]);
            }
        }
        assert forall|x: MemoryFact|
            #![trigger a1.contains(x)]
            #![trigger b1.contains(x)]
            a1.contains(x) <==> b1.contains(x) by {
            if a1.contains(x) {
                let k = choose|k: int| 0 <= k < a1.len() && a1[k] == x;
                assert(a[k + 1] == x);
                assert(index_before(a[0], a[k + 1]));
                lemma_index_before_total(a[0], x);
                assert(a.contains(x));
                assert(b.contains(x));
                let m = choose|m: int| 0 <= m < b.len() && b[m] == x;
                assert(m != 0);
                assert(b1[m - 1] == x);
            }
            if b1.contains(x) {
                let k = choose|k: int| 0 <= k < b1.len() && b1[k] == x;
                assert(b[k + 1] == x);
                assert(index_before(b[0], b[k + 1]));
                lemma_index_before_total(b[0], x);
                assert(b.contains(x));
                assert(a.contains(x));
                let m = choose|m: int| 0 <= m < a.len() && a[m] == x;
                assert(m != 0);
                assert(a1[m - 1] == x);
            }
        }
        lemma_sorted_equal(a1, b1);
        assert(a =~= seq![a[0]] + a1);
        assert(b =~= seq![b[0]] + b1);
    }
}

/// Inserting two valid facts of different slots gives the same index in
/// either order: the index depends on its facts, not on their arrival.
pub proof fn lemma_insert_order_independent(s: Seq<MemoryFact>, f: MemoryFact, g: MemoryFact)
    requires
        index_wf(s),
        f.spec_is_valid(),
        g.spec_is_valid(),
        !same_slot(f, g),
    ensures
        spec_insert(spec_insert(s, f), g) == spec_insert(spec_insert(s, g), f),
{
    lemma_spec_insert(s, f);
    lemma_spec_insert(s, g);
    lemma_spec_insert(spec_insert(s, f), g);
    lemma_spec_insert(spec_insert(s, g), f);
    let a = spec_insert(spec_insert(s, f), g);
    let b = spec_insert(spec_insert(s, g), f);
    assert forall|x: MemoryFact|
        #![trigger a.contains(x)]
        #![trigger b.contains(x)]
        a.contains(x) <==> b.contains(x) by {
        assert(a.contains(x) <==> ((spec_insert(s, f).contains(x) && !same_slot(x, g)) || x == g));
        assert(b.contains(x) <==> ((spec_insert(s, g).contains(x) && !same_slot(x, f)) || x == f));
    }
    lemma_sorted_equal(a, b);
}

/// The index after inserting `facts` into `s`, in order.
pub open spec fn insert_all(s: Seq<MemoryFact>, facts: Seq<MemoryFact>) -> Seq<MemoryFact>
    decreases facts.len(),
{
    if facts.len() == 0 {
        s
    } else {
        spec_insert(insert_all(s, facts.drop_last()), facts.last())
    }
}

/// No two of `facts` hold the same key and source sequence.
pub open spec fn distinct_slots(facts: Seq<MemoryFact>) -> bool {
    forall|i: int, j: int|
        0 <= i < facts.len() && 0 <= j < facts.len() && i != j ==> !same_slot(
            #[trigger] facts[i],
            #[trigger] facts[j],
        )
}

/// No fact of `facts` holds the slot of `x`.
pub open spec fn slot_free(x: MemoryFact, facts: Seq<MemoryFact>) -> bool {
    forall|y: MemoryFact| #[trigger] facts.contains(y) ==> !same_slot(x, y)
}

proof fn lemma_insert_all(s: Seq<MemoryFact>, facts: Seq<MemoryFact>)
    requires
        index_wf(s),
        all_valid(facts),
        distinct_slots(facts),
    ensures
        index_wf(insert_all(s, facts)),
        forall|x: MemoryFact| #[trigger]
            insert_all(s, facts).contains(x) <==> ((s.contains(x) && slot_free(x, facts))
                || facts.contains(x)),
    decreases facts.len(),
{
    if facts.len() > 0 {
        let prev = facts.drop_last();
        let last = facts.last();
        assert(all_valid(prev)) by {
            assert forall|i: int| 0 <= i < prev.len() implies #[trigger] prev[i].spec_is_valid() by {
                assert(prev[i] == facts[i]);
            }
        }
        assert(distinct_slots(prev)) by {
            assert forall|i: int, j: int|
                0 <= i < prev.len() && 0 <= j < prev.len() && i != j implies !same_slot(
                #[trigger] prev[i],
                #[trigger] prev[j],
            ) by {
                assert(prev[i] == facts[i] && prev[j] == facts[j]);
            }
        }
        lemma_insert_all(s, prev);
        let a = insert_all(s, prev);
        assert(facts[facts.len() - 1].spec_is_valid());
        lemma_spec_insert(a, last);
        assert forall|x: MemoryFact| #[trigger]
            insert_all(s, facts).contains(x) <==> ((s.contains(x) && slot_free(x, facts))
                || facts.contains(x)) by {
            assert(insert_all(s, facts) == spec_insert(a, last));
            // facts holds x exactly when prev does or x is the last fact.
            if facts.contains(x) {
                let k = choose|k: int| 0 <= k < facts.len() && facts[k] == x;
                if k < facts.len() - 1 {
                    assert(prev[k] == x);
                    assert(prev.contains(x));
                    assert(!same_slot(facts[k], facts[facts.len() - 1]));
                }
            }
            if prev.contains(x) {
                let k = choose|k: int| 0 <= k < prev.len() && prev[k] == x;
                assert(facts[k] == x);
                assert(facts.contains(x));
            }
            assert(facts[facts.len() - 1] == last);
            assert(facts.contains(last));
            // slot_free over facts is slot_free over prev and off the last slot.
            if slot_free(x, facts) {
                assert forall|y: MemoryFact| #[trigger] prev.contains(y) implies !same_slot(x, y) by {
                    let k = choose|k: int| 0 <= k < prev.len() && prev[k] == y;
                    assert(facts[k] == y);
                    assert(facts.contains(y));
                }
                assert(!same_slot(x, last));
            }
            if slot_free(x, prev) && !same_slot(x, last) {
                assert forall|y: MemoryFact| #[trigger] facts.contains(y) implies !same_slot(x, y) by {
                    let k = choose|k: int| 0 <= k < facts.len() && facts[k] == y;
                    if k < facts.len() - 1 {
                        assert(prev[k] == y);
                        assert(prev.contains(y));
                    }
                }
            }
        }
    }
}

/// Inserting the same valid facts, no two of one slot, in any order gives
/// the same index: the index depends on its facts, not on their arrival.
pub proof fn lemma_insert_any_order(s: Seq<MemoryFact>, f1: Seq<MemoryFact>, f2: Seq<MemoryFact>)
    requires
        index_wf(s),
        all_valid(f1),
        all_valid(f2),
        distinct_slots(f1),
        distinct_slots(f2),
        forall|x: MemoryFact| #[trigger] f1.contains(x) <==> f2.contains(x),
    ensures
        insert_all(s, f1) == insert_all(s, f2),
{
    lemma_insert_all(s, f1);
    lemma_insert_all(s, f2);
    let a = insert_all(s, f1);
    let b = insert_all(s, f2);
    assert forall|x: MemoryFact|
        #![trigger a.contains(x)]
        #![trigger b.contains(x)]
        a.contains(x) <==> b.contains(x) by {
        assert(slot_free(x, f1) <==> slot_free(x, f2)) by {
            if slot_free(x, f1) {
                assert forall|y: MemoryFact| #[trigger] f2.contains(y) implies !same_slot(x, y) by {
                    assert(f1.contains(y));
                }
            }
            if slot_free(x, f2) {
                assert forall|y: MemoryFact| #[trigger] f1.contains(y) implies !same_slot(x, y) by {
                    assert(f2.contains(y));
                }
            }
        }
        assert(f1.contains(x) <==> f2.contains(x));
    }
    lemma_sorted_equal(a, b);
}

proof fn lemma_facts_with_key_members(s: Seq<MemoryFact>, q: u64)
    ensures
        forall|x: MemoryFact| #[trigger] facts_with_key(s, q).contains(x) <==> (s.contains(x) && x.key == q),
        forall|i: int| 0 <= i < facts_with_key(s, q).len() ==> (#[trigger] facts_with_key(s, q)[i]).key == q,
    decreases s.len(),
{
    if s.len() > 0 {
        let d = s.drop_last();
        lemma_facts_with_key_members(d, q);
        assert forall|x: MemoryFact| s.contains(x) <==> (d.contains(x) || x == s.last()) by {
            if s.contains(x) {
                let k = choose|k: int| 0 <= k < s.len() && s[k] == x;
                if k < s.len() - 1 {
                    assert(d[k] == x);
                }
            }
            if d.contains(x) {
                let k = choose|k: int| 0 <= k < d.len() && d[k] == x;
                assert(s[k] == x);
            }
            if x == s.last() {
                assert(s[s.len() - 1] == x);
            }
        }
        let f = facts_with_key(d, q);
        if s.last().key == q {
            assert forall|x: MemoryFact| f.push(s.last()).contains(x) <==> (f.contains(x) || x == s.last()) by {
                if f.push(s.last()).contains(x) {
                    let k = choose|k: int| 0 <= k < f.len() + 1 && f.push(s.last())[k] == x;
                    if k < f.len() {
                        assert(f[k] == x);
                    }
                }
                if f.contains(x) {
                    let k = choose|k: int| 0 <= k < f.len() && f[k] == x;
                    assert(f.push(s.last())[k] == x);
                }
                if x == s.last() {
                    assert(f.push(s.last())[f.len() as int] == x);
                }
            }
        }
        assert forall|x: MemoryFact| #[trigger] facts_with_key(s, q).contains(x) <==> (s.contains(x)
            && x.key == q) by {
            assert(f.contains(x) <==> (d.contains(x) && x.key == q));
            assert(s.contains(x) <==> (d.contains(x) || x == s.last()));
            if s.last().key == q {
                assert(facts_with_key(s, q) == f.push(s.last()));
                assert(f.push(s.last()).contains(x) <==> (f.contains(x) || x == s.last()));
            } else {
                assert(facts_with_key(s, q) == f);
            }
        }
        assert forall|i: int| 0 <= i < facts_with_key(s, q).len() implies (#[trigger] facts_with_key(
            s,
            q,
        )[i]).key == q by {
            if i < f.len() {
                assert(facts_with_key(s, q)[i] == f[i]);
            }
        }
    }
}

proof fn lemma_facts_with_key_sorted(s: Seq<MemoryFact>, q: u64)
    requires
        strictly_sorted(s),
    ensures
        strictly_sorted(facts_with_key(s, q)),
    decreases s.len(),
{
    if s.len() > 0 {
        let d = s.drop_last();
        assert(strictly_sorted(d)) by {
            assert forall|i: int, j: int| 0 <= i < j < d.len() implies index_before(#[trigger] d[i], #[trigger] d[j]) by {
                assert(d[i] == s[i] && d[j] == s[j]);
            }
        }
        lemma_facts_with_key_sorted(d, q);
        lemma_facts_with_key_members(d, q);
        let f = facts_with_key(d, q);
        if s.last().key == q {
            let g = f.push(s.last());
            assert forall|i: int, j: int| 0 <= i < j < g.len() implies index_before(#[trigger] g[i], #[trigger] g[j]) by {
                if j < f.len() {
                    assert(g[i] == f[i] && g[j] == f[j]);
                } else {
                    assert(g[i] == f[i]);
                    assert(f.contains(f[i]));
                    assert(d.contains(f[i]));
                    let k = choose|k: int| 0 <= k < d.len() && d[k] == f[i];
                    assert(s[k] == f[i]);
                    assert(index_before(s[k], s[s.len() - 1]));
                }
            }
        }
    }
}

/// A lookup returns facts of the key asked for, heaviest first: of two
/// returned facts the earlier has the larger weight, or the same weight and
/// the earlier source. The first returned fact is at least as heavy as
/// every fact of that key in the index, and every returned fact is in the
/// index.
pub proof fn lemma_lookup_by_weight(s: Seq<MemoryFact>, q: u64, limit: nat)
    requires
        index_wf(s),
    ensures
        ({
            let m = take_at_most(facts_with_key(s, q), limit);
            &&& forall|i: int| 0 <= i < m.len() ==> (#[trigger] m[i]).key == q && s.contains(m[i])
            &&& forall|i: int, j: int|
                0 <= i < j < m.len() ==> (#[trigger] m[i]).weight > (#[trigger] m[j]).weight || (
                m[i].weight == m[j].weight && m[i].source_seq < m[j].source_seq)
            &&& m.len() > 0 ==> forall|x: MemoryFact|
                s.contains(x) && x.key == q ==> m[0].weight >= #[trigger] x.weight
        }),
{
    let f = facts_with_key(s, q);
    let m = take_at_most(f, limit);
    lemma_facts_with_key_members(s, q);
    lemma_facts_with_key_sorted(s, q);
    assert forall|i: int| 0 <= i < m.len() implies (#[trigger] m[i]).key == q && s.contains(m[i]) by {
        assert(m[i] == f[i]);
        assert(f.contains(f[i]));
    }
    assert forall|i: int, j: int| 0 <= i < j < m.len() implies (#[trigger] m[i]).weight > (
    #[trigger] m[j]).weight || (m[i].weight == m[j].weight && m[i].source_seq < m[j].source_seq) by {
        assert(m[i] == f[i] && m[j] == f[j]);
        assert(index_before(f[i], f[j]));
        if m[i].weight == m[j].weight && m[i].source_seq == m[j].source_seq {
            assert(f.contains(f[i]) && f.contains(f[j]));
            let a = choose|a: int| 0 <= a < s.len() && s[a] == f[i];
            let b = choose|b: int| 0 <= b < s.len() && s[b] == f[j];
            lemma_index_before_total(f[i], f[j]);
            assert(a != b);
            assert(!(s[a].key == s[b].key && s[a].source_seq == s[b].source_seq));
        }
    }
    if m.len() > 0 {
        assert forall|x: MemoryFact| s.contains(x) && x.key == q implies m[0].weight >= #[trigger] x.weight by {
            assert(f.contains(x));
            let k = choose|k: int| 0 <= k < f.len() && f[k] == x;
            assert(m[0] == f[0]);
            if k > 0 {
                assert(index_before(f[0], f[k]));
            }
        }
    }
}

} // verus!
